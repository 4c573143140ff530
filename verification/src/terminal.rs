//! The terminal multiplexer: named terminals with a bounded replay buffer,
//! the registry that holds at most one of each name, and the decisions of
//! the loop that serves one terminal's commands.

use crate::decimal::{decimal, push_decimal};
use crate::pieces::{join, join_from, str_views, views};
use crate::text::{chars_of, extend, extend_str, owned, same, string_of};
use vstd::prelude::*;

verus! {

/// The replay buffer of a terminal holds at most this many chunks.
pub const BUFFER_LIMIT: usize = 100;

pub const TERMINAL_COLS: u16 = 105;

pub const TERMINAL_ROWS: u16 = 10;

pub const PROGRESS_TERMINAL_ROWS: u16 = 8;

pub const COMBINED_TERMINAL_COLS: u16 = 58;

pub const COMBINED_TERMINAL_ROWS: u16 = 20;

/// Capacity of the channel that carries a terminal's output to its subscribers.
pub const BROADCAST_CAPACITY: usize = 256;

/// Interval, in milliseconds, at which a terminal looks whether its child has ended.
pub const EXIT_POLL_MILLIS: u64 = 100;

/// What `exec` answers when the name is in use.
pub open spec fn already_running() -> Seq<char> {
    "Another operation is already running, please try again later."@
}

// ---------------------------------------------------------------------------
// Names
// ---------------------------------------------------------------------------

/// `compose-<endpoint>-<stack>`
pub open spec fn compose_terminal_name(endpoint: Seq<char>, stack: Seq<char>) -> Seq<char> {
    "compose-"@ + endpoint + "-"@ + stack
}

/// `combined-<endpoint>-<stack>`
pub open spec fn combined_terminal_name(endpoint: Seq<char>, stack: Seq<char>) -> Seq<char> {
    "combined-"@ + endpoint + "-"@ + stack
}

/// `container-exec-<endpoint>-<stack>-<container>-<index>`
pub open spec fn container_exec_terminal_name(
    endpoint: Seq<char>,
    stack: Seq<char>,
    container: Seq<char>,
    index: nat,
) -> Seq<char> {
    "container-exec-"@ + endpoint + "-"@ + stack + "-"@ + container + "-"@ + decimal(index)
}

/// `container-log-<endpoint>-<container>`
pub open spec fn container_log_name(endpoint: Seq<char>, container: Seq<char>) -> Seq<char> {
    "container-log-"@ + endpoint + "-"@ + container
}

/// The name of the terminal that runs a stack's compose operations.
pub fn get_compose_terminal_name(endpoint: &str, stack: &str) -> (r: String)
    ensures
        r@ == compose_terminal_name(endpoint@, stack@),
{
    let mut v = chars_of("compose-");
    extend_str(&mut v, endpoint);
    extend_str(&mut v, "-");
    extend_str(&mut v, stack);
    string_of(&v)
}

/// The name of the terminal that follows the logs of a whole stack.
pub fn get_combined_terminal_name(endpoint: &str, stack: &str) -> (r: String)
    ensures
        r@ == combined_terminal_name(endpoint@, stack@),
{
    let mut v = chars_of("combined-");
    extend_str(&mut v, endpoint);
    extend_str(&mut v, "-");
    extend_str(&mut v, stack);
    string_of(&v)
}

/// The name of an interactive terminal inside a container.
pub fn get_container_exec_terminal_name(
    endpoint: &str,
    stack: &str,
    container: &str,
    index: u32,
) -> (r: String)
    ensures
        r@ == container_exec_terminal_name(endpoint@, stack@, container@, index as nat),
{
    let mut v = chars_of("container-exec-");
    extend_str(&mut v, endpoint);
    extend_str(&mut v, "-");
    extend_str(&mut v, stack);
    extend_str(&mut v, "-");
    extend_str(&mut v, container);
    extend_str(&mut v, "-");
    push_decimal(&mut v, index as u64);
    string_of(&v)
}

/// The name of the terminal that follows the log of one container. The
/// stack takes no part in the name.
pub fn get_container_log_name(endpoint: &str, _stack: &str, container: &str) -> (r: String)
    ensures
        r@ == container_log_name(endpoint@, container@),
{
    let mut v = chars_of("container-log-");
    extend_str(&mut v, endpoint);
    extend_str(&mut v, "-");
    extend_str(&mut v, container);
    string_of(&v)
}

/// On one endpoint, two stacks never share a compose terminal: the name
/// tells the stack. So does the name of the combined terminal.
pub proof fn lemma_names_tell_the_stack(endpoint: Seq<char>, a: Seq<char>, b: Seq<char>)
    ensures
        compose_terminal_name(endpoint, a) == compose_terminal_name(endpoint, b) ==> a == b,
        combined_terminal_name(endpoint, a) == combined_terminal_name(endpoint, b) ==> a == b,
{
    let p = "compose-"@ + endpoint + "-"@;
    assert(compose_terminal_name(endpoint, a).skip(p.len() as int) == a);
    assert(compose_terminal_name(endpoint, b).skip(p.len() as int) == b);
    let q = "combined-"@ + endpoint + "-"@;
    assert(combined_terminal_name(endpoint, a).skip(q.len() as int) == a);
    assert(combined_terminal_name(endpoint, b).skip(q.len() as int) == b);
}

/// The terminals of different purposes never share a name: the compose
/// terminal of a stack is not the combined terminal of any, nor the
/// terminal of a shell or of a log.
pub proof fn lemma_purposes_differ(
    e1: Seq<char>,
    s1: Seq<char>,
    e2: Seq<char>,
    s2: Seq<char>,
    container: Seq<char>,
    index: nat,
)
    ensures
        compose_terminal_name(e1, s1) != combined_terminal_name(e2, s2),
        compose_terminal_name(e1, s1) != container_exec_terminal_name(e2, s2, container, index),
        compose_terminal_name(e1, s1) != container_log_name(e2, container),
        combined_terminal_name(e1, s1) != container_exec_terminal_name(e2, s2, container, index),
        combined_terminal_name(e1, s1) != container_log_name(e2, container),
        container_exec_terminal_name(e1, s1, container, index) != container_log_name(
            e2,
            container,
        ),
{
    reveal_strlit("compose-");
    reveal_strlit("combined-");
    reveal_strlit("container-exec-");
    reveal_strlit("container-log-");
    let compose = compose_terminal_name(e1, s1);
    let combined = combined_terminal_name(e2, s2);
    let combined1 = combined_terminal_name(e1, s1);
    let shell = container_exec_terminal_name(e2, s2, container, index);
    let shell1 = container_exec_terminal_name(e1, s1, container, index);
    let log = container_log_name(e2, container);
    assert(compose[3] == 'p' && compose[4] == 'o');
    assert(combined[3] == 'b' && combined1[3] == 'b');
    assert(shell[3] == 't' && shell1[3] == 't' && shell1[10] == 'e');
    assert(log[3] == 't' && log[10] == 'l');
}

// ---------------------------------------------------------------------------
// One terminal
// ---------------------------------------------------------------------------

/// The last `n` items of `s`, or all of them if there are fewer.
pub open spec fn last_n<A>(s: Seq<A>, n: int) -> Seq<A> {
    if s.len() > n {
        s.skip(s.len() - n)
    } else {
        s
    }
}

/// A message to the loop that owns a terminal's child process.
#[derive(Debug, PartialEq)]
pub enum PtyCommand {
    Write(Vec<u8>),
    Resize(u16, u16),
    Close,
}

/// A named terminal: the record of a child process and of what it printed.
#[derive(Debug, PartialEq)]
pub struct PtyTerminal {
    name: String,
    is_interactive: bool,
    child: u64,
    buffer: Vec<String>,
    exit_code: Option<i32>,
}

impl PtyTerminal {
    /// The replay buffer is within its limit. Every terminal that this
    /// module hands out is well formed.
    pub closed spec fn wf(&self) -> bool {
        self.buffer@.len() <= BUFFER_LIMIT
    }

    /// The terminal's name.
    pub closed spec fn label(&self) -> Seq<char> {
        self.name@
    }

    /// The chunks in the replay buffer, oldest first.
    pub closed spec fn chunks(&self) -> Seq<Seq<char>> {
        str_views(self.buffer@)
    }

    /// Persistent (interactive) rather than batch.
    pub closed spec fn interactive(&self) -> bool {
        self.is_interactive
    }

    /// The child process that the terminal stands for.
    pub closed spec fn child_id(&self) -> u64 {
        self.child
    }

    /// The exit code, once the child has ended.
    pub closed spec fn exited(&self) -> Option<i32> {
        self.exit_code
    }

    /// A terminal for a child that has just been started: nothing printed,
    /// not ended.
    pub fn new(name: &str, is_interactive: bool, child: u64) -> (t: Self)
        ensures
            t.label() == name@,
            t.interactive() == is_interactive,
            t.child_id() == child,
            t.chunks() == Seq::<Seq<char>>::empty(),
            t.exited() is None,
            t.wf(),
    {
        let t = PtyTerminal {
            name: owned(name),
            is_interactive,
            child,
            buffer: Vec::new(),
            exit_code: None,
        };
        assert(t.chunks() == Seq::<Seq<char>>::empty());
        t
    }

    pub fn name(&self) -> (r: &String)
        ensures
            r@ == self.label(),
    {
        &self.name
    }

    pub fn is_interactive(&self) -> (r: bool)
        ensures
            r == self.interactive(),
    {
        self.is_interactive
    }

    pub fn child(&self) -> (r: u64)
        ensures
            r == self.child_id(),
    {
        self.child
    }

    /// Appends a chunk of output; beyond `BUFFER_LIMIT` chunks the oldest leaves.
    pub fn push_buffer(&mut self, data: &str)
        requires
            old(self).wf(),
        ensures
            final(self).chunks() == last_n(old(self).chunks().push(data@), BUFFER_LIMIT as int),
            final(self).wf(),
            final(self).label() == old(self).label(),
            final(self).interactive() == old(self).interactive(),
            final(self).child_id() == old(self).child_id(),
            final(self).exited() == old(self).exited(),
    {
        let chunk = owned(data);
        let ghost before = self.buffer@;
        if self.buffer.len() >= BUFFER_LIMIT {
            let _ = self.buffer.remove(0);
        }
        self.buffer.push(chunk);
        proof {
            let after = self.buffer@;
            let want = last_n(str_views(before).push(data@), BUFFER_LIMIT as int);
            assert(str_views(after).len() == want.len());
            assert forall|i: int| 0 <= i < want.len() implies str_views(after)[i] == want[i] by {
                if before.len() >= BUFFER_LIMIT {
                    if i < before.len() - 1 {
                        assert(after[i] == before[i + 1]);
                    } else {
                        assert(after[i] == chunk);
                    }
                } else {
                    if i < before.len() {
                        assert(after[i] == before[i]);
                    } else {
                        assert(after[i] == chunk);
                    }
                }
            }
            assert(str_views(after) == want);
        }
    }

    /// The replay contents: all chunks, oldest first, as one text.
    pub fn get_buffer(&self) -> (r: String)
        ensures
            r@ == self.chunks().flatten(),
    {
        broadcast use Seq::lemma_flatten_push;

        let mut out: Vec<char> = Vec::new();
        let mut i: usize = 0;
        let ghost all = str_views(self.buffer@);
        assert(all.take(0) == Seq::<Seq<char>>::empty());
        assert(Seq::<Seq<char>>::empty().flatten() == Seq::<char>::empty());
        while i < self.buffer.len()
            invariant
                i <= self.buffer.len(),
                all == str_views(self.buffer@),
                out@ == all.take(i as int).flatten(),
            decreases self.buffer.len() - i,
        {
            proof {
                assert(all[i as int] == self.buffer@[i as int]@);
                assert(all.take(i + 1) == all.take(i as int).push(all[i as int]));
                all.take(i as int).lemma_flatten_push(all[i as int]);
            }
            extend_str(&mut out, self.buffer[i].as_str());
            i = i + 1;
        }
        assert(all.take(self.buffer.len() as int) == all);
        string_of(&out)
    }

    /// The command that hands `data` to the child's input.
    pub fn write_input(&self, data: &Vec<u8>) -> (r: PtyCommand)
        ensures
            r matches PtyCommand::Write(bytes) && bytes@ == data@,
    {
        let mut bytes: Vec<u8> = Vec::new();
        let mut i: usize = 0;
        while i < data.len()
            invariant
                i <= data.len(),
                bytes@ == data@.take(i as int),
            decreases data.len() - i,
        {
            bytes.push(data[i]);
            i = i + 1;
        }
        assert(data@.take(data.len() as int) == data@);
        PtyCommand::Write(bytes)
    }

    /// The command that gives the pseudoterminal a new size.
    pub fn resize(&self, rows: u16, cols: u16) -> (r: PtyCommand)
        ensures
            r == PtyCommand::Resize(rows, cols),
    {
        PtyCommand::Resize(rows, cols)
    }

    /// The command that ends the terminal.
    pub fn close(&self) -> (r: PtyCommand)
        ensures
            r == PtyCommand::Close,
    {
        PtyCommand::Close
    }

    /// Records the exit code. The first code recorded stays.
    pub fn publish_exit(&mut self, code: i32)
        requires
            old(self).wf(),
        ensures
            final(self).exited() == Some(
                match old(self).exited() {
                    Some(first) => first,
                    None => code,
                },
            ),
            final(self).chunks() == old(self).chunks(),
            final(self).wf(),
            final(self).label() == old(self).label(),
            final(self).interactive() == old(self).interactive(),
            final(self).child_id() == old(self).child_id(),
    {
        if self.exit_code.is_none() {
            self.exit_code = Some(code);
        }
    }

    /// The exit code, once the child has ended.
    pub fn wait_for_exit(&self) -> (r: Option<i32>)
        ensures
            r == self.exited(),
    {
        self.exit_code
    }
}

// ---------------------------------------------------------------------------
// The loop that serves one terminal
// ---------------------------------------------------------------------------

/// What the command loop of a terminal can meet.
#[derive(Debug, PartialEq)]
pub enum PtyEvent {
    /// A command arrived.
    Command(PtyCommand),
    /// No command arrived within the poll interval.
    Timeout,
    /// Every sender is gone: the terminal was dropped.
    Disconnected,
    /// The last write to the child's input failed.
    WriteFailed,
}

/// What the command loop does next.
#[derive(Debug, PartialEq)]
pub enum PtyAction {
    /// Hand the bytes to the child's input and go on.
    Write(Vec<u8>),
    /// Give the pseudoterminal a new size and go on.
    Resize(u16, u16),
    /// Look whether the child has ended; if so publish its code and stop,
    /// else go on.
    Poll,
    /// Close the input, kill the child, await it, publish its code and stop.
    KillAndReap,
    /// Close the input, await the child, publish its code and stop.
    Reap,
}

impl PtyAction {
    /// The loop ends with this action.
    pub open spec fn is_last(&self) -> bool {
        *self is KillAndReap || *self is Reap
    }
}

/// The decision of the command loop for one event.
pub fn pty_step(event: PtyEvent) -> (r: PtyAction)
    ensures
        match event {
            PtyEvent::Command(PtyCommand::Write(data)) => r == PtyAction::Write(data),
            PtyEvent::Command(PtyCommand::Resize(rows, cols)) => r == PtyAction::Resize(rows, cols),
            PtyEvent::Command(PtyCommand::Close) => r is KillAndReap,
            PtyEvent::Timeout => r is Poll,
            PtyEvent::Disconnected => r is Reap,
            PtyEvent::WriteFailed => r is Reap,
        },
{
    match event {
        PtyEvent::Command(PtyCommand::Write(data)) => PtyAction::Write(data),
        PtyEvent::Command(PtyCommand::Resize(rows, cols)) => PtyAction::Resize(rows, cols),
        PtyEvent::Command(PtyCommand::Close) => PtyAction::KillAndReap,
        PtyEvent::Timeout => PtyAction::Poll,
        PtyEvent::Disconnected => PtyAction::Reap,
        PtyEvent::WriteFailed => PtyAction::Reap,
    }
}

/// A 32-bit status read as a signed number.
pub open spec fn signed_status(status: u32) -> int {
    if status <= 0x7fff_ffff {
        status as int
    } else {
        status - 0x1_0000_0000
    }
}

/// The exit code to publish: the child's status read as a signed number, or
/// -1 when awaiting the child failed.
pub fn exit_code_of(status: Option<u32>) -> (r: i32)
    ensures
        r == match status {
            Some(s) => signed_status(s),
            None => -1int,
        },
{
    match status {
        Some(s) => if s <= 0x7fff_ffff {
            s as i32
        } else {
            (s as i64 - 0x1_0000_0000) as i32
        },
        None => -1,
    }
}

/// What the reader of a terminal does with the result of one read: `Some(n)`
/// forwards the first `n` bytes as a chunk and reads on; `None` stops, at
/// the end of the stream or on a failure.
pub fn reader_step(read: Option<usize>) -> (r: Option<usize>)
    ensures
        r == match read {
            Some(n) => if n == 0 {
                None
            } else {
                Some(n)
            },
            None => None,
        },
{
    match read {
        Some(n) => if n == 0 {
            None
        } else {
            Some(n)
        },
        None => None,
    }
}

/// The line shown before the output of a batch command: the command line,
/// dimmed, behind a dollar sign.
pub open spec fn banner_text(file: Seq<char>, args: Seq<Seq<char>>) -> Seq<char> {
    "\x1b[90m$ "@ + file + " "@ + join(args, " "@) + "\x1b[0m\r\n"@
}

/// The line shown before the output of a batch command.
pub fn banner(file: &str, args: &Vec<String>) -> (r: String)
    ensures
        r@ == banner_text(file@, str_views(args@)),
{
    let mut parts: Vec<Vec<char>> = Vec::new();
    let mut i: usize = 0;
    while i < args.len()
        invariant
            i <= args.len(),
            parts.len() == i,
            views(parts@) == str_views(args@).take(i as int),
        decreases args.len() - i,
    {
        let part = chars_of(args[i].as_str());
        proof {
            let a = views(parts@.push(part));
            let b = str_views(args@).take(i + 1);
            assert(a.len() == b.len());
            assert forall|k: int| 0 <= k < a.len() implies a[k] == b[k] by {
                if k < i {
                    assert(a[k] == views(parts@)[k]);
                    assert(b[k] == str_views(args@).take(i as int)[k]);
                }
            }
            assert(a == b);
        }
        parts.push(part);
        i = i + 1;
    }
    assert(str_views(args@).take(args.len() as int) == str_views(args@));
    assert(views(parts@).skip(0) == views(parts@));
    let space = chars_of(" ");
    let joined = join_from(&parts, 0, &space);
    let mut v = chars_of("\x1b[90m$ ");
    extend_str(&mut v, file);
    extend(&mut v, &space);
    extend(&mut v, &joined);
    extend_str(&mut v, "\x1b[0m\r\n");
    string_of(&v)
}

// ---------------------------------------------------------------------------
// The registry
// ---------------------------------------------------------------------------

/// The index of the first terminal named `name` at or after `from`.
pub open spec fn named_from(ts: Seq<PtyTerminal>, name: Seq<char>, from: int) -> Option<int>
    decreases ts.len() - from,
{
    if from < 0 || from >= ts.len() {
        None
    } else if ts[from].label() == name {
        Some(from)
    } else {
        named_from(ts, name, from + 1)
    }
}

/// `named_from` returns the least index at or after `from` of a terminal
/// with that name.
pub proof fn lemma_named_from(ts: Seq<PtyTerminal>, name: Seq<char>, from: int)
    requires
        0 <= from,
    ensures
        match named_from(ts, name, from) {
            Some(i) => {
                &&& from <= i < ts.len()
                &&& ts[i].label() == name
                &&& forall|j: int| from <= j < i ==> ts[j].label() != name
            },
            None => forall|j: int| from <= j < ts.len() ==> ts[j].label() != name,
        },
    decreases ts.len() - from,
{
    if from >= ts.len() {
    } else if ts[from].label() == name {
    } else {
        lemma_named_from(ts, name, from + 1);
    }
}

/// No two terminals of the sequence share a name.
pub open spec fn distinct_names(ts: Seq<PtyTerminal>) -> bool {
    forall|i: int, j: int| 0 <= i < j < ts.len() ==> ts[i].label() != ts[j].label()
}

/// The child processes of the terminals named `name`, in registry order.
pub open spec fn children_named(ts: Seq<PtyTerminal>, name: Seq<char>) -> Seq<u64>
    decreases ts.len(),
{
    if ts.len() == 0 {
        Seq::empty()
    } else if ts.last().label() == name {
        children_named(ts.drop_last(), name).push(ts.last().child_id())
    } else {
        children_named(ts.drop_last(), name)
    }
}

/// Among terminals with distinct names, a name stands for one child process
/// if it is there and for none if it is not.
pub proof fn lemma_children_named(ts: Seq<PtyTerminal>, name: Seq<char>)
    requires
        distinct_names(ts),
    ensures
        match named_from(ts, name, 0) {
            Some(i) => children_named(ts, name) == seq![ts[i].child_id()],
            None => children_named(ts, name).len() == 0,
        },
    decreases ts.len(),
{
    lemma_named_from(ts, name, 0);
    if ts.len() > 0 {
        let front = ts.drop_last();
        assert(distinct_names(front)) by {
            assert forall|i: int, j: int| 0 <= i < j < front.len() implies front[i].label()
                != front[j].label() by {
                assert(front[i] == ts[i] && front[j] == ts[j]);
            }
        }
        lemma_children_named(front, name);
        lemma_named_from(front, name, 0);
        assert forall|j: int| 0 <= j < front.len() implies front[j] == ts[j] by {}
        if ts.last().label() == name {
            // no earlier terminal has the name
            assert(named_from(front, name, 0) is None) by {
                if named_from(front, name, 0) is Some {
                    let k = named_from(front, name, 0)->0;
                    assert(ts[k].label() == ts[ts.len() - 1].label());
                }
            }
            assert(named_from(ts, name, 0) == Some(ts.len() - 1));
            assert(Seq::<u64>::empty().push(ts.last().child_id()) == seq![ts.last().child_id()]);
        } else {
            assert(named_from(ts, name, 0) == named_from(front, name, 0)) by {
                match named_from(front, name, 0) {
                    Some(k) => {
                        assert(ts[k].label() == name);
                    },
                    None => {},
                }
            }
        }
    }
}

/// All live terminals, at most one of each name.
#[derive(Debug, PartialEq)]
pub struct TerminalManager {
    terminals: Vec<PtyTerminal>,
}

impl TerminalManager {
    /// No two terminals share a name. Every registry that this module hands
    /// out is well formed.
    pub closed spec fn wf(&self) -> bool {
        &&& distinct_names(self.terminals@)
        &&& forall|i: int| 0 <= i < self.terminals@.len() ==> (#[trigger] self.terminals@[i]).wf()
    }

    /// Every registered terminal is well formed.
    pub proof fn lemma_terminals_wf(&self, name: Seq<char>)
        requires
            self.wf(),
            self@.dom().contains(name),
        ensures
            self@[name].wf(),
    {
        lemma_named_from(self.terminals@, name, 0);
    }

    /// The live terminals by name.
    pub closed spec fn view(&self) -> Map<Seq<char>, PtyTerminal> {
        Map::new(
            |name: Seq<char>| named_from(self.terminals@, name, 0) is Some,
            |name: Seq<char>| self.terminals@[named_from(self.terminals@, name, 0)->0],
        )
    }

    /// The child processes associated with `name`.
    pub closed spec fn children(&self, name: Seq<char>) -> Seq<u64> {
        children_named(self.terminals@, name)
    }

    /// Whenever a name is registered, exactly one child process is
    /// associated with it, the one of its terminal; a name that is not
    /// registered has none.
    pub proof fn lemma_one_child_per_name(&self, name: Seq<char>)
        requires
            self.wf(),
        ensures
            self@.dom().contains(name) ==> self.children(name) == seq![self@[name].child_id()],
            !self@.dom().contains(name) ==> self.children(name).len() == 0,
    {
        lemma_children_named(self.terminals@, name);
    }

    /// Every terminal is registered under its own name.
    pub proof fn lemma_registered_under_own_name(&self, name: Seq<char>)
        requires
            self@.dom().contains(name),
        ensures
            self@[name].label() == name,
    {
        lemma_named_from(self.terminals@, name, 0);
    }

    /// A registry without terminals.
    pub fn new() -> (m: Self)
        ensures
            m@ == Map::<Seq<char>, PtyTerminal>::empty(),
            m.wf(),
    {
        let m = TerminalManager { terminals: Vec::new() };
        assert(m@ =~= Map::<Seq<char>, PtyTerminal>::empty());
        m
    }

    fn position(&self, name: &str) -> (r: Option<usize>)
        ensures
            crate::text::index_view(r) == named_from(self.terminals@, name@, 0),
            r matches Some(i) ==> i < self.terminals.len(),
    {
        let wanted = chars_of(name);
        let mut i: usize = 0;
        while i < self.terminals.len()
            invariant
                i <= self.terminals.len(),
                wanted@ == name@,
                named_from(self.terminals@, name@, 0) == named_from(
                    self.terminals@,
                    name@,
                    i as int,
                ),
            decreases self.terminals.len() - i,
        {
            let label = chars_of(self.terminals[i].name.as_str());
            if same(&label, &wanted) {
                return Some(i);
            }
            i = i + 1;
        }
        None
    }

    /// Whether a terminal of that name is live.
    pub fn has(&self, name: &str) -> (r: bool)
        ensures
            r == self@.dom().contains(name@),
    {
        self.position(name).is_some()
    }

    /// The live terminal of that name.
    pub fn get(&self, name: &str) -> (r: Option<&PtyTerminal>)
        ensures
            match r {
                Some(t) => self@.dom().contains(name@) && *t == self@[name@],
                None => !self@.dom().contains(name@),
            },
    {
        match self.position(name) {
            Some(i) => Some(&self.terminals[i]),
            None => None,
        }
    }

    /// The replay contents of the terminal; the empty text if the name is unknown.
    pub fn get_buffer(&self, name: &str) -> (r: String)
        ensures
            r@ == if self@.dom().contains(name@) {
                self@[name@].chunks().flatten()
            } else {
                Seq::<char>::empty()
            },
    {
        match self.get(name) {
            Some(t) => t.get_buffer(),
            None => String::new(),
        }
    }

    /// The command that hands `data` to the terminal's child; `None` if the
    /// name is unknown.
    pub fn write_input(&self, name: &str, data: &Vec<u8>) -> (r: Option<PtyCommand>)
        ensures
            r is Some == self@.dom().contains(name@),
            r matches Some(c) ==> (c matches PtyCommand::Write(bytes) && bytes@ == data@),
    {
        match self.get(name) {
            Some(t) => Some(t.write_input(data)),
            None => None,
        }
    }

    /// The command that resizes the terminal; `None` if the name is unknown.
    pub fn resize(&self, name: &str, rows: u16, cols: u16) -> (r: Option<PtyCommand>)
        ensures
            r == if self@.dom().contains(name@) {
                Some(PtyCommand::Resize(rows, cols))
            } else {
                None
            },
    {
        match self.get(name) {
            Some(t) => Some(t.resize(rows, cols)),
            None => None,
        }
    }

    /// Registers `t` under its name, in place of a terminal of that name.
    fn insert(&mut self, t: PtyTerminal)
        requires
            old(self).wf(),
            t.wf(),
        ensures
            final(self)@ == old(self)@.insert(t.label(), t),
            final(self).wf(),
    {
        let ghost before = self.terminals@;
        let ghost label = t.label();
        let found = self.position(t.name.as_str());
        proof {
            lemma_named_from(before, label, 0);
        }
        match found {
            Some(i) => {
                let _ = self.terminals.remove(i);
            },
            None => {},
        }
        let ghost mid = self.terminals@;
        proof {
            assert forall|j: int| 0 <= j < mid.len() implies mid[j].label() != label by {
                match found {
                    Some(i) => {
                        if j < i {
                            assert(mid[j] == before[j]);
                        } else {
                            assert(mid[j] == before[j + 1]);
                        }
                    },
                    None => {},
                }
            }
            assert(distinct_names(mid)) by {
                assert forall|a: int, b: int| 0 <= a < b < mid.len() implies mid[a].label()
                    != mid[b].label() by {
                    match found {
                        Some(i) => {
                            let a0 = if a < i { a } else { a + 1 };
                            let b0 = if b < i { b } else { b + 1 };
                            assert(mid[a] == before[a0] && mid[b] == before[b0]);
                        },
                        None => {},
                    }
                }
            }
        }
        self.terminals.push(t);
        proof {
            let after = self.terminals@;
            assert(distinct_names(after)) by {
                assert forall|a: int, b: int| 0 <= a < b < after.len() implies after[a].label()
                    != after[b].label() by {
                    if b < mid.len() {
                        assert(after[a] == mid[a] && after[b] == mid[b]);
                    } else {
                        assert(after[a] == mid[a]);
                    }
                }
            }
            let want = old(self)@.insert(label, t);
            assert forall|n: Seq<char>| #[trigger] self@.dom().contains(n) == want.dom().contains(
                n,
            ) && (self@.dom().contains(n) ==> self@[n] == want[n]) by {
                lemma_named_from(after, n, 0);
                lemma_named_from(before, n, 0);
                if n == label {
                    assert(after[mid.len() as int].label() == label);
                } else {
                    match named_from(before, n, 0) {
                        Some(k) => {
                            let k2 = match found {
                                Some(i) => if k < i { k } else { k - 1 },
                                None => k,
                            };
                            assert(after[k2] == before[k]);
                            assert(after[k2].label() == n);
                            match named_from(after, n, 0) {
                                Some(m) => {
                                    if m != k2 {
                                        let lo = if m < k2 { m } else { k2 };
                                        let hi = if m < k2 { k2 } else { m };
                                        assert(after[lo].label() != after[hi].label());
                                    }
                                },
                                None => {},
                            }
                        },
                        None => {
                            match named_from(after, n, 0) {
                                Some(m) => {
                                    if m < mid.len() {
                                        let m0 = match found {
                                            Some(i) => if m < i { m } else { m + 1 },
                                            None => m,
                                        };
                                        assert(after[m] == before[m0]);
                                    }
                                },
                                None => {},
                            }
                        },
                    }
                }
            }
            assert(self@ =~= want);
        }
    }

    /// Takes the terminal of that name out of the registry and hands it
    /// back, to be closed; nothing happens if the name is unknown.
    pub fn remove(&mut self, name: &str) -> (r: Option<PtyTerminal>)
        requires
            old(self).wf(),
        ensures
            final(self)@ == old(self)@.remove(name@),
            final(self).wf(),
            match r {
                Some(t) => old(self)@.dom().contains(name@) && t == old(self)@[name@],
                None => !old(self)@.dom().contains(name@),
            },
    {
        let ghost before = self.terminals@;
        let found = self.position(name);
        proof {
            lemma_named_from(before, name@, 0);
        }
        match found {
            Some(i) => {
                let t = self.terminals.remove(i);
                proof {
                    let after = self.terminals@;
                    assert forall|j: int| 0 <= j < after.len() implies after[j] == before[if j
                        < i {
                        j
                    } else {
                        j + 1
                    }] by {}
                    assert(distinct_names(after)) by {
                        assert forall|a: int, b: int|
                            0 <= a < b < after.len() implies after[a].label()
                            != after[b].label() by {
                            let a0 = if a < i { a } else { a + 1 };
                            let b0 = if b < i { b } else { b + 1 };
                            assert(after[a] == before[a0] && after[b] == before[b0]);
                        }
                    }
                    let want = old(self)@.remove(name@);
                    assert forall|n: Seq<char>| #[trigger]
                        self@.dom().contains(n) == want.dom().contains(n) && (self@.dom().contains(
                            n,
                        ) ==> self@[n] == want[n]) by {
                        lemma_named_from(after, n, 0);
                        lemma_named_from(before, n, 0);
                        if n == name@ {
                            match named_from(after, n, 0) {
                                Some(m) => {
                                    let m0 = if m < i { m } else { m + 1 };
                                    assert(after[m] == before[m0]);
                                    let lo = if m0 < i { m0 } else { i as int };
                                    let hi = if m0 < i { i as int } else { m0 };
                                    assert(before[lo].label() != before[hi].label());
                                },
                                None => {},
                            }
                        } else {
                            match named_from(before, n, 0) {
                                Some(k) => {
                                    let k2 = if k < i { k } else { k - 1 };
                                    assert(after[k2] == before[k]);
                                    match named_from(after, n, 0) {
                                        Some(m) => {
                                            if m != k2 {
                                                let lo = if m < k2 { m } else { k2 };
                                                let hi = if m < k2 { k2 } else { m };
                                                assert(after[lo].label() != after[hi].label());
                                            }
                                        },
                                        None => {},
                                    }
                                },
                                None => {
                                    match named_from(after, n, 0) {
                                        Some(m) => {
                                            let m0 = if m < i { m } else { m + 1 };
                                            assert(after[m] == before[m0]);
                                        },
                                        None => {},
                                    }
                                },
                            }
                        }
                    }
                    assert(self@ =~= want);
                }
                Some(t)
            },
            None => {
                assert(self@ =~= old(self)@.remove(name@));
                None
            },
        }
    }

    /// Whether a batch command may start under that name: the name must be
    /// free, else the caller is told to try again later.
    pub fn check_free(&self, name: &str) -> (r: Result<(), String>)
        ensures
            match r {
                Ok(_) => !self@.dom().contains(name@),
                Err(msg) => self@.dom().contains(name@) && msg@ == already_running(),
            },
    {
        if self.has(name) {
            Err(owned("Another operation is already running, please try again later."))
        } else {
            Ok(())
        }
    }

    /// Registers the batch terminal of a command that runs as `child`, puts
    /// the banner into its buffer, and hands the banner back for the
    /// caller's sink. Where the name is in use nothing changes, and the
    /// caller is told to try again later.
    pub fn exec(&mut self, name: &str, file: &str, args: &Vec<String>, child: u64) -> (r: Result<
        String,
        String,
    >)
        requires
            old(self).wf(),
        ensures
            final(self).wf(),
            match r {
                Ok(line) => {
                    let t = final(self)@[name@];
                    &&& !old(self)@.dom().contains(name@)
                    &&& line@ == banner_text(file@, str_views(args@))
                    &&& final(self)@.dom() == old(self)@.dom().insert(name@)
                    &&& forall|n: Seq<char>|
                        n != name@ && old(self)@.dom().contains(n) ==> final(self)@[n] == old(
                            self,
                        )@[n]
                    &&& t.label() == name@
                    &&& !t.interactive()
                    &&& t.child_id() == child
                    &&& t.chunks() == seq![line@]
                    &&& t.exited() is None
                },
                Err(msg) => {
                    &&& old(self)@.dom().contains(name@)
                    &&& msg@ == already_running()
                    &&& final(self)@ == old(self)@
                },
            },
    {
        if self.has(name) {
            return Err(owned("Another operation is already running, please try again later."));
        }
        let line = banner(file, args);
        let mut t = PtyTerminal::new(name, false, child);
        t.push_buffer(line.as_str());
        assert(t.chunks() == seq![line@]);
        self.insert(t);
        Ok(line)
    }

    /// Ends a batch command: takes its terminal out of the registry and
    /// gives the exit code to report, -1 when none was published.
    pub fn reap(&mut self, name: &str, exit: Option<i32>) -> (r: i32)
        requires
            old(self).wf(),
        ensures
            final(self)@ == old(self)@.remove(name@),
            final(self).wf(),
            r == match exit {
                Some(code) => code,
                None => -1i32,
            },
    {
        let _ = self.remove(name);
        match exit {
            Some(code) => code,
            None => -1,
        }
    }

    /// Registers the persistent terminal of a process that has just been
    /// spawned as `child`, unless the name is in use: then nothing changes
    /// and the answer is `false`.
    pub fn spawn_persistent(&mut self, name: &str, child: u64) -> (r: bool)
        requires
            old(self).wf(),
        ensures
            r == !old(self)@.dom().contains(name@),
            final(self).wf(),
            !r ==> final(self)@ == old(self)@,
            r ==> final(self)@.dom() == old(self)@.dom().insert(name@),
            r ==> forall|n: Seq<char>|
                n != name@ && old(self)@.dom().contains(n) ==> final(self)@[n] == old(self)@[n],
            r ==> ({
                let t = final(self)@[name@];
                &&& t.label() == name@
                &&& t.interactive()
                &&& t.child_id() == child
                &&& t.chunks() == Seq::<Seq<char>>::empty()
                &&& t.exited() is None
            }),
    {
        if self.has(name) {
            return false;
        }
        let t = PtyTerminal::new(name, true, child);
        self.insert(t);
        true
    }

    /// Records the exit code of the terminal's child; the first code
    /// recorded stays, and nothing happens if the name is unknown.
    pub fn publish_exit(&mut self, name: &str, code: i32)
        requires
            old(self).wf(),
        ensures
            final(self)@.dom() == old(self)@.dom(),
            final(self).wf(),
            forall|n: Seq<char>| n != name@ && old(self)@.dom().contains(n) ==> final(self)@[n]
                == old(self)@[n],
            old(self)@.dom().contains(name@) ==> ({
                let before = old(self)@[name@];
                let after = final(self)@[name@];
                &&& after.exited() == Some(
                    match before.exited() {
                        Some(first) => first,
                        None => code,
                    },
                )
                &&& after.chunks() == before.chunks()
                &&& after.label() == before.label()
                &&& after.child_id() == before.child_id()
                &&& after.interactive() == before.interactive()
            }),
    {
        match self.remove(name) {
            Some(t) => {
                let mut t = t;
                proof {
                    old(self).lemma_registered_under_own_name(name@);
                    old(self).lemma_terminals_wf(name@);
                }
                t.publish_exit(code);
                self.insert(t);
                assert(final(self)@.dom() =~= old(self)@.dom());
            },
            None => {
                assert(self@ =~= old(self)@);
            },
        }
    }

    /// Appends a chunk of output to the terminal's replay buffer; nothing
    /// happens if the name is unknown.
    pub fn push_output(&mut self, name: &str, chunk: &str)
        requires
            old(self).wf(),
        ensures
            final(self)@.dom() == old(self)@.dom(),
            final(self).wf(),
            forall|n: Seq<char>| n != name@ && old(self)@.dom().contains(n) ==> final(self)@[n]
                == old(self)@[n],
            old(self)@.dom().contains(name@) ==> ({
                let before = old(self)@[name@];
                let after = final(self)@[name@];
                &&& after.chunks() == last_n(before.chunks().push(chunk@), BUFFER_LIMIT as int)
                &&& after.label() == before.label()
                &&& after.child_id() == before.child_id()
                &&& after.interactive() == before.interactive()
                &&& after.exited() == before.exited()
            }),
    {
        match self.remove(name) {
            Some(t) => {
                let mut t = t;
                proof {
                    old(self).lemma_registered_under_own_name(name@);
                    old(self).lemma_terminals_wf(name@);
                }
                t.push_buffer(chunk);
                self.insert(t);
                assert(final(self)@.dom() =~= old(self)@.dom());
            },
            None => {
                assert(self@ =~= old(self)@);
            },
        }
    }
}

} // verus!
