//! The events that attach clients to terminals.

use crate::error::{Ack, error_response, ExecRequest, not_logged_in, ok_response, ok_with, Plan};
use crate::json::{arg_text, first_text, first_text_arg, JsonValue, text_arg};
use crate::pieces::str_views;
use crate::stack::Stack;
use crate::terminal::{
    combined_terminal_name, container_exec_terminal_name, container_log_name,
    get_combined_terminal_name, get_container_exec_terminal_name, get_container_log_name,
    TERMINAL_COLS, TERMINAL_ROWS, TerminalManager,
};
use crate::text::owned;
use vstd::prelude::*;

verus! {

/// The name of the server's own shell terminal.
pub open spec fn main_terminal_name() -> Seq<char> {
    "main-terminal"@
}

/// `terminalJoin`: the name of the terminal whose replay buffer is asked for.
pub fn handle_terminal_join(logged_in: bool, data: &JsonValue) -> (r: Plan<String>)
    ensures
        !logged_in ==> r.refuses(not_logged_in()),
        logged_in ==> (r matches Plan::Proceed(name) && name@ == first_text(*data)),
{
    if !logged_in {
        return Plan::Reply(error_response("Not logged in"));
    }
    Plan::Proceed(first_text_arg(data))
}

/// The answer to `terminalJoin`: the replay contents of the terminal,
/// empty for a name that is not live.
pub fn terminal_join_reply(manager: &TerminalManager, name: &str) -> (r: Ack)
    ensures
        r.ok == Some(true),
        r.msg is None,
        r.payload@.len() == 1,
        r.payload@[0].0@ == "buffer"@,
        r.payload@[0].1.text() == Some(
            if manager@.dom().contains(name@) {
                manager@[name@].chunks().flatten()
            } else {
                Seq::<char>::empty()
            },
        ),
{
    ok_with("buffer", JsonValue::Str(manager.get_buffer(name)))
}

/// Input for a terminal.
#[derive(Debug, PartialEq)]
pub struct TerminalInput {
    pub terminal: String,
    pub bytes: Vec<u8>,
}

/// `terminalInput(name, text)`: the bytes to hand to the terminal. The
/// terminal must be named.
pub fn handle_terminal_input(logged_in: bool, data: &JsonValue) -> (r: Plan<TerminalInput>)
    ensures
        !logged_in ==> r.refuses(not_logged_in()),
        logged_in && !(*data is Array) ==> r.refuses("Invalid data"@),
        logged_in ==> (match *data {
            JsonValue::Array(args) => if arg_text(args@, 0).len() == 0 {
                r.refuses("Terminal name required"@)
            } else {
                r matches Plan::Proceed(input) && input.terminal@ == arg_text(args@, 0)
                    && input.bytes@ == vstd::utf8::encode_utf8(arg_text(args@, 1))
            },
            _ => true,
        }),
{
    if !logged_in {
        return Plan::Reply(error_response("Not logged in"));
    }
    match data.as_array() {
        Some(args) => {
            let terminal = text_arg(args, 0);
            if terminal.as_str().is_empty() {
                return Plan::Reply(error_response("Terminal name required"));
            }
            let text = text_arg(args, 1);
            let bytes = vstd::slice::slice_to_vec(text.as_str().as_bytes());
            Plan::Proceed(TerminalInput { terminal, bytes })
        },
        None => Plan::Reply(error_response("Invalid data")),
    }
}

/// A new size for a terminal.
#[derive(Debug, PartialEq)]
pub struct TerminalResize {
    pub terminal: String,
    pub rows: u16,
    pub cols: u16,
}

/// A size as the event gives it: the number modulo 2^16 where the argument
/// is a non-negative integer, else the default.
pub open spec fn size_arg(args: Seq<JsonValue>, i: int, default: u16) -> int {
    if 0 <= i < args.len() {
        match args[i].natural() {
            Some(n) => n as int % 0x1_0000,
            None => default as int,
        }
    } else {
        default as int
    }
}

fn size_of(args: &Vec<JsonValue>, i: usize, default: u16) -> (r: u16)
    ensures
        r == size_arg(args@, i as int, default),
{
    if i < args.len() {
        match args[i].as_u64() {
            Some(n) => (n % 0x1_0000) as u16,
            None => default,
        }
    } else {
        default
    }
}

/// `terminalResize(name, rows, cols)`: the size to give the terminal.
/// Rows and columns that are missing fall back to the standard size.
pub fn handle_terminal_resize(data: &JsonValue) -> (r: TerminalResize)
    ensures
        match *data {
            JsonValue::Array(args) => r.terminal@ == arg_text(args@, 0) && r.rows == size_arg(
                args@,
                1,
                TERMINAL_ROWS,
            ) && r.cols == size_arg(args@, 2, TERMINAL_COLS),
            _ => r.terminal@.len() == 0 && r.rows == TERMINAL_ROWS && r.cols == TERMINAL_COLS,
        },
{
    match data.as_array() {
        Some(args) => TerminalResize {
            terminal: text_arg(args, 0),
            rows: size_of(args, 1, TERMINAL_ROWS),
            cols: size_of(args, 2, TERMINAL_COLS),
        },
        None => TerminalResize {
            terminal: String::new(),
            rows: TERMINAL_ROWS,
            cols: TERMINAL_COLS,
        },
    }
}

/// `leaveCombinedTerminal(stack)`: the combined terminal to close.
pub fn handle_leave_combined_terminal(logged_in: bool, data: &JsonValue) -> (r: Plan<String>)
    ensures
        !logged_in ==> r.refuses(not_logged_in()),
        logged_in ==> (r matches Plan::Proceed(name) && name@ == combined_terminal_name(
            Seq::empty(),
            first_text(*data),
        )),
{
    if !logged_in {
        return Plan::Reply(error_response("Not logged in"));
    }
    let stack = first_text_arg(data);
    proof {
        reveal_strlit("");
        assert(""@ =~= Seq::<char>::empty());
    }
    Plan::Proceed(get_combined_terminal_name("", stack.as_str()))
}

/// What `interactiveTerminal` asks for.
#[derive(Debug, PartialEq)]
pub struct InteractiveRequest {
    pub stack_name: String,
    pub service_name: String,
    pub shell: String,
}

/// The shell of an interactive terminal: the third argument where it is a
/// string, else `sh`.
pub open spec fn shell_arg(args: Seq<JsonValue>) -> Seq<char> {
    if 2 < args.len() && args[2] is Str {
        args[2].text()->0
    } else {
        "sh"@
    }
}

/// `interactiveTerminal(stack, service, shell)`: the shell to open in a
/// service's container. Stack and service must be named.
pub fn handle_interactive_terminal(logged_in: bool, data: &JsonValue) -> (r: Plan<
    InteractiveRequest,
>)
    ensures
        !logged_in ==> r.refuses(not_logged_in()),
        logged_in && !(*data is Array) ==> r.refuses("Invalid data"@),
        logged_in ==> (match *data {
            JsonValue::Array(args) => if arg_text(args@, 0).len() == 0 || arg_text(
                args@,
                1,
            ).len() == 0 {
                r.refuses("Stack name and service name required"@)
            } else {
                r matches Plan::Proceed(req) && req.stack_name@ == arg_text(args@, 0)
                    && req.service_name@ == arg_text(args@, 1) && req.shell@ == shell_arg(args@)
            },
            _ => true,
        }),
{
    if !logged_in {
        return Plan::Reply(error_response("Not logged in"));
    }
    match data.as_array() {
        Some(args) => {
            let stack_name = text_arg(args, 0);
            let service_name = text_arg(args, 1);
            let shell = if args.len() > 2 {
                match args[2].as_str() {
                    Some(s) => s.clone(),
                    None => owned("sh"),
                }
            } else {
                owned("sh")
            };
            if stack_name.as_str().is_empty() || service_name.as_str().is_empty() {
                return Plan::Reply(error_response("Stack name and service name required"));
            }
            Plan::Proceed(InteractiveRequest { stack_name, service_name, shell })
        },
        None => Plan::Reply(error_response("Invalid data")),
    }
}

/// The persistent terminal of an interactive shell: `compose exec <service>
/// <shell>` under the name of the service's first exec terminal.
pub fn interactive_run(
    stack: &Stack,
    endpoint: &str,
    request: &InteractiveRequest,
    global_env: bool,
    local_env: bool,
) -> (r: ExecRequest)
    ensures
        r.runs_compose(
            stack@,
            container_exec_terminal_name(
                endpoint@,
                request.stack_name@,
                request.service_name@,
                0,
            ),
            "exec"@,
            seq![request.service_name@, request.shell@],
            global_env,
            local_env,
        ),
{
    let mut extra: Vec<String> = Vec::new();
    extra.push(request.service_name.clone());
    extra.push(request.shell.clone());
    assert(str_views(extra@) =~= seq![request.service_name@, request.shell@]);
    crate::handlers::stack::compose_run(
        stack,
        get_container_exec_terminal_name(
            endpoint,
            request.stack_name.as_str(),
            request.service_name.as_str(),
            0,
        ),
        "exec",
        &extra,
        global_env,
        local_env,
    )
}

/// The stack and the service that `joinContainerLog` names.
#[derive(Debug, PartialEq)]
pub struct LogTarget {
    pub stack_name: String,
    pub service_name: String,
}

/// `joinContainerLog(stack, service)`: the service whose log is to be followed.
pub fn handle_join_container_log(logged_in: bool, data: &JsonValue) -> (r: Plan<LogTarget>)
    ensures
        !logged_in ==> r.refuses(not_logged_in()),
        logged_in && !(*data is Array) ==> r.refuses("Invalid data"@),
        logged_in ==> (match *data {
            JsonValue::Array(args) => r matches Plan::Proceed(t) && t.stack_name@ == arg_text(
                args@,
                0,
            ) && t.service_name@ == arg_text(args@, 1),
            _ => true,
        }),
{
    if !logged_in {
        return Plan::Reply(error_response("Not logged in"));
    }
    match data.as_array() {
        Some(args) => Plan::Proceed(
            LogTarget { stack_name: text_arg(args, 0), service_name: text_arg(args, 1) },
        ),
        None => Plan::Reply(error_response("Invalid data")),
    }
}

/// The persistent terminal that follows a service's log: `compose logs -f
/// --tail 100 <service>`.
pub fn container_log_run(
    stack: &Stack,
    endpoint: &str,
    target: &LogTarget,
    global_env: bool,
    local_env: bool,
) -> (r: ExecRequest)
    ensures
        r.runs_compose(
            stack@,
            container_log_name(endpoint@, target.service_name@),
            "logs"@,
            seq!["-f"@, "--tail"@, "100"@, target.service_name@],
            global_env,
            local_env,
        ),
{
    let mut extra: Vec<String> = Vec::new();
    extra.push(owned("-f"));
    extra.push(owned("--tail"));
    extra.push(owned("100"));
    extra.push(target.service_name.clone());
    assert(str_views(extra@) =~= seq!["-f"@, "--tail"@, "100"@, target.service_name@]);
    crate::handlers::stack::compose_run(
        stack,
        get_container_log_name(
            endpoint,
            target.stack_name.as_str(),
            target.service_name.as_str(),
        ),
        "logs",
        &extra,
        global_env,
        local_env,
    )
}

/// The persistent terminal that follows the logs of a whole stack, shared
/// by all clients that read the stack: `compose logs -f`.
pub fn combined_run(stack: &Stack, endpoint: &str, global_env: bool, local_env: bool) -> (r:
    ExecRequest)
    ensures
        r.runs_compose(
            stack@,
            combined_terminal_name(endpoint@, stack.name@),
            "logs"@,
            seq!["-f"@],
            global_env,
            local_env,
        ),
{
    let mut extra: Vec<String> = Vec::new();
    extra.push(owned("-f"));
    assert(str_views(extra@) =~= seq!["-f"@]);
    crate::handlers::stack::compose_run(
        stack,
        get_combined_terminal_name(endpoint, stack.name.as_str()),
        "logs",
        &extra,
        global_env,
        local_env,
    )
}

/// `mainTerminal`: a shell of the server itself, for consoles that are
/// enabled and sessions that are logged in, in this order.
pub fn handle_main_terminal(enable_console: bool, logged_in: bool, current_dir: Option<&str>) -> (r:
    Plan<ExecRequest>)
    ensures
        !enable_console ==> r.refuses("Console is not enabled"@),
        enable_console && !logged_in ==> r.refuses(not_logged_in()),
        enable_console && logged_in ==> (r matches Plan::Proceed(run) && run.terminal@
            == main_terminal_name() && run.program@ == "bash"@ && run.args@.len() == 0 && run.cwd@
            == match current_dir {
            Some(d) => d@,
            None => "/"@,
        }),
{
    if !enable_console {
        return Plan::Reply(error_response("Console is not enabled"));
    }
    if !logged_in {
        return Plan::Reply(error_response("Not logged in"));
    }
    let cwd = match current_dir {
        Some(d) => owned(d),
        None => owned("/"),
    };
    Plan::Proceed(
        ExecRequest {
            terminal: owned("main-terminal"),
            program: owned("bash"),
            args: Vec::new(),
            cwd,
        },
    )
}

/// `checkMainTerminal`: whether the console is enabled.
pub fn check_main_terminal(enable_console: bool) -> (r: Ack)
    ensures
        r.ok == Some(enable_console),
        r.msg is None,
        r.payload@.len() == 0,
{
    Ack { ok: Some(enable_console), msg: None, msgi18n: false, payload: Vec::new() }
}

/// The answer once a persistent terminal has been spawned, or could not
/// be: `what` names the terminal in the failure.
pub fn spawn_reply(spawned: &Result<(), String>, what: &str) -> (r: Ack)
    ensures
        match *spawned {
            Ok(_) => r.is_bare_ok(),
            Err(e) => r.is_error("Failed to spawn "@ + what@ + ": "@ + e@),
        },
{
    match spawned {
        Ok(_) => ok_response(),
        Err(e) => {
            let mut v = crate::text::chars_of("Failed to spawn ");
            crate::text::extend_str(&mut v, what);
            crate::text::extend_str(&mut v, ": ");
            crate::text::extend_str(&mut v, e.as_str());
            error_response(crate::text::string_of(&v).as_str())
        },
    }
}

/// The exit code that subscribers are told when a persistent terminal
/// ends: the published one, or 0 where none was published.
pub fn terminal_exit_code(exit: Option<i32>) -> (r: i32)
    ensures
        r == match exit {
            Some(code) => code,
            None => 0i32,
        },
{
    match exit {
        Some(code) => code,
        None => 0,
    }
}

} // verus!
