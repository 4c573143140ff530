//! The list of stacks, put together from the directories below the stacks
//! root and the container engine's project listing; the status of the
//! services of one stack; and the dry run that checks a compose document.

use crate::error::{AppError, AppResult};
use crate::keyed::{as_map, distinct_keys, find_key, key_index, put_distinct, remove_key};
use crate::pieces::{blank, is_blank, lines, lines_of, str_views, trim, trimmed, views};
use crate::stack::{
    accepted_compose_file_names, compose_file_names, Disk, first_present, Stack, StackDir,
    StackView,
};
use crate::status::{CREATED_FILE, UNKNOWN, status_convert, status_of};
use crate::text::{chars_of, find, find_in, owned, slice, starts_with, str_eq, string_of};
use vstd::prelude::*;

verus! {

/// One project of the engine's listing.
#[derive(Debug, Clone, PartialEq)]
pub struct ComposeLsEntry {
    pub name: String,
    pub status: String,
    pub config_files: Option<String>,
}

/// One container of a stack, as the engine reports it.
#[derive(Debug, Clone, PartialEq)]
pub struct ComposePsEntry {
    pub service: String,
    pub state: String,
    pub name: String,
    pub health: String,
    pub image: String,
}

/// What the status list tells of one container.
#[derive(Debug, Clone, PartialEq)]
pub struct ServiceStatus {
    pub status: String,
    pub name: String,
    pub image: String,
}

/// What the status list tells of one container, as texts.
pub struct ServiceStatusView {
    pub status: Seq<char>,
    pub name: Seq<char>,
    pub image: Seq<char>,
}

impl View for ServiceStatus {
    type V = ServiceStatusView;

    open spec fn view(&self) -> ServiceStatusView {
        ServiceStatusView { status: self.status@, name: self.name@, image: self.image@ }
    }
}

/// A stack that is not there.
pub open spec fn stack_not_found() -> Seq<char> {
    "Stack not found"@
}

// ---------------------------------------------------------------------------
// The stack list
// ---------------------------------------------------------------------------

/// The stacks of a list by name.
pub open spec fn stack_map(list: Seq<(String, Stack)>) -> Map<Seq<char>, StackView> {
    Map::new(
        |name: Seq<char>| as_map(list).dom().contains(name),
        |name: Seq<char>| as_map(list)[name]@,
    )
}

/// A directory holds a stack when it holds a compose file of an accepted name.
pub open spec fn has_compose(d: Disk) -> bool {
    d.first_present(compose_file_names()) is Some
}

/// The stack that a directory with a compose file gives.
pub open spec fn on_disk(root: Seq<char>, name: Seq<char>, d: Disk) -> StackView {
    StackView { status: CREATED_FILE as int, managed: true, ..StackView::fresh(name, root) }.loaded(
        d,
    )
}

/// The stacks found below the stacks root: one for every directory that
/// holds a compose file.
pub open spec fn scanned(root: Seq<char>, dirs: Seq<(String, StackDir)>) -> Map<
    Seq<char>,
    StackView,
>
    decreases dirs.len(),
{
    if dirs.len() == 0 {
        Map::empty()
    } else {
        let m = scanned(root, dirs.drop_last());
        let last = dirs.last();
        if has_compose(last.1@) {
            m.insert(last.0@, on_disk(root, last.0@, last.1@))
        } else {
            m
        }
    }
}

/// The stack that a project of the listing is merged into: the one found on
/// disk, or a fresh one, which is managed if its directory is there.
pub open spec fn merge_base(
    root: Seq<char>,
    dirs: Seq<(String, StackDir)>,
    m: Map<Seq<char>, StackView>,
    name: Seq<char>,
) -> StackView {
    if m.dom().contains(name) {
        m[name]
    } else {
        StackView { managed: key_index(dirs, name) is Some, ..StackView::fresh(name, root) }
    }
}

/// The stacks after the engine's listing has been merged in, entry by
/// entry: a project takes status and configuration path from the listing;
/// the project `dockge` leaves the list unless it is managed.
pub open spec fn merged(
    root: Seq<char>,
    dirs: Seq<(String, StackDir)>,
    m: Map<Seq<char>, StackView>,
    listing: Seq<ComposeLsEntry>,
) -> Map<Seq<char>, StackView>
    decreases listing.len(),
{
    if listing.len() == 0 {
        m
    } else {
        let m1 = merged(root, dirs, m, listing.drop_last());
        let e = listing.last();
        let base = merge_base(root, dirs, m1, e.name@);
        if e.name@ == "dockge"@ && !base.managed {
            m1.remove(e.name@)
        } else {
            m1.insert(
                e.name@,
                StackView {
                    status: status_of(e.status@),
                    config_file_path: crate::text::opt_view(e.config_files),
                    ..base
                },
            )
        }
    }
}

/// The list of stacks for a stacks root with these directories and this
/// listing of the engine.
pub open spec fn listed(
    root: Seq<char>,
    dirs: Seq<(String, StackDir)>,
    listing: Seq<ComposeLsEntry>,
) -> Map<Seq<char>, StackView> {
    merged(root, dirs, scanned(root, dirs), listing)
}

/// The status of a stack whose directory is there: the one that the last
/// entry of the listing under its name gives; without such an entry, that
/// of a stack with a compose file where there is one, else unknown.
pub open spec fn status_in(listing: Seq<ComposeLsEntry>, name: Seq<char>, d: Disk) -> int
    decreases listing.len(),
{
    if listing.len() == 0 {
        if has_compose(d) {
            CREATED_FILE as int
        } else {
            UNKNOWN as int
        }
    } else if listing.last().name@ == name {
        status_of(listing.last().status@)
    } else {
        status_in(listing.drop_last(), name, d)
    }
}

proof fn lemma_stack_map_insert(
    before: Seq<(String, Stack)>,
    after: Seq<(String, Stack)>,
    name: Seq<char>,
    stack: Stack,
)
    requires
        as_map(after) == as_map(before).insert(name, stack),
    ensures
        stack_map(after) == stack_map(before).insert(name, stack@),
{
    assert(stack_map(after) =~= stack_map(before).insert(name, stack@));
}

proof fn lemma_stack_map_remove(
    before: Seq<(String, Stack)>,
    after: Seq<(String, Stack)>,
    name: Seq<char>,
)
    requires
        as_map(after) == as_map(before).remove(name),
    ensures
        stack_map(after) == stack_map(before).remove(name),
{
    assert(stack_map(after) =~= stack_map(before).remove(name));
}

impl Stack {
    /// The list of stacks: every directory below the stacks root that holds
    /// a compose file, with the status that the engine's listing gives it,
    /// and every other project of that listing. `dirs` are the directories
    /// below the stacks root, by name; `listing` is what the engine lists,
    /// empty where it could not be asked.
    pub fn get_stack_list(
        stacks_dir: &str,
        dirs: &Vec<(String, StackDir)>,
        listing: &Vec<ComposeLsEntry>,
    ) -> (r: Vec<(String, Stack)>)
        ensures
            distinct_keys(r@),
            stack_map(r@) == listed(stacks_dir@, dirs@, listing@),
    {
        let names = accepted_compose_file_names();
        let mut out: Vec<(String, Stack)> = Vec::new();
        let mut i: usize = 0;
        assert(dirs@.take(0) =~= Seq::empty());
        assert(stack_map(out@) =~= Map::empty());
        while i < dirs.len()
            invariant
                i <= dirs.len(),
                crate::stack::name_texts(names@) == compose_file_names(),
                distinct_keys(out@),
                stack_map(out@) == scanned(stacks_dir@, dirs@.take(i as int)),
            decreases dirs.len() - i,
        {
            assert(dirs@.take(i + 1).drop_last() == dirs@.take(i as int));
            assert(dirs@.take(i + 1).last() == dirs@[i as int]);
            let dir = &dirs[i].1;
            if first_present(dir, &names).is_some() {
                let name = dirs[i].0.clone();
                let mut stack = Stack::new(dirs[i].0.clone(), owned(stacks_dir));
                stack.status = CREATED_FILE;
                stack.managed = true;
                stack.load_from_disk(dir);
                let ghost before = out@;
                put_distinct(&mut out, name, stack);
                proof {
                    lemma_stack_map_insert(before, out@, dirs@[i as int].0@, stack);
                }
            }
            i = i + 1;
        }
        assert(dirs@.take(dirs.len() as int) == dirs@);
        let ghost base = scanned(stacks_dir@, dirs@);
        let mut j: usize = 0;
        assert(listing@.take(0) =~= Seq::empty());
        while j < listing.len()
            invariant
                j <= listing.len(),
                distinct_keys(out@),
                base == scanned(stacks_dir@, dirs@),
                stack_map(out@) == merged(stacks_dir@, dirs@, base, listing@.take(j as int)),
            decreases listing.len() - j,
        {
            assert(listing@.take(j + 1).drop_last() == listing@.take(j as int));
            assert(listing@.take(j + 1).last() == listing@[j as int]);
            let entry = &listing[j];
            let ghost before = out@;
            let mut stack = match remove_key(&mut out, entry.name.as_str()) {
                Some(s) => s,
                None => {
                    let mut s = Stack::new(entry.name.clone(), owned(stacks_dir));
                    s.managed = find_key(dirs, entry.name.as_str()).is_some();
                    s
                },
            };
            assert(stack@ == merge_base(stacks_dir@, dirs@, stack_map(before), entry.name@));
            proof {
                lemma_stack_map_remove(before, out@, entry.name@);
            }
            if str_eq(entry.name.as_str(), "dockge") && !stack.is_managed_by_dockge() {
            } else {
                stack.status = status_convert(entry.status.as_str());
                stack.config_file_path = match &entry.config_files {
                    Some(p) => Some(p.clone()),
                    None => None,
                };
                let ghost mid = out@;
                put_distinct(&mut out, entry.name.clone(), stack);
                proof {
                    lemma_stack_map_insert(mid, out@, entry.name@, stack);
                    assert(stack_map(before).remove(entry.name@).insert(entry.name@, stack@)
                        =~= stack_map(before).insert(entry.name@, stack@));
                }
            }
            j = j + 1;
        }
        assert(listing@.take(listing.len() as int) == listing@);
        out
    }

    /// The stack of that name if its directory is there: read from the
    /// directory, managed, with the status that the engine's listing gives
    /// it. `None` tells the caller to look the name up in the stack list.
    pub fn get_stack(
        stacks_dir: &str,
        name: &str,
        dir: &StackDir,
        listing: &Vec<ComposeLsEntry>,
    ) -> (r: Option<Stack>)
        ensures
            match r {
                Some(s) => dir.exists && s@ == StackView::read(
                    name@,
                    stacks_dir@,
                    dir@,
                    status_in(listing@, name@, dir@),
                ),
                None => !dir.exists,
            },
    {
        if dir.exists {
            let names = accepted_compose_file_names();
            let mut stack = Stack::new(owned(name), owned(stacks_dir));
            stack.managed = true;
            stack.status = if first_present(dir, &names).is_some() {
                CREATED_FILE
            } else {
                UNKNOWN
            };
            let mut i: usize = 0;
            assert(listing@.take(0) =~= Seq::empty());
            while i < listing.len()
                invariant
                    i <= listing.len(),
                    stack@ == (StackView {
                        managed: true,
                        status: status_in(listing@.take(i as int), name@, dir@),
                        ..StackView::fresh(name@, stacks_dir@)
                    }),
                decreases listing.len() - i,
            {
                assert(listing@.take(i + 1).drop_last() == listing@.take(i as int));
                assert(listing@.take(i + 1).last() == listing@[i as int]);
                if str_eq(listing[i].name.as_str(), name) {
                    stack.status = status_convert(listing[i].status.as_str());
                }
                i = i + 1;
            }
            assert(listing@.take(listing.len() as int) == listing@);
            stack.load_from_disk(dir);
            Some(stack)
        } else {
            None
        }
    }

    /// The stack of that name out of a stack list; not found where the list
    /// has none.
    pub fn find_stack(list: Vec<(String, Stack)>, name: &str) -> (r: AppResult<Stack>)
        requires
            distinct_keys(list@),
        ensures
            match r {
                Ok(s) => stack_map(list@).dom().contains(name@) && s@ == stack_map(list@)[name@],
                Err(e) => !stack_map(list@).dom().contains(name@) && (e matches AppError::NotFound(
                    msg,
                ) && msg@ == stack_not_found()),
            },
    {
        let mut list = list;
        match remove_key(&mut list, name) {
            Some(s) => Ok(s),
            None => Err(AppError::NotFound(owned("Stack not found"))),
        }
    }
}

/// The arguments that ask the engine for its projects.
pub open spec fn compose_ls_args() -> Seq<Seq<char>> {
    seq!["compose"@, "ls"@, "--all"@, "--format"@, "json"@]
}

/// The arguments that ask the engine for its projects.
pub fn get_compose_ls_status() -> (r: Vec<String>)
    ensures
        str_views(r@) == compose_ls_args(),
{
    let mut r: Vec<String> = Vec::new();
    r.push(owned("compose"));
    r.push(owned("ls"));
    r.push(owned("--all"));
    r.push(owned("--format"));
    r.push(owned("json"));
    assert(str_views(r@) =~= compose_ls_args());
    r
}

/// The failure to report when the engine's listing cannot be read:
/// `reason` is the reader's complaint, `output` what the engine printed.
pub fn compose_ls_failure(reason: &str, output: &str) -> (r: AppError)
    ensures
        r matches AppError::Internal(msg) && msg@ == "Failed to parse compose ls: "@ + reason@
            + " (output: "@ + output@ + ")"@,
{
    let mut v = chars_of("Failed to parse compose ls: ");
    crate::text::extend_str(&mut v, reason);
    crate::text::extend_str(&mut v, " (output: ");
    crate::text::extend_str(&mut v, output);
    crate::text::extend_str(&mut v, ")");
    AppError::Internal(string_of(&v))
}

// ---------------------------------------------------------------------------
// The status of the services
// ---------------------------------------------------------------------------

/// The views of a sequence of container statuses.
pub open spec fn status_views(list: Seq<ServiceStatus>) -> Seq<ServiceStatusView> {
    Seq::new(list.len(), |i: int| list[i]@)
}

/// The containers of a status list by service.
pub open spec fn service_map(list: Seq<(String, Vec<ServiceStatus>)>) -> Map<
    Seq<char>,
    Seq<ServiceStatusView>,
> {
    Map::new(
        |name: Seq<char>| as_map(list).dom().contains(name),
        |name: Seq<char>| status_views(as_map(list)[name]@),
    )
}

/// What the status list tells of a container: its health where the engine
/// reports one, else its state.
pub open spec fn status_of_entry(entry: ComposePsEntry) -> ServiceStatusView {
    ServiceStatusView {
        status: if entry.health@.len() == 0 {
            entry.state@
        } else {
            entry.health@
        },
        name: entry.name@,
        image: entry.image@,
    }
}

/// The containers listed so far under a service.
pub open spec fn listed_under(
    m: Map<Seq<char>, Seq<ServiceStatusView>>,
    service: Seq<char>,
) -> Seq<ServiceStatusView> {
    if m.dom().contains(service) {
        m[service]
    } else {
        Seq::empty()
    }
}

/// The status list of the containers: under every service its containers,
/// in the order in which the engine reported them.
pub open spec fn grouped(entries: Seq<ComposePsEntry>) -> Map<Seq<char>, Seq<ServiceStatusView>>
    decreases entries.len(),
{
    if entries.len() == 0 {
        Map::empty()
    } else {
        let m = grouped(entries.drop_last());
        let e = entries.last();
        m.insert(e.service@, listed_under(m, e.service@).push(status_of_entry(e)))
    }
}

/// Adds a container to the status list, behind the others of its service.
pub fn add_ps_entry(status_list: &mut Vec<(String, Vec<ServiceStatus>)>, entry: ComposePsEntry)
    requires
        distinct_keys(old(status_list)@),
    ensures
        distinct_keys(final(status_list)@),
        service_map(final(status_list)@) == service_map(old(status_list)@).insert(
            entry.service@,
            listed_under(service_map(old(status_list)@), entry.service@).push(
                status_of_entry(entry),
            ),
        ),
{
    let ghost before = status_list@;
    let ghost want = listed_under(service_map(before), entry.service@).push(
        status_of_entry(entry),
    );
    let status = if entry.health.as_str().is_empty() {
        entry.state
    } else {
        entry.health
    };
    let value = ServiceStatus { status, name: entry.name, image: entry.image };
    assert(value@ == status_of_entry(entry));
    let mut containers = match remove_key(status_list, entry.service.as_str()) {
        Some(c) => c,
        None => Vec::new(),
    };
    let ghost mid = status_list@;
    assert(status_views(containers@) =~= listed_under(service_map(before), entry.service@));
    proof {
        assert(status_views(containers@.push(value)) =~= want);
    }
    containers.push(value);
    put_distinct(status_list, entry.service, containers);
    proof {
        assert(service_map(status_list@) =~= service_map(before).insert(entry.service@, want));
    }
}

impl Stack {
    /// The status list of a stack's containers, by service.
    pub fn get_service_status_list(entries: Vec<ComposePsEntry>) -> (r: Vec<
        (String, Vec<ServiceStatus>),
    >)
        ensures
            distinct_keys(r@),
            service_map(r@) == grouped(entries@),
    {
        let ghost all = entries@;
        let mut out: Vec<(String, Vec<ServiceStatus>)> = Vec::new();
        let mut stack = crate::lists::reversed(entries);
        let ghost mut done: int = 0;
        assert(all.take(0) =~= Seq::empty());
        assert(service_map(out@) =~= Map::empty());
        while stack.len() > 0
            invariant
                0 <= done,
                done + stack@.len() == all.len(),
                forall|k: int| 0 <= k < stack@.len() ==> stack@[k] == all[all.len() - 1 - k],
                distinct_keys(out@),
                service_map(out@) == grouped(all.take(done)),
            decreases stack.len(),
        {
            let e = stack.pop().unwrap();
            assert(e == all[done]);
            assert(all.take(done + 1).drop_last() == all.take(done));
            assert(all.take(done + 1).last() == all[done]);
            add_ps_entry(&mut out, e);
            proof {
                done = done + 1;
            }
        }
        assert(all.take(all.len() as int) == all);
        out
    }
}

/// The lines of the engine's output that hold something: a line of white
/// space only is passed over.
pub open spec fn filled_lines(ls: Seq<Seq<char>>) -> Seq<Seq<char>>
    decreases ls.len(),
{
    if ls.len() == 0 {
        Seq::empty()
    } else if is_blank(ls.last()) {
        filled_lines(ls.drop_last())
    } else {
        filled_lines(ls.drop_last()).push(ls.last())
    }
}

/// The lines of the engine's output that are to be read as JSON, each an
/// object or an array of objects.
pub fn ps_lines(stdout: &str) -> (r: Vec<String>)
    ensures
        str_views(r@) == filled_lines(lines(stdout@)),
{
    let text = chars_of(stdout);
    let ls = lines_of(&text);
    let mut out: Vec<String> = Vec::new();
    let mut i: usize = 0;
    assert(views(ls@).take(0) =~= Seq::empty());
    assert(str_views(out@) =~= Seq::empty());
    while i < ls.len()
        invariant
            i <= ls.len(),
            views(ls@) == lines(stdout@),
            str_views(out@) == filled_lines(views(ls@).take(i as int)),
        decreases ls.len() - i,
    {
        assert(views(ls@).take(i + 1).drop_last() == views(ls@).take(i as int));
        assert(views(ls@).take(i + 1).last() == ls@[i as int]@);
        if !blank(&ls[i]) {
            let line = string_of(&ls[i]);
            assert(str_views(out@.push(line)) =~= str_views(out@).push(ls@[i as int]@));
            out.push(line);
        }
        i = i + 1;
    }
    assert(views(ls@).take(ls.len() as int) == views(ls@));
    out
}

// ---------------------------------------------------------------------------
// The dry run
// ---------------------------------------------------------------------------

/// The arguments of the dry run: `compose -f <file> [--env-file .env] config --dry-run`.
pub open spec fn dry_run_args(compose_file_name: Seq<char>, with_env: bool) -> Seq<Seq<char>> {
    seq!["compose"@, "-f"@, compose_file_name] + (if with_env {
        seq!["--env-file"@, ".env"@]
    } else {
        Seq::empty()
    }) + seq!["config"@, "--dry-run"@]
}

/// What the dry run reports as wrong: the engine's complaint, trimmed,
/// without the engine's own introduction up to the first colon and space
/// where it begins with `validating `; or a standard text where the engine
/// said nothing.
pub open spec fn dry_run_complaint(stderr: Seq<char>) -> Seq<char> {
    let t = trim(stderr);
    let cut = match find(t, ": "@) {
        Some(i) => if "validating "@.is_prefix_of(t) {
            t.skip(i + 2)
        } else {
            t
        },
        None => t,
    };
    if cut.len() == 0 {
        "Docker compose validation failed"@
    } else {
        cut
    }
}

/// What a dry run of a compose document needs: the files to put into an
/// empty directory, and the arguments to run the engine with there.
#[derive(Debug, Clone, PartialEq)]
pub struct DryRun {
    pub files: Vec<(String, String)>,
    pub args: Vec<String>,
}

/// Prepares the dry run that lets the engine check a compose document.
/// The environment goes along unless it is blank.
pub fn validate_with_docker(compose_yaml: &str, compose_env: &str, compose_file_name: &str) -> (r:
    DryRun)
    ensures
        str_views(r.args@) == dry_run_args(compose_file_name@, !is_blank(compose_env@)),
        r.files@.len() == if is_blank(compose_env@) {
            1nat
        } else {
            2nat
        },
        r.files@[0].0@ == compose_file_name@ && r.files@[0].1@ == compose_yaml@,
        !is_blank(compose_env@) ==> r.files@[1].0@ == ".env"@ && r.files@[1].1@ == compose_env@,
{
    let env = chars_of(compose_env);
    let has_env = !blank(&env);
    let mut files: Vec<(String, String)> = Vec::new();
    files.push((owned(compose_file_name), owned(compose_yaml)));
    if has_env {
        files.push((owned(".env"), owned(compose_env)));
    }
    let mut args: Vec<String> = Vec::new();
    args.push(owned("compose"));
    args.push(owned("-f"));
    args.push(owned(compose_file_name));
    if has_env {
        args.push(owned("--env-file"));
        args.push(owned(".env"));
    }
    args.push(owned("config"));
    args.push(owned("--dry-run"));
    assert(str_views(args@) =~= dry_run_args(compose_file_name@, has_env));
    DryRun { files, args }
}

/// The outcome of the dry run: fine if the engine succeeded, else a
/// validation error with the engine's complaint.
pub fn dry_run_outcome(success: bool, stderr: &str) -> (r: AppResult<()>)
    ensures
        match r {
            Ok(_) => success,
            Err(e) => !success && (e matches AppError::Validation(msg) && msg@
                == dry_run_complaint(stderr@)),
        },
{
    if success {
        return Ok(());
    }
    let raw = chars_of(stderr);
    let t = trimmed(&raw);
    let sep = chars_of(": ");
    let intro = chars_of("validating ");
    proof {
        reveal_strlit(": ");
    }
    let cut = match find_in(&t, &sep) {
        Some(idx) => if starts_with(&t, &intro) {
            slice(&t, idx + 2, t.len())
        } else {
            t
        },
        None => t,
    };
    if cut.len() == 0 {
        Err(AppError::Validation(owned("Docker compose validation failed")))
    } else {
        Err(AppError::Validation(string_of(&cut)))
    }
}

} // verus!
