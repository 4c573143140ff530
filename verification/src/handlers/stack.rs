//! The stack lifecycle: list, read, save, deploy, start, stop, restart,
//! down, update and delete a stack, and the operations on single services.

use crate::codec::{parse_yaml, yaml_document};
use crate::decimal::{push_signed_decimal, signed_decimal};
use crate::error::{
    Ack, AppError, error_reply, error_response, ExecRequest, not_logged_in, ok_response_i18n, Plan,
};
use crate::json::{arg_flag, arg_text, first_text, first_text_arg, flag_arg, JsonValue, text_arg};
use crate::keyed::{as_map, value_of};
use crate::pieces::str_views;
use crate::stack::{Stack, StackView};
use crate::stack_list::{ServiceStatus, ServiceStatusView, status_views};
use crate::state::AppState;
use crate::terminal::{
    combined_terminal_name, compose_terminal_name, get_combined_terminal_name,
    get_compose_terminal_name,
};
use crate::text::{chars_of, extend_str, glue, owned, str_eq, string_of};
use crate::update_checker::member_text;
use vstd::prelude::*;

verus! {

/// The program that every compose command runs.
pub open spec fn engine() -> Seq<char> {
    "docker"@
}

/// The arguments behind `up` when a whole stack is started.
pub open spec fn up_args() -> Seq<Seq<char>> {
    seq!["-d"@, "--remove-orphans"@]
}

/// `(exit code N)` behind a text.
pub open spec fn with_exit_code(text: Seq<char>, code: int) -> Seq<char> {
    text + " (exit code "@ + signed_decimal(code) + ")"@
}

fn exit_code_text(text: &str, code: i32) -> (r: String)
    ensures
        r@ == with_exit_code(text@, code as int),
{
    let mut v = chars_of(text);
    extend_str(&mut v, " (exit code ");
    push_signed_decimal(&mut v, code as i64);
    extend_str(&mut v, ")");
    string_of(&v)
}

fn strings(items: &Vec<&'static str>) -> (r: Vec<String>)
    ensures
        str_views(r@) == crate::stack::name_texts(items@),
{
    let mut r: Vec<String> = Vec::new();
    let mut i: usize = 0;
    while i < items.len()
        invariant
            i <= items.len(),
            r@.len() == i,
            forall|k: int| 0 <= k < i ==> (#[trigger] r@[k])@ == items@[k]@,
        decreases items.len() - i,
    {
        r.push(owned(items[i]));
        i = i + 1;
    }
    assert(str_views(r@) =~= crate::stack::name_texts(items@));
    r
}

fn up_extra() -> (r: Vec<String>)
    ensures
        str_views(r@) == up_args(),
{
    let mut r: Vec<String> = Vec::new();
    r.push(owned("-d"));
    r.push(owned("--remove-orphans"));
    assert(str_views(r@) =~= up_args());
    r
}

impl ExecRequest {
    /// The request runs the engine with a compose subcommand for the stack,
    /// in the stack's directory, under the given terminal name.
    pub open spec fn runs_compose(
        &self,
        stack: StackView,
        terminal: Seq<char>,
        command: Seq<char>,
        extra_args: Seq<Seq<char>>,
        global_env: bool,
        local_env: bool,
    ) -> bool {
        &&& self.terminal@ == terminal
        &&& self.program@ == engine()
        &&& str_views(self.args@) == StackView::compose_options(
            command,
            extra_args,
            global_env,
            local_env,
        )
        &&& self.cwd@ == crate::paths::path_join(stack.stacks_dir, stack.name)
    }

    /// The request runs the engine with the given arguments in the stack's
    /// directory, under the given terminal name.
    pub open spec fn runs_engine(
        &self,
        stack: StackView,
        terminal: Seq<char>,
        args: Seq<Seq<char>>,
    ) -> bool {
        &&& self.terminal@ == terminal
        &&& self.program@ == engine()
        &&& str_views(self.args@) == args
        &&& self.cwd@ == crate::paths::path_join(stack.stacks_dir, stack.name)
    }
}

/// The command that runs a compose subcommand for a stack under a terminal
/// name.
pub fn compose_run(
    stack: &Stack,
    terminal: String,
    command: &str,
    extra_args: &Vec<String>,
    global_env: bool,
    local_env: bool,
) -> (r: ExecRequest)
    ensures
        r.runs_compose(
            stack@,
            terminal@,
            command@,
            str_views(extra_args@),
            global_env,
            local_env,
        ),
{
    ExecRequest {
        terminal,
        program: owned("docker"),
        args: stack.get_compose_options(command, extra_args, global_env, local_env),
        cwd: stack.path(),
    }
}

// ---------------------------------------------------------------------------
// requestStackList, getStack
// ---------------------------------------------------------------------------

/// `requestStackList`: with a session, the stack cache is refreshed and
/// broadcast, and then `stack_list_updated` answers.
pub fn handle_request_stack_list(logged_in: bool) -> (r: Plan<()>)
    ensures
        logged_in ==> r is Proceed,
        !logged_in ==> r.refuses(not_logged_in()),
{
    if !logged_in {
        return Plan::Reply(error_response("Not logged in"));
    }
    Plan::Proceed(())
}

/// The answer to `requestStackList` after the refresh.
pub fn stack_list_updated() -> (r: Ack)
    ensures
        r.is_ok_i18n("Updated"@),
{
    ok_response_i18n("Updated")
}

/// `getStack`: the name of the stack to read.
pub fn handle_get_stack(logged_in: bool, data: &JsonValue) -> (r: Plan<String>)
    ensures
        !logged_in ==> r.refuses(not_logged_in()),
        logged_in && first_text(*data).len() == 0 ==> r.refuses("Stack name is required"@),
        logged_in && first_text(*data).len() > 0 ==> (r matches Plan::Proceed(name) && name@
            == first_text(*data)),
{
    if !logged_in {
        return Plan::Reply(error_response("Not logged in"));
    }
    let name = first_text_arg(data);
    if name.as_str().is_empty() {
        return Plan::Reply(error_response("Stack name is required"));
    }
    Plan::Proceed(name)
}

/// The host name that clients are told where the setting names none.
pub open spec fn default_hostname() -> Seq<char> {
    "localhost"@
}

/// The primary host name: the setting where it is a string, else `localhost`.
pub open spec fn hostname_of(setting: Option<JsonValue>) -> Seq<char> {
    match setting {
        Some(JsonValue::Str(s)) => s@,
        _ => default_hostname(),
    }
}

/// The primary host name.
pub fn primary_hostname(setting: Option<&JsonValue>) -> (r: String)
    ensures
        r@ == hostname_of(
            match setting {
                Some(v) => Some(*v),
                None => None,
            },
        ),
{
    match setting {
        Some(JsonValue::Str(s)) => s.clone(),
        _ => owned("localhost"),
    }
}

impl Stack {
    /// `v` is the full description of the stack: what the stack list
    /// tells (name, status, started, recreateNecessary,
    /// imageUpdatesAvailable, tags, isManagedByDockge, composeFileName,
    /// composeOverrideFileName, endpoint) and behind it the three texts and
    /// the primary host name.
    pub open spec fn described_by(
        &self,
        v: JsonValue,
        endpoint: Seq<char>,
        recreate_necessary: bool,
        image_updates_available: bool,
        primary_hostname: Seq<char>,
    ) -> bool {
        v matches JsonValue::Object(m) && {
            &&& m@.len() == 14
            &&& m@[0].0@ == "name"@ && m@[0].1.text() == Some(self.name@)
            &&& m@[1].0@ == "status"@
            &&& m@[1].1 matches JsonValue::Number(n) && n@ == signed_decimal(self.status as int)
            &&& m@[2].0@ == "started"@ && m@[2].1 == JsonValue::Bool(
                crate::status::started(self.status as int),
            )
            &&& m@[3].0@ == "recreateNecessary"@ && m@[3].1 == JsonValue::Bool(recreate_necessary)
            &&& m@[4].0@ == "imageUpdatesAvailable"@ && m@[4].1 == JsonValue::Bool(
                image_updates_available,
            )
            &&& m@[5].0@ == "tags"@
            &&& m@[5].1 matches JsonValue::Array(t) && t@.len() == 0
            &&& m@[6].0@ == "isManagedByDockge"@ && m@[6].1 == JsonValue::Bool(self.managed)
            &&& m@[7].0@ == "composeFileName"@ && m@[7].1.text() == Some(self.compose_file_name@)
            &&& m@[8].0@ == "composeOverrideFileName"@ && m@[8].1.text() == Some(
                self.compose_override_file_name@,
            )
            &&& m@[9].0@ == "endpoint"@ && m@[9].1.text() == Some(endpoint)
            &&& m@[10].0@ == "composeYAML"@ && m@[10].1.text() == Some(self.compose_yaml@)
            &&& m@[11].0@ == "composeENV"@ && m@[11].1.text() == Some(self.compose_env@)
            &&& m@[12].0@ == "composeOverrideYAML"@ && m@[12].1.text() == Some(
                self.compose_override_yaml@,
            )
            &&& m@[13].0@ == "primaryHostname"@ && m@[13].1.text() == Some(primary_hostname)
        }
    }

    /// The full description of the stack for `getStack`.
    pub fn to_json(
        &self,
        endpoint: &str,
        recreate_necessary: bool,
        image_updates_available: bool,
        primary_hostname: &str,
    ) -> (r: JsonValue)
        ensures
            self.described_by(
                r,
                endpoint@,
                recreate_necessary,
                image_updates_available,
                primary_hostname@,
            ),
    {
        let mut status: Vec<char> = Vec::new();
        push_signed_decimal(&mut status, self.status as i64);
        assert(status@ == signed_decimal(self.status as int)) by {
            assert(Seq::<char>::empty() + signed_decimal(self.status as int) =~= signed_decimal(
                self.status as int,
            ));
        }
        let mut m: Vec<(String, JsonValue)> = Vec::new();
        m.push((owned("name"), JsonValue::Str(self.name.clone())));
        m.push((owned("status"), JsonValue::Number(string_of(&status))));
        m.push((owned("started"), JsonValue::Bool(self.is_started())));
        m.push((owned("recreateNecessary"), JsonValue::Bool(recreate_necessary)));
        m.push((owned("imageUpdatesAvailable"), JsonValue::Bool(image_updates_available)));
        m.push((owned("tags"), JsonValue::Array(Vec::new())));
        m.push((owned("isManagedByDockge"), JsonValue::Bool(self.is_managed_by_dockge())));
        m.push((owned("composeFileName"), JsonValue::Str(self.compose_file_name.clone())));
        m.push(
            (
                owned("composeOverrideFileName"),
                JsonValue::Str(self.compose_override_file_name.clone()),
            ),
        );
        m.push((owned("endpoint"), JsonValue::Str(owned(endpoint))));
        m.push((owned("composeYAML"), JsonValue::Str(self.compose_yaml.clone())));
        m.push((owned("composeENV"), JsonValue::Str(self.compose_env.clone())));
        m.push((owned("composeOverrideYAML"), JsonValue::Str(self.compose_override_yaml.clone())));
        m.push((owned("primaryHostname"), JsonValue::Str(owned(primary_hostname))));
        JsonValue::Object(m)
    }
}

/// What `getStack` answers once the stack has been looked for, and the
/// combined terminal to join: the one of a managed stack, none otherwise.
#[derive(Debug, PartialEq)]
pub struct GetStackReply {
    pub ack: Ack,
    pub join_terminal: Option<String>,
}

/// The answer to `getStack`: the stack's full description with what the
/// caches know of it, or the error that kept it from being read. A managed
/// stack's combined terminal is to be joined.
pub fn get_stack_reply(
    state: &AppState,
    stack_name: &str,
    found: Result<&Stack, &AppError>,
    hostname_setting: Option<&JsonValue>,
) -> (r: GetStackReply)
    ensures
        match found {
            Ok(stack) => {
                &&& r.ack.ok == Some(true)
                &&& r.ack.msg is None
                &&& r.ack.payload@.len() == 1
                &&& !r.ack.msgi18n
                &&& r.ack.payload@[0].0@ == "stack"@
                &&& stack.described_by(
                    r.ack.payload@[0].1,
                    Seq::empty(),
                    crate::state::recreate_flag(state.recreate_cache@, stack_name@),
                    crate::state::updates_flag(state.update_cache@, stack_name@),
                    hostname_of(
                        match hostname_setting {
                            Some(v) => Some(*v),
                            None => None,
                        },
                    ),
                )
                &&& stack.managed ==> (r.join_terminal matches Some(t) && t@
                    == combined_terminal_name(Seq::empty(), stack_name@))
                &&& !stack.managed ==> r.join_terminal is None
            },
            Err(e) => r.ack.is_error(e.explanation_text()) && r.join_terminal is None,
        },
{
    match found {
        Ok(stack) => {
            let host = primary_hostname(hostname_setting);
            let json = stack.to_json(
                "",
                state.recreate_necessary(stack_name),
                state.image_updates_available(stack_name),
                host.as_str(),
            );
            proof {
                reveal_strlit("");
                assert(""@ =~= Seq::<char>::empty());
            }
            let join_terminal = if stack.is_managed_by_dockge() {
                Some(get_combined_terminal_name("", stack_name))
            } else {
                None
            };
            GetStackReply { ack: crate::error::ok_with("stack", json), join_terminal }
        },
        Err(e) => GetStackReply { ack: error_reply(e), join_terminal: None },
    }
}

// ---------------------------------------------------------------------------
// saveStack, deployStack
// ---------------------------------------------------------------------------

/// What `saveStack` and `deployStack` submit.
#[derive(Debug, PartialEq)]
pub struct SaveRequest {
    pub stack: Stack,
    pub is_add: bool,
}

fn save_request(logged_in: bool, data: &JsonValue, stacks_dir: &str) -> (r: Plan<SaveRequest>)
    ensures
        !logged_in ==> r.refuses(not_logged_in()),
        logged_in && !(*data is Array) ==> r.refuses("Invalid data"@),
        logged_in ==> (match *data {
            JsonValue::Array(args) => r matches Plan::Proceed(req) && req.stack@
                == StackView::submitted(
                arg_text(args@, 0),
                stacks_dir@,
                arg_text(args@, 1),
                arg_text(args@, 2),
                arg_text(args@, 3),
            ) && req.is_add == arg_flag(args@, 4),
            _ => true,
        }),
{
    if !logged_in {
        return Plan::Reply(error_response("Not logged in"));
    }
    match data.as_array() {
        Some(args) => {
            let mut stack = Stack::new(text_arg(args, 0), owned(stacks_dir));
            stack.compose_yaml = text_arg(args, 1);
            stack.compose_env = text_arg(args, 2);
            stack.compose_override_yaml = text_arg(args, 3);
            Plan::Proceed(SaveRequest { stack, is_add: flag_arg(args, 4) })
        },
        None => Plan::Reply(error_response("Invalid data")),
    }
}

/// `saveStack(name, compose, env, override, isAdd)`: the stack to save.
/// Nothing is written before `Stack::save` has accepted it.
pub fn handle_save_stack(logged_in: bool, data: &JsonValue, stacks_dir: &str) -> (r: Plan<
    SaveRequest,
>)
    ensures
        !logged_in ==> r.refuses(not_logged_in()),
        logged_in && !(*data is Array) ==> r.refuses("Invalid data"@),
        logged_in ==> (match *data {
            JsonValue::Array(args) => r matches Plan::Proceed(req) && req.stack@
                == StackView::submitted(
                arg_text(args@, 0),
                stacks_dir@,
                arg_text(args@, 1),
                arg_text(args@, 2),
                arg_text(args@, 3),
            ) && req.is_add == arg_flag(args@, 4),
            _ => true,
        }),
{
    save_request(logged_in, data, stacks_dir)
}

/// `deployStack(name, compose, env, override, isAdd)`: the stack to save
/// and then to start.
pub fn handle_deploy_stack(logged_in: bool, data: &JsonValue, stacks_dir: &str) -> (r: Plan<
    SaveRequest,
>)
    ensures
        !logged_in ==> r.refuses(not_logged_in()),
        logged_in && !(*data is Array) ==> r.refuses("Invalid data"@),
        logged_in ==> (match *data {
            JsonValue::Array(args) => r matches Plan::Proceed(req) && req.stack@
                == StackView::submitted(
                arg_text(args@, 0),
                stacks_dir@,
                arg_text(args@, 1),
                arg_text(args@, 2),
                arg_text(args@, 3),
            ) && req.is_add == arg_flag(args@, 4),
            _ => true,
        }),
{
    save_request(logged_in, data, stacks_dir)
}

/// What an event answers, and whether the stack cache is to be refreshed
/// and broadcast before the answer goes out.
#[derive(Debug, PartialEq)]
pub struct Outcome {
    pub ack: Ack,
    pub refresh: bool,
}

/// The answer to `saveStack` once the files are written, or were not.
pub fn save_reply(saved: Result<(), &AppError>) -> (r: Outcome)
    ensures
        match saved {
            Ok(_) => r.ack.is_ok_i18n("Saved"@) && r.refresh,
            Err(e) => r.ack.is_error(e.explanation_text()) && !r.refresh,
        },
{
    match saved {
        Ok(_) => Outcome { ack: ok_response_i18n("Saved"), refresh: true },
        Err(e) => Outcome { ack: error_reply(e), refresh: false },
    }
}

/// The command that starts a deployed stack: `compose up -d
/// --remove-orphans` in the stack's compose terminal.
pub fn deploy_run(stack: &Stack, endpoint: &str, global_env: bool, local_env: bool) -> (r:
    ExecRequest)
    ensures
        r.runs_compose(
            stack@,
            compose_terminal_name(endpoint@, stack.name@),
            "up"@,
            up_args(),
            global_env,
            local_env,
        ),
{
    let extra = up_extra();
    compose_run(
        stack,
        get_compose_terminal_name(endpoint, stack.name.as_str()),
        "up",
        &extra,
        global_env,
        local_env,
    )
}

/// The answer to `deployStack` once the command has ended: deployed on
/// exit code 0, and then the cache is refreshed and the combined terminal
/// joined; any other code, or a command that could not run, is a failure.
pub fn deploy_reply(exit: &Result<i32, String>) -> (r: Outcome)
    ensures
        match *exit {
            Ok(code) => if code == 0 {
                r.ack.is_ok_i18n("Deployed"@) && r.refresh
            } else {
                r.ack.is_error(with_exit_code("Failed to deploy"@, code as int)) && !r.refresh
            },
            Err(e) => r.ack.is_error(e@) && !r.refresh,
        },
{
    match exit {
        Ok(code) => {
            if *code == 0 {
                Outcome { ack: ok_response_i18n("Deployed"), refresh: true }
            } else {
                let msg = exit_code_text("Failed to deploy", *code);
                Outcome { ack: error_response(msg.as_str()), refresh: false }
            }
        },
        Err(e) => Outcome { ack: error_response(e.as_str()), refresh: false },
    }
}

// ---------------------------------------------------------------------------
// startStack, stopStack, restartStack, downStack
// ---------------------------------------------------------------------------

/// A compose subcommand on a whole stack.
#[derive(Clone, Copy, Debug, PartialEq, Eq, Structural)]
pub enum ComposeAction {
    Up,
    Stop,
    Restart,
    Down,
}

impl ComposeAction {
    /// The subcommand.
    pub open spec fn command(self) -> Seq<char> {
        match self {
            ComposeAction::Up => "up"@,
            ComposeAction::Stop => "stop"@,
            ComposeAction::Restart => "restart"@,
            ComposeAction::Down => "down"@,
        }
    }

    /// The arguments behind the subcommand.
    pub open spec fn extra(self) -> Seq<Seq<char>> {
        match self {
            ComposeAction::Up => up_args(),
            _ => Seq::empty(),
        }
    }

    /// The word that reports success.
    pub open spec fn done(self) -> Seq<char> {
        match self {
            ComposeAction::Up => "Started"@,
            ComposeAction::Stop => "Stopped"@,
            ComposeAction::Restart => "Restarted"@,
            ComposeAction::Down => "Downed"@,
        }
    }

    /// The subcommand.
    pub fn name(self) -> (r: &'static str)
        ensures
            r@ == self.command(),
    {
        match self {
            ComposeAction::Up => "up",
            ComposeAction::Stop => "stop",
            ComposeAction::Restart => "restart",
            ComposeAction::Down => "down",
        }
    }
}

/// `startStack`, `stopStack`, `restartStack`, `downStack`: the name of the
/// stack to act on.
pub fn handle_compose_action(logged_in: bool, data: &JsonValue) -> (r: Plan<String>)
    ensures
        !logged_in ==> r.refuses(not_logged_in()),
        logged_in && first_text(*data).len() == 0 ==> r.refuses("Stack name is required"@),
        logged_in && first_text(*data).len() > 0 ==> (r matches Plan::Proceed(name) && name@
            == first_text(*data)),
{
    handle_get_stack(logged_in, data)
}

/// The command of a compose action, in the stack's compose terminal: two
/// actions on one stack share the name, so the second is refused while the
/// first runs.
pub fn compose_action_run(
    stack: &Stack,
    endpoint: &str,
    action: ComposeAction,
    global_env: bool,
    local_env: bool,
) -> (r: ExecRequest)
    ensures
        r.runs_compose(
            stack@,
            compose_terminal_name(endpoint@, stack.name@),
            action.command(),
            action.extra(),
            global_env,
            local_env,
        ),
{
    let extra = match action {
        ComposeAction::Up => up_extra(),
        _ => {
            let e: Vec<String> = Vec::new();
            assert(str_views(e@) =~= Seq::empty());
            e
        },
    };
    compose_run(
        stack,
        get_compose_terminal_name(endpoint, stack.name.as_str()),
        action.name(),
        &extra,
        global_env,
        local_env,
    )
}

/// The answer to a compose action once the command has ended. The cache
/// is refreshed and broadcast whatever the outcome.
pub fn compose_action_reply(action: ComposeAction, exit: &Result<i32, String>) -> (r: Outcome)
    ensures
        r.refresh,
        match *exit {
            Ok(code) => if code == 0 {
                r.ack.is_ok_i18n(action.done())
            } else {
                r.ack.is_error(with_exit_code("Failed"@, code as int))
            },
            Err(e) => r.ack.is_error(e@),
        },
{
    let ack = match exit {
        Ok(code) => {
            if *code == 0 {
                match action {
                    ComposeAction::Up => ok_response_i18n("Started"),
                    ComposeAction::Stop => ok_response_i18n("Stopped"),
                    ComposeAction::Restart => ok_response_i18n("Restarted"),
                    ComposeAction::Down => ok_response_i18n("Downed"),
                }
            } else {
                let msg = exit_code_text("Failed", *code);
                error_response(msg.as_str())
            }
        },
        Err(e) => error_response(e.as_str()),
    };
    Outcome { ack, refresh: true }
}

// ---------------------------------------------------------------------------
// updateStack
// ---------------------------------------------------------------------------

/// Where an update of a stack stands.
#[derive(Clone, Copy, Debug, PartialEq, Eq, Structural)]
pub enum UpdatePhase {
    /// Nothing has run yet.
    Start,
    /// `compose pull` has run.
    Pulled,
    /// `compose up` has run.
    Recreated,
    /// `image prune` has run.
    Pruned,
}

/// What an update of a stack does next.
#[derive(Debug, PartialEq)]
pub enum UpdateNext {
    /// Run this command, then come back in the given phase with its outcome.
    Run(ExecRequest, UpdatePhase),
    /// Refresh and broadcast the stack cache if told so, and answer.
    Finish(Outcome),
}

/// `updateStack`: the name of the stack to update. An empty name is passed
/// on and fails when the stack is looked for.
pub fn handle_update_stack(logged_in: bool, data: &JsonValue) -> (r: Plan<String>)
    ensures
        !logged_in ==> r.refuses(not_logged_in()),
        logged_in ==> (r matches Plan::Proceed(name) && name@ == first_text(*data)),
{
    if !logged_in {
        return Plan::Reply(error_response("Not logged in"));
    }
    Plan::Proceed(first_text_arg(data))
}

/// The arguments of the prune that follows an update.
pub open spec fn prune_args() -> Seq<Seq<char>> {
    seq!["image"@, "prune"@, "--all"@, "--force"@]
}

/// The next step of an update. It pulls; if the pull fails it ends with
/// "Failed to pull images". A stack that is not started is done after the
/// pull. A started stack is brought up again under the terminal name with
/// `-up` behind it; if that fails it ends with "Failed to recreate
/// containers"; then images are pruned under the name with `-prune`, and
/// whatever the prune does the update has succeeded.
pub fn update_stack_step(
    stack: &Stack,
    endpoint: &str,
    phase: UpdatePhase,
    exit: &Result<i32, String>,
    global_env: bool,
    local_env: bool,
) -> (r: UpdateNext)
    ensures
        match phase {
            UpdatePhase::Start => r matches UpdateNext::Run(run, next) && next
                == UpdatePhase::Pulled && run.runs_compose(
                stack@,
                compose_terminal_name(endpoint@, stack.name@),
                "pull"@,
                Seq::empty(),
                global_env,
                local_env,
            ),
            UpdatePhase::Pulled => if *exit != Ok::<i32, String>(0) {
                r matches UpdateNext::Finish(o) && o.ack.is_error("Failed to pull images"@)
                    && !o.refresh
            } else if crate::status::started(stack.status as int) {
                r matches UpdateNext::Run(run, next) && next == UpdatePhase::Recreated
                    && run.runs_compose(
                    stack@,
                    compose_terminal_name(endpoint@, stack.name@) + "-up"@,
                    "up"@,
                    up_args(),
                    global_env,
                    local_env,
                )
            } else {
                r matches UpdateNext::Finish(o) && o.ack.is_ok_i18n("Updated "@ + stack.name@)
                    && o.refresh
            },
            UpdatePhase::Recreated => if *exit != Ok::<i32, String>(0) {
                r matches UpdateNext::Finish(o) && o.ack.is_error(
                    "Failed to recreate containers"@,
                ) && !o.refresh
            } else {
                r matches UpdateNext::Run(run, next) && next == UpdatePhase::Pruned
                    && run.runs_engine(
                    stack@,
                    compose_terminal_name(endpoint@, stack.name@) + "-prune"@,
                    prune_args(),
                )
            },
            UpdatePhase::Pruned => r matches UpdateNext::Finish(o) && o.ack.is_ok_i18n(
                "Updated "@ + stack.name@,
            ) && o.refresh,
        },
{
    let base = get_compose_terminal_name(endpoint, stack.name.as_str());
    let ok = match exit {
        Ok(code) => *code == 0,
        Err(_) => false,
    };
    match phase {
        UpdatePhase::Start => {
            let none: Vec<String> = Vec::new();
            assert(str_views(none@) =~= Seq::empty());
            UpdateNext::Run(
                compose_run(stack, base, "pull", &none, global_env, local_env),
                UpdatePhase::Pulled,
            )
        },
        UpdatePhase::Pulled => {
            if !ok {
                UpdateNext::Finish(
                    Outcome { ack: error_response("Failed to pull images"), refresh: false },
                )
            } else if stack.is_started() {
                let extra = up_extra();
                UpdateNext::Run(
                    compose_run(
                        stack,
                        glue(base.as_str(), "-up"),
                        "up",
                        &extra,
                        global_env,
                        local_env,
                    ),
                    UpdatePhase::Recreated,
                )
            } else {
                UpdateNext::Finish(updated(stack.name.as_str()))
            }
        },
        UpdatePhase::Recreated => {
            if !ok {
                UpdateNext::Finish(
                    Outcome {
                        ack: error_response("Failed to recreate containers"),
                        refresh: false,
                    },
                )
            } else {
                let mut args: Vec<String> = Vec::new();
                args.push(owned("image"));
                args.push(owned("prune"));
                args.push(owned("--all"));
                args.push(owned("--force"));
                assert(str_views(args@) =~= prune_args());
                UpdateNext::Run(
                    ExecRequest {
                        terminal: glue(base.as_str(), "-prune"),
                        program: owned("docker"),
                        args,
                        cwd: stack.path(),
                    },
                    UpdatePhase::Pruned,
                )
            }
        },
        UpdatePhase::Pruned => UpdateNext::Finish(updated(stack.name.as_str())),
    }
}

fn updated(name: &str) -> (r: Outcome)
    ensures
        r.ack.is_ok_i18n("Updated "@ + name@),
        r.refresh,
{
    let msg = glue("Updated ", name);
    Outcome { ack: ok_response_i18n(msg.as_str()), refresh: true }
}

// ---------------------------------------------------------------------------
// deleteStack, forceDeleteStack
// ---------------------------------------------------------------------------

/// What `deleteStack` and `forceDeleteStack` ask for.
#[derive(Debug, PartialEq)]
pub struct DeleteRequest {
    pub stack_name: String,
    /// Whether the stack's directory goes along.
    pub delete_files: bool,
    pub force: bool,
}

/// Whether the options of `deleteStack` ask for the files to go along.
pub open spec fn wants_files_deleted(data: JsonValue) -> bool {
    match data.element(1) {
        Some(options) => options.member("deleteStackFiles"@) == Some(JsonValue::Bool(true)),
        None => false,
    }
}

/// `deleteStack(name, { deleteStackFiles })` and `forceDeleteStack(name)`:
/// the stack to take down, and whether its directory goes along. A forced
/// delete always takes the directory along.
pub fn handle_delete_stack(logged_in: bool, data: &JsonValue, force: bool) -> (r: Plan<
    DeleteRequest,
>)
    ensures
        !logged_in ==> r.refuses(not_logged_in()),
        logged_in ==> (r matches Plan::Proceed(req) && req.stack_name@ == first_text(*data)
            && req.force == force && req.delete_files == (force || (*data is Array
            && wants_files_deleted(*data)))),
{
    if !logged_in {
        return Plan::Reply(error_response("Not logged in"));
    }
    let stack_name = first_text_arg(data);
    let delete_files = if force {
        true
    } else if data.is_array() {
        match data.at(1) {
            Some(options) => match options.get("deleteStackFiles") {
                Some(JsonValue::Bool(b)) => *b,
                _ => false,
            },
            None => false,
        }
    } else {
        false
    };
    Plan::Proceed(DeleteRequest { stack_name, delete_files, force })
}

/// The arguments behind `down` when a stack is deleted.
pub open spec fn down_args(force: bool) -> Seq<Seq<char>> {
    if force {
        seq!["-v"@, "--remove-orphans"@]
    } else {
        seq!["--remove-orphans"@]
    }
}

/// The command that takes a stack down before it is deleted.
pub fn delete_run(stack: &Stack, endpoint: &str, force: bool, global_env: bool, local_env: bool)
    -> (r: ExecRequest)
    ensures
        r.runs_compose(
            stack@,
            compose_terminal_name(endpoint@, stack.name@),
            "down"@,
            down_args(force),
            global_env,
            local_env,
        ),
{
    let mut extra: Vec<String> = Vec::new();
    if force {
        extra.push(owned("-v"));
    }
    extra.push(owned("--remove-orphans"));
    assert(str_views(extra@) =~= down_args(force));
    compose_run(
        stack,
        get_compose_terminal_name(endpoint, stack.name.as_str()),
        "down",
        &extra,
        global_env,
        local_env,
    )
}

/// The answer to a delete, given what became of removing the files (`Ok`
/// where none were to be removed): deleted, or the failure. The cache is
/// refreshed either way, for `down` has run.
pub fn delete_reply(removed: Result<(), &AppError>) -> (r: Outcome)
    ensures
        r.refresh,
        match removed {
            Ok(_) => r.ack.is_ok_i18n("Deleted"@),
            Err(e) => r.ack.is_error(e.explanation_text()),
        },
{
    match removed {
        Ok(_) => Outcome { ack: ok_response_i18n("Deleted"), refresh: true },
        Err(e) => Outcome { ack: error_reply(e), refresh: true },
    }
}

// ---------------------------------------------------------------------------
// serviceStatusList
// ---------------------------------------------------------------------------

/// `serviceStatusList`: the name of the stack whose services are asked for.
pub fn handle_service_status_list(logged_in: bool, data: &JsonValue) -> (r: Plan<String>)
    ensures
        !logged_in ==> r.refuses(not_logged_in()),
        logged_in ==> (r matches Plan::Proceed(name) && name@ == first_text(*data)),
{
    handle_update_stack(logged_in, data)
}

/// A service needs its container made anew when the compose document names
/// an image for it and its first container reports another one.
pub open spec fn needs_recreate(declared: Option<JsonValue>, containers: Seq<ServiceStatusView>)
    -> bool {
    match declared {
        Some(service) => match member_text(service, "image"@) {
            Some(image) => image.len() > 0 && containers.len() > 0 && containers[0].image.len()
                > 0 && containers[0].image != image,
            None => false,
        },
        None => false,
    }
}

/// The services of a compose document: the members of its mapping
/// `services`; none where the text is no YAML or has no such mapping.
pub open spec fn declared_services(compose_yaml: Seq<char>) -> Option<JsonValue> {
    match yaml_document(compose_yaml) {
        Some(doc) => match doc.member("services"@) {
            Some(JsonValue::Object(m)) => Some(JsonValue::Object(m)),
            _ => None,
        },
        None => None,
    }
}

/// The service declared under a name.
pub open spec fn declared(services: Option<JsonValue>, name: Seq<char>) -> Option<JsonValue> {
    match services {
        Some(s) => s.member(name),
        None => None,
    }
}

/// The services of a status list that need their containers made anew, in
/// the order of the list.
pub open spec fn recreate_list(
    services: Option<JsonValue>,
    status_list: Seq<(String, Vec<ServiceStatus>)>,
) -> Seq<Seq<char>>
    decreases status_list.len(),
{
    if status_list.len() == 0 {
        Seq::empty()
    } else {
        let before = recreate_list(services, status_list.drop_last());
        let last = status_list.last();
        if needs_recreate(declared(services, last.0@), status_views(last.1@)) {
            before.push(last.0@)
        } else {
            before
        }
    }
}

/// What `serviceStatusList` answers: the status list itself is the
/// caller's; with it go the services that have an update and those that
/// need their containers made anew.
#[derive(Debug, PartialEq)]
pub struct ServiceStatusReply {
    /// `serviceRecreateStatus`: every service named here carries `true`.
    pub recreate: Vec<String>,
    /// `serviceUpdateStatus`: for every service of the stack that the
    /// update cache knows, whether it has an update.
    pub updates: Vec<(String, bool)>,
}

fn service_needs_recreate(services: Option<&JsonValue>, name: &str, containers: &Vec<ServiceStatus>)
    -> (r: bool)
    ensures
        r == needs_recreate(
            declared(
                match services {
                    Some(s) => Some(*s),
                    None => None,
                },
                name@,
            ),
            status_views(containers@),
        ),
{
    let service = match services {
        Some(s) => match s.get(name) {
            Some(v) => v,
            None => {
                return false;
            },
        },
        None => {
            return false;
        },
    };
    let image = match service.get("image") {
        Some(v) => match v.as_str() {
            Some(t) => t,
            None => {
                return false;
            },
        },
        None => {
            return false;
        },
    };
    if image.as_str().is_empty() || containers.len() == 0 {
        return false;
    }
    assert(status_views(containers@)[0] == containers@[0]@);
    let running = containers[0].image.as_str();
    !running.is_empty() && !str_eq(running, image.as_str())
}

/// Works out which services of a stack need their containers made anew,
/// records in the recreate cache whether any does, and reads from the
/// update cache which services have an update.
pub fn service_status_reply(
    state: &mut AppState,
    stack: &Stack,
    status_list: &Vec<(String, Vec<ServiceStatus>)>,
) -> (r: ServiceStatusReply)
    requires
        old(state).wf(),
    ensures
        final(state).wf(),
        str_views(r.recreate@) == recreate_list(
            declared_services(stack.compose_yaml@),
            status_list@,
        ),
        as_map(final(state).recreate_cache@) == as_map(old(state).recreate_cache@).insert(
            stack.name@,
            r.recreate@.len() > 0,
        ),
        as_map(r.updates@) == match value_of(old(state).update_cache@, stack.name@) {
            Some(info) => as_map(info.services@),
            None => Map::empty(),
        },
        final(state).update_cache == old(state).update_cache,
        final(state).stack_cache == old(state).stack_cache,
{
    let doc = match parse_yaml(stack.compose_yaml.as_str()) {
        Ok(doc) => Some(doc),
        Err(_) => None,
    };
    let services: Option<&JsonValue> = match &doc {
        Some(d) => match d.get("services") {
            Some(s) => match s {
                JsonValue::Object(_) => Some(s),
                _ => None,
            },
            None => None,
        },
        None => None,
    };
    let ghost declared_all = declared_services(stack.compose_yaml@);
    assert((match services {
        Some(s) => Some(*s),
        None => None,
    }) == declared_all);
    let mut recreate: Vec<String> = Vec::new();
    let mut i: usize = 0;
    assert(status_list@.take(0) =~= Seq::empty());
    assert(str_views(recreate@) =~= Seq::empty());
    while i < status_list.len()
        invariant
            i <= status_list.len(),
            (match services {
                Some(s) => Some(*s),
                None => None,
            }) == declared_all,
            str_views(recreate@) == recreate_list(declared_all, status_list@.take(i as int)),
        decreases status_list.len() - i,
    {
        assert(status_list@.take(i + 1).drop_last() == status_list@.take(i as int));
        assert(status_list@.take(i + 1).last() == status_list@[i as int]);
        if service_needs_recreate(services, status_list[i].0.as_str(), &status_list[i].1) {
            let name = status_list[i].0.clone();
            assert(str_views(recreate@.push(name)) =~= str_views(recreate@).push(name@));
            recreate.push(name);
        }
        i = i + 1;
    }
    assert(status_list@.take(status_list.len() as int) == status_list@);
    state.set_recreate(stack.name.as_str(), recreate.len() > 0);
    let mut updates: Vec<(String, bool)> = Vec::new();
    match crate::keyed::get(&state.update_cache, stack.name.as_str()) {
        Some(info) => {
            let mut k: usize = 0;
            while k < info.services.len()
                invariant
                    k <= info.services.len(),
                    updates@ == info.services@.take(k as int),
                decreases info.services.len() - k,
            {
                updates.push((info.services[k].0.clone(), info.services[k].1));
                assert(updates@ =~= info.services@.take(k + 1));
                k = k + 1;
            }
            assert(info.services@.take(info.services.len() as int) == info.services@);
        },
        None => {
            assert(as_map(updates@) =~= Map::<Seq<char>, bool>::empty());
        },
    }
    ServiceStatusReply { recreate, updates }
}

// ---------------------------------------------------------------------------
// startService, stopService, restartService, updateService
// ---------------------------------------------------------------------------

/// A compose subcommand on one service.
#[derive(Clone, Copy, Debug, PartialEq, Eq, Structural)]
pub enum ServiceAction {
    Up,
    Stop,
    Restart,
}

impl ServiceAction {
    /// The subcommand.
    pub open spec fn command(self) -> Seq<char> {
        match self {
            ServiceAction::Up => "up"@,
            ServiceAction::Stop => "stop"@,
            ServiceAction::Restart => "restart"@,
        }
    }

    /// What follows the subcommand for a service: `up` detaches.
    pub open spec fn extra(self, service: Seq<char>) -> Seq<Seq<char>> {
        match self {
            ServiceAction::Up => seq!["-d"@, service],
            _ => seq![service],
        }
    }

    /// The arguments of the command for a service, with the environment
    /// files that are there.
    pub open spec fn args(self, service: Seq<char>, global_env: bool, local_env: bool) -> Seq<
        Seq<char>,
    > {
        StackView::compose_options(self.command(), self.extra(service), global_env, local_env)
    }

    /// The subcommand.
    pub fn name(self) -> (r: &'static str)
        ensures
            r@ == self.command(),
    {
        match self {
            ServiceAction::Up => "up",
            ServiceAction::Stop => "stop",
            ServiceAction::Restart => "restart",
        }
    }
}

/// The stack and the service that an event on a service names.
#[derive(Debug, PartialEq)]
pub struct ServiceTarget {
    pub stack_name: String,
    pub service_name: String,
}

/// `startService`, `stopService`, `restartService`: the stack and the
/// service to act on; both must be named.
pub fn handle_service_action(logged_in: bool, data: &JsonValue) -> (r: Plan<ServiceTarget>)
    ensures
        !logged_in ==> r.refuses(not_logged_in()),
        logged_in && !(*data is Array) ==> r.refuses("Invalid data"@),
        logged_in ==> (match *data {
            JsonValue::Array(args) => if arg_text(args@, 0).len() == 0 || arg_text(
                args@,
                1,
            ).len() == 0 {
                r.refuses("Stack name and service name required"@)
            } else {
                r matches Plan::Proceed(t) && t.stack_name@ == arg_text(args@, 0)
                    && t.service_name@ == arg_text(args@, 1)
            },
            _ => true,
        }),
{
    if !logged_in {
        return Plan::Reply(error_response("Not logged in"));
    }
    match data.as_array() {
        Some(args) => {
            let stack_name = text_arg(args, 0);
            let service_name = text_arg(args, 1);
            if stack_name.as_str().is_empty() || service_name.as_str().is_empty() {
                return Plan::Reply(error_response("Stack name and service name required"));
            }
            Plan::Proceed(ServiceTarget { stack_name, service_name })
        },
        None => Plan::Reply(error_response("Invalid data")),
    }
}

/// The command of an action on one service, in the stack's compose
/// terminal, with the environment files that are there.
pub fn service_action_run(
    stack: &Stack,
    endpoint: &str,
    action: ServiceAction,
    service: &str,
    global_env: bool,
    local_env: bool,
) -> (r: ExecRequest)
    ensures
        r.runs_compose(
            stack@,
            compose_terminal_name(endpoint@, stack.name@),
            action.command(),
            action.extra(service@),
            global_env,
            local_env,
        ),
        str_views(r.args@) == action.args(service@, global_env, local_env),
{
    let mut extra: Vec<String> = Vec::new();
    match action {
        ServiceAction::Up => {
            extra.push(owned("-d"));
        },
        _ => {},
    }
    extra.push(owned(service));
    assert(str_views(extra@) =~= action.extra(service@));
    compose_run(
        stack,
        get_compose_terminal_name(endpoint, stack.name.as_str()),
        action.name(),
        &extra,
        global_env,
        local_env,
    )
}

/// `Service <service> <action>ed`
pub open spec fn service_done(service: Seq<char>, action: ServiceAction) -> Seq<char> {
    "Service "@ + service + " "@ + action.command() + "ed"@
}

/// The answer to an action on a service once the command has ended.
pub fn service_action_reply(service: &str, action: ServiceAction, exit: &Result<i32, String>) -> (r:
    Outcome)
    ensures
        r.refresh,
        match *exit {
            Ok(code) => if code == 0 {
                r.ack.is_ok_msg(service_done(service@, action))
            } else {
                r.ack.is_error(with_exit_code("Failed"@, code as int))
            },
            Err(e) => r.ack.is_error(e@),
        },
{
    let ack = match exit {
        Ok(code) => {
            if *code == 0 {
                let mut v = chars_of("Service ");
                extend_str(&mut v, service);
                extend_str(&mut v, " ");
                extend_str(&mut v, action.name());
                extend_str(&mut v, "ed");
                crate::error::ok_message(string_of(&v).as_str())
            } else {
                let msg = exit_code_text("Failed", *code);
                error_response(msg.as_str())
            }
        },
        Err(e) => error_response(e.as_str()),
    };
    Outcome { ack, refresh: true }
}

/// `updateService`: the stack and the service to update. Empty names are
/// passed on.
pub fn handle_update_service(logged_in: bool, data: &JsonValue) -> (r: Plan<ServiceTarget>)
    ensures
        !logged_in ==> r.refuses(not_logged_in()),
        logged_in && !(*data is Array) ==> r.refuses("Invalid data"@),
        logged_in ==> (match *data {
            JsonValue::Array(args) => r matches Plan::Proceed(t) && t.stack_name@ == arg_text(
                args@,
                0,
            ) && t.service_name@ == arg_text(args@, 1),
            _ => true,
        }),
{
    if !logged_in {
        return Plan::Reply(error_response("Not logged in"));
    }
    match data.as_array() {
        Some(args) => Plan::Proceed(
            ServiceTarget { stack_name: text_arg(args, 0), service_name: text_arg(args, 1) },
        ),
        None => Plan::Reply(error_response("Invalid data")),
    }
}

/// What follows `up` when one service is updated.
pub open spec fn service_up_args(service: Seq<char>) -> Seq<Seq<char>> {
    seq!["-d"@, "--no-deps"@, service]
}

/// One step of `updateService`: what to run next, given the phase and the
/// exit status of the command that has just ended (not looked at in the
/// first phase). First `compose pull <service>` in the stack's compose
/// terminal; if that fails the update ends with "Failed to pull images".
/// Then `compose up -d --no-deps <service>` under the name with `-up`
/// behind it; if that fails the update ends with "Failed to recreate
/// containers", else it has succeeded. Both commands are given the
/// environment files that are there.
pub fn update_service_step(
    stack: &Stack,
    endpoint: &str,
    service: &str,
    phase: UpdatePhase,
    exit: &Result<i32, String>,
    global_env: bool,
    local_env: bool,
) -> (r: UpdateNext)
    ensures
        match phase {
            UpdatePhase::Start => r matches UpdateNext::Run(run, next) && next
                == UpdatePhase::Pulled && run.runs_compose(
                stack@,
                compose_terminal_name(endpoint@, stack.name@),
                "pull"@,
                seq![service@],
                global_env,
                local_env,
            ),
            UpdatePhase::Pulled => if *exit != Ok::<i32, String>(0) {
                r matches UpdateNext::Finish(o) && o.ack.is_error("Failed to pull images"@)
                    && !o.refresh
            } else {
                r matches UpdateNext::Run(run, next) && next == UpdatePhase::Recreated
                    && run.runs_compose(
                    stack@,
                    compose_terminal_name(endpoint@, stack.name@) + "-up"@,
                    "up"@,
                    service_up_args(service@),
                    global_env,
                    local_env,
                )
            },
            _ => if *exit != Ok::<i32, String>(0) {
                r matches UpdateNext::Finish(o) && o.ack.is_error(
                    "Failed to recreate containers"@,
                ) && o.refresh
            } else {
                r matches UpdateNext::Finish(o) && o.ack.is_ok_msg("Updated "@ + service@)
                    && o.refresh
            },
        },
{
    let base = get_compose_terminal_name(endpoint, stack.name.as_str());
    let ok = match exit {
        Ok(code) => *code == 0,
        Err(_) => false,
    };
    match phase {
        UpdatePhase::Start => {
            let mut extra: Vec<String> = Vec::new();
            extra.push(owned(service));
            assert(str_views(extra@) =~= seq![service@]);
            UpdateNext::Run(
                compose_run(stack, base, "pull", &extra, global_env, local_env),
                UpdatePhase::Pulled,
            )
        },
        UpdatePhase::Pulled => {
            if !ok {
                UpdateNext::Finish(
                    Outcome { ack: error_response("Failed to pull images"), refresh: false },
                )
            } else {
                let mut extra: Vec<String> = Vec::new();
                extra.push(owned("-d"));
                extra.push(owned("--no-deps"));
                extra.push(owned(service));
                assert(str_views(extra@) =~= service_up_args(service@));
                UpdateNext::Run(
                    compose_run(
                        stack,
                        glue(base.as_str(), "-up"),
                        "up",
                        &extra,
                        global_env,
                        local_env,
                    ),
                    UpdatePhase::Recreated,
                )
            }
        },
        _ => {
            if !ok {
                UpdateNext::Finish(
                    Outcome {
                        ack: error_response("Failed to recreate containers"),
                        refresh: true,
                    },
                )
            } else {
                let msg = glue("Updated ", service);
                UpdateNext::Finish(
                    Outcome { ack: crate::error::ok_message(msg.as_str()), refresh: true },
                )
            }
        },
    }
}

// ---------------------------------------------------------------------------
// getDockerNetworkList, dockerStats, containerInspect
// ---------------------------------------------------------------------------

/// The arguments that ask the engine for its networks.
pub open spec fn network_ls_args() -> Seq<Seq<char>> {
    seq!["network"@, "ls"@, "--format"@, "{{.Name}}"@]
}

/// The arguments that ask the engine for its statistics.
pub open spec fn stats_args() -> Seq<Seq<char>> {
    seq!["stats"@, "--format"@, "json"@, "--no-stream"@]
}

/// `getDockerNetworkList`: with a session, the arguments to ask the engine with.
pub fn handle_get_docker_network_list(logged_in: bool) -> (r: Plan<Vec<String>>)
    ensures
        !logged_in ==> r.refuses(not_logged_in()),
        logged_in ==> (r matches Plan::Proceed(args) && str_views(args@) == network_ls_args()),
{
    if !logged_in {
        return Plan::Reply(error_response("Not logged in"));
    }
    let mut args: Vec<String> = Vec::new();
    args.push(owned("network"));
    args.push(owned("ls"));
    args.push(owned("--format"));
    args.push(owned("{{.Name}}"));
    assert(str_views(args@) =~= network_ls_args());
    Plan::Proceed(args)
}

/// The answer to `getDockerNetworkList`: the networks as a list of
/// strings, or the error that kept the engine from being asked.
pub fn docker_network_list_reply(networks: Result<Vec<String>, &AppError>) -> (r: Ack)
    ensures
        match networks {
            Ok(list) => {
                &&& r.ok == Some(true)
                &&& r.msg is None
                &&& !r.msgi18n
                &&& r.payload@.len() == 1
                &&& r.payload@[0].0@ == "dockerNetworkList"@
                &&& r.payload@[0].1 matches JsonValue::Array(items) && items@.len() == list@.len()
                    && forall|i: int|
                    0 <= i < list@.len() ==> (#[trigger] items@[i]).text() == Some(list@[i]@)
            },
            Err(e) => r.is_error(e.explanation_text()),
        },
{
    match networks {
        Ok(list) => {
            let ghost all = list@;
            let mut turned = crate::lists::reversed(list);
            let mut items: Vec<JsonValue> = Vec::new();
            while turned.len() > 0
                invariant
                    items@.len() + turned@.len() == all.len(),
                    forall|k: int| 0 <= k < turned@.len() ==> turned@[k] == all[all.len() - 1 - k],
                    forall|i: int|
                        0 <= i < items@.len() ==> (#[trigger] items@[i]).text() == Some(all[i]@),
                decreases turned.len(),
            {
                let e = turned.pop().unwrap();
                items.push(JsonValue::Str(e));
            }
            crate::error::ok_with("dockerNetworkList", JsonValue::Array(items))
        },
        Err(e) => error_reply(e),
    }
}

/// `dockerStats`: with a session, the arguments to ask the engine with.
pub fn handle_docker_stats(logged_in: bool) -> (r: Plan<Vec<String>>)
    ensures
        !logged_in ==> r.refuses(not_logged_in()),
        logged_in ==> (r matches Plan::Proceed(args) && str_views(args@) == stats_args()),
{
    if !logged_in {
        return Plan::Reply(error_response("Not logged in"));
    }
    let mut args: Vec<String> = Vec::new();
    args.push(owned("stats"));
    args.push(owned("--format"));
    args.push(owned("json"));
    args.push(owned("--no-stream"));
    assert(str_views(args@) =~= stats_args());
    Plan::Proceed(args)
}

/// The answer to `dockerStats`: the statistics by container.
pub fn docker_stats_reply(stats: Result<Vec<(String, JsonValue)>, &AppError>) -> (r: Ack)
    ensures
        match stats {
            Ok(list) => r.is_ok_with("dockerStats"@, JsonValue::Object(list)),
            Err(e) => r.is_error(e.explanation_text()),
        },
{
    match stats {
        Ok(list) => crate::error::ok_with("dockerStats", JsonValue::Object(list)),
        Err(e) => error_reply(e),
    }
}

/// `containerInspect(name)`: with a session, the arguments to ask the
/// engine with.
pub fn handle_container_inspect(logged_in: bool, data: &JsonValue) -> (r: Plan<Vec<String>>)
    ensures
        !logged_in ==> r.refuses(not_logged_in()),
        logged_in ==> (r matches Plan::Proceed(args) && str_views(args@) == seq![
            "inspect"@,
            first_text(*data),
        ]),
{
    if !logged_in {
        return Plan::Reply(error_response("Not logged in"));
    }
    let mut args: Vec<String> = Vec::new();
    args.push(owned("inspect"));
    args.push(first_text_arg(data));
    assert(str_views(args@) =~= seq!["inspect"@, first_text(*data)]);
    Plan::Proceed(args)
}

/// The answer to `containerInspect`: what the engine printed.
pub fn container_inspect_reply(inspected: Result<String, &AppError>) -> (r: Ack)
    ensures
        match inspected {
            Ok(out) => r.is_ok_with("inspectData"@, JsonValue::Str(out)),
            Err(e) => r.is_error(e.explanation_text()),
        },
{
    match inspected {
        Ok(out) => crate::error::ok_with("inspectData", JsonValue::Str(out)),
        Err(e) => error_reply(e),
    }
}

impl ComposeAction {
    /// The action that an operation on a whole stack runs.
    pub fn of(operation: crate::router::Operation) -> (r: Option<ComposeAction>)
        ensures
            r == match operation {
                crate::router::Operation::Up => Some(ComposeAction::Up),
                crate::router::Operation::Stop => Some(ComposeAction::Stop),
                crate::router::Operation::Restart => Some(ComposeAction::Restart),
                crate::router::Operation::Down => Some(ComposeAction::Down),
                _ => None,
            },
    {
        match operation {
            crate::router::Operation::Up => Some(ComposeAction::Up),
            crate::router::Operation::Stop => Some(ComposeAction::Stop),
            crate::router::Operation::Restart => Some(ComposeAction::Restart),
            crate::router::Operation::Down => Some(ComposeAction::Down),
            _ => None,
        }
    }
}

impl ServiceAction {
    /// The action that an operation on one service runs.
    pub fn of(operation: crate::router::Operation) -> (r: Option<ServiceAction>)
        ensures
            r == match operation {
                crate::router::Operation::ServiceUp => Some(ServiceAction::Up),
                crate::router::Operation::ServiceStop => Some(ServiceAction::Stop),
                crate::router::Operation::ServiceRestart => Some(ServiceAction::Restart),
                _ => None,
            },
    {
        match operation {
            crate::router::Operation::ServiceUp => Some(ServiceAction::Up),
            crate::router::Operation::ServiceStop => Some(ServiceAction::Stop),
            crate::router::Operation::ServiceRestart => Some(ServiceAction::Restart),
            _ => None,
        }
    }
}

// ---------------------------------------------------------------------------
// checkImageUpdates
// ---------------------------------------------------------------------------

/// `checkImageUpdates`: the name of the stack whose images are to be
/// checked now.
pub fn handle_check_image_updates(logged_in: bool, data: &JsonValue) -> (r: Plan<String>)
    ensures
        !logged_in ==> r.refuses(not_logged_in()),
        logged_in && first_text(*data).len() == 0 ==> r.refuses("Stack name required"@),
        logged_in && first_text(*data).len() > 0 ==> (r matches Plan::Proceed(name) && name@
            == first_text(*data)),
{
    if !logged_in {
        return Plan::Reply(error_response("Not logged in"));
    }
    let name = first_text_arg(data);
    if name.as_str().is_empty() {
        return Plan::Reply(error_response("Stack name required"));
    }
    Plan::Proceed(name)
}

/// The answer to `checkImageUpdates` once the check is done; the stack
/// list is broadcast before it.
pub fn image_updates_checked() -> (r: Outcome)
    ensures
        r.ack.is_ok_msg("Image update check complete"@),
        r.refresh,
{
    Outcome { ack: crate::error::ok_message("Image update check complete"), refresh: true }
}

} // verus!
