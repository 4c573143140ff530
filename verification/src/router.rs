//! The named events of the agent channel and the proxy event that wraps them.
//!
//! Every domain event can arrive as itself or inside `agent(endpoint, name,
//! ...args)`. Both ways lead through `route_agent_event`, so both reach the
//! same handler.

use crate::error::{error_response, Plan};
use crate::json::{JsonValue, text_or_empty};
use crate::text::{chars_of, same};
use vstd::prelude::*;

verus! {

/// An event that a client can send on the agent channel.
#[derive(Clone, Copy, Debug, PartialEq, Eq, Structural)]
pub enum AgentEvent {
    RequestStackList,
    GetStack,
    DeployStack,
    SaveStack,
    StartStack,
    StopStack,
    RestartStack,
    DownStack,
    UpdateStack,
    DeleteStack,
    ForceDeleteStack,
    ServiceStatusList,
    StartService,
    StopService,
    RestartService,
    UpdateService,
    CheckImageUpdates,
    GetDockerNetworkList,
    DockerStats,
    ContainerInspect,
    TerminalJoin,
    TerminalInput,
    TerminalResize,
    LeaveCombinedTerminal,
    InteractiveTerminal,
    JoinContainerLog,
    MainTerminal,
    CheckMainTerminal,
}

impl AgentEvent {
    /// The name under which the event travels.
    pub open spec fn name(self) -> Seq<char> {
        match self {
            AgentEvent::RequestStackList => "requestStackList"@,
            AgentEvent::GetStack => "getStack"@,
            AgentEvent::DeployStack => "deployStack"@,
            AgentEvent::SaveStack => "saveStack"@,
            AgentEvent::StartStack => "startStack"@,
            AgentEvent::StopStack => "stopStack"@,
            AgentEvent::RestartStack => "restartStack"@,
            AgentEvent::DownStack => "downStack"@,
            AgentEvent::UpdateStack => "updateStack"@,
            AgentEvent::DeleteStack => "deleteStack"@,
            AgentEvent::ForceDeleteStack => "forceDeleteStack"@,
            AgentEvent::ServiceStatusList => "serviceStatusList"@,
            AgentEvent::StartService => "startService"@,
            AgentEvent::StopService => "stopService"@,
            AgentEvent::RestartService => "restartService"@,
            AgentEvent::UpdateService => "updateService"@,
            AgentEvent::CheckImageUpdates => "checkImageUpdates"@,
            AgentEvent::GetDockerNetworkList => "getDockerNetworkList"@,
            AgentEvent::DockerStats => "dockerStats"@,
            AgentEvent::ContainerInspect => "containerInspect"@,
            AgentEvent::TerminalJoin => "terminalJoin"@,
            AgentEvent::TerminalInput => "terminalInput"@,
            AgentEvent::TerminalResize => "terminalResize"@,
            AgentEvent::LeaveCombinedTerminal => "leaveCombinedTerminal"@,
            AgentEvent::InteractiveTerminal => "interactiveTerminal"@,
            AgentEvent::JoinContainerLog => "joinContainerLog"@,
            AgentEvent::MainTerminal => "mainTerminal"@,
            AgentEvent::CheckMainTerminal => "checkMainTerminal"@,
        }
    }

    /// The name under which the event travels.
    pub fn wire_name(self) -> (r: &'static str)
        ensures
            r@ == self.name(),
    {
        match self {
            AgentEvent::RequestStackList => "requestStackList",
            AgentEvent::GetStack => "getStack",
            AgentEvent::DeployStack => "deployStack",
            AgentEvent::SaveStack => "saveStack",
            AgentEvent::StartStack => "startStack",
            AgentEvent::StopStack => "stopStack",
            AgentEvent::RestartStack => "restartStack",
            AgentEvent::DownStack => "downStack",
            AgentEvent::UpdateStack => "updateStack",
            AgentEvent::DeleteStack => "deleteStack",
            AgentEvent::ForceDeleteStack => "forceDeleteStack",
            AgentEvent::ServiceStatusList => "serviceStatusList",
            AgentEvent::StartService => "startService",
            AgentEvent::StopService => "stopService",
            AgentEvent::RestartService => "restartService",
            AgentEvent::UpdateService => "updateService",
            AgentEvent::CheckImageUpdates => "checkImageUpdates",
            AgentEvent::GetDockerNetworkList => "getDockerNetworkList",
            AgentEvent::DockerStats => "dockerStats",
            AgentEvent::ContainerInspect => "containerInspect",
            AgentEvent::TerminalJoin => "terminalJoin",
            AgentEvent::TerminalInput => "terminalInput",
            AgentEvent::TerminalResize => "terminalResize",
            AgentEvent::LeaveCombinedTerminal => "leaveCombinedTerminal",
            AgentEvent::InteractiveTerminal => "interactiveTerminal",
            AgentEvent::JoinContainerLog => "joinContainerLog",
            AgentEvent::MainTerminal => "mainTerminal",
            AgentEvent::CheckMainTerminal => "checkMainTerminal",
        }
    }
}

/// What an event asks the server to do.
#[derive(Clone, Copy, Debug, PartialEq, Eq, Structural)]
pub enum Operation {
    /// Refresh the stack cache and send the list to every session.
    RequestStackList,
    /// Read a stack.
    GetStack,
    /// Save a stack and start it.
    Deploy,
    /// Save a stack.
    Save,
    /// Start a stack: `up`.
    Up,
    /// Stop a stack.
    Stop,
    /// Restart a stack.
    Restart,
    /// Take a stack down.
    Down,
    /// Pull a stack's images and bring it up again if it is started.
    Update,
    /// Take a stack down and delete it; forced, volumes and files go along.
    Delete { force: bool },
    /// Tell the status of a stack's services.
    ServiceStatusList,
    /// Start one service: `up`.
    ServiceUp,
    /// Stop one service.
    ServiceStop,
    /// Restart one service.
    ServiceRestart,
    /// Pull the image of one service and bring it up again.
    UpdateService,
    /// Check the images of one stack now.
    CheckImageUpdates,
    /// Ask the engine for its networks.
    NetworkList,
    /// Ask the engine for its statistics.
    Stats,
    /// Ask the engine about a container.
    Inspect,
    /// Replay a terminal's buffer.
    TerminalJoin,
    /// Hand input to a terminal.
    TerminalInput,
    /// Give a terminal a new size.
    TerminalResize,
    /// Close the combined terminal of a stack.
    LeaveCombinedTerminal,
    /// Open a shell in a service's container.
    InteractiveTerminal,
    /// Follow the log of a service.
    ContainerLog,
    /// Open the server's own shell.
    MainTerminal,
    /// Tell whether the server's own shell may be opened.
    CheckMainTerminal,
}

impl AgentEvent {
    /// What the event asks for. Two events ask for the same kind of thing
    /// only in the two ways of deleting.
    pub fn operation(self) -> (r: Operation)
        ensures
            r == match self {
                AgentEvent::RequestStackList => Operation::RequestStackList,
                AgentEvent::GetStack => Operation::GetStack,
                AgentEvent::DeployStack => Operation::Deploy,
                AgentEvent::SaveStack => Operation::Save,
                AgentEvent::StartStack => Operation::Up,
                AgentEvent::StopStack => Operation::Stop,
                AgentEvent::RestartStack => Operation::Restart,
                AgentEvent::DownStack => Operation::Down,
                AgentEvent::UpdateStack => Operation::Update,
                AgentEvent::DeleteStack => Operation::Delete { force: false },
                AgentEvent::ForceDeleteStack => Operation::Delete { force: true },
                AgentEvent::ServiceStatusList => Operation::ServiceStatusList,
                AgentEvent::StartService => Operation::ServiceUp,
                AgentEvent::StopService => Operation::ServiceStop,
                AgentEvent::RestartService => Operation::ServiceRestart,
                AgentEvent::UpdateService => Operation::UpdateService,
                AgentEvent::CheckImageUpdates => Operation::CheckImageUpdates,
                AgentEvent::GetDockerNetworkList => Operation::NetworkList,
                AgentEvent::DockerStats => Operation::Stats,
                AgentEvent::ContainerInspect => Operation::Inspect,
                AgentEvent::TerminalJoin => Operation::TerminalJoin,
                AgentEvent::TerminalInput => Operation::TerminalInput,
                AgentEvent::TerminalResize => Operation::TerminalResize,
                AgentEvent::LeaveCombinedTerminal => Operation::LeaveCombinedTerminal,
                AgentEvent::InteractiveTerminal => Operation::InteractiveTerminal,
                AgentEvent::JoinContainerLog => Operation::ContainerLog,
                AgentEvent::MainTerminal => Operation::MainTerminal,
                AgentEvent::CheckMainTerminal => Operation::CheckMainTerminal,
            },
    {
        match self {
            AgentEvent::RequestStackList => Operation::RequestStackList,
            AgentEvent::GetStack => Operation::GetStack,
            AgentEvent::DeployStack => Operation::Deploy,
            AgentEvent::SaveStack => Operation::Save,
            AgentEvent::StartStack => Operation::Up,
            AgentEvent::StopStack => Operation::Stop,
            AgentEvent::RestartStack => Operation::Restart,
            AgentEvent::DownStack => Operation::Down,
            AgentEvent::UpdateStack => Operation::Update,
            AgentEvent::DeleteStack => Operation::Delete { force: false },
            AgentEvent::ForceDeleteStack => Operation::Delete { force: true },
            AgentEvent::ServiceStatusList => Operation::ServiceStatusList,
            AgentEvent::StartService => Operation::ServiceUp,
            AgentEvent::StopService => Operation::ServiceStop,
            AgentEvent::RestartService => Operation::ServiceRestart,
            AgentEvent::UpdateService => Operation::UpdateService,
            AgentEvent::CheckImageUpdates => Operation::CheckImageUpdates,
            AgentEvent::GetDockerNetworkList => Operation::NetworkList,
            AgentEvent::DockerStats => Operation::Stats,
            AgentEvent::ContainerInspect => Operation::Inspect,
            AgentEvent::TerminalJoin => Operation::TerminalJoin,
            AgentEvent::TerminalInput => Operation::TerminalInput,
            AgentEvent::TerminalResize => Operation::TerminalResize,
            AgentEvent::LeaveCombinedTerminal => Operation::LeaveCombinedTerminal,
            AgentEvent::InteractiveTerminal => Operation::InteractiveTerminal,
            AgentEvent::JoinContainerLog => Operation::ContainerLog,
            AgentEvent::MainTerminal => Operation::MainTerminal,
            AgentEvent::CheckMainTerminal => Operation::CheckMainTerminal,
        }
    }
}

/// The answer to an event that no route leads to.
pub fn unknown_event(event: &str) -> (r: crate::error::Ack)
    ensures
        r.is_error("Unknown event: "@ + event@),
{
    let msg = crate::text::glue("Unknown event: ", event);
    error_response(msg.as_str())
}

/// All events, in the order in which they are registered on a connection.
pub fn agent_events() -> (r: Vec<AgentEvent>)
    ensures
        forall|e: AgentEvent| r@.contains(e),
{
    let mut r: Vec<AgentEvent> = Vec::new();
    r.push(AgentEvent::RequestStackList);
    r.push(AgentEvent::GetStack);
    r.push(AgentEvent::DeployStack);
    r.push(AgentEvent::SaveStack);
    r.push(AgentEvent::StartStack);
    r.push(AgentEvent::StopStack);
    r.push(AgentEvent::RestartStack);
    r.push(AgentEvent::DownStack);
    r.push(AgentEvent::UpdateStack);
    r.push(AgentEvent::DeleteStack);
    r.push(AgentEvent::ForceDeleteStack);
    r.push(AgentEvent::ServiceStatusList);
    r.push(AgentEvent::StartService);
    r.push(AgentEvent::StopService);
    r.push(AgentEvent::RestartService);
    r.push(AgentEvent::UpdateService);
    r.push(AgentEvent::CheckImageUpdates);
    r.push(AgentEvent::GetDockerNetworkList);
    r.push(AgentEvent::DockerStats);
    r.push(AgentEvent::ContainerInspect);
    r.push(AgentEvent::TerminalJoin);
    r.push(AgentEvent::TerminalInput);
    r.push(AgentEvent::TerminalResize);
    r.push(AgentEvent::LeaveCombinedTerminal);
    r.push(AgentEvent::InteractiveTerminal);
    r.push(AgentEvent::JoinContainerLog);
    r.push(AgentEvent::MainTerminal);
    r.push(AgentEvent::CheckMainTerminal);
    proof {
        assert forall|e: AgentEvent| r@.contains(e) by {
            let i: int = match e {
                AgentEvent::RequestStackList => 0,
                AgentEvent::GetStack => 1,
                AgentEvent::DeployStack => 2,
                AgentEvent::SaveStack => 3,
                AgentEvent::StartStack => 4,
                AgentEvent::StopStack => 5,
                AgentEvent::RestartStack => 6,
                AgentEvent::DownStack => 7,
                AgentEvent::UpdateStack => 8,
                AgentEvent::DeleteStack => 9,
                AgentEvent::ForceDeleteStack => 10,
                AgentEvent::ServiceStatusList => 11,
                AgentEvent::StartService => 12,
                AgentEvent::StopService => 13,
                AgentEvent::RestartService => 14,
                AgentEvent::UpdateService => 15,
                AgentEvent::CheckImageUpdates => 16,
                AgentEvent::GetDockerNetworkList => 17,
                AgentEvent::DockerStats => 18,
                AgentEvent::ContainerInspect => 19,
                AgentEvent::TerminalJoin => 20,
                AgentEvent::TerminalInput => 21,
                AgentEvent::TerminalResize => 22,
                AgentEvent::LeaveCombinedTerminal => 23,
                AgentEvent::InteractiveTerminal => 24,
                AgentEvent::JoinContainerLog => 25,
                AgentEvent::MainTerminal => 26,
                AgentEvent::CheckMainTerminal => 27,
            };
            assert(r@[i] == e);
        }
    }
    r
}

/// The event that travels under the given name: `None` exactly when no
/// event has that name.
pub fn route_agent_event(event: &str) -> (r: Option<AgentEvent>)
    ensures
        match r {
            Some(e) => e.name() == event@,
            None => forall|e: AgentEvent| e.name() != event@,
        },
{
    let wanted = chars_of(event);
    let all = agent_events();
    let mut i: usize = 0;
    while i < all.len()
        invariant
            i <= all.len(),
            wanted@ == event@,
            forall|e: AgentEvent| all@.contains(e),
            forall|k: int| 0 <= k < i ==> (#[trigger] all@[k]).name() != event@,
        decreases all.len() - i,
    {
        let candidate = chars_of(all[i].wire_name());
        if same(&candidate, &wanted) {
            return Some(all[i]);
        }
        i = i + 1;
    }
    proof {
        assert forall|e: AgentEvent| e.name() != event@ by {
            assert(all@.contains(e));
            let k = choose|k: int| 0 <= k < all@.len() && all@[k] == e;
            assert(all@[k].name() != event@);
        }
    }
    None
}

/// What the proxy event carries: where to deliver, which event, and the
/// arguments of that event.
#[derive(Debug, PartialEq)]
pub struct AgentCall {
    pub endpoint: String,
    pub event: String,
    pub args: Vec<JsonValue>,
}

/// Takes the proxy event `agent(endpoint, name, ...args)` apart. With fewer
/// than two arguments the call is answered at once as invalid. An endpoint or
/// a name that is no string counts as the empty text.
pub fn unwrap_agent_call(args: Vec<JsonValue>) -> (r: Plan<AgentCall>)
    ensures
        args@.len() < 2 ==> (r matches Plan::Reply(ack) && ack.is_error("Invalid agent call"@)),
        args@.len() >= 2 ==> (r matches Plan::Proceed(call) && {
            &&& call.endpoint@ == JsonValue::text_or_empty(Some(args@[0]))
            &&& call.event@ == JsonValue::text_or_empty(Some(args@[1]))
            &&& call.args@ == args@.skip(2)
        }),
{
    if args.len() < 2 {
        return Plan::Reply(error_response("Invalid agent call"));
    }
    let mut head = args;
    let rest = head.split_off(2);
    let endpoint = text_or_empty(Some(&head[0]));
    let event = text_or_empty(Some(&head[1]));
    Plan::Proceed(AgentCall { endpoint, event, args: rest })
}

} // verus!
