//! The events that manage remote peers.

use crate::agent::{Agent, endpoint_of};
use crate::error::{Ack, error_response, not_logged_in, Plan};
use crate::json::{
    arg_text, first_text, first_text_arg, first_value, first_value_arg, JsonValue, member_text,
    member_text_or_empty, text_arg,
};
use crate::text::glue;
use vstd::prelude::*;

verus! {

/// A peer to add.
#[derive(Debug, PartialEq)]
pub struct NewAgent {
    pub url: String,
    pub username: String,
    pub password: String,
    pub name: String,
}

/// `addAgent({ url, username, password, name })`: the peer to add. URL,
/// user name and password must be given.
pub fn handle_add_agent(logged_in: bool, data: &JsonValue) -> (r: Plan<NewAgent>)
    ensures
        !logged_in ==> r.refuses(not_logged_in()),
        logged_in ==> ({
            let v = first_value(*data);
            if member_text_or_empty(v, "url"@).len() == 0 || member_text_or_empty(
                v,
                "username"@,
            ).len() == 0 || member_text_or_empty(v, "password"@).len() == 0 {
                r.refuses("URL, username, and password are required"@)
            } else {
                r matches Plan::Proceed(a) && a.url@ == member_text_or_empty(v, "url"@)
                    && a.username@ == member_text_or_empty(v, "username"@) && a.password@
                    == member_text_or_empty(v, "password"@) && a.name@ == member_text_or_empty(
                    v,
                    "name"@,
                )
            }
        }),
{
    if !logged_in {
        return Plan::Reply(error_response("Not logged in"));
    }
    let v = first_value_arg(data);
    let url = member_text(v, "url");
    let username = member_text(v, "username");
    let password = member_text(v, "password");
    let name = member_text(v, "name");
    if url.as_str().is_empty() || username.as_str().is_empty() || password.as_str().is_empty() {
        return Plan::Reply(error_response("URL, username, and password are required"));
    }
    Plan::Proceed(NewAgent { url, username, password, name })
}

/// What looking the peer's URL up decides: a peer that is there already is
/// refused, a failing lookup is reported, and only an unknown URL goes on.
pub fn add_agent_lookup(found: &Result<bool, String>) -> (r: Option<Ack>)
    ensures
        match *found {
            Ok(there) => if there {
                r matches Some(a) && a.is_error("Agent with this URL already exists"@)
            } else {
                r is None
            },
            Err(e) => r matches Some(a) && a.is_error("Database error: "@ + e@),
        },
{
    match found {
        Ok(there) => if *there {
            Some(error_response("Agent with this URL already exists"))
        } else {
            None
        },
        Err(e) => {
            let msg = glue("Database error: ", e.as_str());
            Some(error_response(msg.as_str()))
        },
    }
}

/// What a change to the peers answers, and whether the other sessions are
/// to be told to refresh and the asking one is sent the list of peers.
#[derive(Debug, PartialEq)]
pub struct AgentOutcome {
    pub ack: Ack,
    pub refresh_others: bool,
}

fn agent_done(key: &str) -> (r: AgentOutcome)
    ensures
        r.ack.is_ok_i18n(key@),
        r.refresh_others,
{
    AgentOutcome { ack: crate::error::ok_response_i18n(key), refresh_others: true }
}

fn agent_failed(msg: &str) -> (r: AgentOutcome)
    ensures
        r.ack.is_error(msg@),
        !r.refresh_others,
{
    AgentOutcome { ack: error_response(msg), refresh_others: false }
}

/// The answer to `addAgent` once the peer has been stored, or could not be.
pub fn add_agent_reply(created: &Result<(), String>) -> (r: AgentOutcome)
    ensures
        match *created {
            Ok(_) => r.ack.is_ok_i18n("agentAddedSuccessfully"@) && r.refresh_others,
            Err(e) => r.ack.is_error("Failed to add agent: "@ + e@) && !r.refresh_others,
        },
{
    match created {
        Ok(_) => agent_done("agentAddedSuccessfully"),
        Err(e) => {
            let msg = glue("Failed to add agent: ", e.as_str());
            agent_failed(msg.as_str())
        },
    }
}

/// `removeAgent(url)`: the URL of the peer to remove.
pub fn handle_remove_agent(logged_in: bool, data: &JsonValue) -> (r: Plan<String>)
    ensures
        !logged_in ==> r.refuses(not_logged_in()),
        logged_in && first_text(*data).len() == 0 ==> r.refuses("URL is required"@),
        logged_in && first_text(*data).len() > 0 ==> (r matches Plan::Proceed(url) && url@
            == first_text(*data)),
{
    if !logged_in {
        return Plan::Reply(error_response("Not logged in"));
    }
    let url = first_text_arg(data);
    if url.as_str().is_empty() {
        return Plan::Reply(error_response("URL is required"));
    }
    Plan::Proceed(url)
}

/// The answer to `removeAgent`: `removed` tells whether a peer went.
pub fn remove_agent_reply(removed: &Result<bool, String>) -> (r: AgentOutcome)
    ensures
        match *removed {
            Ok(went) => if went {
                r.ack.is_ok_i18n("agentRemovedSuccessfully"@) && r.refresh_others
            } else {
                r.ack.is_error("Agent not found"@) && !r.refresh_others
            },
            Err(e) => r.ack.is_error("Failed to remove agent: "@ + e@) && !r.refresh_others,
        },
{
    match removed {
        Ok(went) => if *went {
            agent_done("agentRemovedSuccessfully")
        } else {
            agent_failed("Agent not found")
        },
        Err(e) => {
            let msg = glue("Failed to remove agent: ", e.as_str());
            agent_failed(msg.as_str())
        },
    }
}

/// A new name for a peer.
#[derive(Debug, PartialEq)]
pub struct AgentRename {
    pub url: String,
    pub name: String,
}

/// `updateAgent(url, name)`: the peer to rename.
pub fn handle_update_agent(logged_in: bool, data: &JsonValue) -> (r: Plan<AgentRename>)
    ensures
        !logged_in ==> r.refuses(not_logged_in()),
        logged_in && !(*data is Array) ==> r.refuses("Invalid data format"@),
        logged_in ==> (match *data {
            JsonValue::Array(args) => if arg_text(args@, 0).len() == 0 {
                r.refuses("URL is required"@)
            } else {
                r matches Plan::Proceed(a) && a.url@ == arg_text(args@, 0) && a.name@
                    == arg_text(args@, 1)
            },
            _ => true,
        }),
{
    if !logged_in {
        return Plan::Reply(error_response("Not logged in"));
    }
    match data.as_array() {
        Some(args) => {
            let url = text_arg(args, 0);
            if url.as_str().is_empty() {
                return Plan::Reply(error_response("URL is required"));
            }
            Plan::Proceed(AgentRename { url, name: text_arg(args, 1) })
        },
        None => Plan::Reply(error_response("Invalid data format")),
    }
}

/// The answer to `updateAgent`: `renamed` tells whether a peer was there.
pub fn update_agent_reply(renamed: &Result<bool, String>) -> (r: AgentOutcome)
    ensures
        match *renamed {
            Ok(there) => if there {
                r.ack.is_ok_i18n("agentUpdatedSuccessfully"@) && r.refresh_others
            } else {
                r.ack.is_error("Agent not found"@) && !r.refresh_others
            },
            Err(e) => r.ack.is_error("Failed to update agent: "@ + e@) && !r.refresh_others,
        },
{
    match renamed {
        Ok(there) => if *there {
            agent_done("agentUpdatedSuccessfully")
        } else {
            agent_failed("Agent not found")
        },
        Err(e) => {
            let msg = glue("Failed to update agent: ", e.as_str());
            agent_failed(msg.as_str())
        },
    }
}

/// What the list of peers tells of one peer.
#[derive(Debug, PartialEq)]
pub struct AgentInfo {
    pub url: String,
    pub username: String,
    pub endpoint: String,
    pub name: Option<String>,
}

/// What the list of peers tells of one peer, as texts.
pub struct AgentInfoView {
    pub url: Seq<char>,
    pub username: Seq<char>,
    pub endpoint: Seq<char>,
    pub name: Option<Seq<char>>,
}

impl View for AgentInfo {
    type V = AgentInfoView;

    open spec fn view(&self) -> AgentInfoView {
        AgentInfoView {
            url: self.url@,
            username: self.username@,
            endpoint: self.endpoint@,
            name: match self.name {
                Some(n) => Some(n@),
                None => None,
            },
        }
    }
}

/// What the list tells of a peer.
pub open spec fn info_of(agent: Agent) -> AgentInfoView {
    AgentInfoView {
        url: agent.url@,
        username: agent.username@,
        endpoint: endpoint_of(agent.url@),
        name: match agent.name {
            Some(n) => Some(n@),
            None => None,
        },
    }
}

/// The list of peers by endpoint: of two peers with one endpoint the later
/// replaces the earlier.
pub open spec fn agent_map(agents: Seq<Agent>) -> Map<Seq<char>, AgentInfoView>
    decreases agents.len(),
{
    if agents.len() == 0 {
        Map::empty()
    } else {
        agent_map(agents.drop_last()).insert(
            endpoint_of(agents.last().url@),
            info_of(agents.last()),
        )
    }
}

/// The peers of a list by endpoint.
pub open spec fn listed_agents(list: Seq<(String, AgentInfo)>) -> Map<Seq<char>, AgentInfoView> {
    Map::new(
        |endpoint: Seq<char>| crate::keyed::as_map(list).dom().contains(endpoint),
        |endpoint: Seq<char>| crate::keyed::as_map(list)[endpoint]@,
    )
}

/// The list of peers that a session is sent: every peer under its endpoint.
pub fn send_agent_list(agents: &Vec<Agent>) -> (r: Vec<(String, AgentInfo)>)
    ensures
        crate::keyed::distinct_keys(r@),
        listed_agents(r@) == agent_map(agents@),
{
    let mut out: Vec<(String, AgentInfo)> = Vec::new();
    let mut i: usize = 0;
    assert(agents@.take(0) =~= Seq::empty());
    assert(listed_agents(out@) =~= Map::empty());
    while i < agents.len()
        invariant
            i <= agents.len(),
            crate::keyed::distinct_keys(out@),
            listed_agents(out@) == agent_map(agents@.take(i as int)),
        decreases agents.len() - i,
    {
        assert(agents@.take(i + 1).drop_last() == agents@.take(i as int));
        assert(agents@.take(i + 1).last() == agents@[i as int]);
        let agent = &agents[i];
        let endpoint = agent.endpoint();
        let info = AgentInfo {
            url: agent.url.clone(),
            username: agent.username.clone(),
            endpoint: endpoint.clone(),
            name: match &agent.name {
                Some(n) => Some(n.clone()),
                None => None,
            },
        };
        assert(info@ == info_of(agents@[i as int]));
        let ghost before = out@;
        crate::keyed::put_distinct(&mut out, endpoint, info);
        assert(listed_agents(out@) =~= listed_agents(before).insert(
            endpoint_of(agents@[i as int].url@),
            info@,
        ));
        i = i + 1;
    }
    assert(agents@.take(agents.len() as int) == agents@);
    out
}

} // verus!
