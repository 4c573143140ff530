use dockge_backend::agent::Agent;
use dockge_backend::config::{Config, DEFAULT_PORT};
use dockge_backend::error::{error_response, ok_response, ok_response_i18n, Ack, AppError, Plan};
use dockge_backend::handlers::agent::{
    add_agent_lookup, add_agent_reply, handle_add_agent, handle_remove_agent, handle_update_agent,
    remove_agent_reply, send_agent_list, update_agent_reply,
};
use dockge_backend::handlers::settings::{
    composerize_reply, get_settings_reply, handle_composerize, handle_get_settings,
    handle_set_settings, needs_password, password_gate, set_settings_reply, setting_on,
    take_global_env, ConverterRun, GlobalEnv,
};
use dockge_backend::handlers::terminal::{
    check_main_terminal, combined_run, container_log_run, handle_interactive_terminal,
    handle_join_container_log, handle_leave_combined_terminal, handle_main_terminal,
    handle_terminal_input, handle_terminal_join, handle_terminal_resize, interactive_run,
    spawn_reply, terminal_exit_code, terminal_join_reply,
};
use dockge_backend::json::{
    first_text_arg, first_value_arg, flag_arg, json_str, member_text, text_arg, text_or_empty,
    JsonValue,
};
use dockge_backend::keyed::{find_key, get, put, put_distinct, remove_key};
use dockge_backend::lists::reversed;
use dockge_backend::handlers::stack::{
    container_inspect_reply, docker_network_list_reply, docker_stats_reply,
    handle_container_inspect, handle_docker_stats, handle_get_docker_network_list, ComposeAction,
    ServiceAction,
};
use dockge_backend::router::{
    agent_events, route_agent_event, unknown_event, unwrap_agent_call, AgentCall, AgentEvent,
    Operation,
};
use dockge_backend::settings::{
    decode_setting, get_settings, set_settings, SettingWrite, SettingsCache, CACHE_TTL_SECS,
};
use dockge_backend::stack::Stack;
use dockge_backend::state::{jwt_secret_of, new_jwt_secret, STACK_LIST_REFRESH_SECS};
use dockge_backend::terminal::TerminalManager;
use dockge_backend::user::{generate_password_hash, User};

fn t(text: &str) -> JsonValue {
    JsonValue::Str(text.to_string())
}

fn n(text: &str) -> JsonValue {
    JsonValue::Number(text.to_string())
}

fn members(list: Vec<(&str, JsonValue)>) -> Vec<(String, JsonValue)> {
    list.into_iter().map(|(k, v)| (k.to_string(), v)).collect()
}

fn object(list: Vec<(&str, JsonValue)>) -> JsonValue {
    JsonValue::Object(members(list))
}

fn no<T: std::fmt::Debug>(plan: Plan<T>) -> Ack {
    match plan {
        Plan::Reply(ack) => ack,
        Plan::Proceed(x) => panic!("not refused: {:?}", x),
    }
}

fn yes<T>(plan: Plan<T>) -> T {
    match plan {
        Plan::Proceed(x) => x,
        Plan::Reply(ack) => panic!("refused: {:?}", ack),
    }
}

fn web() -> Stack {
    Stack::new("web".to_string(), "/opt/stacks".to_string())
}

#[test]
fn every_event_has_its_name() {
    let names = [
        "requestStackList",
        "getStack",
        "deployStack",
        "saveStack",
        "startStack",
        "stopStack",
        "restartStack",
        "downStack",
        "updateStack",
        "deleteStack",
        "forceDeleteStack",
        "serviceStatusList",
        "startService",
        "stopService",
        "restartService",
        "updateService",
        "checkImageUpdates",
        "getDockerNetworkList",
        "dockerStats",
        "containerInspect",
        "terminalJoin",
        "terminalInput",
        "terminalResize",
        "leaveCombinedTerminal",
        "interactiveTerminal",
        "joinContainerLog",
        "mainTerminal",
        "checkMainTerminal",
    ];
    let events = agent_events();
    assert_eq!(events.len(), names.len());
    for (event, name) in events.iter().zip(names.iter()) {
        assert_eq!(event.wire_name(), *name);
        assert_eq!(route_agent_event(name), Some(*event));
    }
    assert_eq!(route_agent_event("startStack"), Some(AgentEvent::StartStack));
    assert_eq!(route_agent_event("forceDeleteStack"), Some(AgentEvent::ForceDeleteStack));
}

#[test]
fn every_event_asks_for_its_operation() {
    assert_eq!(AgentEvent::StartStack.operation(), Operation::Up);
    assert_eq!(AgentEvent::DownStack.operation(), Operation::Down);
    assert_eq!(AgentEvent::DeleteStack.operation(), Operation::Delete { force: false });
    assert_eq!(AgentEvent::ForceDeleteStack.operation(), Operation::Delete { force: true });
    assert_eq!(AgentEvent::StartService.operation(), Operation::ServiceUp);
    assert_eq!(AgentEvent::JoinContainerLog.operation(), Operation::ContainerLog);
    let mut seen = Vec::new();
    for event in agent_events() {
        let operation = event.operation();
        assert!(!seen.contains(&operation), "{:?}", event);
        seen.push(operation);
    }
    assert_eq!(ComposeAction::of(Operation::Up), Some(ComposeAction::Up));
    assert_eq!(ComposeAction::of(Operation::Stop), Some(ComposeAction::Stop));
    assert_eq!(ComposeAction::of(Operation::Restart), Some(ComposeAction::Restart));
    assert_eq!(ComposeAction::of(Operation::Down), Some(ComposeAction::Down));
    assert_eq!(ComposeAction::of(Operation::ServiceUp), None);
    assert_eq!(ComposeAction::of(Operation::Update), None);
    assert_eq!(ServiceAction::of(Operation::ServiceUp), Some(ServiceAction::Up));
    assert_eq!(ServiceAction::of(Operation::ServiceStop), Some(ServiceAction::Stop));
    assert_eq!(ServiceAction::of(Operation::ServiceRestart), Some(ServiceAction::Restart));
    assert_eq!(ServiceAction::of(Operation::Up), None);
    assert_eq!(unknown_event("nope"), error_response("Unknown event: nope"));
}

#[test]
fn the_engine_is_asked_by_sessions_only() {
    let no_session = error_response("Not logged in");
    assert_eq!(no(handle_get_docker_network_list(false)), no_session);
    assert_eq!(no(handle_docker_stats(false)), no_session);
    assert_eq!(no(handle_container_inspect(false, &t("web-1"))), no_session);
    assert_eq!(
        yes(handle_get_docker_network_list(true)),
        vec!["network", "ls", "--format", "{{.Name}}"]
    );
    assert_eq!(yes(handle_docker_stats(true)), vec!["stats", "--format", "json", "--no-stream"]);
    assert_eq!(
        yes(handle_container_inspect(true, &JsonValue::Array(vec![t("web-1")]))),
        vec!["inspect", "web-1"]
    );
    assert_eq!(yes(handle_container_inspect(true, &t("web-1"))), vec!["inspect", "web-1"]);
    assert_eq!(yes(handle_container_inspect(true, &n("1"))), vec!["inspect", ""]);
    let ack = docker_network_list_reply(Ok(vec!["bridge".to_string(), "host".to_string()]));
    assert_eq!(ack.ok, Some(true));
    assert_eq!(
        ack.payload,
        vec![("dockerNetworkList".to_string(), JsonValue::Array(vec![t("bridge"), t("host")]))]
    );
    let e = AppError::Internal("No such file or directory".to_string());
    assert_eq!(
        docker_network_list_reply(Err(&e)),
        error_response("No such file or directory")
    );
    let ack = docker_stats_reply(Ok(members(vec![("web-1", object(vec![("Name", t("web-1"))]))])));
    assert_eq!(
        ack.payload,
        vec![("dockerStats".to_string(), object(vec![("web-1", object(vec![("Name", t("web-1"))]))]))]
    );
    assert_eq!(docker_stats_reply(Err(&e)).ok, Some(false));
    assert_eq!(
        container_inspect_reply(Ok("[{}]".to_string())).payload,
        vec![("inspectData".to_string(), t("[{}]"))]
    );
    assert_eq!(
        container_inspect_reply(Err(&e)),
        error_response("No such file or directory")
    );
}

#[test]
fn unknown_events_have_no_route() {
    for name in ["", "login", "agent", "getstack", "getStack ", "GetStack", "setup", "stackList"] {
        assert_eq!(route_agent_event(name), None, "{:?}", name);
    }
}

#[test]
fn the_proxy_event_is_taken_apart() {
    let call = yes(unwrap_agent_call(vec![t(""), t("getStack"), t("web"), JsonValue::Bool(true)]));
    assert_eq!(
        call,
        AgentCall {
            endpoint: "".to_string(),
            event: "getStack".to_string(),
            args: vec![t("web"), JsonValue::Bool(true)],
        }
    );
    let call = yes(unwrap_agent_call(vec![JsonValue::Null, n("5")]));
    assert_eq!((call.endpoint.as_str(), call.event.as_str(), call.args.len()), ("", "", 0));
    let call = yes(unwrap_agent_call(vec![t("peer:5001"), t("requestStackList")]));
    assert_eq!(call.endpoint, "peer:5001");
    assert_eq!(route_agent_event(&call.event), Some(AgentEvent::RequestStackList));
    assert_eq!(no(unwrap_agent_call(vec![t("")])), error_response("Invalid agent call"));
    assert_eq!(no(unwrap_agent_call(vec![])), error_response("Invalid agent call"));
}

#[test]
fn reading_a_tree() {
    let doc = object(vec![
        ("s", t("text")),
        ("b", JsonValue::Bool(true)),
        ("n", n("42")),
        ("a", JsonValue::Array(vec![t("x"), JsonValue::Null])),
        ("s", t("shadowed")),
    ]);
    assert_eq!(doc.get("s"), Some(&t("text")));
    assert_eq!(doc.get("b").unwrap().as_bool(), Some(true));
    assert_eq!(doc.get("n").unwrap().as_u64(), Some(42));
    assert_eq!(doc.get("n").unwrap().as_str(), None);
    assert_eq!(doc.get("s").unwrap().as_bool(), None);
    assert_eq!(doc.get("a").unwrap().at(0), Some(&t("x")));
    assert_eq!(doc.get("a").unwrap().at(2), None);
    assert_eq!(doc.get("a").unwrap().get("x"), None);
    assert_eq!(doc.at(0), None);
    assert!(doc.get("a").unwrap().is_array());
    assert!(!doc.is_array());
    assert!(doc.get("a").unwrap().at(1).unwrap().is_null());
    assert!(doc.as_object().is_some());
    assert!(doc.as_array().is_none());
    assert_eq!(doc.get("a").unwrap().as_array().map(|a| a.len()), Some(2));
    assert_eq!(json_str("x"), t("x"));
    assert_eq!(member_text(&doc, "s"), "text");
    assert_eq!(member_text(&doc, "b"), "");
    assert_eq!(member_text(&doc, "zz"), "");
    assert_eq!(text_or_empty(None), "");
    assert_eq!(text_or_empty(Some(&n("1"))), "");
}

#[test]
fn numbers_of_a_tree() {
    assert_eq!(n("0").as_u64(), Some(0));
    assert_eq!(n("18446744073709551615").as_u64(), Some(u64::MAX));
    assert_eq!(n("18446744073709551616").as_u64(), None);
    assert_eq!(n("-1").as_u64(), None);
    assert_eq!(n("1.0").as_u64(), None);
    assert_eq!(n("1e3").as_u64(), None);
    assert_eq!(t("1").as_u64(), None);
}

#[test]
fn arguments_of_events() {
    let args = vec![t("web"), JsonValue::Bool(true), n("3")];
    assert_eq!(text_arg(&args, 0), "web");
    assert_eq!(text_arg(&args, 1), "");
    assert_eq!(text_arg(&args, 9), "");
    assert!(flag_arg(&args, 1));
    assert!(!flag_arg(&args, 0));
    assert!(!flag_arg(&args, 9));
    assert_eq!(first_text_arg(&JsonValue::Array(vec![t("a"), t("b")])), "a");
    assert_eq!(first_text_arg(&t("bare")), "bare");
    assert_eq!(first_text_arg(&JsonValue::Array(vec![])), "");
    assert_eq!(first_text_arg(&n("1")), "");
    let inner = object(vec![("k", t("v"))]);
    let wrapped = JsonValue::Array(vec![object(vec![("k", t("v"))])]);
    assert_eq!(first_value_arg(&wrapped), &inner);
    assert_eq!(first_value_arg(&inner), &inner);
    let empty = JsonValue::Array(vec![]);
    assert_eq!(first_value_arg(&empty), &empty);
}

#[test]
fn a_vector_is_turned_around() {
    assert_eq!(reversed(vec![1, 2, 3]), vec![3, 2, 1]);
    assert_eq!(reversed(vec!["a".to_string()]), vec!["a".to_string()]);
    assert_eq!(reversed(Vec::<u8>::new()), Vec::<u8>::new());
}

#[test]
fn keyed_lists_are_maps() {
    let mut list: Vec<(String, i32)> = Vec::new();
    put(&mut list, "a".to_string(), 1);
    put(&mut list, "b".to_string(), 2);
    put(&mut list, "a".to_string(), 3);
    assert_eq!(list, vec![("a".to_string(), 3), ("b".to_string(), 2)]);
    assert_eq!(get(&list, "a"), Some(&3));
    assert_eq!(get(&list, "c"), None);
    assert_eq!(find_key(&list, "b"), Some(1));
    put_distinct(&mut list, "c".to_string(), 4);
    assert_eq!(remove_key(&mut list, "a"), Some(3));
    assert_eq!(remove_key(&mut list, "a"), None);
    assert_eq!(list, vec![("b".to_string(), 2), ("c".to_string(), 4)]);
}

#[test]
fn the_settings_of_a_server() {
    let c = Config::defaults();
    assert_eq!(c.port, 5001);
    assert_eq!(DEFAULT_PORT, 5001);
    assert_eq!(c.hostname, None);
    assert_eq!(c.data_dir, "./data/");
    assert_eq!(c.stacks_dir, "/opt/stacks");
    assert!(!c.enable_console);
    assert_eq!(c.db_path(), "./data/dockge.db");
    assert_eq!(c.bind_addr(), "0.0.0.0:5001");
    assert!(!c.tls_enabled());
    assert!(c.is_dev(Some("development")));
    assert!(!c.is_dev(Some("production")));
    assert!(!c.is_dev(None));
    let mut d = Config::defaults();
    d.data_dir = "/var/lib/dockge".to_string();
    d.hostname = Some("127.0.0.1".to_string());
    d.port = 65535;
    d.ssl_key = Some("k".to_string());
    assert_eq!(d.db_path(), "/var/lib/dockge/dockge.db");
    assert_eq!(d.bind_addr(), "127.0.0.1:65535");
    assert!(!d.tls_enabled());
    d.ssl_cert = Some("c".to_string());
    assert!(d.tls_enabled());
    assert_eq!(STACK_LIST_REFRESH_SECS, 10);
}

fn peer(url: &str, name: Option<&str>) -> Agent {
    Agent {
        id: 1,
        url: url.to_string(),
        username: "admin".to_string(),
        password: "pw".to_string(),
        name: name.map(|x| x.to_string()),
        active: true,
    }
}

#[test]
fn the_endpoint_of_a_peer() {
    for (url, endpoint) in [
        ("https://peer.example:5001", "peer.example:5001"),
        ("http://10.0.0.2:5001/", "10.0.0.2:5001"),
        ("https://peer.example/dockge/path", "peer.example"),
        ("peer.example:5001", "peer.example:5001"),
        ("ws://peer.example:5001", "ws:"),
        ("https://", ""),
        ("", ""),
        ("HTTP://peer", "HTTP:"),
        ("https://http://x", "http:"),
    ] {
        assert_eq!(peer(url, None).endpoint(), endpoint, "{}", url);
    }
}

#[test]
fn peers_are_added_removed_and_renamed() {
    let data = JsonValue::Array(vec![object(vec![
        ("url", t("https://p:5001")),
        ("username", t("admin")),
        ("password", t("pw")),
        ("name", t("Peer")),
    ])]);
    assert_eq!(no(handle_add_agent(false, &data)), error_response("Not logged in"));
    let agent = yes(handle_add_agent(true, &data));
    assert_eq!(
        (agent.url.as_str(), agent.username.as_str(), agent.password.as_str(), agent.name.as_str()),
        ("https://p:5001", "admin", "pw", "Peer")
    );
    let missing = object(vec![("url", t("https://p:5001")), ("username", t("admin"))]);
    assert_eq!(
        no(handle_add_agent(true, &missing)),
        error_response("URL, username, and password are required")
    );
    assert_eq!(add_agent_lookup(&Ok(false)), None);
    assert_eq!(
        add_agent_lookup(&Ok(true)),
        Some(error_response("Agent with this URL already exists"))
    );
    assert_eq!(
        add_agent_lookup(&Err("locked".to_string())),
        Some(error_response("Database error: locked"))
    );
    let added = add_agent_reply(&Ok(()));
    assert_eq!(added.ack, ok_response_i18n("agentAddedSuccessfully"));
    assert!(added.refresh_others);
    let failed = add_agent_reply(&Err("x".to_string()));
    assert_eq!(failed.ack, error_response("Failed to add agent: x"));
    assert!(!failed.refresh_others);

    assert_eq!(no(handle_remove_agent(true, &JsonValue::Array(vec![]))), error_response("URL is required"));
    assert_eq!(yes(handle_remove_agent(true, &t("https://p:5001"))), "https://p:5001");
    assert_eq!(remove_agent_reply(&Ok(true)).ack, ok_response_i18n("agentRemovedSuccessfully"));
    assert_eq!(remove_agent_reply(&Ok(false)).ack, error_response("Agent not found"));
    assert_eq!(
        remove_agent_reply(&Err("x".to_string())).ack,
        error_response("Failed to remove agent: x")
    );

    assert_eq!(no(handle_update_agent(true, &t("u"))), error_response("Invalid data format"));
    assert_eq!(
        no(handle_update_agent(true, &JsonValue::Array(vec![t("")]))),
        error_response("URL is required")
    );
    let rename = yes(handle_update_agent(true, &JsonValue::Array(vec![t("u"), t("New")])));
    assert_eq!((rename.url.as_str(), rename.name.as_str()), ("u", "New"));
    assert_eq!(update_agent_reply(&Ok(true)).ack, ok_response_i18n("agentUpdatedSuccessfully"));
    assert_eq!(update_agent_reply(&Ok(false)).ack, error_response("Agent not found"));
    assert_eq!(
        update_agent_reply(&Err("x".to_string())).ack,
        error_response("Failed to update agent: x")
    );
}

#[test]
fn the_list_of_peers() {
    let list = send_agent_list(&vec![
        peer("https://a:5001", Some("A")),
        peer("http://b:5001/x", None),
        peer("http://a:5001", Some("A2")),
    ]);
    assert_eq!(list.len(), 2);
    assert_eq!(list[0].0, "a:5001");
    assert_eq!(list[0].1.url, "http://a:5001");
    assert_eq!(list[0].1.endpoint, "a:5001");
    assert_eq!(list[0].1.name, Some("A2".to_string()));
    assert_eq!(list[1].0, "b:5001");
    assert_eq!(list[1].1.username, "admin");
    assert_eq!(list[1].1.name, None);
    assert!(send_agent_list(&vec![]).is_empty());
}

#[test]
fn settings_are_served_for_less_than_a_minute() {
    assert_eq!(CACHE_TTL_SECS, 60);
    let mut cache = SettingsCache::new();
    assert_eq!(cache.get("primaryHostname", 0), None);
    assert!(cache.loaded("primaryHostname", Some(Some("\"host\"".to_string())), 100));
    assert_eq!(cache.get("primaryHostname", 100), Some(&t("host")));
    assert_eq!(cache.get("primaryHostname", 159), Some(&t("host")));
    assert_eq!(cache.get("primaryHostname", 160), None);
    assert_eq!(cache.get("primaryHostname", 99), Some(&t("host")));
    assert_eq!(cache.get("other", 100), None);
    assert!(!cache.loaded("other", None, 100));
    assert!(!cache.loaded("other", Some(None), 100));
    assert_eq!(cache.get("other", 100), None);
    cache.invalidate("primaryHostname");
    assert_eq!(cache.get("primaryHostname", 100), None);
    assert!(cache.loaded("a", Some(Some("1".to_string())), 5));
    assert!(cache.loaded("a", Some(Some("2".to_string())), 6));
    assert_eq!(cache.get("a", 65), Some(&n("2")));
    cache.clear_cache();
    assert_eq!(cache.get("a", 6), None);
}

#[test]
fn stored_settings_are_json_or_plain_text() {
    assert_eq!(decode_setting("true".to_string()), JsonValue::Bool(true));
    assert_eq!(decode_setting("\"text\"".to_string()), t("text"));
    assert_eq!(decode_setting("6".to_string()), n("6"));
    assert_eq!(decode_setting("plain text".to_string()), t("plain text"));
    assert_eq!(decode_setting("".to_string()), t(""));
    assert_eq!(decode_setting("null".to_string()), JsonValue::Null);
    let rows = vec![
        ("a".to_string(), Some("1".to_string())),
        ("b".to_string(), None),
        ("c".to_string(), Some("x y".to_string())),
        ("a".to_string(), Some("false".to_string())),
    ];
    assert_eq!(
        get_settings(rows),
        members(vec![("a", JsonValue::Bool(false)), ("c", t("x y"))])
    );
}

#[test]
fn settings_are_written_by_key_and_type() {
    assert_eq!(dockge_backend::settings::set(None), SettingWrite::Insert);
    assert_eq!(dockge_backend::settings::set(Some(4)), SettingWrite::Update(4));
    assert_eq!(set_settings(&None, "general"), SettingWrite::Insert);
    assert_eq!(set_settings(&Some((4, None)), "general"), SettingWrite::Update(4));
    assert_eq!(
        set_settings(&Some((4, Some("general".to_string()))), "general"),
        SettingWrite::Update(4)
    );
    assert_eq!(set_settings(&Some((4, Some("other".to_string()))), "general"), SettingWrite::Skip);
    assert_eq!(set_settings(&Some((4, Some("".to_string()))), "general"), SettingWrite::Skip);
}

#[test]
fn the_token_secret() {
    assert_eq!(jwt_secret_of("\"$2b$10$abc\"".to_string()), "$2b$10$abc");
    assert_eq!(jwt_secret_of("$2b$10$abc".to_string()), "$2b$10$abc");
    assert_eq!(jwt_secret_of("5".to_string()), "5");
    let secret = new_jwt_secret().unwrap();
    assert!(secret.starts_with("$2"));
    assert_ne!(new_jwt_secret().unwrap(), secret);
}

#[test]
fn reading_the_settings() {
    assert_eq!(no(handle_get_settings(false)), error_response("Not logged in"));
    assert_eq!(yes(handle_get_settings(true)), ());
    let ack = get_settings_reply(Ok(members(vec![("primaryHostname", t("h"))])), None);
    assert_eq!(ack.ok, Some(true));
    assert_eq!(ack.payload.len(), 1);
    assert_eq!(ack.payload[0].0, "data");
    assert_eq!(
        ack.payload[0].1,
        object(vec![("primaryHostname", t("h")), ("globalENV", t("# VARIABLE=value #comment"))])
    );
    let ack = get_settings_reply(Ok(members(vec![])), Some("A=1\n".to_string()));
    assert_eq!(ack.payload[0].1, object(vec![("globalENV", t("A=1\n"))]));
    let e = AppError::Db("x".to_string());
    assert_eq!(get_settings_reply(Err(&e), None), error_response("x"));
}

#[test]
fn writing_the_settings() {
    let settings = || object(vec![("disableAuth", JsonValue::Bool(true)), ("globalENV", t("A=1"))]);
    assert_eq!(no(handle_set_settings(false, settings())), error_response("Not logged in"));
    let invalid = error_response("Invalid settings data");
    assert_eq!(no(handle_set_settings(true, t("x"))), invalid);
    assert_eq!(no(handle_set_settings(true, JsonValue::Array(vec![]))), invalid);
    assert_eq!(no(handle_set_settings(true, JsonValue::Array(vec![t("x"), t("pw")]))), invalid);
    let bare = yes(handle_set_settings(true, settings()));
    assert_eq!(bare.current_password, "");
    let mut change = yes(handle_set_settings(true, JsonValue::Array(vec![settings(), t("hunter22")])));
    assert_eq!(change.current_password, "hunter22");
    assert_eq!(change.settings.len(), 2);
    assert!(needs_password(None, &change));
    assert!(needs_password(Some(&JsonValue::Bool(false)), &change));
    assert!(!needs_password(Some(&JsonValue::Bool(true)), &change));
    assert!(!needs_password(None, &bare_without_auth()));
    assert_eq!(take_global_env(&mut change), GlobalEnv::Write("A=1".to_string()));
    assert_eq!(change.settings, members(vec![("disableAuth", JsonValue::Bool(true))]));
    assert_eq!(take_global_env(&mut change), GlobalEnv::Keep);
    assert_eq!(set_settings_reply(Ok(())).msg.as_deref(), Some("Saved"));
    let e = AppError::Db("x".to_string());
    assert_eq!(set_settings_reply(Err(&e)), error_response("x"));
    assert!(setting_on(Some(&JsonValue::Bool(true))));
    assert!(!setting_on(Some(&t("true"))));
    assert!(!setting_on(None));
}

fn bare_without_auth() -> dockge_backend::handlers::settings::SettingsChange {
    dockge_backend::handlers::settings::SettingsChange {
        settings: members(vec![("primaryHostname", t("h"))]),
        current_password: String::new(),
    }
}

#[test]
fn the_global_environment_is_written_or_removed() {
    for (value, want) in [
        (t("A=1"), GlobalEnv::Write("A=1".to_string())),
        (t(""), GlobalEnv::Remove),
        (t("# VARIABLE=value #comment"), GlobalEnv::Remove),
        (JsonValue::Null, GlobalEnv::Remove),
        (t(" "), GlobalEnv::Write(" ".to_string())),
    ] {
        let mut change = dockge_backend::handlers::settings::SettingsChange {
            settings: members(vec![("x", n("1")), ("globalENV", value)]),
            current_password: String::new(),
        };
        assert_eq!(take_global_env(&mut change), want);
        assert_eq!(change.settings, members(vec![("x", n("1"))]));
    }
}

#[test]
fn switching_authentication_off_asks_for_the_password() {
    let hash = generate_password_hash("hunter22").unwrap();
    let user = User {
        id: 1,
        username: "admin".to_string(),
        password: Some(hash),
        active: true,
        timezone: None,
        twofa_secret: None,
        twofa_status: false,
        twofa_last_token: None,
    };
    assert_eq!(password_gate(None, "hunter22"), Some(error_response("User not found")));
    assert_eq!(password_gate(Some(&user), "wrong"), Some(error_response("Incorrect password")));
    assert_eq!(password_gate(Some(&user), "hunter22"), None);
}

#[test]
fn converting_a_run_command() {
    assert_eq!(
        no(handle_composerize(true, &JsonValue::Array(vec![]))),
        error_response("dockerRunCommand must be a string")
    );
    assert_eq!(no(handle_composerize(false, &t("docker run x"))), error_response("Not logged in"));
    assert_eq!(
        yes(handle_composerize(true, &t("docker run nginx"))),
        vec!["composerize", "docker run nginx"]
    );
    let done = |out: &str| composerize_reply(&ConverterRun::Done(out.to_string()));
    assert_eq!(
        done("name: <your project name>\nservices:\n  nginx:\n    image: nginx\n").payload,
        vec![("composeTemplate".to_string(), t("services:\n  nginx:\n    image: nginx\n"))]
    );
    assert_eq!(
        done("services:\n  a: {}\n").payload,
        vec![("composeTemplate".to_string(), t("services:\n  a: {}\n"))]
    );
    assert_eq!(done("name: x").payload, vec![("composeTemplate".to_string(), t("name: x"))]);
    assert_eq!(done("name: x\n").payload, vec![("composeTemplate".to_string(), t(""))]);
    assert_eq!(done("").ok, Some(true));
    assert_eq!(
        composerize_reply(&ConverterRun::Failed("bad flag".to_string())),
        error_response("composerize failed: bad flag")
    );
    assert_eq!(
        composerize_reply(&ConverterRun::NotRun("No such file".to_string())),
        error_response("Failed to run composerize: No such file")
    );
}

#[test]
fn joining_a_terminal_replays_its_buffer() {
    assert_eq!(no(handle_terminal_join(false, &t("x"))), error_response("Not logged in"));
    assert_eq!(yes(handle_terminal_join(true, &JsonValue::Array(vec![t("compose--web")]))), "compose--web");
    assert_eq!(yes(handle_terminal_join(true, &JsonValue::Array(vec![]))), "");
    let mut m = TerminalManager::new();
    m.spawn_persistent("combined--web", 1);
    m.push_output("combined--web", "line 1\r\n");
    m.push_output("combined--web", "line 2\r\n");
    let ack = terminal_join_reply(&m, "combined--web");
    assert_eq!(ack.ok, Some(true));
    assert_eq!(ack.payload, vec![("buffer".to_string(), t("line 1\r\nline 2\r\n"))]);
    assert_eq!(terminal_join_reply(&m, "gone").payload, vec![("buffer".to_string(), t(""))]);
}

#[test]
fn input_for_a_terminal() {
    assert_eq!(no(handle_terminal_input(true, &t("x"))), error_response("Invalid data"));
    assert_eq!(
        no(handle_terminal_input(true, &JsonValue::Array(vec![t(""), t("ls")]))),
        error_response("Terminal name required")
    );
    let input = yes(handle_terminal_input(true, &JsonValue::Array(vec![t("main-terminal"), t("ls é\n")])));
    assert_eq!(input.terminal, "main-terminal");
    assert_eq!(input.bytes, "ls é\n".as_bytes());
    let none = yes(handle_terminal_input(true, &JsonValue::Array(vec![t("x")])));
    assert!(none.bytes.is_empty());
}

#[test]
fn a_new_size_for_a_terminal() {
    let r = handle_terminal_resize(&JsonValue::Array(vec![t("x"), n("40"), n("120")]));
    assert_eq!((r.terminal.as_str(), r.rows, r.cols), ("x", 40, 120));
    let r = handle_terminal_resize(&JsonValue::Array(vec![t("x")]));
    assert_eq!((r.rows, r.cols), (10, 105));
    let r = handle_terminal_resize(&JsonValue::Array(vec![t("x"), t("40"), n("1.5")]));
    assert_eq!((r.rows, r.cols), (10, 105));
    let r = handle_terminal_resize(&JsonValue::Array(vec![t("x"), n("65536"), n("65537")]));
    assert_eq!((r.rows, r.cols), (0, 1));
    let r = handle_terminal_resize(&t("x"));
    assert_eq!((r.terminal.as_str(), r.rows, r.cols), ("", 10, 105));
}

#[test]
fn leaving_the_combined_terminal() {
    assert_eq!(yes(handle_leave_combined_terminal(true, &JsonValue::Array(vec![t("web")]))), "combined--web");
    assert_eq!(yes(handle_leave_combined_terminal(true, &t("web"))), "combined--web");
    assert_eq!(
        no(handle_leave_combined_terminal(false, &t("web"))),
        error_response("Not logged in")
    );
}

#[test]
fn an_interactive_shell() {
    let both = error_response("Stack name and service name required");
    assert_eq!(no(handle_interactive_terminal(true, &t("x"))), error_response("Invalid data"));
    assert_eq!(no(handle_interactive_terminal(true, &JsonValue::Array(vec![t("web")]))), both);
    let request = yes(handle_interactive_terminal(true, &JsonValue::Array(vec![t("web"), t("db")])));
    assert_eq!(request.shell, "sh");
    let request = yes(handle_interactive_terminal(
        true,
        &JsonValue::Array(vec![t("web"), t("db"), t("bash")]),
    ));
    assert_eq!(request.shell, "bash");
    let run = interactive_run(&web(), "", &request, false, false);
    assert_eq!(run.terminal, "container-exec--web-db-0");
    assert_eq!(run.program, "docker");
    assert_eq!(run.args, vec!["compose", "exec", "db", "bash"]);
    assert_eq!(run.cwd, "/opt/stacks/web");
    let odd = yes(handle_interactive_terminal(
        true,
        &JsonValue::Array(vec![t("web"), t("db"), n("1")]),
    ));
    assert_eq!(odd.shell, "sh");
}

#[test]
fn following_logs() {
    assert_eq!(no(handle_join_container_log(true, &t("x"))), error_response("Invalid data"));
    let target = yes(handle_join_container_log(true, &JsonValue::Array(vec![t("web"), t("db")])));
    let run = container_log_run(&web(), "", &target, true, false);
    assert_eq!(run.terminal, "container-log--db");
    assert_eq!(
        run.args,
        vec!["compose", "--env-file", "../global.env", "logs", "-f", "--tail", "100", "db"]
    );
    let run = combined_run(&web(), "", false, false);
    assert_eq!(run.terminal, "combined--web");
    assert_eq!(run.args, vec!["compose", "logs", "-f"]);
}

#[test]
fn the_main_terminal_is_gated() {
    assert_eq!(
        no(handle_main_terminal(false, true, Some("/srv"))),
        error_response("Console is not enabled")
    );
    assert_eq!(
        no(handle_main_terminal(false, false, Some("/srv"))),
        error_response("Console is not enabled")
    );
    assert_eq!(no(handle_main_terminal(true, false, None)), error_response("Not logged in"));
    let run = yes(handle_main_terminal(true, true, Some("/srv")));
    assert_eq!(run.terminal, "main-terminal");
    assert_eq!(run.program, "bash");
    assert!(run.args.is_empty());
    assert_eq!(run.cwd, "/srv");
    assert_eq!(yes(handle_main_terminal(true, true, None)).cwd, "/");
    assert_eq!(check_main_terminal(true), ok_response());
    assert_eq!(check_main_terminal(false).ok, Some(false));
    assert_eq!(check_main_terminal(false).msg, None);
}

#[test]
fn spawning_answers() {
    assert_eq!(spawn_reply(&Ok(()), "terminal"), ok_response());
    assert_eq!(
        spawn_reply(&Err("Failed to open PTY: denied".to_string()), "terminal"),
        error_response("Failed to spawn terminal: Failed to open PTY: denied")
    );
    assert_eq!(
        spawn_reply(&Err("x".to_string()), "log terminal"),
        error_response("Failed to spawn log terminal: x")
    );
    assert_eq!(terminal_exit_code(Some(3)), 3);
    assert_eq!(terminal_exit_code(None), 0);
}
