use dockge_backend::error::{
    error_response, error_response_i18n, ok_response, ok_response_i18n, Ack, AppError, ExecRequest,
    Plan,
};
use dockge_backend::handlers::auth::{
    after_login, captcha_checked, captcha_required, change_password_user, handle_change_password,
    handle_login, handle_login_by_token, handle_setup, is_container, login_reply, login_user,
    on_connect, password_changed, send_info, send_stack_list_to_socket, setup_count, setup_hash,
    setup_reply, token_user, turnstile_site_key, verify_turnstile_token, LoginDecision, Push,
};
use dockge_backend::handlers::stack::{
    compose_action_reply, compose_action_run, delete_reply, delete_run, deploy_reply, deploy_run,
    get_stack_reply, handle_check_image_updates, handle_compose_action, handle_delete_stack,
    handle_deploy_stack, handle_get_stack, handle_request_stack_list, handle_save_stack,
    handle_service_action, handle_service_status_list, handle_update_service, handle_update_stack,
    image_updates_checked, primary_hostname, save_reply, service_action_reply, service_action_run,
    service_status_reply, stack_list_updated, update_service_step,
    update_stack_step, ComposeAction, ServiceAction, UpdateNext, UpdatePhase,
};
use dockge_backend::json::JsonValue;
use dockge_backend::session::{check_login, disconnect_other_clients, Session};
use dockge_backend::stack::{Stack, StackDir};
use dockge_backend::stack_list::{ComposeLsEntry, ComposePsEntry};
use dockge_backend::state::{broadcast_stack_list, refresh_stack_cache, AppState};
use dockge_backend::update_checker::{image_verdict, load_cache_from_db, ImageCheck};
use dockge_backend::token::read_jwt;
use dockge_backend::user::{generate_hotp, generate_password_hash, shake256_hex, JwtClaims, User};

const NGINX: &str = "services:\n  web:\n    image: nginx:1.25\n";

fn s(text: &str) -> JsonValue {
    JsonValue::Str(text.to_string())
}

fn arr(items: Vec<JsonValue>) -> JsonValue {
    JsonValue::Array(items)
}

fn obj(members: &[(&str, JsonValue)]) -> JsonValue {
    JsonValue::Object(
        members
            .iter()
            .map(|(k, v)| (k.to_string(), match v {
                JsonValue::Str(t) => JsonValue::Str(t.clone()),
                JsonValue::Bool(b) => JsonValue::Bool(*b),
                JsonValue::Number(n) => JsonValue::Number(n.clone()),
                _ => JsonValue::Null,
            }))
            .collect(),
    )
}

fn list(items: &[&str]) -> Vec<String> {
    items.iter().map(|i| i.to_string()).collect()
}

fn refused<T: std::fmt::Debug>(plan: Plan<T>) -> Ack {
    match plan {
        Plan::Reply(ack) => ack,
        Plan::Proceed(t) => panic!("not refused: {:?}", t),
    }
}

fn proceed<T>(plan: Plan<T>) -> T {
    match plan {
        Plan::Proceed(t) => t,
        Plan::Reply(ack) => panic!("refused: {:?}", ack),
    }
}

fn account(id: i64, name: &str, hash: Option<String>) -> User {
    User {
        id,
        username: name.to_string(),
        password: hash,
        active: true,
        timezone: None,
        twofa_secret: None,
        twofa_status: false,
        twofa_last_token: None,
    }
}

fn stack_named(name: &str, status: i32) -> Stack {
    let mut st = Stack::new(name.to_string(), "/opt/stacks".to_string());
    st.status = status;
    st.managed = true;
    st
}

#[test]
fn the_four_plain_answers() {
    let e = error_response("Not logged in");
    assert_eq!((e.ok, e.msg.as_deref(), e.msgi18n, e.payload.len()), (Some(false), Some("Not logged in"), false, 0));
    let e = error_response_i18n("authIncorrectCreds");
    assert_eq!((e.ok, e.msg.as_deref(), e.msgi18n), (Some(false), Some("authIncorrectCreds"), true));
    let o = ok_response();
    assert_eq!((o.ok, o.msg, o.msgi18n, o.payload.len()), (Some(true), None, false, 0));
    let o = ok_response_i18n("Updated");
    assert_eq!((o.ok, o.msg.as_deref(), o.msgi18n), (Some(true), Some("Updated"), true));
}

#[test]
fn an_answer_carries_the_explanation_without_the_kind() {
    let e = AppError::Validation("Stack name already exists".to_string());
    assert_eq!(e.explanation(), "Stack name already exists");
    assert_eq!(dockge_backend::error::error_reply(&e), error_response("Stack name already exists"));
    assert_eq!(dockge_backend::error::error_reply(&AppError::Db("locked".to_string())), error_response("locked"));
    assert_eq!(dockge_backend::error::error_reply(&AppError::NotFound("n".to_string())), error_response("n"));
}

#[test]
fn errors_say_their_kind() {
    assert_eq!(AppError::Validation("v".to_string()).message(), "Validation error: v");
    assert_eq!(AppError::Auth("a".to_string()).message(), "Auth error: a");
    assert_eq!(AppError::NotFound("n".to_string()).message(), "Not found: n");
    assert_eq!(AppError::Internal("i".to_string()).message(), "Internal error: i");
    assert_eq!(AppError::Db("d".to_string()).message(), "Database error: d");
}

#[test]
fn setup_login_and_list() {
    let mut state = AppState::new();
    state.need_setup = true;
    let mut session = Session::new("s1", None);
    assert_eq!(
        on_connect(&mut session, state.need_setup, None, None),
        vec![Push::Info { hide_version: true }, Push::Setup]
    );
    assert_eq!(check_login(&session), None);

    let request = proceed(handle_setup(&arr(vec![s("admin"), s("hunter22")])));
    assert_eq!((request.username.as_str(), request.password.as_str()), ("admin", "hunter22"));
    assert_eq!(setup_count(&Ok(0)), None);
    let hash = setup_hash(&request).unwrap();
    let ack = setup_reply(&mut state, Ok(()));
    assert_eq!(ack, ok_response_i18n("successAdded"));
    assert!(!state.need_setup);

    let login = arr(vec![obj(&[("username", s("admin")), ("password", s("hunter22"))])]);
    let request = proceed(handle_login(&login, false));
    let user = account(1, "admin", Some(hash.clone()));
    let decision = login_user(Ok(Some(&user)), &request, 1_700_000_000);
    assert_eq!(decision, LoginDecision::Accept { remember_token: None });
    let token = user.create_jwt("secret", 1_700_000_000).unwrap();
    let claims = read_jwt(&token, "secret").unwrap();
    assert_eq!(claims.h, shake256_hex(&hash, 16));
    let ack = login_reply(&mut session, &user, Ok("signed.token.text".to_string()));
    assert_eq!(ack.ok, Some(true));
    assert_eq!(ack.payload, vec![("token".to_string(), s("signed.token.text"))]);
    assert_eq!(check_login(&session), Some(1));
    assert_eq!(
        after_login(),
        vec![Push::Info { hide_version: false }, Push::StackList, Push::AgentList]
    );
    let info = send_info(&state, Some(&s("dockge.example")), false, false);
    assert_eq!(info.get("primaryHostname"), Some(&s("dockge.example")));
    assert_eq!(info.get("version"), Some(&s("1.5.0")));
    assert_eq!(info.get("latestVersion"), Some(&JsonValue::Null));
    assert_eq!(info.get("isContainer"), Some(&JsonValue::Bool(false)));
    assert!(send_stack_list_to_socket(&state));
    let empty: Vec<(String, Stack)> = Vec::new();
    assert!(broadcast_stack_list(&mut state, Ok(&empty)).is_empty());
}

#[test]
fn setup_is_refused() {
    let weak = "Password is too weak. It should contain alphabetic and numeric characters. It must be at least 6 characters in length.";
    assert_eq!(refused(handle_setup(&arr(vec![s("admin"), s("hunter")]))), error_response(weak));
    assert_eq!(refused(handle_setup(&arr(vec![s("admin")]))), error_response(weak));
    assert_eq!(refused(handle_setup(&JsonValue::Null)), error_response(weak));
    assert_eq!(
        setup_count(&Ok(1)),
        Some(error_response(
            "Dockge has been initialized. If you want to run setup again, please delete the database."
        ))
    );
    assert_eq!(
        setup_count(&Err("locked".to_string())),
        Some(error_response("Database error: locked"))
    );
    let mut state = AppState::new();
    state.need_setup = true;
    let e = AppError::Db("UNIQUE constraint failed".to_string());
    assert_eq!(
        setup_reply(&mut state, Err(&e)),
        error_response("UNIQUE constraint failed")
    );
    assert!(state.need_setup);
}

#[test]
fn login_needs_credentials() {
    let creds = error_response_i18n("authIncorrectCreds");
    assert_eq!(refused(handle_login(&arr(vec![obj(&[("username", s("admin"))])]), false)), creds);
    assert_eq!(
        refused(handle_login(&obj(&[("username", s("")), ("password", s("x"))]), false)),
        creds
    );
    assert_eq!(refused(handle_login(&arr(vec![]), false)), creds);
    let bare = proceed(handle_login(&obj(&[("username", s("a")), ("password", s("b"))]), false));
    assert_eq!((bare.username.as_str(), bare.password.as_str()), ("a", "b"));
    assert_eq!((bare.captcha_token, bare.token), (None, None));
}

#[test]
fn login_with_a_captcha() {
    assert!(captcha_required("site", "secret"));
    assert!(!captcha_required("", "secret"));
    assert!(!captcha_required("site", ""));
    let login = obj(&[("username", s("a")), ("password", s("b"))]);
    assert_eq!(refused(handle_login(&login, true)), error_response("Invalid CAPTCHA"));
    let login = obj(&[("username", s("a")), ("password", s("b")), ("captchaToken", s("c"))]);
    assert_eq!(proceed(handle_login(&login, true)).captcha_token, Some("c".to_string()));
    assert_eq!(proceed(handle_login(&login, false)).captcha_token, None);
    assert!(verify_turnstile_token(Some(&obj(&[("success", JsonValue::Bool(true))]))));
    assert!(!verify_turnstile_token(Some(&obj(&[("success", JsonValue::Bool(false))]))));
    assert!(!verify_turnstile_token(Some(&obj(&[("success", s("true"))]))));
    assert!(!verify_turnstile_token(Some(&obj(&[]))));
    assert!(!verify_turnstile_token(None));
    assert_eq!(captcha_checked(true), None);
    assert_eq!(captcha_checked(false), Some(error_response("Invalid CAPTCHA")));
}

#[test]
fn login_is_refused_alike_for_unknown_user_and_wrong_password() {
    let hash = generate_password_hash("hunter22").unwrap();
    let user = account(1, "admin", Some(hash));
    let wrong = proceed(handle_login(&obj(&[("username", s("admin")), ("password", s("nope1"))]), false));
    let creds = LoginDecision::Reject(error_response_i18n("authIncorrectCreds"));
    assert_eq!(login_user(Ok(Some(&user)), &wrong, 0), creds);
    assert_eq!(login_user(Ok(None), &wrong, 0), creds);
    let e = AppError::Db("gone".to_string());
    assert_eq!(
        login_user(Err(&e), &wrong, 0),
        LoginDecision::Reject(error_response("gone"))
    );
    let nopass = account(2, "ghost", None);
    assert_eq!(login_user(Ok(Some(&nopass)), &wrong, 0), creds);
}

#[test]
fn login_with_a_second_factor() {
    let hash = generate_password_hash("hunter22").unwrap();
    let mut user = account(1, "admin", Some(hash));
    user.twofa_status = true;
    user.twofa_secret = Some("GEZDGNBVGY3TQOJQGEZDGNBVGY3TQOJQ".to_string());
    let with = |token: Option<&str>| {
        let mut members = vec![("username", s("admin")), ("password", s("hunter22"))];
        if let Some(t) = token {
            members.push(("token", s(t)));
        }
        proceed(handle_login(&obj(&members), false))
    };
    let asks = || Ack {
        ok: None,
        msg: None,
        msgi18n: false,
        payload: vec![("tokenRequired".to_string(), JsonValue::Bool(true))],
    };
    let invalid = LoginDecision::Reject(error_response_i18n("authInvalidToken"));
    assert_eq!(login_user(Ok(Some(&user)), &with(None), 59), LoginDecision::Reject(asks()));
    assert_eq!(login_user(Ok(Some(&user)), &with(Some("")), 59), LoginDecision::Reject(asks()));
    assert_eq!(
        login_user(Ok(Some(&user)), &with(Some("287082")), 59),
        LoginDecision::Accept { remember_token: Some("287082".to_string()) }
    );
    assert_eq!(login_user(Ok(Some(&user)), &with(Some("000000")), 59), invalid);
    user.twofa_last_token = Some("287082".to_string());
    assert_eq!(login_user(Ok(Some(&user)), &with(Some("287082")), 59), invalid);
    assert_eq!(
        login_user(Ok(Some(&user)), &with(Some("359152")), 59),
        LoginDecision::Accept { remember_token: Some("359152".to_string()) }
    );
    user.twofa_secret = None;
    assert_eq!(login_user(Ok(Some(&user)), &with(Some("287082")), 59), invalid);
    user.twofa_secret = Some("".to_string());
    assert_eq!(login_user(Ok(Some(&user)), &with(Some("359152")), 59), invalid);
    assert_eq!(generate_hotp(b"12345678901234567890", 1, 6), "287082");
}

#[test]
fn a_failed_signature_fails_the_login() {
    let mut session = Session::new("s1", None);
    let user = account(1, "admin", None);
    let e = AppError::Internal("JWT encode error: key".to_string());
    assert_eq!(
        login_reply(&mut session, &user, Err(&e)),
        error_response("JWT encode error: key")
    );
    assert_eq!(check_login(&session), None);
}

#[test]
fn login_by_token() {
    let invalid = error_response_i18n("authInvalidToken");
    assert_eq!(refused(handle_login_by_token(&arr(vec![]))), invalid);
    assert_eq!(refused(handle_login_by_token(&s(""))), invalid);
    assert_eq!(proceed(handle_login_by_token(&arr(vec![s("a.b.c")]))), "a.b.c");
    assert_eq!(proceed(handle_login_by_token(&s("a.b.c"))), "a.b.c");

    let user = account(7, "admin", Some("$2b$10$hashhashhashhashhashha".to_string()));
    let claims = read_jwt(&user.create_jwt("secret", 0).unwrap(), "secret").unwrap();
    let open = JwtClaims { username: claims.username.clone(), h: claims.h.clone(), exp: None };
    let mut session = Session::new("s1", None);
    assert_eq!(token_user(&mut session, None, Ok(Some(&user))), invalid);
    assert_eq!(
        token_user(&mut session, Some(&claims), Ok(None)),
        error_response_i18n("authUserInactiveOrDeleted")
    );
    let e = AppError::Db("x".to_string());
    assert_eq!(token_user(&mut session, Some(&claims), Err(&e)), error_response("x"));
    let changed = account(7, "admin", Some("$2b$10$otherotherotherotherot".to_string()));
    assert_eq!(token_user(&mut session, Some(&claims), Ok(Some(&changed))), invalid);
    assert_eq!(check_login(&session), None);
    assert_eq!(token_user(&mut session, Some(&open), Ok(Some(&user))), ok_response());
    assert_eq!(check_login(&session), Some(7));
}

#[test]
fn a_password_is_changed() {
    let data = arr(vec![obj(&[("currentPassword", s("hunter22")), ("newPassword", s("secret99"))])]);
    assert_eq!(refused(handle_change_password(None, &data)), error_response("Not logged in"));
    let none = obj(&[("currentPassword", s("hunter22"))]);
    assert_eq!(refused(handle_change_password(Some(1), &none)), error_response("Invalid new password"));
    let weak = obj(&[("currentPassword", s("hunter22")), ("newPassword", s("secret"))]);
    assert!(refused(handle_change_password(Some(1), &weak)).msg.unwrap().starts_with("Password is too weak."));
    let change = proceed(handle_change_password(Some(1), &data));
    assert_eq!(
        (change.user_id, change.current_password.as_str(), change.new_password.as_str()),
        (1, "hunter22", "secret99")
    );
    assert_eq!(change_password_user(None, &change), Err(error_response("User not found")));
    let user = account(1, "admin", Some(generate_password_hash("other111").unwrap()));
    assert_eq!(
        change_password_user(Some(&user), &change),
        Err(error_response("Incorrect current password"))
    );
    let user = account(1, "admin", Some(generate_password_hash("hunter22").unwrap()));
    let new_hash = change_password_user(Some(&user), &change).unwrap();
    assert!(account(1, "admin", Some(new_hash)).verify_password("secret99"));
    assert_eq!(
        password_changed(Ok(())).msg.as_deref(),
        Some("Password has been updated successfully.")
    );
    let e = AppError::Db("x".to_string());
    assert_eq!(password_changed(Err(&e)), error_response("x"));
}

#[test]
fn a_password_change_invalidates_the_tokens() {
    let old = account(1, "admin", Some(generate_password_hash("hunter22").unwrap()));
    let claims = read_jwt(&old.create_jwt("secret", 0).unwrap(), "secret").unwrap();
    let new = account(1, "admin", Some(generate_password_hash("hunter22").unwrap()));
    assert!(old.token_still_valid(&claims));
    assert!(!new.token_still_valid(&claims));
}

#[test]
fn with_authentication_off_the_first_user_is_logged_in() {
    let user = account(3, "admin", None);
    let mut session = Session::new("s1", Some("peer:5001"));
    assert!(!session.is_local());
    let pushes = on_connect(&mut session, false, Some(&JsonValue::Bool(true)), Some(&user));
    assert_eq!(
        pushes,
        vec![
            Push::Info { hide_version: true },
            Push::Info { hide_version: false },
            Push::StackList,
            Push::AgentList,
            Push::AutoLogin
        ]
    );
    assert_eq!(check_login(&session), Some(3));
    let mut other = Session::new("s2", None);
    assert!(other.is_local());
    assert_eq!(
        on_connect(&mut other, false, Some(&JsonValue::Bool(true)), None),
        vec![Push::Info { hide_version: true }]
    );
    assert_eq!(
        on_connect(&mut other, false, Some(&s("true")), Some(&user)),
        vec![Push::Info { hide_version: true }]
    );
    assert_eq!(check_login(&other), None);
    session.logout();
    assert_eq!(check_login(&session), None);
}

#[test]
fn information_without_version_for_strangers() {
    let mut state = AppState::new();
    state.latest_version = Some("1.6.0".to_string());
    let info = send_info(&state, None, true, true);
    assert_eq!(info, JsonValue::Object(vec![("primaryHostname".to_string(), JsonValue::Null)]));
    let info = send_info(&state, Some(&JsonValue::Bool(true)), false, true);
    assert_eq!(info.get("primaryHostname"), Some(&JsonValue::Null));
    assert_eq!(info.get("latestVersion"), Some(&s("1.6.0")));
    assert_eq!(info.get("isContainer"), Some(&JsonValue::Bool(true)));
    assert!(is_container(Some("1")));
    assert!(!is_container(Some("0")));
    assert!(!is_container(Some("true")));
    assert!(!is_container(None));
}

#[test]
fn the_site_key() {
    assert_eq!(turnstile_site_key(""), error_response("Turnstile site key is not configured."));
    let ack = turnstile_site_key("0x4AAA");
    assert_eq!(ack.ok, Some(true));
    assert_eq!(ack.payload, vec![("siteKey".to_string(), s("0x4AAA"))]);
}

#[test]
fn other_sessions_of_a_user_are_told_to_go() {
    let mut sessions = Vec::new();
    for (id, user) in [("a", Some(1)), ("b", Some(2)), ("c", None), ("d", Some(1)), ("e", Some(1))] {
        let mut session = Session::new(id, None);
        if let Some(u) = user {
            session.login(&account(u, "u", None));
        }
        sessions.push(session);
    }
    assert_eq!(disconnect_other_clients(&sessions, "a", Some(1)), vec![3, 4]);
    assert_eq!(disconnect_other_clients(&sessions, "d", Some(1)), vec![0, 4]);
    assert_eq!(disconnect_other_clients(&sessions, "a", Some(2)), vec![1]);
    assert_eq!(disconnect_other_clients(&sessions, "b", Some(2)), Vec::<usize>::new());
    assert_eq!(disconnect_other_clients(&sessions, "a", None), vec![1, 2, 3, 4]);
    assert_eq!(disconnect_other_clients(&sessions, "zz", Some(9)), Vec::<usize>::new());
}

#[test]
fn events_need_a_session() {
    let no = error_response("Not logged in");
    let data = arr(vec![s("web")]);
    assert_eq!(refused(handle_request_stack_list(false)), no);
    assert_eq!(refused(handle_get_stack(false, &data)), no);
    assert_eq!(refused(handle_deploy_stack(false, &data, "/opt/stacks")), no);
    assert_eq!(refused(handle_save_stack(false, &data, "/opt/stacks")), no);
    assert_eq!(refused(handle_compose_action(false, &data)), no);
    assert_eq!(refused(handle_update_stack(false, &data)), no);
    assert_eq!(refused(handle_delete_stack(false, &data, true)), no);
    assert_eq!(refused(handle_service_status_list(false, &data)), no);
    assert_eq!(refused(handle_service_action(false, &data)), no);
    assert_eq!(refused(handle_update_service(false, &data)), no);
    assert_eq!(refused(handle_check_image_updates(false, &data)), no);
    assert_eq!(proceed(handle_request_stack_list(true)), ());
    assert_eq!(stack_list_updated(), ok_response_i18n("Updated"));
}

#[test]
fn arguments_come_wrapped_or_bare() {
    assert_eq!(proceed(handle_get_stack(true, &arr(vec![s("web")]))), "web");
    assert_eq!(proceed(handle_get_stack(true, &s("web"))), "web");
    let required = error_response("Stack name is required");
    assert_eq!(refused(handle_get_stack(true, &arr(vec![]))), required);
    assert_eq!(refused(handle_get_stack(true, &arr(vec![JsonValue::Bool(true)]))), required);
    assert_eq!(refused(handle_get_stack(true, &JsonValue::Null)), required);
    assert_eq!(refused(handle_compose_action(true, &s(""))), required);
    assert_eq!(proceed(handle_update_stack(true, &arr(vec![]))), "");
    assert_eq!(
        refused(handle_check_image_updates(true, &arr(vec![]))),
        error_response("Stack name required")
    );
    assert_eq!(proceed(handle_check_image_updates(true, &s("web"))), "web");
    assert_eq!(image_updates_checked().ack.msg.as_deref(), Some("Image update check complete"));
    assert!(image_updates_checked().refresh);
}

#[test]
fn deploy_happy_path() {
    let data = arr(vec![s("web"), s(NGINX), s(""), s(""), JsonValue::Bool(true)]);
    let request = proceed(handle_deploy_stack(true, &data, "/opt/stacks"));
    assert!(request.is_add);
    assert_eq!(request.stack.name, "web");
    let plan = request.stack.save(request.is_add, &StackDir::absent()).unwrap();
    assert!(plan.create_dir);
    assert_eq!(plan.writes, vec![("compose.yaml".to_string(), NGINX.to_string())]);
    let run = deploy_run(&request.stack, "", false, false);
    assert_eq!(
        run,
        ExecRequest {
            terminal: "compose--web".to_string(),
            program: "docker".to_string(),
            args: list(&["compose", "up", "-d", "--remove-orphans"]),
            cwd: "/opt/stacks/web".to_string(),
        }
    );
    let outcome = deploy_reply(&Ok(0));
    assert_eq!(outcome.ack, ok_response_i18n("Deployed"));
    assert!(outcome.refresh);

    let dirs = vec![("web".to_string(), StackDir { exists: true, files: plan.writes.clone() })];
    let listing = vec![ComposeLsEntry {
        name: "web".to_string(),
        status: "running(1)".to_string(),
        config_files: None,
    }];
    let stacks = Stack::get_stack_list("/opt/stacks", &dirs, &listing);
    let mut state = AppState::new();
    let sent = broadcast_stack_list(&mut state, Ok(&stacks));
    assert_eq!(sent.len(), 1);
    assert_eq!(sent[0].0, "web");
    assert!(sent[0].1.started);
    assert_eq!(sent[0].1.status, 3);
    assert!(sent[0].1.is_managed_by_dockge);
    assert_eq!(sent[0].1.endpoint, "");
}

#[test]
fn a_failed_deploy() {
    let outcome = deploy_reply(&Ok(1));
    assert_eq!(outcome.ack, error_response("Failed to deploy (exit code 1)"));
    assert!(!outcome.refresh);
    assert_eq!(deploy_reply(&Ok(-1)).ack, error_response("Failed to deploy (exit code -1)"));
    let busy = "Another operation is already running, please try again later.".to_string();
    assert_eq!(deploy_reply(&Err(busy.clone())).ack, error_response(&busy));
}

#[test]
fn name_collision() {
    let data = arr(vec![s("web"), s(NGINX), s(""), s(""), JsonValue::Bool(true)]);
    let request = proceed(handle_deploy_stack(true, &data, "/opt/stacks"));
    let existing = StackDir { exists: true, files: vec![("compose.yaml".to_string(), "old".to_string())] };
    let err = request.stack.save(request.is_add, &existing).unwrap_err();
    assert_eq!(err, AppError::Validation("Stack name already exists".to_string()));
    let outcome = save_reply(Err(&err));
    assert_eq!(outcome.ack.ok, Some(false));
    assert_eq!(outcome.ack.msg.as_deref(), Some("Stack name already exists"));
    assert!(!outcome.refresh);
}

#[test]
fn saving() {
    assert_eq!(
        refused(handle_save_stack(true, &s("web"), "/opt/stacks")),
        error_response("Invalid data")
    );
    let request = proceed(handle_save_stack(true, &arr(vec![s("web"), s("a: 1")]), "/opt/stacks"));
    assert!(!request.is_add);
    assert_eq!(request.stack.compose_yaml, "a: 1");
    assert_eq!(request.stack.compose_env, "");
    assert_eq!(request.stack.stacks_dir, "/opt/stacks");
    let outcome = save_reply(Ok(()));
    assert_eq!(outcome.ack, ok_response_i18n("Saved"));
    assert!(outcome.refresh);
}

#[test]
fn compose_actions() {
    let stack = stack_named("web", 3);
    let cases = [
        (ComposeAction::Up, vec!["compose", "up", "-d", "--remove-orphans"], "Started"),
        (ComposeAction::Stop, vec!["compose", "stop"], "Stopped"),
        (ComposeAction::Restart, vec!["compose", "restart"], "Restarted"),
        (ComposeAction::Down, vec!["compose", "down"], "Downed"),
    ];
    for (action, args, done) in cases {
        let run = compose_action_run(&stack, "", action, false, false);
        assert_eq!(run.terminal, "compose--web");
        assert_eq!(run.program, "docker");
        assert_eq!(run.args, args);
        assert_eq!(run.cwd, "/opt/stacks/web");
        let outcome = compose_action_reply(action, &Ok(0));
        assert_eq!(outcome.ack, ok_response_i18n(done));
        assert!(outcome.refresh);
        let failed = compose_action_reply(action, &Ok(125));
        assert_eq!(failed.ack, error_response("Failed (exit code 125)"));
        assert!(failed.refresh);
    }
    let run = compose_action_run(&stack, "peer", ComposeAction::Down, true, true);
    assert_eq!(run.terminal, "compose-peer-web");
    assert_eq!(
        run.args,
        vec!["compose", "--env-file", "../global.env", "--env-file", "./.env", "down"]
    );
    let refused = compose_action_reply(ComposeAction::Up, &Err("busy".to_string()));
    assert_eq!(refused.ack, error_response("busy"));
}

fn run_of(next: UpdateNext) -> (ExecRequest, UpdatePhase) {
    match next {
        UpdateNext::Run(run, phase) => (run, phase),
        UpdateNext::Finish(o) => panic!("finished: {:?}", o),
    }
}

fn end_of(next: UpdateNext) -> (Ack, bool) {
    match next {
        UpdateNext::Finish(o) => (o.ack, o.refresh),
        UpdateNext::Run(run, _) => panic!("runs: {:?}", run),
    }
}

#[test]
fn updating_a_started_stack_pulls_recreates_and_prunes() {
    let stack = stack_named("web", 3);
    let ok: Result<i32, String> = Ok(0);
    let (pull, phase) = run_of(update_stack_step(&stack, "", UpdatePhase::Start, &ok, false, false));
    assert_eq!((pull.terminal.as_str(), phase), ("compose--web", UpdatePhase::Pulled));
    assert_eq!(pull.args, vec!["compose", "pull"]);
    let (up, phase) = run_of(update_stack_step(&stack, "", phase, &ok, false, false));
    assert_eq!((up.terminal.as_str(), phase), ("compose--web-up", UpdatePhase::Recreated));
    assert_eq!(up.args, vec!["compose", "up", "-d", "--remove-orphans"]);
    let (prune, phase) = run_of(update_stack_step(&stack, "", phase, &ok, false, false));
    assert_eq!((prune.terminal.as_str(), phase), ("compose--web-prune", UpdatePhase::Pruned));
    assert_eq!(prune.program, "docker");
    assert_eq!(prune.args, vec!["image", "prune", "--all", "--force"]);
    assert_eq!(prune.cwd, "/opt/stacks/web");
    for exit in [Ok(0), Ok(1), Err("busy".to_string())] {
        let (ack, refresh) = end_of(update_stack_step(&stack, "", phase, &exit, false, false));
        assert_eq!(ack, ok_response_i18n("Updated web"));
        assert!(refresh);
    }
}

#[test]
fn updating_a_stopped_stack_only_pulls() {
    let stack = stack_named("web", 4);
    let (ack, refresh) =
        end_of(update_stack_step(&stack, "", UpdatePhase::Pulled, &Ok(0), false, false));
    assert_eq!(ack, ok_response_i18n("Updated web"));
    assert!(refresh);
}

#[test]
fn an_update_stops_at_the_first_failure() {
    let stack = stack_named("web", 3);
    for exit in [Ok(1), Err("busy".to_string())] {
        let (ack, refresh) =
            end_of(update_stack_step(&stack, "", UpdatePhase::Pulled, &exit, false, false));
        assert_eq!(ack, error_response("Failed to pull images"));
        assert!(!refresh);
        let (ack, refresh) =
            end_of(update_stack_step(&stack, "", UpdatePhase::Recreated, &exit, false, false));
        assert_eq!(ack, error_response("Failed to recreate containers"));
        assert!(!refresh);
    }
}

#[test]
fn deleting() {
    let with_files = arr(vec![s("web"), obj(&[("deleteStackFiles", JsonValue::Bool(true))])]);
    let request = proceed(handle_delete_stack(true, &with_files, false));
    assert_eq!((request.stack_name.as_str(), request.delete_files, request.force), ("web", true, false));
    let keep = arr(vec![s("web"), obj(&[("deleteStackFiles", JsonValue::Bool(false))])]);
    assert!(!proceed(handle_delete_stack(true, &keep, false)).delete_files);
    assert!(!proceed(handle_delete_stack(true, &arr(vec![s("web")]), false)).delete_files);
    assert!(!proceed(handle_delete_stack(true, &s("web"), false)).delete_files);
    assert!(proceed(handle_delete_stack(true, &arr(vec![s("web")]), true)).delete_files);
    assert!(proceed(handle_delete_stack(true, &s("web"), true)).delete_files);
    let stack = stack_named("web", 3);
    assert_eq!(
        delete_run(&stack, "", false, false, false).args,
        vec!["compose", "down", "--remove-orphans"]
    );
    assert_eq!(
        delete_run(&stack, "", true, false, false).args,
        vec!["compose", "down", "-v", "--remove-orphans"]
    );
    assert_eq!(delete_run(&stack, "", true, false, false).terminal, "compose--web");
    assert_eq!(delete_reply(Ok(())).ack, ok_response_i18n("Deleted"));
    assert!(delete_reply(Ok(())).refresh);
    let e = AppError::Internal("Failed to delete stack files: busy".to_string());
    assert_eq!(delete_reply(Err(&e)).ack, error_response("Failed to delete stack files: busy"));
    assert!(delete_reply(Err(&e)).refresh);
}

fn container(service: &str, image: &str) -> ComposePsEntry {
    ComposePsEntry {
        service: service.to_string(),
        state: "running".to_string(),
        name: format!("{}-1", service),
        health: String::new(),
        image: image.to_string(),
    }
}

#[test]
fn recreate_necessary() {
    let mut stack = stack_named("cache", 3);
    stack.compose_yaml = "services:\n  redis:\n    image: redis:7.2\n  web:\n    image: nginx:1.25\n  job:\n    build: .\n".to_string();
    let status_list = Stack::get_service_status_list(vec![
        container("redis", "redis:7.0"),
        container("web", "nginx:1.25"),
        container("job", "cache-job"),
        container("stray", "busybox"),
    ]);
    let mut state = AppState::new();
    assert!(!state.recreate_necessary("cache"));
    let reply = service_status_reply(&mut state, &stack, &status_list);
    assert_eq!(reply.recreate, vec!["redis"]);
    assert!(reply.updates.is_empty());
    assert!(state.recreate_necessary("cache"));
    let stacks = vec![("cache".to_string(), stack.clone())];
    refresh_stack_cache(&mut state, Ok(&stacks));
    assert!(state.stack_cache[0].1.recreate_necessary);

    let matching = Stack::get_service_status_list(vec![container("redis", "redis:7.2")]);
    let reply = service_status_reply(&mut state, &stack, &matching);
    assert!(reply.recreate.is_empty());
    assert!(!state.recreate_necessary("cache"));
}

#[test]
fn recreate_looks_at_the_first_container_only() {
    let mut stack = stack_named("s", 3);
    stack.compose_yaml = "services:\n  a:\n    image: one\n".to_string();
    let mut state = AppState::new();
    let first_same = Stack::get_service_status_list(vec![container("a", "one"), container("a", "two")]);
    assert!(service_status_reply(&mut state, &stack, &first_same).recreate.is_empty());
    let first_other = Stack::get_service_status_list(vec![container("a", "two"), container("a", "one")]);
    assert_eq!(service_status_reply(&mut state, &stack, &first_other).recreate, vec!["a"]);
    let unknown = Stack::get_service_status_list(vec![container("a", "")]);
    assert!(service_status_reply(&mut state, &stack, &unknown).recreate.is_empty());
    stack.compose_yaml = "services: [".to_string();
    assert!(service_status_reply(&mut state, &stack, &first_other).recreate.is_empty());
}

#[test]
fn update_check_positive() {
    let check = ImageCheck {
        stack_name: "web".to_string(),
        service_name: "web".to_string(),
        image: "nginx:1.25".to_string(),
        ignore_digest: None,
    };
    let row = image_verdict(&check, Some("B".to_string()), Some("A".to_string()), 1).unwrap();
    assert!(row.has_update);
    let mut state = AppState::new();
    state.replace_update_cache(load_cache_from_db(&vec![(
        row.stack_name.clone(),
        row.service_name.clone(),
        row.has_update,
    )]));
    assert!(state.image_updates_available("web"));
    let stacks = vec![("web".to_string(), stack_named("web", 3))];
    let sent = broadcast_stack_list(&mut state, Ok(&stacks));
    assert!(sent[0].1.image_updates_available);
    let reply = service_status_reply(&mut state, &stacks[0].1, &Vec::new());
    assert_eq!(reply.updates, vec![("web".to_string(), true)]);

    let ignoring = ImageCheck { ignore_digest: Some("B".to_string()), ..check };
    let row = image_verdict(&ignoring, Some("B".to_string()), Some("A".to_string()), 2).unwrap();
    assert!(!row.has_update);
    state.replace_update_cache(load_cache_from_db(&vec![(
        row.stack_name.clone(),
        row.service_name.clone(),
        row.has_update,
    )]));
    let sent = broadcast_stack_list(&mut state, Ok(&stacks));
    assert!(!sent[0].1.image_updates_available);
}

#[test]
fn the_cache_stays_when_the_list_cannot_be_computed() {
    let mut state = AppState::new();
    let stacks = vec![("web".to_string(), stack_named("web", 3))];
    refresh_stack_cache(&mut state, Ok(&stacks));
    assert_eq!(state.stack_cache.len(), 1);
    let e = AppError::Internal("io".to_string());
    refresh_stack_cache(&mut state, Err(&e));
    assert_eq!(state.stack_cache.len(), 1);
    assert!(!send_stack_list_to_socket(&state));
    let none: Vec<(String, Stack)> = Vec::new();
    refresh_stack_cache(&mut state, Ok(&none));
    assert!(state.stack_cache.is_empty());
}

#[test]
fn reading_a_stack() {
    let mut state = AppState::new();
    state.set_recreate("web", true);
    let mut stack = stack_named("web", 5);
    stack.compose_yaml = NGINX.to_string();
    let reply = get_stack_reply(&state, "web", Ok(&stack), Some(&s("host.example")));
    assert_eq!(reply.join_terminal, Some("combined--web".to_string()));
    assert_eq!(reply.ack.ok, Some(true));
    assert_eq!(reply.ack.payload.len(), 1);
    assert_eq!(reply.ack.payload[0].0, "stack");
    let json = &reply.ack.payload[0].1;
    assert_eq!(json.get("name"), Some(&s("web")));
    assert_eq!(json.get("status"), Some(&JsonValue::Number("5".to_string())));
    assert_eq!(json.get("started"), Some(&JsonValue::Bool(true)));
    assert_eq!(json.get("recreateNecessary"), Some(&JsonValue::Bool(true)));
    assert_eq!(json.get("imageUpdatesAvailable"), Some(&JsonValue::Bool(false)));
    assert_eq!(json.get("tags"), Some(&JsonValue::Array(vec![])));
    assert_eq!(json.get("isManagedByDockge"), Some(&JsonValue::Bool(true)));
    assert_eq!(json.get("composeFileName"), Some(&s("compose.yaml")));
    assert_eq!(json.get("composeOverrideFileName"), Some(&s("compose.override.yaml")));
    assert_eq!(json.get("endpoint"), Some(&s("")));
    assert_eq!(json.get("composeYAML"), Some(&s(NGINX)));
    assert_eq!(json.get("composeENV"), Some(&s("")));
    assert_eq!(json.get("composeOverrideYAML"), Some(&s("")));
    assert_eq!(json.get("primaryHostname"), Some(&s("host.example")));
    stack.managed = false;
    assert_eq!(get_stack_reply(&state, "web", Ok(&stack), None).join_terminal, None);
    let e = AppError::NotFound("Stack not found".to_string());
    let reply = get_stack_reply(&state, "web", Err(&e), None);
    assert_eq!(reply.ack, error_response("Stack not found"));
    assert_eq!(reply.join_terminal, None);
    assert_eq!(primary_hostname(None), "localhost");
    assert_eq!(primary_hostname(Some(&JsonValue::Null)), "localhost");
    assert_eq!(primary_hostname(Some(&s("h"))), "h");
}

#[test]
fn service_actions() {
    let both = error_response("Stack name and service name required");
    assert_eq!(refused(handle_service_action(true, &s("web"))), error_response("Invalid data"));
    assert_eq!(refused(handle_service_action(true, &arr(vec![s("web")]))), both);
    assert_eq!(refused(handle_service_action(true, &arr(vec![s(""), s("db")]))), both);
    let target = proceed(handle_service_action(true, &arr(vec![s("web"), s("db")])));
    assert_eq!((target.stack_name.as_str(), target.service_name.as_str()), ("web", "db"));
    let stack = stack_named("web", 3);
    let cases = [
        (ServiceAction::Up, vec!["compose", "up", "-d", "db"], "Service db uped"),
        (ServiceAction::Stop, vec!["compose", "stop", "db"], "Service db stoped"),
        (ServiceAction::Restart, vec!["compose", "restart", "db"], "Service db restarted"),
    ];
    for (action, args, done) in cases {
        let run = service_action_run(&stack, "", action, "db", false, false);
        assert_eq!(run.terminal, "compose--web");
        assert_eq!(run.args, args);
        let with_env = service_action_run(&stack, "", action, "db", true, true);
        let mut expected = vec!["compose", "--env-file", "../global.env", "--env-file", "./.env"];
        expected.extend(args[1..].iter().copied());
        assert_eq!(with_env.args, expected);
        assert_eq!(with_env.cwd, "/opt/stacks/web");
        let outcome = service_action_reply("db", action, &Ok(0));
        assert_eq!((outcome.ack.ok, outcome.ack.msg.as_deref(), outcome.ack.msgi18n), (Some(true), Some(done), false));
        assert!(outcome.refresh);
        assert_eq!(
            service_action_reply("db", action, &Ok(2)).ack,
            error_response("Failed (exit code 2)")
        );
    }
}

#[test]
fn updating_a_service() {
    assert_eq!(refused(handle_update_service(true, &s("x"))), error_response("Invalid data"));
    let target = proceed(handle_update_service(true, &arr(vec![s("web")])));
    assert_eq!((target.stack_name.as_str(), target.service_name.as_str()), ("web", ""));
    let stack = stack_named("web", 3);
    let run_of = |next: UpdateNext| match next {
        UpdateNext::Run(run, phase) => (run, phase),
        UpdateNext::Finish(o) => panic!("finished early: {:?}", o.ack),
    };
    let end_of = |next: UpdateNext| match next {
        UpdateNext::Finish(o) => o,
        UpdateNext::Run(run, _) => panic!("runs {:?}", run.args),
    };
    let (pull, phase) =
        run_of(update_service_step(&stack, "", "db", UpdatePhase::Start, &Ok(1), false, false));
    assert_eq!(phase, UpdatePhase::Pulled);
    assert_eq!(pull.terminal, "compose--web");
    assert_eq!(pull.args, vec!["compose", "pull", "db"]);
    let (pull, _) =
        run_of(update_service_step(&stack, "", "db", UpdatePhase::Start, &Ok(0), true, false));
    assert_eq!(pull.args, vec!["compose", "--env-file", "../global.env", "pull", "db"]);
    let (up, phase) =
        run_of(update_service_step(&stack, "", "db", UpdatePhase::Pulled, &Ok(0), false, false));
    assert_eq!(phase, UpdatePhase::Recreated);
    assert_eq!(up.terminal, "compose--web-up");
    assert_eq!(up.args, vec!["compose", "up", "-d", "--no-deps", "db"]);
    assert_eq!(up.cwd, "/opt/stacks/web");
    let failed =
        end_of(update_service_step(&stack, "", "db", UpdatePhase::Pulled, &Ok(1), false, false));
    assert_eq!(failed.ack, error_response("Failed to pull images"));
    let failed = end_of(update_service_step(
        &stack,
        "",
        "db",
        UpdatePhase::Pulled,
        &Err("spawn".to_string()),
        false,
        false,
    ));
    assert_eq!(failed.ack, error_response("Failed to pull images"));
    let failed = end_of(update_service_step(
        &stack,
        "",
        "db",
        UpdatePhase::Recreated,
        &Ok(3),
        false,
        false,
    ));
    assert_eq!(failed.ack, error_response("Failed to recreate containers"));
    let outcome = end_of(update_service_step(
        &stack,
        "",
        "db",
        UpdatePhase::Recreated,
        &Ok(0),
        false,
        false,
    ));
    assert_eq!((outcome.ack.ok, outcome.ack.msg.as_deref(), outcome.ack.msgi18n), (Some(true), Some("Updated db"), false));
    assert!(outcome.refresh);
}

#[test]
fn a_running_stack_that_is_read_is_recreated_by_an_update() {
    let dir = StackDir {
        exists: true,
        files: vec![("compose.yaml".to_string(), NGINX.to_string())],
    };
    let listed = |status: &str| {
        vec![dockge_backend::stack_list::ComposeLsEntry {
            name: "web".to_string(),
            status: status.to_string(),
            config_files: None,
        }]
    };
    let after_pull = |listing: Vec<dockge_backend::stack_list::ComposeLsEntry>| {
        let stack = Stack::get_stack("/opt/stacks", "web", &dir, &listing).unwrap();
        update_stack_step(&stack, "", UpdatePhase::Pulled, &Ok(0), false, false)
    };
    match after_pull(listed("running(1)")) {
        UpdateNext::Run(run, phase) => {
            assert_eq!(phase, UpdatePhase::Recreated);
            assert_eq!(run.terminal, "compose--web-up");
            assert_eq!(run.args, vec!["compose", "up", "-d", "--remove-orphans"]);
        }
        UpdateNext::Finish(o) => panic!("finished: {:?}", o.ack),
    }
    for listing in [listed("exited(1)"), listed("running(0), exited(0)"), vec![]] {
        match after_pull(listing) {
            UpdateNext::Finish(o) => assert_eq!(o.ack, ok_response_i18n("Updated web")),
            UpdateNext::Run(run, _) => panic!("runs {:?}", run.args),
        }
    }
}
