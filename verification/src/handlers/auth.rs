//! Setup, login by password and by token, password change, and what a
//! connection is sent when it opens and when it logs in.

use crate::error::{
    Ack, AppError, error_reply, error_response, error_response_i18n, not_logged_in, ok_with, Plan,
};
use crate::json::{
    first_text, first_text_arg, first_value, first_value_arg, JsonValue, member_text,
    member_text_or_empty,
};
use crate::session::Session;
use crate::state::AppState;
use crate::text::{glue, opt_or_empty, opt_view, owned, str_eq};
use crate::user::{
    check_password_strength, generate_password_hash, JwtClaims, password_verifies,
    shake256_hex_text, strong_password, TOKEN_HASH_LEN, User, verify_totp,
};
use vstd::prelude::*;

verus! {

/// What a password that is too weak is answered with.
pub open spec fn weak_password() -> Seq<char> {
    "Password is too weak. It should contain alphabetic and numeric characters. It must be at least 6 characters in length."@
}

/// The message key for wrong credentials.
pub open spec fn incorrect_creds() -> Seq<char> {
    "authIncorrectCreds"@
}

/// The message key for a token that is not accepted.
pub open spec fn invalid_token() -> Seq<char> {
    "authInvalidToken"@
}

fn weak() -> (r: Ack)
    ensures
        r.is_error(weak_password()),
{
    error_response(
        "Password is too weak. It should contain alphabetic and numeric characters. It must be at least 6 characters in length.",
    )
}

// ---------------------------------------------------------------------------
// setup
// ---------------------------------------------------------------------------

/// The first account.
#[derive(Debug, PartialEq)]
pub struct SetupRequest {
    pub username: String,
    pub password: String,
}

/// `setup(username, password)`: the first account to make. The password
/// must be strong enough.
pub fn handle_setup(data: &JsonValue) -> (r: Plan<SetupRequest>)
    ensures
        ({
            let username = JsonValue::text_or_empty(data.element(0));
            let password = JsonValue::text_or_empty(data.element(1));
            if strong_password(password) {
                r matches Plan::Proceed(req) && req.username@ == username && req.password@
                    == password
            } else {
                r.refuses(weak_password())
            }
        }),
{
    let username = crate::json::text_or_empty(data.at(0));
    let password = crate::json::text_or_empty(data.at(1));
    if !check_password_strength(password.as_str()) {
        return Plan::Reply(weak());
    }
    Plan::Proceed(SetupRequest { username, password })
}

/// What the number of accounts decides for a setup: with an account there
/// already the setup is refused, a count that failed is reported, and only
/// an empty table goes on.
pub fn setup_count(count: &Result<i64, String>) -> (r: Option<Ack>)
    ensures
        match *count {
            Ok(n) => if n > 0 {
                r matches Some(a) && a.is_error(
                    "Dockge has been initialized. If you want to run setup again, please delete the database."@,
                )
            } else {
                r is None
            },
            Err(e) => r matches Some(a) && a.is_error("Database error: "@ + e@),
        },
{
    match count {
        Ok(n) => if *n > 0 {
            Some(
                error_response(
                    "Dockge has been initialized. If you want to run setup again, please delete the database.",
                ),
            )
        } else {
            None
        },
        Err(e) => {
            let msg = glue("Database error: ", e.as_str());
            Some(error_response(msg.as_str()))
        },
    }
}

/// The password hash to store for the first account; every hash returned
/// verifies the password.
pub fn setup_hash(request: &SetupRequest) -> (r: Result<String, Ack>)
    ensures
        match r {
            Ok(h) => password_verifies(request.password@, h@),
            Err(a) => a.is_error("bcrypt hash failed"@),
        },
{
    match generate_password_hash(request.password.as_str()) {
        Ok(h) => Ok(h),
        Err(e) => Err(error_reply(&e)),
    }
}

/// The answer to `setup` once the account is stored, or could not be. With
/// the account stored no setup is needed any more.
pub fn setup_reply(state: &mut AppState, created: Result<(), &AppError>) -> (r: Ack)
    ensures
        match created {
            Ok(_) => r.is_ok_i18n("successAdded"@) && !final(state).need_setup,
            Err(e) => r.is_error(e.explanation_text()) && final(state).need_setup == old(
                state,
            ).need_setup,
        },
        final(state).stack_cache == old(state).stack_cache,
        final(state).update_cache == old(state).update_cache,
        final(state).recreate_cache == old(state).recreate_cache,
        final(state).jwt_secret == old(state).jwt_secret,
{
    match created {
        Ok(_) => {
            state.need_setup = false;
            crate::error::ok_response_i18n("successAdded")
        },
        Err(e) => error_reply(e),
    }
}

// ---------------------------------------------------------------------------
// login
// ---------------------------------------------------------------------------

/// What `login` submits.
#[derive(Debug, PartialEq)]
pub struct LoginRequest {
    pub username: String,
    pub password: String,
    /// The CAPTCHA answer to verify, where one is required.
    pub captcha_token: Option<String>,
    /// The one-time password, where the client sent one.
    pub token: Option<String>,
}

/// A CAPTCHA is required on login when both its site key and its secret
/// key are configured.
pub fn captcha_required(site_key: &str, secret_key: &str) -> (r: bool)
    ensures
        r == (site_key@.len() > 0 && secret_key@.len() > 0),
{
    !site_key.is_empty() && !secret_key.is_empty()
}

/// The one-time password of a login: the member `token` where it is a string.
pub open spec fn token_of(login: JsonValue) -> Option<Seq<char>> {
    match login.member("token"@) {
        Some(t) => t.text(),
        None => None,
    }
}

/// `login({ username, password, captchaToken?, token? })`: the credentials
/// to check. User name and password must be given, and with a CAPTCHA
/// required its answer too.
pub fn handle_login(data: &JsonValue, captcha: bool) -> (r: Plan<LoginRequest>)
    ensures
        ({
            let login = first_value(*data);
            let username = member_text_or_empty(login, "username"@);
            let password = member_text_or_empty(login, "password"@);
            let answer = member_text_or_empty(login, "captchaToken"@);
            if username.len() == 0 || password.len() == 0 {
                r.refuses_i18n(incorrect_creds())
            } else if captcha && answer.len() == 0 {
                r.refuses("Invalid CAPTCHA"@)
            } else {
                r matches Plan::Proceed(req) && req.username@ == username && req.password@
                    == password && opt_view(req.captcha_token) == (if captcha {
                    Some(answer)
                } else {
                    None
                }) && opt_view(req.token) == token_of(login)
            }
        }),
{
    let login = first_value_arg(data);
    let username = member_text(login, "username");
    let password = member_text(login, "password");
    if username.as_str().is_empty() || password.as_str().is_empty() {
        return Plan::Reply(error_response_i18n("authIncorrectCreds"));
    }
    let captcha_token = if captcha {
        let answer = member_text(login, "captchaToken");
        if answer.as_str().is_empty() {
            return Plan::Reply(error_response("Invalid CAPTCHA"));
        }
        Some(answer)
    } else {
        None
    };
    let token = match login.get("token") {
        Some(t) => match t.as_str() {
            Some(s) => Some(s.clone()),
            None => None,
        },
        None => None,
    };
    Plan::Proceed(LoginRequest { username, password, captcha_token, token })
}

/// What the CAPTCHA verifier's answer says: verified exactly when its
/// member `success` is `true`; no answer verifies nothing.
pub fn verify_turnstile_token(body: Option<&JsonValue>) -> (r: bool)
    ensures
        r == (body matches Some(b) && b.member("success"@) == Some(JsonValue::Bool(true))),
{
    match body {
        Some(b) => match b.get("success") {
            Some(JsonValue::Bool(ok)) => *ok,
            _ => false,
        },
        None => false,
    }
}

/// The answer that refuses a login whose CAPTCHA was not verified.
pub fn captcha_checked(verified: bool) -> (r: Option<Ack>)
    ensures
        verified ==> r is None,
        !verified ==> (r matches Some(a) && a.is_error("Invalid CAPTCHA"@)),
{
    if verified {
        None
    } else {
        Some(error_response("Invalid CAPTCHA"))
    }
}

/// What is decided of a login.
#[derive(Debug, PartialEq)]
pub enum LoginDecision {
    /// The login is refused with this answer.
    Reject(Ack),
    /// The login is accepted; a one-time password that was used is to be
    /// remembered, so that it is not accepted again.
    Accept { remember_token: Option<String> },
}

/// The one-time password passes: the account has a secret, the password
/// is not the one used last, and it is the secret's for the present time
/// step or one beside it.
pub open spec fn second_factor_passes(user: User, token: Seq<char>, now: u64) -> bool {
    let secret = opt_or_empty(user.twofa_secret);
    &&& secret.len() > 0
    &&& opt_view(user.twofa_last_token) != Some(token)
    &&& crate::user::totp_accepts(token, secret, now)
}

/// The account accepts the password.
pub open spec fn accepts_password(user: User, password: Seq<char>) -> bool {
    match user.password {
        Some(stored) => password_verifies(password, stored@),
        None => false,
    }
}

/// Decides a login once the account has been looked up. An unknown
/// account and a wrong password are answered alike. With the second factor
/// on, a login without one-time password is asked for one, and a one-time
/// password that does not pass is refused.
pub fn login_user(found: Result<Option<&User>, &AppError>, request: &LoginRequest, now: u64) -> (r:
    LoginDecision)
    ensures
        match found {
            Err(e) => r matches LoginDecision::Reject(a) && a.is_error(e.explanation_text()),
            Ok(None) => r matches LoginDecision::Reject(a) && a.is_error_i18n(incorrect_creds()),
            Ok(Some(u)) => if !accepts_password(*u, request.password@) {
                r matches LoginDecision::Reject(a) && a.is_error_i18n(incorrect_creds())
            } else if !u.twofa_status {
                r matches LoginDecision::Accept { remember_token } && remember_token is None
            } else {
                match request.token {
                    Some(t) => if t@.len() == 0 {
                        r matches LoginDecision::Reject(a) && a.asks_for_token()
                    } else if second_factor_passes(*u, t@, now) {
                        r matches LoginDecision::Accept { remember_token } && remember_token
                            == Some(t)
                    } else {
                        r matches LoginDecision::Reject(a) && a.is_error_i18n(invalid_token())
                    },
                    None => r matches LoginDecision::Reject(a) && a.asks_for_token(),
                }
            },
        },
{
    let user = match found {
        Err(e) => {
            return LoginDecision::Reject(error_reply(e));
        },
        Ok(None) => {
            return LoginDecision::Reject(error_response_i18n("authIncorrectCreds"));
        },
        Ok(Some(u)) => u,
    };
    if !user.verify_password(request.password.as_str()) {
        return LoginDecision::Reject(error_response_i18n("authIncorrectCreds"));
    }
    if !user.twofa_status {
        return LoginDecision::Accept { remember_token: None };
    }
    let token = match &request.token {
        Some(t) => t,
        None => {
            return LoginDecision::Reject(token_required());
        },
    };
    if token.as_str().is_empty() {
        return LoginDecision::Reject(token_required());
    }
    let secret = match &user.twofa_secret {
        Some(s) => s.clone(),
        None => String::new(),
    };
    if secret.as_str().is_empty() {
        return LoginDecision::Reject(error_response_i18n("authInvalidToken"));
    }
    let replay = match &user.twofa_last_token {
        Some(last) => str_eq(last.as_str(), token.as_str()),
        None => false,
    };
    if replay {
        return LoginDecision::Reject(error_response_i18n("authInvalidToken"));
    }
    if !verify_totp(token.as_str(), secret.as_str(), now) {
        return LoginDecision::Reject(error_response_i18n("authInvalidToken"));
    }
    LoginDecision::Accept { remember_token: Some(token.clone()) }
}

impl Ack {
    /// The answer that asks for a one-time password: `{ tokenRequired: true }`.
    pub open spec fn asks_for_token(&self) -> bool {
        &&& self.ok is None
        &&& self.msg is None
        &&& !self.msgi18n
        &&& self.payload@.len() == 1
        &&& self.payload@[0].0@ == "tokenRequired"@
        &&& self.payload@[0].1 == JsonValue::Bool(true)
    }
}

fn token_required() -> (r: Ack)
    ensures
        r.asks_for_token(),
{
    let mut payload: Vec<(String, JsonValue)> = Vec::new();
    payload.push((owned("tokenRequired"), JsonValue::Bool(true)));
    Ack { ok: None, msg: None, msgi18n: false, payload }
}

/// The answer to an accepted login, once its token has been signed or
/// could not be: `{ ok: true, token }`, and the session is the user's.
pub fn login_reply(session: &mut Session, user: &User, signed: Result<String, &AppError>) -> (r:
    Ack)
    ensures
        match signed {
            Ok(token) => r.is_ok_with("token"@, JsonValue::Str(token)) && final(session).user()
                == Some(user.id),
            Err(e) => r.is_error(e.explanation_text()) && *final(session) == *old(session),
        },
{
    match signed {
        Ok(token) => {
            session.login(user);
            ok_with("token", JsonValue::Str(token))
        },
        Err(e) => error_reply(e),
    }
}

// ---------------------------------------------------------------------------
// loginByToken
// ---------------------------------------------------------------------------

/// `loginByToken(token)`: the token to check. A token without expiry is
/// as good as one with.
pub fn handle_login_by_token(data: &JsonValue) -> (r: Plan<String>)
    ensures
        first_text(*data).len() == 0 ==> r.refuses_i18n(invalid_token()),
        first_text(*data).len() > 0 ==> (r matches Plan::Proceed(token) && token@ == first_text(
            *data,
        )),
{
    let token = first_text_arg(data);
    if token.as_str().is_empty() {
        return Plan::Reply(error_response_i18n("authInvalidToken"));
    }
    Plan::Proceed(token)
}

/// Decides a login by token once the token has been read and its account
/// looked up: a token that could not be read, or whose password digest is
/// not the one of the account's present password hash, is invalid.
pub fn token_user(
    session: &mut Session,
    claims: Option<&JwtClaims>,
    found: Result<Option<&User>, &AppError>,
) -> (r: Ack)
    ensures
        match claims {
            None => r.is_error_i18n(invalid_token()),
            Some(c) => match found {
                Err(e) => r.is_error(e.explanation_text()),
                Ok(None) => r.is_error_i18n("authUserInactiveOrDeleted"@),
                Ok(Some(u)) => if c.h@ == shake256_hex_text(
                    opt_or_empty(u.password),
                    TOKEN_HASH_LEN as nat,
                ) {
                    r.is_bare_ok() && final(session).user() == Some(u.id)
                } else {
                    r.is_error_i18n(invalid_token())
                },
            },
        },
        r.ok != Some(true) ==> *final(session) == *old(session),
{
    let c = match claims {
        Some(c) => c,
        None => {
            return error_response_i18n("authInvalidToken");
        },
    };
    match found {
        Err(e) => error_reply(e),
        Ok(None) => error_response_i18n("authUserInactiveOrDeleted"),
        Ok(Some(u)) => {
            if u.token_still_valid(c) {
                session.login(u);
                crate::error::ok_response()
            } else {
                error_response_i18n("authInvalidToken")
            }
        },
    }
}

// ---------------------------------------------------------------------------
// changePassword
// ---------------------------------------------------------------------------

/// What `changePassword` submits.
#[derive(Debug, PartialEq)]
pub struct PasswordChange {
    pub user_id: i64,
    pub current_password: String,
    pub new_password: String,
}

/// `changePassword({ currentPassword, newPassword })`: the change to make.
/// It needs a session, and a new password that is strong enough.
pub fn handle_change_password(user_id: Option<i64>, data: &JsonValue) -> (r: Plan<PasswordChange>)
    ensures
        ({
            let v = first_value(*data);
            let new = member_text_or_empty(v, "newPassword"@);
            match user_id {
                None => r.refuses(not_logged_in()),
                Some(id) => if new.len() == 0 {
                    r.refuses("Invalid new password"@)
                } else if !strong_password(new) {
                    r.refuses(weak_password())
                } else {
                    r matches Plan::Proceed(c) && c.user_id == id && c.new_password@ == new
                        && c.current_password@ == member_text_or_empty(v, "currentPassword"@)
                },
            }
        }),
{
    let id = match user_id {
        Some(id) => id,
        None => {
            return Plan::Reply(error_response("Not logged in"));
        },
    };
    let v = first_value_arg(data);
    let current_password = member_text(v, "currentPassword");
    let new_password = member_text(v, "newPassword");
    if new_password.as_str().is_empty() {
        return Plan::Reply(error_response("Invalid new password"));
    }
    if !check_password_strength(new_password.as_str()) {
        return Plan::Reply(weak());
    }
    Plan::Proceed(PasswordChange { user_id: id, current_password, new_password })
}

/// The new password hash to store, once the account has been looked up:
/// it needs the account and its present password.
pub fn change_password_user(found: Option<&User>, change: &PasswordChange) -> (r: Result<
    String,
    Ack,
>)
    ensures
        match found {
            None => r matches Err(a) && a.is_error("User not found"@),
            Some(u) => if accepts_password(*u, change.current_password@) {
                match r {
                    Ok(h) => password_verifies(change.new_password@, h@),
                    Err(a) => a.is_error("bcrypt hash failed"@),
                }
            } else {
                r matches Err(a) && a.is_error("Incorrect current password"@)
            },
        },
{
    let user = match found {
        Some(u) => u,
        None => {
            return Err(error_response("User not found"));
        },
    };
    if !user.verify_password(change.current_password.as_str()) {
        return Err(error_response("Incorrect current password"));
    }
    match generate_password_hash(change.new_password.as_str()) {
        Ok(h) => Ok(h),
        Err(e) => Err(error_reply(&e)),
    }
}

/// The answer to `changePassword` once the hash is stored, or could not be.
pub fn password_changed(stored: Result<(), &AppError>) -> (r: Ack)
    ensures
        match stored {
            Ok(_) => r.is_ok_msg("Password has been updated successfully."@),
            Err(e) => r.is_error(e.explanation_text()),
        },
{
    match stored {
        Ok(_) => crate::error::ok_message("Password has been updated successfully."),
        Err(e) => error_reply(e),
    }
}

// ---------------------------------------------------------------------------
// What a connection is sent
// ---------------------------------------------------------------------------

/// Something that the server sends without being asked.
#[derive(Clone, Copy, Debug, PartialEq, Eq, Structural)]
pub enum Push {
    /// `setup`: no account exists yet.
    Setup,
    /// `info`; without the version for a connection that is not logged in.
    Info { hide_version: bool },
    /// `autoLogin`: authentication is off and the connection is logged in.
    AutoLogin,
    /// The stack list, on the agent channel.
    StackList,
    /// The list of peers, on the agent channel.
    AgentList,
    /// `refresh`: the session is to reload and is disconnected.
    Refresh,
}

/// What a connection is sent after it has logged in: the full
/// information, the stack list and the list of peers.
pub fn after_login() -> (r: Vec<Push>)
    ensures
        r@ == seq![Push::Info { hide_version: false }, Push::StackList, Push::AgentList],
{
    let mut r: Vec<Push> = Vec::new();
    r.push(Push::Info { hide_version: false });
    r.push(Push::StackList);
    r.push(Push::AgentList);
    r
}

/// What a connection is sent when it opens, in this order: the
/// information without version; `setup` where no account exists; and with
/// authentication off and an account there, everything that follows a
/// login and `autoLogin`. The session is then the first user's.
pub fn on_connect(
    session: &mut Session,
    need_setup: bool,
    disable_auth: Option<&JsonValue>,
    first_user: Option<&User>,
) -> (r: Vec<Push>)
    ensures
        ({
            let auto = crate::handlers::settings::is_on(
                match disable_auth {
                    Some(v) => Some(*v),
                    None => None,
                },
            ) && first_user is Some;
            &&& r@ == seq![Push::Info { hide_version: true }] + (if need_setup {
                seq![Push::Setup]
            } else {
                Seq::empty()
            }) + (if auto {
                seq![
                    Push::Info { hide_version: false },
                    Push::StackList,
                    Push::AgentList,
                    Push::AutoLogin,
                ]
            } else {
                Seq::empty()
            })
            &&& auto ==> final(session).user() == Some(first_user->0.id)
            &&& !auto ==> *final(session) == *old(session)
        }),
{
    let mut r: Vec<Push> = Vec::new();
    r.push(Push::Info { hide_version: true });
    if need_setup {
        r.push(Push::Setup);
    }
    if crate::handlers::settings::setting_on(disable_auth) {
        match first_user {
            Some(user) => {
                session.login(user);
                r.push(Push::Info { hide_version: false });
                r.push(Push::StackList);
                r.push(Push::AgentList);
                r.push(Push::AutoLogin);
            },
            None => {},
        }
    }
    assert(r@ =~= seq![Push::Info { hide_version: true }] + (if need_setup {
        seq![Push::Setup]
    } else {
        Seq::empty()
    }) + (if crate::handlers::settings::is_on(
        match disable_auth {
            Some(v) => Some(*v),
            None => None,
        },
    ) && first_user is Some {
        seq![
            Push::Info { hide_version: false },
            Push::StackList,
            Push::AgentList,
            Push::AutoLogin,
        ]
    } else {
        Seq::empty()
    }));
    r
}

/// The information that the server gives of itself: the primary host name
/// (null where the setting is no string) and, unless hidden, the version,
/// the latest version known (or null) and whether the server runs in a
/// container.
pub fn send_info(
    state: &AppState,
    primary_hostname: Option<&JsonValue>,
    hide_version: bool,
    is_container: bool,
) -> (r: JsonValue)
    ensures
        r matches JsonValue::Object(m) && {
            &&& m@.len() == if hide_version {
                1nat
            } else {
                4nat
            }
            &&& m@[0].0@ == "primaryHostname"@
            &&& m@[0].1 == (match primary_hostname {
                Some(JsonValue::Str(s)) => JsonValue::Str(*s),
                _ => JsonValue::Null,
            })
            &&& !hide_version ==> {
                &&& m@[1].0@ == "version"@ && m@[1].1.text() == Some(state.version@)
                &&& m@[2].0@ == "latestVersion"@ && m@[2].1 == (match state.latest_version {
                    Some(v) => JsonValue::Str(v),
                    None => JsonValue::Null,
                })
                &&& m@[3].0@ == "isContainer"@ && m@[3].1 == JsonValue::Bool(is_container)
            }
        },
{
    let mut m: Vec<(String, JsonValue)> = Vec::new();
    let host = match primary_hostname {
        Some(JsonValue::Str(s)) => JsonValue::Str(s.clone()),
        _ => JsonValue::Null,
    };
    m.push((owned("primaryHostname"), host));
    if !hide_version {
        m.push((owned("version"), JsonValue::Str(state.version.clone())));
        let latest = match &state.latest_version {
            Some(v) => JsonValue::Str(v.clone()),
            None => JsonValue::Null,
        };
        m.push((owned("latestVersion"), latest));
        m.push((owned("isContainer"), JsonValue::Bool(is_container)));
    }
    JsonValue::Object(m)
}

/// Whether the environment says that the server runs in a container.
pub fn is_container(value: Option<&str>) -> (r: bool)
    ensures
        r == (value matches Some(v) && v@ == "1"@),
{
    match value {
        Some(v) => str_eq(v, "1"),
        None => false,
    }
}

/// Whether the stack cache is to be refreshed before the stack list is
/// sent to a single session: when it is empty.
pub fn send_stack_list_to_socket(state: &AppState) -> (r: bool)
    ensures
        r == (state.stack_cache@.len() == 0),
{
    state.stack_cache.len() == 0
}

/// The answer to `getTurnstileSiteKey`.
pub fn turnstile_site_key(site_key: &str) -> (r: Ack)
    ensures
        site_key@.len() == 0 ==> r.is_error("Turnstile site key is not configured."@),
        site_key@.len() > 0 ==> r.is_ok_with("siteKey"@, r.payload@[0].1) && r.payload@[0].1.text()
            == Some(site_key@),
{
    if site_key.is_empty() {
        error_response("Turnstile site key is not configured.")
    } else {
        ok_with("siteKey", JsonValue::Str(owned(site_key)))
    }
}

} // verus!
