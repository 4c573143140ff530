//! The five kinds of failure and the acknowledgment that every event is
//! answered with.

use crate::json::JsonValue;
use crate::text::{glue, owned};
use vstd::prelude::*;

verus! {

/// A failure of an operation, with the text that explains it.
#[derive(Debug, Clone, PartialEq)]
pub enum AppError {
    /// A bad stack name, a document that does not parse, a weak password.
    Validation(String),
    /// A missing session or bad credentials.
    Auth(String),
    /// The stack is not there.
    NotFound(String),
    /// A spawn that failed, an upstream failure.
    Internal(String),
    /// The storage layer failed.
    Db(String),
}

impl AppError {
    /// The explanation alone, as an answer to the client carries it.
    pub open spec fn explanation_text(&self) -> Seq<char> {
        match self {
            AppError::Validation(m) => m@,
            AppError::Auth(m) => m@,
            AppError::NotFound(m) => m@,
            AppError::Internal(m) => m@,
            AppError::Db(m) => m@,
        }
    }

    /// The explanation alone.
    pub fn explanation(&self) -> (r: &str)
        ensures
            r@ == self.explanation_text(),
    {
        match self {
            AppError::Validation(m) => m.as_str(),
            AppError::Auth(m) => m.as_str(),
            AppError::NotFound(m) => m.as_str(),
            AppError::Internal(m) => m.as_str(),
            AppError::Db(m) => m.as_str(),
        }
    }

    /// The text for a log: the kind, a colon and the explanation.
    pub open spec fn message_text(&self) -> Seq<char> {
        match self {
            AppError::Validation(m) => "Validation error: "@ + m@,
            AppError::Auth(m) => "Auth error: "@ + m@,
            AppError::NotFound(m) => "Not found: "@ + m@,
            AppError::Internal(m) => "Internal error: "@ + m@,
            AppError::Db(m) => "Database error: "@ + m@,
        }
    }

    /// The text for a log.
    pub fn message(&self) -> (r: String)
        ensures
            r@ == self.message_text(),
    {
        match self {
            AppError::Validation(m) => glue("Validation error: ", m.as_str()),
            AppError::Auth(m) => glue("Auth error: ", m.as_str()),
            AppError::NotFound(m) => glue("Not found: ", m.as_str()),
            AppError::Internal(m) => glue("Internal error: ", m.as_str()),
            AppError::Db(m) => glue("Database error: ", m.as_str()),
        }
    }
}

pub type AppResult<T> = Result<T, AppError>;

/// The value that answers an event: `{ ok, msg?, msgi18n?, ...payload }`.
/// `ok` is absent only in the answer that asks for a second factor.
/// `msgi18n` appears in the answer only when it is set.
#[derive(Debug, PartialEq)]
pub struct Ack {
    pub ok: Option<bool>,
    pub msg: Option<String>,
    pub msgi18n: bool,
    pub payload: Vec<(String, JsonValue)>,
}

impl Ack {
    /// The text of the message, if there is one.
    pub open spec fn msg_text(&self) -> Option<Seq<char>> {
        match self.msg {
            Some(m) => Some(m@),
            None => None,
        }
    }

    /// A failure with a plain message and no payload.
    pub open spec fn is_error(&self, msg: Seq<char>) -> bool {
        &&& self.ok == Some(false)
        &&& self.msg_text() == Some(msg)
        &&& !self.msgi18n
        &&& self.payload@.len() == 0
    }

    /// A failure whose message is a key into the client's texts; no payload.
    pub open spec fn is_error_i18n(&self, msg: Seq<char>) -> bool {
        &&& self.ok == Some(false)
        &&& self.msg_text() == Some(msg)
        &&& self.msgi18n
        &&& self.payload@.len() == 0
    }

    /// A success with a plain message and no payload.
    pub open spec fn is_ok_msg(&self, msg: Seq<char>) -> bool {
        &&& self.ok == Some(true)
        &&& self.msg_text() == Some(msg)
        &&& !self.msgi18n
        &&& self.payload@.len() == 0
    }

    /// A success whose message is a key into the client's texts; no payload.
    pub open spec fn is_ok_i18n(&self, msg: Seq<char>) -> bool {
        &&& self.ok == Some(true)
        &&& self.msg_text() == Some(msg)
        &&& self.msgi18n
        &&& self.payload@.len() == 0
    }

    /// A success without message, carrying exactly one payload member.
    pub open spec fn is_ok_with(&self, key: Seq<char>, value: JsonValue) -> bool {
        &&& self.ok == Some(true)
        &&& self.msg is None
        &&& !self.msgi18n
        &&& self.payload@.len() == 1
        &&& self.payload@[0].0@ == key
        &&& self.payload@[0].1 == value
    }

    /// A bare success: `{ ok: true }`.
    pub open spec fn is_bare_ok(&self) -> bool {
        &&& self.ok == Some(true)
        &&& self.msg is None
        &&& !self.msgi18n
        &&& self.payload@.len() == 0
    }
}

/// `{ ok: false, msg }`.
pub fn error_response(msg: &str) -> (r: Ack)
    ensures
        r.is_error(msg@),
{
    Ack { ok: Some(false), msg: Some(owned(msg)), msgi18n: false, payload: Vec::new() }
}

/// `{ ok: false, msg, msgi18n: true }`.
pub fn error_response_i18n(msg: &str) -> (r: Ack)
    ensures
        r.is_error_i18n(msg@),
{
    Ack { ok: Some(false), msg: Some(owned(msg)), msgi18n: true, payload: Vec::new() }
}

/// `{ ok: true }`.
pub fn ok_response() -> (r: Ack)
    ensures
        r.is_bare_ok(),
{
    Ack { ok: Some(true), msg: None, msgi18n: false, payload: Vec::new() }
}

/// `{ ok: true, msg, msgi18n: true }`.
pub fn ok_response_i18n(msg: &str) -> (r: Ack)
    ensures
        r.is_ok_i18n(msg@),
{
    Ack { ok: Some(true), msg: Some(owned(msg)), msgi18n: true, payload: Vec::new() }
}

/// `{ ok: true, msg }`.
pub fn ok_message(msg: &str) -> (r: Ack)
    ensures
        r.is_ok_msg(msg@),
{
    Ack { ok: Some(true), msg: Some(owned(msg)), msgi18n: false, payload: Vec::new() }
}

/// `{ ok: true, <key>: value }`.
pub fn ok_with(key: &str, value: JsonValue) -> (r: Ack)
    ensures
        r.is_ok_with(key@, value),
{
    let mut payload: Vec<(String, JsonValue)> = Vec::new();
    payload.push((owned(key), value));
    Ack { ok: Some(true), msg: None, msgi18n: false, payload }
}

/// The failure that answers with the explanation of an error, without
/// its kind.
pub fn error_reply(e: &AppError) -> (r: Ack)
    ensures
        r.is_error(e.explanation_text()),
{
    error_response(e.explanation())
}

/// What a handler decides before any outside work: the answer at once, or
/// the work to be done.
#[derive(Debug, PartialEq)]
pub enum Plan<T> {
    Reply(Ack),
    Proceed(T),
}

impl<T> Plan<T> {
    /// The plan is to answer at once with a plain failure.
    pub open spec fn refuses(&self, msg: Seq<char>) -> bool {
        *self matches Plan::Reply(ack) && ack.is_error(msg)
    }

    /// The plan is to answer at once with a failure whose message is a key.
    pub open spec fn refuses_i18n(&self, msg: Seq<char>) -> bool {
        *self matches Plan::Reply(ack) && ack.is_error_i18n(msg)
    }
}

/// What every event that needs a session answers without one.
pub open spec fn not_logged_in() -> Seq<char> {
    "Not logged in"@
}

/// A command to run in a named terminal.
#[derive(Debug, Clone, PartialEq)]
pub struct ExecRequest {
    /// The name of the terminal; a second command under a name in use is refused.
    pub terminal: String,
    pub program: String,
    pub args: Vec<String>,
    /// The directory to run in.
    pub cwd: String,
}

} // verus!
