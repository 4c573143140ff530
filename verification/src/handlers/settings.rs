//! The events that read and write the settings.

use crate::error::{Ack, AppError, error_reply, error_response, not_logged_in, ok_with, Plan};
use crate::json::{first_text, first_text_arg, JsonValue, text_arg};
use crate::keyed::{as_map, distinct_keys, put_distinct, remove_key, value_of};
use crate::pieces::str_views;
use crate::text::{
    chars_of, find_char, glue, index_of, owned, slice, starts_with, str_eq, string_of,
};
use crate::user::User;
use vstd::prelude::*;

verus! {

/// What clients are shown for a global environment that is not there.
pub open spec fn env_placeholder() -> Seq<char> {
    "# VARIABLE=value #comment"@
}

/// `getSettings`: the general settings are to be read.
pub fn handle_get_settings(logged_in: bool) -> (r: Plan<()>)
    ensures
        logged_in ==> r is Proceed,
        !logged_in ==> r.refuses(not_logged_in()),
{
    if !logged_in {
        return Plan::Reply(error_response("Not logged in"));
    }
    Plan::Proceed(())
}

/// The answer to `getSettings`: the settings with the global environment
/// put in as `globalENV`, or the placeholder where there is no such file.
pub fn get_settings_reply(
    settings: Result<Vec<(String, JsonValue)>, &AppError>,
    global_env: Option<String>,
) -> (r: Ack)
    requires
        settings matches Ok(s) ==> distinct_keys(s@),
    ensures
        match settings {
            Ok(s) => {
                &&& r.ok == Some(true)
                &&& r.msg is None
                &&& r.payload@.len() == 1
                &&& r.payload@[0].0@ == "data"@
                &&& r.payload@[0].1 matches JsonValue::Object(m) && as_map(m@).dom() == as_map(
                    s@,
                ).dom().insert("globalENV"@) && as_map(m@)["globalENV"@].text() == Some(
                    match global_env {
                        Some(text) => text@,
                        None => env_placeholder(),
                    },
                ) && (forall|k: Seq<char>|
                    k != "globalENV"@ && as_map(s@).dom().contains(k) ==> as_map(m@)[k] == as_map(
                        s@,
                    )[k])
            },
            Err(e) => r.is_error(e.explanation_text()),
        },
{
    match settings {
        Ok(s) => {
            let mut data = s;
            let text = match global_env {
                Some(t) => t,
                None => owned("# VARIABLE=value #comment"),
            };
            put_distinct(&mut data, owned("globalENV"), JsonValue::Str(text));
            ok_with("data", JsonValue::Object(data))
        },
        Err(e) => error_reply(e),
    }
}

/// What `setSettings` submits.
#[derive(Debug, PartialEq)]
pub struct SettingsChange {
    pub settings: Vec<(String, JsonValue)>,
    pub current_password: String,
}

/// `setSettings(settings, currentPassword)`: the settings to write. They
/// must come as an object.
pub fn handle_set_settings(logged_in: bool, data: JsonValue) -> (r: Plan<SettingsChange>)
    ensures
        !logged_in ==> r.refuses(not_logged_in()),
        logged_in ==> (match data {
            JsonValue::Array(args) => if args@.len() > 0 && args@[0] is Object {
                r matches Plan::Proceed(c) && JsonValue::Object(c.settings) == args@[0]
                    && c.current_password@ == crate::json::arg_text(args@, 1)
            } else {
                r.refuses("Invalid settings data"@)
            },
            JsonValue::Object(m) => r matches Plan::Proceed(c) && c.settings == m
                && c.current_password@.len() == 0,
            _ => r.refuses("Invalid settings data"@),
        }),
{
    if !logged_in {
        return Plan::Reply(error_response("Not logged in"));
    }
    match data {
        JsonValue::Array(args) => {
            let password = text_arg(&args, 1);
            let mut args = args;
            if args.len() == 0 {
                return Plan::Reply(error_response("Invalid settings data"));
            }
            let first = args.swap_remove(0);
            match first {
                JsonValue::Object(m) => Plan::Proceed(
                    SettingsChange { settings: m, current_password: password },
                ),
                _ => Plan::Reply(error_response("Invalid settings data")),
            }
        },
        JsonValue::Object(m) => Plan::Proceed(
            SettingsChange { settings: m, current_password: String::new() },
        ),
        _ => Plan::Reply(error_response("Invalid settings data")),
    }
}

/// Whether a setting is the boolean `true`.
pub open spec fn is_on(setting: Option<JsonValue>) -> bool {
    setting == Some(JsonValue::Bool(true))
}

/// Whether a setting is the boolean `true`.
pub fn setting_on(setting: Option<&JsonValue>) -> (r: bool)
    ensures
        r == is_on(
            match setting {
                Some(v) => Some(*v),
                None => None,
            },
        ),
{
    match setting {
        Some(JsonValue::Bool(b)) => *b,
        _ => false,
    }
}

/// Switching authentication off asks for the password: when it is on so
/// far and the new settings switch it off.
pub fn needs_password(current_disable_auth: Option<&JsonValue>, change: &SettingsChange) -> (r:
    bool)
    ensures
        r == (!is_on(
            match current_disable_auth {
                Some(v) => Some(*v),
                None => None,
            },
        ) && is_on(value_of(change.settings@, "disableAuth"@))),
{
    !setting_on(current_disable_auth) && setting_on(
        crate::keyed::get(&change.settings, "disableAuth"),
    )
}

/// The password check before authentication is switched off: the answer
/// that refuses, or none where the password is the user's.
pub fn password_gate(found: Option<&User>, current_password: &str) -> (r: Option<Ack>)
    ensures
        match found {
            None => r matches Some(a) && a.is_error("User not found"@),
            Some(u) => if (match u.password {
                Some(stored) => crate::user::password_verifies(current_password@, stored@),
                None => false,
            }) {
                r is None
            } else {
                r matches Some(a) && a.is_error("Incorrect password"@)
            },
        },
{
    match found {
        None => Some(error_response("User not found")),
        Some(u) => if u.verify_password(current_password) {
            None
        } else {
            Some(error_response("Incorrect password"))
        },
    }
}

/// What is done with the global environment file.
#[derive(Debug, PartialEq)]
pub enum GlobalEnv {
    /// The settings say nothing of it.
    Keep,
    /// It gets this content.
    Write(String),
    /// It is removed.
    Remove,
}

/// What the settings say of the global environment: a text that is not
/// empty and not the placeholder is written; anything else removes the
/// file; no member `globalENV` leaves it alone.
pub open spec fn global_env_of(settings: Seq<(String, JsonValue)>) -> GlobalEnvView {
    match value_of(settings, "globalENV"@) {
        Some(v) => {
            let text = JsonValue::text_or_empty(Some(v));
            if text.len() > 0 && text != env_placeholder() {
                GlobalEnvView::Write(text)
            } else {
                GlobalEnvView::Remove
            }
        },
        None => GlobalEnvView::Keep,
    }
}

/// What is done with the global environment file, as plain values.
pub enum GlobalEnvView {
    Keep,
    Write(Seq<char>),
    Remove,
}

impl View for GlobalEnv {
    type V = GlobalEnvView;

    open spec fn view(&self) -> GlobalEnvView {
        match self {
            GlobalEnv::Keep => GlobalEnvView::Keep,
            GlobalEnv::Write(t) => GlobalEnvView::Write(t@),
            GlobalEnv::Remove => GlobalEnvView::Remove,
        }
    }
}

/// Takes the global environment out of the settings that are to be stored
/// and tells what is to be done with its file.
pub fn take_global_env(change: &mut SettingsChange) -> (r: GlobalEnv)
    requires
        distinct_keys(old(change).settings@),
    ensures
        r@ == global_env_of(old(change).settings@),
        distinct_keys(final(change).settings@),
        as_map(final(change).settings@) == as_map(old(change).settings@).remove("globalENV"@),
        final(change).current_password == old(change).current_password,
{
    match remove_key(&mut change.settings, "globalENV") {
        Some(v) => {
            let text = crate::json::text_or_empty(Some(&v));
            if !text.as_str().is_empty() && !str_eq(text.as_str(), "# VARIABLE=value #comment") {
                GlobalEnv::Write(text)
            } else {
                GlobalEnv::Remove
            }
        },
        None => GlobalEnv::Keep,
    }
}

/// The answer to `setSettings` once the settings are stored, or could not
/// be. After a success the session is sent the server's information anew.
pub fn set_settings_reply(stored: Result<(), &AppError>) -> (r: Ack)
    ensures
        match stored {
            Ok(_) => r.is_ok_msg("Saved"@),
            Err(e) => r.is_error(e.explanation_text()),
        },
{
    match stored {
        Ok(_) => crate::error::ok_message("Saved"),
        Err(e) => error_reply(e),
    }
}

/// The arguments that turn a `docker run` command into a compose document.
pub open spec fn composerize_args(command: Seq<char>) -> Seq<Seq<char>> {
    seq!["composerize"@, command]
}

/// `composerize(command)`: the arguments to run the converter with.
pub fn handle_composerize(logged_in: bool, data: &JsonValue) -> (r: Plan<Vec<String>>)
    ensures
        !logged_in ==> r.refuses(not_logged_in()),
        logged_in && first_text(*data).len() == 0 ==> r.refuses(
            "dockerRunCommand must be a string"@,
        ),
        logged_in && first_text(*data).len() > 0 ==> (r matches Plan::Proceed(args) && str_views(
            args@,
        ) == composerize_args(first_text(*data))),
{
    if !logged_in {
        return Plan::Reply(error_response("Not logged in"));
    }
    let command = first_text_arg(data);
    if command.as_str().is_empty() {
        return Plan::Reply(error_response("dockerRunCommand must be a string"));
    }
    let mut args: Vec<String> = Vec::new();
    args.push(owned("composerize"));
    args.push(command);
    assert(str_views(args@) =~= composerize_args(first_text(*data)));
    Plan::Proceed(args)
}

/// The compose document in the converter's output: the output without its
/// first line where that line names the project.
pub open spec fn template_of(output: Seq<char>) -> Seq<char> {
    match index_of(output, '\n') {
        Some(i) => if "name:"@.is_prefix_of(output.take(i)) {
            output.skip(i + 1)
        } else {
            output
        },
        None => output,
    }
}

/// What the converter did.
#[derive(Debug, PartialEq)]
pub enum ConverterRun {
    /// It ran and succeeded, with this output.
    Done(String),
    /// It ran and failed, with this error output.
    Failed(String),
    /// It could not be run.
    NotRun(String),
}

/// The answer to `composerize`.
pub fn composerize_reply(run: &ConverterRun) -> (r: Ack)
    ensures
        match *run {
            ConverterRun::Done(out) => {
                &&& r.ok == Some(true)
                &&& r.msg is None
                &&& r.payload@.len() == 1
                &&& r.payload@[0].0@ == "composeTemplate"@
                &&& r.payload@[0].1.text() == Some(template_of(out@))
            },
            ConverterRun::Failed(err) => r.is_error("composerize failed: "@ + err@),
            ConverterRun::NotRun(e) => r.is_error("Failed to run composerize: "@ + e@),
        },
{
    match run {
        ConverterRun::Done(out) => {
            let text = chars_of(out.as_str());
            let name = chars_of("name:");
            let template = match find_char(&text, '\n') {
                Some(i) => {
                    let first = slice(&text, 0, i);
                    if starts_with(&first, &name) {
                        slice(&text, i + 1, text.len())
                    } else {
                        text
                    }
                },
                None => text,
            };
            ok_with("composeTemplate", JsonValue::Str(string_of(&template)))
        },
        ConverterRun::Failed(err) => {
            let msg = glue("composerize failed: ", err.as_str());
            error_response(msg.as_str())
        },
        ConverterRun::NotRun(e) => {
            let msg = glue("Failed to run composerize: ", e.as_str());
            error_response(msg.as_str())
        },
    }
}

} // verus!
