//! The image-update checker: which images of which stacks to check, how
//! the remote digest is asked for, how the local one is read, what counts
//! as an update, and the cache that the stack list reads.

use crate::codec::{json_document, parse_json, parse_yaml, yaml_document};
use crate::primitives::{percent_encoded, url_encode};
use crate::image_ref::{ImageRef, parse, parse_image_reference, ParsedImageRef};
use crate::json::JsonValue;
use crate::keyed::{as_map, distinct_keys, put_distinct, remove_key, value_of};
use crate::pieces::{split, split_at_char, str_views, views};
use crate::stack::{Stack, StackView};
use crate::state::StackUpdateInfo;
use crate::text::{
    chars_of, extend_str, find_from, find_in_from, index_from, opt_view, owned, same, slice, str_eq,
    string_of,
};
use vstd::prelude::*;

verus! {

pub const DEFAULT_CHECK_INTERVAL_HOURS: u64 = 6;

/// The checker waits this long after the start before its first cycle.
pub const INITIAL_DELAY_SECS: u64 = 300;

/// Every call to a registry times out after this many seconds.
pub const REGISTRY_TIMEOUT_SECS: u64 = 15;

/// At most this many images are checked at the same time.
pub const CONCURRENCY_LIMIT: usize = 3;

/// The manifest kinds that the registry is asked for.
pub open spec fn accept_header() -> Seq<char> {
    "application/vnd.docker.distribution.manifest.v2+json, application/vnd.docker.distribution.manifest.list.v2+json, application/vnd.oci.image.manifest.v1+json, application/vnd.oci.image.index.v1+json"@
}

/// The manifest kinds that the registry is asked for.
pub fn accept() -> (r: &'static str)
    ensures
        r@ == accept_header(),
{
    "application/vnd.docker.distribution.manifest.v2+json, application/vnd.docker.distribution.manifest.list.v2+json, application/vnd.oci.image.manifest.v1+json, application/vnd.oci.image.index.v1+json"
}

// ---------------------------------------------------------------------------
// Which images to check
// ---------------------------------------------------------------------------

/// One image to check.
#[derive(Debug, Clone, PartialEq)]
pub struct ImageCheck {
    pub stack_name: String,
    pub service_name: String,
    pub image: String,
    pub ignore_digest: Option<String>,
}

/// One image to check, as texts.
pub struct ImageCheckView {
    pub stack_name: Seq<char>,
    pub service_name: Seq<char>,
    pub image: Seq<char>,
    pub ignore_digest: Option<Seq<char>>,
}

impl View for ImageCheck {
    type V = ImageCheckView;

    open spec fn view(&self) -> ImageCheckView {
        ImageCheckView {
            stack_name: self.stack_name@,
            service_name: self.service_name@,
            image: self.image@,
            ignore_digest: match self.ignore_digest {
                Some(d) => Some(d@),
                None => None,
            },
        }
    }
}

/// The views of a sequence of checks.
pub open spec fn check_views(list: Seq<ImageCheck>) -> Seq<ImageCheckView> {
    Seq::new(list.len(), |i: int| list[i]@)
}

/// The text of a member of a value, where that member is a string.
pub open spec fn member_text(v: JsonValue, key: Seq<char>) -> Option<Seq<char>> {
    match v.member(key) {
        Some(m) => m.text(),
        None => None,
    }
}

/// The text of a label of a service, where the labels are written as a
/// mapping and the label is a string.
pub open spec fn label_text(service: JsonValue, label: Seq<char>) -> Option<Seq<char>> {
    match service.member("labels"@) {
        Some(labels) => member_text(labels, label),
        None => None,
    }
}

/// The check that a service of a compose document asks for: none where
/// the service names no image or its label `dockge.imageupdates.check` is
/// `false`; the label `dockge.imageupdates.ignore` names a digest to pass over.
pub open spec fn check_of(stack_name: Seq<char>, service_name: Seq<char>, service: JsonValue)
    -> Option<ImageCheckView> {
    match member_text(service, "image"@) {
        Some(image) => if label_text(service, "dockge.imageupdates.check"@) == Some("false"@) {
            None
        } else {
            Some(
                ImageCheckView {
                    stack_name,
                    service_name,
                    image,
                    ignore_digest: label_text(service, "dockge.imageupdates.ignore"@),
                },
            )
        },
        None => None,
    }
}

/// The checks that the services of a compose document ask for, in the
/// order of the services.
pub open spec fn planned(stack_name: Seq<char>, services: Seq<(String, JsonValue)>) -> Seq<
    ImageCheckView,
>
    decreases services.len(),
{
    if services.len() == 0 {
        Seq::empty()
    } else {
        let before = planned(stack_name, services.drop_last());
        match check_of(stack_name, services.last().0@, services.last().1) {
            Some(c) => before.push(c),
            None => before,
        }
    }
}

/// The checks of one stack: none unless the stack is managed, its compose
/// document is not empty and reads as YAML with a mapping `services`.
pub open spec fn stack_checks(stack: StackView) -> Seq<ImageCheckView> {
    if !stack.managed || stack.compose_yaml.len() == 0 {
        Seq::empty()
    } else {
        match yaml_document(stack.compose_yaml) {
            Some(doc) => match doc.member("services"@) {
                Some(JsonValue::Object(services)) => planned(stack.name, services@),
                _ => Seq::empty(),
            },
            None => Seq::empty(),
        }
    }
}

/// The checks of all stacks of a list, stack by stack.
pub open spec fn all_checks(stacks: Seq<(String, Stack)>) -> Seq<ImageCheckView>
    decreases stacks.len(),
{
    if stacks.len() == 0 {
        Seq::empty()
    } else {
        all_checks(stacks.drop_last()) + stack_checks(stacks.last().1@)
    }
}

/// The checker is off exactly when the setting is the boolean `false`.
pub open spec fn checks_enabled(setting: Option<JsonValue>) -> bool {
    !(setting matches Some(JsonValue::Bool(b)) && !b)
}

/// Whether the checker is on.
pub fn enabled(setting: Option<&JsonValue>) -> (r: bool)
    ensures
        r == checks_enabled(
            match setting {
                Some(v) => Some(*v),
                None => None,
            },
        ),
{
    match setting {
        Some(JsonValue::Bool(b)) => *b,
        _ => true,
    }
}

fn text_member(v: &JsonValue, key: &str) -> (r: Option<String>)
    ensures
        (match r {
            Some(t) => Some(t@),
            None => None,
        }) == member_text(*v, key@),
{
    match v.get(key) {
        Some(m) => match m.as_str() {
            Some(t) => Some(t.clone()),
            None => None,
        },
        None => None,
    }
}

fn text_label(service: &JsonValue, label: &str) -> (r: Option<String>)
    ensures
        (match r {
            Some(t) => Some(t@),
            None => None,
        }) == label_text(*service, label@),
{
    match service.get("labels") {
        Some(labels) => text_member(labels, label),
        None => None,
    }
}

fn service_check(stack_name: &str, service_name: &str, service: &JsonValue) -> (r: Option<
    ImageCheck,
>)
    ensures
        (match r {
            Some(c) => Some(c@),
            None => None,
        }) == check_of(stack_name@, service_name@, *service),
{
    match text_member(service, "image") {
        Some(image) => {
            let check_label = text_label(service, "dockge.imageupdates.check");
            let off = match &check_label {
                Some(t) => str_eq(t.as_str(), "false"),
                None => false,
            };
            if off {
                None
            } else {
                Some(
                    ImageCheck {
                        stack_name: owned(stack_name),
                        service_name: owned(service_name),
                        image,
                        ignore_digest: text_label(service, "dockge.imageupdates.ignore"),
                    },
                )
            }
        },
        None => None,
    }
}

/// The images of one stack that are to be checked.
pub fn check_stack(stack: &Stack) -> (r: Vec<ImageCheck>)
    ensures
        check_views(r@) == stack_checks(stack@),
{
    let mut out: Vec<ImageCheck> = Vec::new();
    assert(check_views(out@) =~= Seq::empty());
    if !stack.is_managed_by_dockge() || stack.compose_yaml.as_str().is_empty() {
        return out;
    }
    let doc = match parse_yaml(stack.compose_yaml.as_str()) {
        Ok(doc) => doc,
        Err(_) => {
            return out;
        },
    };
    let services = match doc.get("services") {
        Some(s) => match s.as_object() {
            Some(members) => members,
            None => {
                return out;
            },
        },
        None => {
            return out;
        },
    };
    let mut i: usize = 0;
    assert(services@.take(0) =~= Seq::empty());
    while i < services.len()
        invariant
            i <= services.len(),
            check_views(out@) == planned(stack.name@, services@.take(i as int)),
        decreases services.len() - i,
    {
        assert(services@.take(i + 1).drop_last() == services@.take(i as int));
        assert(services@.take(i + 1).last() == services@[i as int]);
        match service_check(stack.name.as_str(), services[i].0.as_str(), &services[i].1) {
            Some(c) => {
                assert(check_views(out@.push(c)) =~= check_views(out@).push(c@));
                out.push(c);
            },
            None => {},
        }
        i = i + 1;
    }
    assert(services@.take(services.len() as int) == services@);
    out
}

/// The images of all stacks that are to be checked in one cycle: none
/// where the checker is switched off.
pub fn check_all(setting: Option<&JsonValue>, stacks: &Vec<(String, Stack)>) -> (r: Vec<ImageCheck>)
    ensures
        check_views(r@) == if checks_enabled(
            match setting {
                Some(v) => Some(*v),
                None => None,
            },
        ) {
            all_checks(stacks@)
        } else {
            Seq::empty()
        },
{
    let mut out: Vec<ImageCheck> = Vec::new();
    assert(check_views(out@) =~= Seq::empty());
    if !enabled(setting) {
        return out;
    }
    let mut i: usize = 0;
    assert(stacks@.take(0) =~= Seq::empty());
    while i < stacks.len()
        invariant
            i <= stacks.len(),
            check_views(out@) == all_checks(stacks@.take(i as int)),
        decreases stacks.len() - i,
    {
        assert(stacks@.take(i + 1).drop_last() == stacks@.take(i as int));
        assert(stacks@.take(i + 1).last() == stacks@[i as int]);
        let mut more = check_stack(&stacks[i].1);
        let ghost a = out@;
        let ghost b = more@;
        out.append(&mut more);
        assert(check_views(out@) =~= check_views(a) + check_views(b));
        i = i + 1;
    }
    assert(stacks@.take(stacks.len() as int) == stacks@);
    out
}

// ---------------------------------------------------------------------------
// The remote digest
// ---------------------------------------------------------------------------

/// `https://<registry>`
pub open spec fn registry_url(p: ImageRef) -> Seq<char> {
    "https://"@ + p.registry
}

/// `https://<registry>/v2/<repository>/manifests/<tag>`
pub open spec fn manifest_url(p: ImageRef) -> Seq<char> {
    registry_url(p) + "/v2/"@ + p.repository + "/manifests/"@ + p.tag
}

/// The scope that a token is asked for: pulling from the repository.
pub open spec fn pull_scope(repository: Seq<char>) -> Seq<char> {
    "repository:"@ + repository + ":pull"@
}

/// The first text in `s`, at or after `from`, that stands between `key` and
/// a following double quote and is not empty.
pub open spec fn quoted_from(s: Seq<char>, key: Seq<char>, from: int) -> Option<Seq<char>>
    decreases s.len() - from,
{
    match find_from(s, key, from) {
        Some(i) => {
            let start = i + key.len();
            match index_from(s, '"', start) {
                Some(end) => if end > start {
                    Some(s.subrange(start, end))
                } else if from <= i < s.len() {
                    quoted_from(s, key, i + 1)
                } else {
                    None
                },
                None => None,
            }
        },
        None => None,
    }
}

/// The first non-empty quoted value that follows `name="` in a header.
pub open spec fn header_value(header: Seq<char>, name: Seq<char>) -> Option<Seq<char>> {
    quoted_from(header, name + "=\""@, 0)
}

/// The address that a token is asked from, given the challenge of the
/// registry: `<realm>?service=<service>&scope=<scope>`, service and scope
/// percent-encoded. There is none where the challenge names no realm.
pub open spec fn token_url_text(www_auth: Seq<char>, repository: Seq<char>) -> Option<Seq<char>> {
    match header_value(www_auth, "realm"@) {
        Some(realm) => {
            let service = match header_value(www_auth, "service"@) {
                Some(v) => v,
                None => Seq::empty(),
            };
            Some(
                realm + "?service="@ + percent_encoded(vstd::utf8::encode_utf8(service))
                    + "&scope="@ + percent_encoded(vstd::utf8::encode_utf8(pull_scope(repository))),
            )
        },
        None => None,
    }
}

/// A status of the 2xx class.
pub open spec fn is_success(status: u16) -> bool {
    200 <= status && status < 300
}

fn quoted_value(s: &Vec<char>, name: &str) -> (r: Option<Vec<char>>)
    ensures
        (match r {
            Some(v) => Some(v@),
            None => None,
        }) == header_value(s@, name@),
{
    let mut key = chars_of(name);
    extend_str(&mut key, "=\"");
    let mut from: usize = 0;
    loop
        invariant
            from <= s.len(),
            key@ == name@ + "=\""@,
            quoted_from(s@, key@, 0) == quoted_from(s@, key@, from as int),
        decreases s.len() - from,
    {
        match find_in_from(s, &key, from) {
            Some(i) => {
                let start = i + key.len();
                // the closing quote
                let mut end: usize = start;
                while end < s.len() && s[end] != '"'
                    invariant
                        start <= end <= s.len(),
                        index_from(s@, '"', start as int) == index_from(s@, '"', end as int),
                    decreases s.len() - end,
                {
                    end = end + 1;
                }
                if end >= s.len() {
                    return None;
                }
                if end > start {
                    return Some(slice(s, start, end));
                }
                if i >= s.len() {
                    return None;
                }
                from = i + 1;
            },
            None => {
                return None;
            },
        }
    }
}

/// The address of an image's manifest at its registry.
pub fn manifest_url_of(parsed: &ParsedImageRef) -> (r: String)
    ensures
        r@ == manifest_url(parsed@),
{
    let mut v = chars_of("https://");
    extend_str(&mut v, parsed.registry.as_str());
    extend_str(&mut v, "/v2/");
    extend_str(&mut v, parsed.repository.as_str());
    extend_str(&mut v, "/manifests/");
    extend_str(&mut v, parsed.tag.as_str());
    string_of(&v)
}

/// The address that a bearer token is asked from, given the registry's
/// challenge; `None` where the challenge names no realm.
pub fn fetch_bearer_token(www_auth: &str, repository: &str) -> (r: Option<String>)
    ensures
        (match r {
            Some(url) => Some(url@),
            None => None,
        }) == token_url_text(www_auth@, repository@),
{
    let header = chars_of(www_auth);
    let realm = match quoted_value(&header, "realm") {
        Some(v) => v,
        None => {
            return None;
        },
    };
    let service = match quoted_value(&header, "service") {
        Some(v) => string_of(&v),
        None => String::new(),
    };
    let mut scope = chars_of("repository:");
    extend_str(&mut scope, repository);
    extend_str(&mut scope, ":pull");
    let scope = string_of(&scope);
    let mut url = realm;
    extend_str(&mut url, "?service=");
    extend_str(&mut url, url_encode(service.as_str()).as_str());
    extend_str(&mut url, "&scope=");
    extend_str(&mut url, url_encode(scope.as_str()).as_str());
    Some(string_of(&url))
}

/// What a registry answered to a manifest request.
#[derive(Debug, Clone, PartialEq)]
pub struct HeadResponse {
    pub status: u16,
    /// The header `www-authenticate`, where it is there and is text.
    pub www_authenticate: Option<String>,
    /// The header `docker-content-digest`, where it is there and is text.
    pub digest: Option<String>,
}

/// What the remote resolution does next.
#[derive(Debug, PartialEq)]
pub enum RemoteStep {
    /// Ask for the manifest's headers at `url`, with the token if there is one.
    Head { url: String, bearer: Option<String> },
    /// Get a token from `url`.
    Token { url: String },
    /// The remote digest, or none.
    Done(Option<String>),
}

/// The value of the header `Authorization` for a token.
pub open spec fn bearer_text(token: Seq<char>) -> Seq<char> {
    "Bearer "@ + token
}

/// The value of the header `Authorization` for a token.
pub fn bearer(token: &str) -> (r: String)
    ensures
        r@ == bearer_text(token@),
{
    crate::text::glue("Bearer ", token)
}

/// The token in the answer of the token service: the member `token`, or
/// else `access_token`, where it is a string.
pub open spec fn token_in(body: JsonValue) -> Option<Seq<char>> {
    match body.member("token"@) {
        Some(t) => t.text(),
        None => member_text(body, "access_token"@),
    }
}

/// The remote resolution starts by asking for the manifest without a token.
pub fn fetch_remote_digest(parsed: &ParsedImageRef) -> (r: RemoteStep)
    ensures
        r matches RemoteStep::Head { url, bearer } && url@ == manifest_url(parsed@) && bearer
            is None,
{
    RemoteStep::Head { url: manifest_url_of(parsed), bearer: None }
}

/// The step after the first answer. No answer ends without digest. A 401
/// leads to the token service named in the challenge, or ends without
/// digest where none is named. Any other status ends, with the digest of
/// the answer if the status is a success.
pub fn after_first_answer(parsed: &ParsedImageRef, answer: Option<HeadResponse>) -> (r: RemoteStep)
    ensures
        match answer {
            None => r matches RemoteStep::Done(d) && d is None,
            Some(a) => if a.status == 401 {
                match token_url_text(
                    crate::text::opt_or_empty(a.www_authenticate),
                    parsed@.repository,
                ) {
                    Some(u) => r matches RemoteStep::Token { url } && url@ == u,
                    None => r matches RemoteStep::Done(d) && d is None,
                }
            } else if is_success(a.status) {
                r == RemoteStep::Done(a.digest)
            } else {
                r matches RemoteStep::Done(d) && d is None
            },
        },
{
    match answer {
        None => RemoteStep::Done(None),
        Some(a) => {
            if a.status == 401 {
                let challenge = match &a.www_authenticate {
                    Some(h) => h.clone(),
                    None => String::new(),
                };
                match fetch_bearer_token(challenge.as_str(), parsed.repository.as_str()) {
                    Some(url) => RemoteStep::Token { url },
                    None => RemoteStep::Done(None),
                }
            } else if 200 <= a.status && a.status < 300 {
                RemoteStep::Done(a.digest)
            } else {
                RemoteStep::Done(None)
            }
        },
    }
}

/// The step after the token service answered: the manifest is asked for
/// again with the token; without an answer, on a failure, or without a
/// token in the answer the resolution ends without digest.
pub fn after_token_answer(parsed: &ParsedImageRef, status: Option<u16>, body: Option<&JsonValue>)
    -> (r: RemoteStep)
    ensures
        match (status, body) {
            (Some(s), Some(b)) => if is_success(s) && token_in(*b) is Some {
                r matches RemoteStep::Head { url, bearer } && url@ == manifest_url(parsed@)
                    && opt_view(bearer) == token_in(*b)
            } else {
                r matches RemoteStep::Done(d) && d is None
            },
            _ => r matches RemoteStep::Done(d) && d is None,
        },
{
    match (status, body) {
        (Some(s), Some(b)) => {
            if !(200 <= s && s < 300) {
                return RemoteStep::Done(None);
            }
            let token = match b.get("token") {
                Some(t) => t.as_str(),
                None => match b.get("access_token") {
                    Some(t) => t.as_str(),
                    None => None,
                },
            };
            match token {
                Some(t) => RemoteStep::Head {
                    url: manifest_url_of(parsed),
                    bearer: Some(t.clone()),
                },
                None => RemoteStep::Done(None),
            }
        },
        _ => RemoteStep::Done(None),
    }
}

/// The remote digest after the second answer: the digest of a successful
/// answer, else none.
pub fn after_second_answer(answer: Option<HeadResponse>) -> (r: Option<String>)
    ensures
        r == match answer {
            Some(a) => if is_success(a.status) {
                a.digest
            } else {
                None
            },
            None => None,
        },
{
    match answer {
        Some(a) => if 200 <= a.status && a.status < 300 {
            a.digest
        } else {
            None
        },
        None => None,
    }
}

/// The step after an answer to a request for the manifest. A request
/// without a token is the first one, and its answer may lead to the token
/// service; a request with a token is the second one, and its answer ends
/// the resolution.
pub fn after_head_answer(parsed: &ParsedImageRef, with_token: bool, answer: Option<HeadResponse>)
    -> (r: RemoteStep)
    ensures
        with_token ==> r == RemoteStep::Done(
            match answer {
                Some(a) => if is_success(a.status) {
                    a.digest
                } else {
                    None
                },
                None => None,
            },
        ),
        !with_token ==> (match answer {
            None => r matches RemoteStep::Done(d) && d is None,
            Some(a) => if a.status == 401 {
                match token_url_text(
                    crate::text::opt_or_empty(a.www_authenticate),
                    parsed@.repository,
                ) {
                    Some(u) => r matches RemoteStep::Token { url } && url@ == u,
                    None => r matches RemoteStep::Done(d) && d is None,
                }
            } else if is_success(a.status) {
                r == RemoteStep::Done(a.digest)
            } else {
                r matches RemoteStep::Done(d) && d is None
            },
        }),
{
    if with_token {
        RemoteStep::Done(after_second_answer(answer))
    } else {
        after_first_answer(parsed, answer)
    }
}

// ---------------------------------------------------------------------------
// The local digest
// ---------------------------------------------------------------------------

/// The arguments that ask the engine for what it knows of an image.
pub open spec fn inspect_args(image: Seq<char>) -> Seq<Seq<char>> {
    seq!["image"@, "inspect"@, "--format"@, "json"@, image]
}

/// The arguments that ask the engine for what it knows of an image.
pub fn local_digest_args(image_ref: &str) -> (r: Vec<String>)
    ensures
        str_views(r@) == inspect_args(image_ref@),
{
    let mut r: Vec<String> = Vec::new();
    r.push(owned("image"));
    r.push(owned("inspect"));
    r.push(owned("--format"));
    r.push(owned("json"));
    r.push(owned(image_ref));
    assert(str_views(r@) =~= inspect_args(image_ref@));
    r
}

/// The image that an inspection describes: the first element if the
/// document is an array, the document itself if not.
pub open spec fn inspected(doc: JsonValue) -> Option<JsonValue> {
    match doc {
        JsonValue::Array(items) => if items@.len() > 0 {
            Some(items@[0])
        } else {
            None
        },
        _ => Some(doc),
    }
}

/// What follows the first `@` in a repository digest, up to the next one.
pub open spec fn digest_part(repo_digest: Seq<char>) -> Option<Seq<char>> {
    if split(repo_digest, '@').len() >= 2 {
        Some(split(repo_digest, '@')[1])
    } else {
        None
    }
}

/// The local digest that an inspection gives: of the first repository
/// digest of the image, what follows the `@`.
pub open spec fn local_digest_in(doc: JsonValue) -> Option<Seq<char>> {
    match inspected(doc) {
        Some(image) => match image.member("RepoDigests"@) {
            Some(JsonValue::Array(digests)) => if digests@.len() > 0 {
                match digests@[0].text() {
                    Some(t) => digest_part(t),
                    None => None,
                }
            } else {
                None
            },
            _ => None,
        },
        None => None,
    }
}

/// The local digest of an image, from the outcome of its inspection:
/// none where the inspection failed, printed nothing, or printed what is no
/// JSON or names no repository digest.
pub open spec fn local_digest_text(success: bool, stdout: Seq<char>) -> Option<Seq<char>> {
    if !success || stdout.len() == 0 {
        None
    } else {
        match json_document(stdout) {
            Some(doc) => local_digest_in(doc),
            None => None,
        }
    }
}

/// The local digest of an image, from the outcome of its inspection.
pub fn fetch_local_digest(success: bool, stdout: &str) -> (r: Option<String>)
    ensures
        (match r {
            Some(d) => Some(d@),
            None => None,
        }) == local_digest_text(success, stdout@),
{
    if !success || stdout.is_empty() {
        return None;
    }
    let doc = match parse_json(stdout) {
        Some(doc) => doc,
        None => {
            return None;
        },
    };
    let image = match &doc {
        JsonValue::Array(items) => {
            if items.len() == 0 {
                return None;
            }
            &items[0]
        },
        _ => &doc,
    };
    let digests = match image.get("RepoDigests") {
        Some(d) => match d.as_array() {
            Some(list) => list,
            None => {
                return None;
            },
        },
        None => {
            return None;
        },
    };
    if digests.len() == 0 {
        return None;
    }
    let first = match digests[0].as_str() {
        Some(t) => t,
        None => {
            return None;
        },
    };
    let parts = split_at_char(&chars_of(first.as_str()), '@');
    if parts.len() >= 2 {
        assert(views(parts@)[1] == parts@[1]@);
        Some(string_of(&parts[1]))
    } else {
        None
    }
}

// ---------------------------------------------------------------------------
// The decision
// ---------------------------------------------------------------------------

/// There is an update when both digests are known and differ, unless the
/// remote one is the digest to pass over.
pub open spec fn update_available(
    remote: Option<Seq<char>>,
    local: Option<Seq<char>>,
    ignore: Option<Seq<char>>,
) -> bool {
    remote is Some && local is Some && remote != local && ignore != remote
}

/// Whether there is an update.
pub fn has_update(remote: &Option<String>, local: &Option<String>, ignore: &Option<String>) -> (r:
    bool)
    ensures
        r == update_available(opt_view(*remote), opt_view(*local), opt_view(*ignore)),
{
    match (remote, local) {
        (Some(r), Some(l)) => {
            if str_eq(r.as_str(), l.as_str()) {
                false
            } else {
                match ignore {
                    Some(i) => !str_eq(r.as_str(), i.as_str()),
                    None => true,
                }
            }
        },
        _ => false,
    }
}

/// The result of checking one image, as it is kept.
#[derive(Debug, Clone, PartialEq)]
pub struct CacheRow {
    pub stack_name: String,
    pub service_name: String,
    pub image_reference: String,
    pub local_digest: Option<String>,
    pub remote_digest: Option<String>,
    pub has_update: bool,
    pub last_checked: i64,
}

/// What is to be asked about an image: its parts, the address of its
/// manifest, and the arguments of its inspection.
#[derive(Debug, PartialEq)]
pub struct ImageProbe {
    pub parsed: ParsedImageRef,
    pub manifest_url: String,
    pub inspect_args: Vec<String>,
}

/// What is to be asked about the image of a check.
pub fn check_single_image(check: &ImageCheck) -> (r: ImageProbe)
    ensures
        r.parsed@ == parse(check.image@),
        r.manifest_url@ == manifest_url(parse(check.image@)),
        str_views(r.inspect_args@) == inspect_args(check.image@),
{
    let parsed = parse_image_reference(check.image.as_str());
    let manifest_url = manifest_url_of(&parsed);
    ImageProbe { parsed, manifest_url, inspect_args: local_digest_args(check.image.as_str()) }
}

/// The row to keep for a checked image. Without a local digest (the image
/// was never pulled) nothing is determined and nothing is kept: the row of
/// the service stays as it is.
pub fn image_verdict(
    check: &ImageCheck,
    remote: Option<String>,
    local: Option<String>,
    now: i64,
) -> (r: Option<CacheRow>)
    ensures
        match r {
            Some(row) => {
                &&& local is Some
                &&& row.stack_name@ == check.stack_name@
                &&& row.service_name@ == check.service_name@
                &&& row.image_reference@ == check.image@
                &&& row.local_digest == local
                &&& row.remote_digest == remote
                &&& row.has_update == update_available(
                    opt_view(remote),
                    opt_view(local),
                    check@.ignore_digest,
                )
                &&& row.last_checked == now
            },
            None => local is None,
        },
{
    if local.is_none() {
        return None;
    }
    let update = has_update(&remote, &local, &check.ignore_digest);
    Some(
        CacheRow {
            stack_name: check.stack_name.clone(),
            service_name: check.service_name.clone(),
            image_reference: check.image.clone(),
            local_digest: local,
            remote_digest: remote,
            has_update: update,
            last_checked: now,
        },
    )
}

/// The row to keep for an image checked just now, by the clock. Whatever
/// the clock says, the row is the one of `image_verdict` for that time.
pub fn image_verdict_now(check: &ImageCheck, remote: Option<String>, local: Option<String>) -> (r:
    Option<CacheRow>)
    ensures
        match r {
            Some(row) => {
                &&& local is Some
                &&& row.stack_name@ == check.stack_name@
                &&& row.service_name@ == check.service_name@
                &&& row.image_reference@ == check.image@
                &&& row.local_digest == local
                &&& row.remote_digest == remote
                &&& row.has_update == update_available(
                    opt_view(remote),
                    opt_view(local),
                    check@.ignore_digest,
                )
            },
            None => local is None,
        },
{
    image_verdict(check, remote, local, crate::primitives::unix_now())
}

/// How the row of a checked image gets into the table, which holds one row
/// for every pair of stack and service.
#[derive(Clone, Copy, Debug, PartialEq, Eq, Structural)]
pub enum RowWrite {
    /// As a new row.
    Insert,
    /// Over the row with this id.
    Update(i64),
}

/// How a row is written, given the id of the row that the table holds for
/// its stack and service.
pub fn row_write(existing: Option<i64>) -> (r: RowWrite)
    ensures
        r == match existing {
            Some(id) => RowWrite::Update(id),
            None => RowWrite::Insert,
        },
{
    match existing {
        Some(id) => RowWrite::Update(id),
        None => RowWrite::Insert,
    }
}

// ---------------------------------------------------------------------------
// The cache
// ---------------------------------------------------------------------------

/// What is known of the image updates of one stack, as plain values.
pub struct UpdateView {
    pub has_updates: bool,
    pub services: Map<Seq<char>, bool>,
}

/// What is known of one stack.
pub open spec fn update_view(info: StackUpdateInfo) -> UpdateView {
    UpdateView { has_updates: info.has_updates, services: as_map(info.services@) }
}

/// The update cache by stack.
pub open spec fn update_map(cache: Seq<(String, StackUpdateInfo)>) -> Map<Seq<char>, UpdateView> {
    Map::new(
        |name: Seq<char>| as_map(cache).dom().contains(name),
        |name: Seq<char>| update_view(as_map(cache)[name]),
    )
}

/// What is known of a stack before a row is added.
pub open spec fn known(m: Map<Seq<char>, UpdateView>, stack: Seq<char>) -> UpdateView {
    if m.dom().contains(stack) {
        m[stack]
    } else {
        UpdateView { has_updates: false, services: Map::empty() }
    }
}

/// The cache that rows of `(stack, service, has_update)` give: every
/// service with its flag, and a stack has updates when one of its rows
/// says so.
pub open spec fn cache_of(rows: Seq<(String, String, bool)>) -> Map<Seq<char>, UpdateView>
    decreases rows.len(),
{
    if rows.len() == 0 {
        Map::empty()
    } else {
        let m = cache_of(rows.drop_last());
        let row = rows.last();
        let before = known(m, row.0@);
        m.insert(
            row.0@,
            UpdateView {
                has_updates: before.has_updates || row.2,
                services: before.services.insert(row.1@, row.2),
            },
        )
    }
}

/// Well-formed cache: no stack twice, and no service twice within a stack.
pub open spec fn cache_wf(cache: Seq<(String, StackUpdateInfo)>) -> bool {
    &&& distinct_keys(cache)
    &&& forall|i: int| 0 <= i < cache.len() ==> distinct_keys((#[trigger] cache[i]).1.services@)
}

/// Builds the in-memory update cache from the rows of the table.
pub fn load_cache_from_db(rows: &Vec<(String, String, bool)>) -> (r: Vec<(String, StackUpdateInfo)>)
    ensures
        cache_wf(r@),
        update_map(r@) == cache_of(rows@),
{
    let mut cache: Vec<(String, StackUpdateInfo)> = Vec::new();
    let mut i: usize = 0;
    assert(rows@.take(0) =~= Seq::empty());
    assert(update_map(cache@) =~= Map::empty());
    while i < rows.len()
        invariant
            i <= rows.len(),
            cache_wf(cache@),
            update_map(cache@) == cache_of(rows@.take(i as int)),
        decreases rows.len() - i,
    {
        assert(rows@.take(i + 1).drop_last() == rows@.take(i as int));
        assert(rows@.take(i + 1).last() == rows@[i as int]);
        let ghost before = cache@;
        let ghost m = update_map(before);
        let stack_name = rows[i].0.clone();
        let service_name = rows[i].1.clone();
        let flag = rows[i].2;
        proof {
            crate::keyed::lemma_key_index_from(before, stack_name@, 0);
        }
        let mut info = match remove_key(&mut cache, stack_name.as_str()) {
            Some(info) => info,
            None => StackUpdateInfo { has_updates: false, services: Vec::new() },
        };
        assert(update_view(info) == known(m, stack_name@)) by {
            assert(as_map(Seq::<(String, bool)>::empty()) =~= Map::<Seq<char>, bool>::empty());
        }
        let ghost mid = cache@;
        assert(cache_wf(mid)) by {
            assert forall|k: int| 0 <= k < mid.len() implies distinct_keys(
                (#[trigger] mid[k]).1.services@,
            ) by {
                crate::keyed::lemma_removed_entries(before, mid, stack_name@, k);
            }
        }
        let mut services = info.services;
        put_distinct(&mut services, service_name, flag);
        let updated = StackUpdateInfo { has_updates: info.has_updates || flag, services };
        put_distinct(&mut cache, stack_name, updated);
        proof {
            let after = cache@;
            assert(update_map(after) =~= m.insert(rows@[i as int].0@, update_view(updated)));
            assert forall|k: int| 0 <= k < after.len() implies distinct_keys(
                (#[trigger] after[k]).1.services@,
            ) by {
                crate::keyed::lemma_put_entries(mid, after, rows@[i as int].0@, updated, k);
            }
        }
        i = i + 1;
    }
    assert(rows@.take(rows.len() as int) == rows@);
    cache
}

/// Whether the cache knows of updates for a stack.
pub fn stack_has_updates(cache: &Vec<(String, StackUpdateInfo)>, stack_name: &str) -> (r: bool)
    ensures
        r == (match value_of(cache@, stack_name@) {
            Some(info) => info.has_updates,
            None => false,
        }),
{
    match crate::keyed::get(cache, stack_name) {
        Some(info) => info.has_updates,
        None => false,
    }
}

// ---------------------------------------------------------------------------
// The schedule
// ---------------------------------------------------------------------------

/// The hours between two cycles: the setting where it is a number, else
/// six; at least one.
pub open spec fn interval_hours(setting: Option<JsonValue>) -> nat {
    let wanted = match setting {
        Some(v) => match v.natural() {
            Some(n) => n,
            None => DEFAULT_CHECK_INTERVAL_HOURS as nat,
        },
        None => DEFAULT_CHECK_INTERVAL_HOURS as nat,
    };
    if wanted < 1 {
        1
    } else {
        wanted
    }
}

/// The seconds to sleep between two cycles; the longest sleep that can be
/// counted where the hours are beyond it.
pub fn check_interval_secs(setting: Option<&JsonValue>) -> (r: u64)
    ensures
        r == if interval_hours(
            match setting {
                Some(v) => Some(*v),
                None => None,
            },
        ) * 3600 <= u64::MAX {
            interval_hours(
                match setting {
                    Some(v) => Some(*v),
                    None => None,
                },
            ) * 3600
        } else {
            u64::MAX as nat
        },
{
    let wanted = match setting {
        Some(v) => match v.as_u64() {
            Some(n) => n,
            None => DEFAULT_CHECK_INTERVAL_HOURS,
        },
        None => DEFAULT_CHECK_INTERVAL_HOURS,
    };
    let hours = if wanted < 1 {
        1
    } else {
        wanted
    };
    if hours <= u64::MAX / 3600 {
        hours * 3600
    } else {
        u64::MAX
    }
}

/// Where the background checker stands.
#[derive(Clone, Copy, Debug, PartialEq, Eq, Structural)]
pub enum CheckerState {
    /// Just started.
    Starting,
    /// The cache is loaded; the first cycle is yet to come.
    Loaded,
    /// A cycle is due.
    Due,
    /// A cycle has run; its result is yet to be told.
    Checked,
    /// The result has been told.
    Told,
}

/// What the background checker does next.
#[derive(Clone, Copy, Debug, PartialEq, Eq, Structural)]
pub enum CheckerAction {
    /// Build the update cache from the table.
    LoadCache,
    /// Sleep for so many seconds.
    Sleep(u64),
    /// Check all images, then build the update cache anew.
    CheckAll,
    /// Send the stack list to every session.
    Broadcast,
}

/// The background checker: load the cache, wait for the initial delay,
/// then for ever check, tell, and sleep for the interval that the setting
/// gives at that moment.
pub fn start_background_checker(state: CheckerState, interval: Option<&JsonValue>) -> (r: (
    CheckerState,
    CheckerAction,
))
    ensures
        r == match state {
            CheckerState::Starting => (CheckerState::Loaded, CheckerAction::LoadCache),
            CheckerState::Loaded => (CheckerState::Due, CheckerAction::Sleep(INITIAL_DELAY_SECS)),
            CheckerState::Due => (CheckerState::Checked, CheckerAction::CheckAll),
            CheckerState::Checked => (CheckerState::Told, CheckerAction::Broadcast),
            CheckerState::Told => (
                CheckerState::Due,
                CheckerAction::Sleep(
                    if interval_hours(
                        match interval {
                            Some(v) => Some(*v),
                            None => None,
                        },
                    ) * 3600 <= u64::MAX {
                        (interval_hours(
                            match interval {
                                Some(v) => Some(*v),
                                None => None,
                            },
                        ) * 3600) as u64
                    } else {
                        u64::MAX
                    },
                ),
            ),
        },
{
    match state {
        CheckerState::Starting => (CheckerState::Loaded, CheckerAction::LoadCache),
        CheckerState::Loaded => (CheckerState::Due, CheckerAction::Sleep(INITIAL_DELAY_SECS)),
        CheckerState::Due => (CheckerState::Checked, CheckerAction::CheckAll),
        CheckerState::Checked => (CheckerState::Told, CheckerAction::Broadcast),
        CheckerState::Told => (
            CheckerState::Due,
            CheckerAction::Sleep(check_interval_secs(interval)),
        ),
    }
}

/// The permits of the image checks: at most `CONCURRENCY_LIMIT` are out at
/// any time.
#[derive(Debug, PartialEq)]
pub struct Permits {
    out: usize,
}

impl Permits {
    /// The number of permits that are out.
    pub closed spec fn in_use(&self) -> nat {
        self.out as nat
    }

    /// Never more permits are out than the limit allows.
    pub closed spec fn wf(&self) -> bool {
        self.out <= CONCURRENCY_LIMIT
    }

    pub fn new() -> (p: Permits)
        ensures
            p.wf(),
            p.in_use() == 0,
    {
        Permits { out: 0 }
    }

    /// Takes a permit if one is left.
    pub fn try_acquire(&mut self) -> (r: bool)
        requires
            old(self).wf(),
        ensures
            final(self).wf(),
            r == (old(self).in_use() < CONCURRENCY_LIMIT),
            final(self).in_use() == old(self).in_use() + if r {
                1nat
            } else {
                0nat
            },
            final(self).in_use() <= CONCURRENCY_LIMIT,
    {
        if self.out < CONCURRENCY_LIMIT {
            self.out = self.out + 1;
            true
        } else {
            false
        }
    }

    /// Gives a permit back.
    pub fn release(&mut self)
        requires
            old(self).wf(),
        ensures
            final(self).wf(),
            final(self).in_use() == if old(self).in_use() > 0 {
                (old(self).in_use() - 1) as nat
            } else {
                0nat
            },
    {
        if self.out > 0 {
            self.out = self.out - 1;
        }
    }
}

} // verus!
