//! Session tokens: signing the claims of an account into a token and
//! reading the claims out of one.
//!
//! The signing is `jsonwebtoken`'s, with HS256 under the server's secret.
//! The token for given claims and the document in a given token are named
//! here (`jwt_token`, `jwt_payload`) and not defined. What the library
//! relies on beside the names is that a token made under a secret reads
//! under that secret as the claims it was made from.

use crate::codec::{json_tree, tree_of};
use crate::decimal::{number_up_to, parse_up_to};
use crate::json::JsonValue;
use crate::text::chars_of;
use crate::user::JwtClaims;
use vstd::prelude::*;

verus! {

/// `jsonwebtoken::errors::Error`, carried through without a look inside.
#[verifier::external_type_specification]
#[verifier::external_body]
pub struct ExJwtError(jsonwebtoken::errors::Error);

/// The claims of a token as plain values.
pub ghost struct Claims {
    pub username: Seq<char>,
    pub h: Seq<char>,
    pub exp: Option<usize>,
}

impl View for JwtClaims {
    type V = Claims;

    open spec fn view(&self) -> Claims {
        Claims { username: self.username@, h: self.h@, exp: self.exp }
    }
}

/// The token that `jsonwebtoken` makes of the claims `username`, `h` and
/// `exp` with its default header, signed with HS256 under the secret;
/// `None` where it reports an error.
pub uninterp spec fn jwt_token(
    username: Seq<char>,
    h: Seq<char>,
    exp: Option<usize>,
    secret: Seq<char>,
) -> Option<Seq<char>>;

/// The claims document that `jsonwebtoken` reads out of a token whose
/// HS256 signature is good under the secret, whether or not the token has
/// expired; `None` where it reports an error.
pub uninterp spec fn jwt_payload(token: Seq<char>, secret: Seq<char>) -> Option<JsonValue>;

/// The claims that a document holds: `username` and `h` must be strings;
/// `exp` may be missing or null, else it must be a number that fits the
/// machine's word. Other members are passed over.
pub open spec fn claims_of(doc: JsonValue) -> Option<Claims> {
    match (doc.member("username"@), doc.member("h"@)) {
        (Some(JsonValue::Str(username)), Some(JsonValue::Str(h))) => match doc.member("exp"@) {
            None => Some(Claims { username: username@, h: h@, exp: None }),
            Some(JsonValue::Null) => Some(Claims { username: username@, h: h@, exp: None }),
            Some(JsonValue::Number(n)) => match number_up_to(n@, usize::MAX as nat) {
                Some(e) => Some(Claims { username: username@, h: h@, exp: Some(e as usize) }),
                None => None,
            },
            Some(_) => None,
        },
        _ => None,
    }
}

/// The claims that a token carries under a secret, if it is a good token
/// with such claims.
pub open spec fn token_claims(token: Seq<char>, secret: Seq<char>) -> Option<Claims> {
    match jwt_payload(token, secret) {
        Some(doc) => claims_of(doc),
        None => None,
    }
}

/// `jsonwebtoken::encode` with the default header (HS256), a claims object
/// with the members `username`, `h` and `exp` (null where there is none),
/// and the secret's bytes as the key. Claims that the outcome is the one
/// named `jwt_token`, and that `jsonwebtoken::decode` under the same
/// secret, with HS256 and no check of the expiry, reads a token so made as
/// a document with these three claims.
#[verifier::external_body]
pub(crate) fn jwt_encode(username: &str, h: &str, exp: Option<usize>, secret: &str) -> (r: Result<
    String,
    jsonwebtoken::errors::Error,
>)
    ensures
        match r {
            Ok(t) => jwt_token(username@, h@, exp, secret@) == Some(t@) && token_claims(
                t@,
                secret@,
            ) == Some((Claims { username: username@, h: h@, exp })),
            Err(_) => jwt_token(username@, h@, exp, secret@) is None,
        },
{
    let mut claims = serde_json::Map::new();
    claims.insert("username".to_string(), serde_json::Value::from(username));
    claims.insert("h".to_string(), serde_json::Value::from(h));
    claims.insert("exp".to_string(), serde_json::Value::from(exp));
    let key = jsonwebtoken::EncodingKey::from_secret(secret.as_bytes());
    jsonwebtoken::encode(&jsonwebtoken::Header::default(), &claims, &key)
}

/// `jsonwebtoken::decode` with `serde_json::Value` as the target of the
/// claims, the secret's bytes as the key, and the default validation
/// (HS256) without the check of the expiry and without required claims.
/// Claims only that the outcome is the one named `jwt_payload`.
#[verifier::external_body]
pub(crate) fn jwt_decode(token: &str, secret: &str) -> (r: Result<
    serde_json::Value,
    jsonwebtoken::errors::Error,
>)
    ensures
        match r {
            Ok(v) => jwt_payload(token@, secret@) == Some(json_tree(v)),
            Err(_) => jwt_payload(token@, secret@) is None,
        },
{
    let mut validation = jsonwebtoken::Validation::default();
    validation.validate_exp = false;
    validation.required_spec_claims.clear();
    let key = jsonwebtoken::DecodingKey::from_secret(secret.as_bytes());
    jsonwebtoken::decode::<serde_json::Value>(token, &key, &validation).map(|data| data.claims)
}

/// The claims that a document holds.
pub fn claims_from(doc: &JsonValue) -> (r: Option<JwtClaims>)
    ensures
        match r {
            Some(c) => claims_of(*doc) == Some(c@),
            None => claims_of(*doc) is None,
        },
{
    let username = match doc.get("username") {
        Some(JsonValue::Str(s)) => s.clone(),
        _ => {
            return None;
        },
    };
    let h = match doc.get("h") {
        Some(JsonValue::Str(s)) => s.clone(),
        _ => {
            return None;
        },
    };
    let exp = match doc.get("exp") {
        None => None,
        Some(JsonValue::Null) => None,
        Some(JsonValue::Number(n)) => {
            let digits = chars_of(n.as_str());
            match parse_up_to(&digits, usize::MAX as u64) {
                Some(e) => Some(e as usize),
                None => {
                    return None;
                },
            }
        },
        Some(_) => {
            return None;
        },
    };
    Some(JwtClaims { username, h, exp })
}

/// Reads a token under the secret: its claims where the signature is good
/// and the claims are there, whether or not the token has expired.
pub fn read_jwt(token: &str, secret: &str) -> (r: Option<JwtClaims>)
    ensures
        match r {
            Some(c) => token_claims(token@, secret@) == Some(c@),
            None => token_claims(token@, secret@) is None,
        },
{
    match jwt_decode(token, secret) {
        Ok(v) => {
            let doc = tree_of(v);
            claims_from(&doc)
        },
        Err(_) => None,
    }
}

} // verus!
