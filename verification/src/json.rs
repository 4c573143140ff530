//! A JSON document as a tree of plain values, with the accessors that the
//! event handlers and the compose-file logic read it through.

use crate::decimal::{number_up_to, parse_up_to};
use crate::keyed::{find_key, value_of};
use crate::text::chars_of;
use vstd::prelude::*;

verus! {

/// A JSON value. A number is kept in its canonical text: digits only for a
/// non-negative integer, a minus sign and digits for a negative one, and a
/// notation with a point or an exponent for any other number. An object
/// keeps its members in document order; no key occurs twice in an object
/// that was read from text.
#[derive(Debug, PartialEq)]
pub enum JsonValue {
    Null,
    Bool(bool),
    Number(String),
    Str(String),
    Array(Vec<JsonValue>),
    Object(Vec<(String, JsonValue)>),
}

impl JsonValue {
    /// The text of a string value.
    pub open spec fn text(&self) -> Option<Seq<char>> {
        match self {
            JsonValue::Str(s) => Some(s@),
            _ => None,
        }
    }

    /// The truth value of a boolean value.
    pub open spec fn truth(&self) -> Option<bool> {
        match self {
            JsonValue::Bool(b) => Some(*b),
            _ => None,
        }
    }

    /// The number of a value that is a non-negative integer below 2^64.
    pub open spec fn natural(&self) -> Option<nat> {
        match self {
            JsonValue::Number(n) => number_up_to(n@, u64::MAX as nat),
            _ => None,
        }
    }

    /// The member of an object named `key`.
    pub open spec fn member(&self, key: Seq<char>) -> Option<JsonValue> {
        match self {
            JsonValue::Object(members) => value_of(members@, key),
            _ => None,
        }
    }

    /// The element of an array at index `i`.
    pub open spec fn element(&self, i: int) -> Option<JsonValue> {
        match self {
            JsonValue::Array(items) => if 0 <= i < items@.len() {
                Some(items@[i])
            } else {
                None
            },
            _ => None,
        }
    }

    /// The text of a string value, or of no value at all: the empty text.
    pub open spec fn text_or_empty(v: Option<JsonValue>) -> Seq<char> {
        match v {
            Some(JsonValue::Str(s)) => s@,
            _ => Seq::empty(),
        }
    }

    pub fn is_array(&self) -> (r: bool)
        ensures
            r == (*self is Array),
    {
        match self {
            JsonValue::Array(_) => true,
            _ => false,
        }
    }

    pub fn is_null(&self) -> (r: bool)
        ensures
            r == (*self is Null),
    {
        match self {
            JsonValue::Null => true,
            _ => false,
        }
    }

    pub fn as_str(&self) -> (r: Option<&String>)
        ensures
            match r {
                Some(s) => *self == JsonValue::Str(*s),
                None => !(*self is Str),
            },
            (match r {
                Some(s) => Some(s@),
                None => None,
            }) == self.text(),
    {
        match self {
            JsonValue::Str(s) => Some(s),
            _ => None,
        }
    }

    pub fn as_bool(&self) -> (r: Option<bool>)
        ensures
            r == self.truth(),
    {
        match self {
            JsonValue::Bool(b) => Some(*b),
            _ => None,
        }
    }

    pub fn as_u64(&self) -> (r: Option<u64>)
        ensures
            match self.natural() {
                Some(n) => r == Some(n as u64),
                None => r is None,
            },
    {
        match self {
            JsonValue::Number(n) => {
                let digits = chars_of(n.as_str());
                parse_up_to(&digits, u64::MAX)
            },
            _ => None,
        }
    }

    pub fn as_array(&self) -> (r: Option<&Vec<JsonValue>>)
        ensures
            match r {
                Some(items) => *self == JsonValue::Array(*items),
                None => !(*self is Array),
            },
    {
        match self {
            JsonValue::Array(items) => Some(items),
            _ => None,
        }
    }

    pub fn as_object(&self) -> (r: Option<&Vec<(String, JsonValue)>>)
        ensures
            match r {
                Some(members) => *self == JsonValue::Object(*members),
                None => !(*self is Object),
            },
    {
        match self {
            JsonValue::Object(members) => Some(members),
            _ => None,
        }
    }

    /// The member of an object named `key`; `None` for any other value.
    pub fn get(&self, key: &str) -> (r: Option<&JsonValue>)
        ensures
            (match r {
                Some(v) => Some(*v),
                None => None,
            }) == self.member(key@),
    {
        match self {
            JsonValue::Object(members) => match find_key(members, key) {
                Some(i) => Some(&members[i].1),
                None => None,
            },
            _ => None,
        }
    }

    /// The element of an array at index `i`; `None` for any other value.
    pub fn at(&self, i: usize) -> (r: Option<&JsonValue>)
        ensures
            (match r {
                Some(v) => Some(*v),
                None => None,
            }) == self.element(i as int),
    {
        match self {
            JsonValue::Array(items) => if i < items.len() {
                Some(&items[i])
            } else {
                None
            },
            _ => None,
        }
    }
}

/// The text of a string value, or the empty text for anything else.
pub fn text_or_empty(v: Option<&JsonValue>) -> (r: String)
    ensures
        r@ == JsonValue::text_or_empty(
            match v {
                Some(x) => Some(*x),
                None => None,
            },
        ),
{
    match v {
        Some(JsonValue::Str(s)) => s.clone(),
        _ => String::new(),
    }
}

/// The first argument of an event as text: the first element where the
/// arguments come as an array, the value itself where they come bare; the
/// empty text where that is no string.
pub open spec fn first_text(data: JsonValue) -> Seq<char> {
    match data {
        JsonValue::Array(items) => JsonValue::text_or_empty(data.element(0)),
        _ => JsonValue::text_or_empty(Some(data)),
    }
}

/// The argument at index `i` as text, empty where it is missing or no string.
pub open spec fn arg_text(args: Seq<JsonValue>, i: int) -> Seq<char> {
    if 0 <= i < args.len() {
        JsonValue::text_or_empty(Some(args[i]))
    } else {
        Seq::empty()
    }
}

/// The argument at index `i` as a truth value, false where it is missing or
/// no boolean.
pub open spec fn arg_flag(args: Seq<JsonValue>, i: int) -> bool {
    0 <= i < args.len() && args[i] == JsonValue::Bool(true)
}

/// The first argument as an object to read members from: the first element
/// of an array that has one, else the value itself.
pub open spec fn first_value(data: JsonValue) -> JsonValue {
    match data.element(0) {
        Some(v) => v,
        None => data,
    }
}

/// The first argument of an event as text.
pub fn first_text_arg(data: &JsonValue) -> (r: String)
    ensures
        r@ == first_text(*data),
{
    match data {
        JsonValue::Array(_) => text_or_empty(data.at(0)),
        _ => text_or_empty(Some(data)),
    }
}

/// The argument at index `i` as text.
pub fn text_arg(args: &Vec<JsonValue>, i: usize) -> (r: String)
    ensures
        r@ == arg_text(args@, i as int),
{
    if i < args.len() {
        text_or_empty(Some(&args[i]))
    } else {
        String::new()
    }
}

/// The argument at index `i` as a truth value.
pub fn flag_arg(args: &Vec<JsonValue>, i: usize) -> (r: bool)
    ensures
        r == arg_flag(args@, i as int),
{
    if i < args.len() {
        match &args[i] {
            JsonValue::Bool(b) => *b,
            _ => false,
        }
    } else {
        false
    }
}

/// The first argument as an object to read members from.
pub fn first_value_arg(data: &JsonValue) -> (r: &JsonValue)
    ensures
        *r == first_value(*data),
{
    match data.at(0) {
        Some(v) => v,
        None => data,
    }
}

/// The text of a member, empty where the member is missing or no string.
pub open spec fn member_text_or_empty(v: JsonValue, key: Seq<char>) -> Seq<char> {
    JsonValue::text_or_empty(v.member(key))
}

/// The text of a member, empty where the member is missing or no string.
pub fn member_text(v: &JsonValue, key: &str) -> (r: String)
    ensures
        r@ == member_text_or_empty(*v, key@),
{
    text_or_empty(v.get(key))
}

/// A string value with the given text.
pub fn json_str(text: &str) -> (r: JsonValue)
    ensures
        r.text() == Some(text@),
{
    JsonValue::Str(text.to_string())
}

} // verus!
