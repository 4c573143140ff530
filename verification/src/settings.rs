//! The settings store: values kept as JSON text under a key and a type,
//! read through a cache that forgets after a minute.

use crate::codec::{json_document, parse_json};
use crate::json::JsonValue;
use crate::keyed::{as_map, distinct_keys, find_key, put_distinct, remove_key};
use crate::text::{owned, str_eq};
use vstd::prelude::*;

verus! {

/// A cached value is served for less than this many seconds.
pub const CACHE_TTL_SECS: u64 = 60;

/// A setting in the cache, with the time at which it was put there.
#[derive(Debug, PartialEq)]
pub struct CacheEntry {
    pub value: JsonValue,
    pub stored_at: u64,
}

/// The cache in front of the settings table.
#[derive(Debug, PartialEq)]
pub struct SettingsCache {
    entries: Vec<(String, CacheEntry)>,
}

/// The value that a stored text stands for: the JSON document it holds, or
/// the text itself as a string where it holds none.
pub open spec fn decoded(text: String) -> JsonValue {
    match json_document(text@) {
        Some(doc) => doc,
        None => JsonValue::Str(text),
    }
}

/// The value that a stored text stands for.
pub fn decode_setting(text: String) -> (r: JsonValue)
    ensures
        r == decoded(text),
{
    match parse_json(text.as_str()) {
        Some(doc) => doc,
        None => JsonValue::Str(text),
    }
}

/// The seconds that have gone by since `then`; none where the clock reads
/// less than it did.
pub open spec fn elapsed(now: u64, then: u64) -> int {
    if now >= then {
        now - then
    } else {
        0
    }
}

impl SettingsCache {
    /// The cached settings by key.
    pub closed spec fn view(&self) -> Map<Seq<char>, CacheEntry> {
        as_map(self.entries@)
    }

    /// No key is cached twice. Every cache that this module hands out is
    /// well formed.
    pub closed spec fn wf(&self) -> bool {
        distinct_keys(self.entries@)
    }

    /// What the cache serves for a key at a time: the value that is there
    /// and was stored less than a minute ago.
    pub open spec fn served(&self, key: Seq<char>, now: u64) -> Option<JsonValue> {
        if self@.dom().contains(key) && elapsed(now, self@[key].stored_at) < CACHE_TTL_SECS {
            Some(self@[key].value)
        } else {
            None
        }
    }

    /// An empty cache.
    pub fn new() -> (c: SettingsCache)
        ensures
            c.wf(),
            c@ == Map::<Seq<char>, CacheEntry>::empty(),
    {
        let c = SettingsCache { entries: Vec::new() };
        assert(c@ =~= Map::<Seq<char>, CacheEntry>::empty());
        c
    }

    /// The value that the cache serves for the key, if any. Without one
    /// the table is to be read.
    pub fn get(&self, key: &str, now: u64) -> (r: Option<&JsonValue>)
        ensures
            (match r {
                Some(v) => Some(*v),
                None => None,
            }) == self.served(key@, now),
    {
        match find_key(&self.entries, key) {
            Some(i) => {
                let entry = &self.entries[i].1;
                let age = if now >= entry.stored_at {
                    now - entry.stored_at
                } else {
                    0
                };
                if age < CACHE_TTL_SECS {
                    Some(&entry.value)
                } else {
                    None
                }
            },
            None => None,
        }
    }

    /// Puts what the table holds for a key into the cache: the decoded
    /// value where the row is there and has a value; else nothing changes.
    /// Tells whether there was a value.
    pub fn loaded(&mut self, key: &str, row: Option<Option<String>>, now: u64) -> (r: bool)
        requires
            old(self).wf(),
        ensures
            final(self).wf(),
            r == (row matches Some(Some(_))),
            match row {
                Some(Some(text)) => final(self)@ == old(self)@.insert(
                    key@,
                    CacheEntry { value: decoded(text), stored_at: now },
                ) && final(self).served(key@, now) == Some(decoded(text)),
                _ => final(self)@ == old(self)@,
            },
    {
        match row {
            Some(Some(text)) => {
                let value = decode_setting(text);
                put_distinct(&mut self.entries, owned(key), CacheEntry { value, stored_at: now });
                true
            },
            _ => false,
        }
    }

    /// Forgets a key, as every write to it does.
    pub fn invalidate(&mut self, key: &str)
        requires
            old(self).wf(),
        ensures
            final(self).wf(),
            final(self)@ == old(self)@.remove(key@),
            forall|now: u64| final(self).served(key@, now) is None,
    {
        let _ = remove_key(&mut self.entries, key);
    }

    /// Forgets everything.
    pub fn clear_cache(&mut self)
        ensures
            final(self).wf(),
            final(self)@ == Map::<Seq<char>, CacheEntry>::empty(),
    {
        self.entries = Vec::new();
        assert(self@ =~= Map::<Seq<char>, CacheEntry>::empty());
    }
}

/// What writing a setting does to the table.
#[derive(Clone, Copy, Debug, PartialEq, Eq, Structural)]
pub enum SettingWrite {
    /// A new row.
    Insert,
    /// New value and type for the row with this id.
    Update(i64),
    /// Nothing: the key belongs to another type.
    Skip,
}

/// How a single setting is written: over the row of its key, or as a new row.
pub fn set(existing: Option<i64>) -> (r: SettingWrite)
    ensures
        r == match existing {
            Some(id) => SettingWrite::Update(id),
            None => SettingWrite::Insert,
        },
{
    match existing {
        Some(id) => SettingWrite::Update(id),
        None => SettingWrite::Insert,
    }
}

/// How a setting of a type is written: as a new row where the key is
/// free, over its row where that has the same type or none, and not at all
/// where the key belongs to another type.
pub open spec fn write_of(existing: Option<(i64, Option<String>)>, setting_type: Seq<char>)
    -> SettingWrite {
    match existing {
        None => SettingWrite::Insert,
        Some((id, None)) => SettingWrite::Update(id),
        Some((id, Some(t))) => if t@ == setting_type {
            SettingWrite::Update(id)
        } else {
            SettingWrite::Skip
        },
    }
}

/// How one of several settings of a type is written.
pub fn set_settings(existing: &Option<(i64, Option<String>)>, setting_type: &str) -> (r:
    SettingWrite)
    ensures
        r == write_of(*existing, setting_type@),
{
    match existing {
        None => SettingWrite::Insert,
        Some((id, None)) => SettingWrite::Update(*id),
        Some((id, Some(t))) => if str_eq(t.as_str(), setting_type) {
            SettingWrite::Update(*id)
        } else {
            SettingWrite::Skip
        },
    }
}

/// The settings that rows of `(key, value)` give: every key with a value,
/// decoded; of two rows with one key the later counts.
pub open spec fn settings_of(rows: Seq<(String, Option<String>)>) -> Map<Seq<char>, JsonValue>
    decreases rows.len(),
{
    if rows.len() == 0 {
        Map::empty()
    } else {
        let m = settings_of(rows.drop_last());
        match rows.last().1 {
            Some(text) => m.insert(rows.last().0@, decoded(text)),
            None => m,
        }
    }
}

/// The settings of a type as an object, from the rows of the table.
pub fn get_settings(rows: Vec<(String, Option<String>)>) -> (r: Vec<(String, JsonValue)>)
    ensures
        distinct_keys(r@),
        as_map(r@) == settings_of(rows@),
{
    let ghost all = rows@;
    let mut turned = crate::lists::reversed(rows);
    let mut out: Vec<(String, JsonValue)> = Vec::new();
    let ghost mut done: int = 0;
    assert(all.take(0) =~= Seq::empty());
    assert(as_map(out@) =~= Map::<Seq<char>, JsonValue>::empty());
    while turned.len() > 0
        invariant
            0 <= done,
            done + turned@.len() == all.len(),
            forall|k: int| 0 <= k < turned@.len() ==> turned@[k] == all[all.len() - 1 - k],
            distinct_keys(out@),
            as_map(out@) == settings_of(all.take(done)),
        decreases turned.len(),
    {
        let e = turned.pop().unwrap();
        assert(e == all[done]);
        assert(all.take(done + 1).drop_last() == all.take(done));
        assert(all.take(done + 1).last() == all[done]);
        match e.1 {
            Some(text) => {
                let value = decode_setting(text);
                put_distinct(&mut out, e.0, value);
            },
            None => {},
        }
        proof {
            done = done + 1;
        }
    }
    assert(all.take(all.len() as int) == all);
    out
}

} // verus!
