//! The records that are broadcast to clients and the in-memory caches that
//! mirror disk, engine and registry.

use crate::error::AppError;
use crate::keyed::{
    as_map, distinct_keys, get, lemma_key_index_from, lemma_same_keys, put_distinct, value_of,
};
use crate::stack::Stack;
use crate::stack_list::stack_map;
use crate::text::owned;
use vstd::prelude::*;

verus! {

/// What the stack list tells of one stack.
#[derive(Debug, Clone, PartialEq)]
pub struct SimpleStackInfo {
    pub name: String,
    pub status: i32,
    pub started: bool,
    pub recreate_necessary: bool,
    pub image_updates_available: bool,
    pub tags: Vec<String>,
    pub is_managed_by_dockge: bool,
    pub compose_file_name: String,
    pub compose_override_file_name: String,
    pub endpoint: String,
}

/// What the stack list tells of one stack, as plain values.
pub struct SimpleStackInfoView {
    pub name: Seq<char>,
    pub status: int,
    pub started: bool,
    pub recreate_necessary: bool,
    pub image_updates_available: bool,
    pub tags: Seq<Seq<char>>,
    pub is_managed_by_dockge: bool,
    pub compose_file_name: Seq<char>,
    pub compose_override_file_name: Seq<char>,
    pub endpoint: Seq<char>,
}

impl View for SimpleStackInfo {
    type V = SimpleStackInfoView;

    open spec fn view(&self) -> SimpleStackInfoView {
        SimpleStackInfoView {
            name: self.name@,
            status: self.status as int,
            started: self.started,
            recreate_necessary: self.recreate_necessary,
            image_updates_available: self.image_updates_available,
            tags: crate::pieces::str_views(self.tags@),
            is_managed_by_dockge: self.is_managed_by_dockge,
            compose_file_name: self.compose_file_name@,
            compose_override_file_name: self.compose_override_file_name@,
            endpoint: self.endpoint@,
        }
    }
}

/// What is known of the image updates of one stack: whether any service
/// has one, and which.
#[derive(Debug, Clone, PartialEq)]
pub struct StackUpdateInfo {
    pub has_updates: bool,
    pub services: Vec<(String, bool)>,
}


/// The stack list is refreshed and broadcast every so many seconds.
pub const STACK_LIST_REFRESH_SECS: u64 = 10;

/// The length of the random text that a new token secret is made from.
pub const JWT_SECRET_SEED_LEN: usize = 64;

/// The token secret that a stored setting holds: the string in it where
/// the setting is JSON text of a string, else the setting as it stands.
pub open spec fn stored_secret(text: String) -> Seq<char> {
    match crate::codec::json_document(text@) {
        Some(crate::json::JsonValue::Str(s)) => s@,
        _ => text@,
    }
}

/// The token secret that a stored setting holds.
pub fn jwt_secret_of(text: String) -> (r: String)
    ensures
        r@ == stored_secret(text),
{
    match crate::codec::parse_json(text.as_str()) {
        Some(crate::json::JsonValue::Str(s)) => s,
        _ => text,
    }
}

/// A new token secret: the bcrypt hash of a random text of letters and
/// digits.
pub fn new_jwt_secret() -> (r: Result<String, AppError>)
    ensures
        match r {
            Ok(secret) => exists|seed: Seq<char>|
                seed.len() == JWT_SECRET_SEED_LEN && #[trigger] crate::user::password_verifies(
                    seed,
                    secret@,
                ),
            Err(e) => e is Internal,
        },
{
    let seed = crate::user::gen_secret(JWT_SECRET_SEED_LEN);
    crate::user::generate_password_hash(seed.as_str())
}

/// The version that the server reports.
pub open spec fn server_version() -> Seq<char> {
    "1.5.0"@
}

/// The state that all sessions share: the three caches, which mirror disk,
/// engine and registry and are built anew on every refresh; the secret that
/// tokens are signed with; and what the server tells about itself.
#[derive(Debug, PartialEq)]
pub struct AppState {
    pub stack_cache: Vec<(String, SimpleStackInfo)>,
    pub update_cache: Vec<(String, StackUpdateInfo)>,
    pub recreate_cache: Vec<(String, bool)>,
    pub jwt_secret: String,
    pub need_setup: bool,
    pub version: String,
    pub latest_version: Option<String>,
}

/// The records of a stack list by name.
pub open spec fn info_map(list: Seq<(String, SimpleStackInfo)>) -> Map<
    Seq<char>,
    SimpleStackInfoView,
> {
    Map::new(
        |name: Seq<char>| as_map(list).dom().contains(name),
        |name: Seq<char>| as_map(list)[name]@,
    )
}

/// Whether the recreate cache says that a stack's containers run another
/// image than its compose document names.
pub open spec fn recreate_flag(cache: Seq<(String, bool)>, name: Seq<char>) -> bool {
    match value_of(cache, name) {
        Some(flag) => flag,
        None => false,
    }
}

/// Whether the update cache knows of an update for one of the stack's images.
pub open spec fn updates_flag(cache: Seq<(String, StackUpdateInfo)>, name: Seq<char>) -> bool {
    match value_of(cache, name) {
        Some(info) => info.has_updates,
        None => false,
    }
}

/// The stack list as it is computed from the stacks and the two other
/// caches: one record for every stack, for the local endpoint.
pub open spec fn computed_list(
    stacks: Seq<(String, Stack)>,
    updates: Seq<(String, StackUpdateInfo)>,
    recreate: Seq<(String, bool)>,
) -> Map<Seq<char>, SimpleStackInfoView> {
    Map::new(
        |name: Seq<char>| stack_map(stacks).dom().contains(name),
        |name: Seq<char>|
            stack_map(stacks)[name].simple(
                Seq::empty(),
                recreate_flag(recreate, name),
                updates_flag(updates, name),
            ),
    )
}

impl AppState {
    /// No name occurs twice in a cache.
    pub open spec fn wf(&self) -> bool {
        &&& distinct_keys(self.stack_cache@)
        &&& distinct_keys(self.update_cache@)
        &&& distinct_keys(self.recreate_cache@)
    }

    /// The state of a server that has just started: empty caches, no
    /// secret yet, no setup needed as far as is known.
    pub fn new() -> (s: AppState)
        ensures
            s.wf(),
            s.stack_cache@.len() == 0,
            s.update_cache@.len() == 0,
            s.recreate_cache@.len() == 0,
            s.jwt_secret@.len() == 0,
            !s.need_setup,
            s.version@ == server_version(),
            s.latest_version is None,
    {
        AppState {
            stack_cache: Vec::new(),
            update_cache: Vec::new(),
            recreate_cache: Vec::new(),
            jwt_secret: String::new(),
            need_setup: false,
            version: owned("1.5.0"),
            latest_version: None,
        }
    }

    /// Whether a stack needs its containers made anew, as far as is known.
    pub fn recreate_necessary(&self, name: &str) -> (r: bool)
        ensures
            r == recreate_flag(self.recreate_cache@, name@),
    {
        match get(&self.recreate_cache, name) {
            Some(flag) => *flag,
            None => false,
        }
    }

    /// Whether an update is known for one of a stack's images.
    pub fn image_updates_available(&self, name: &str) -> (r: bool)
        ensures
            r == updates_flag(self.update_cache@, name@),
    {
        match get(&self.update_cache, name) {
            Some(info) => info.has_updates,
            None => false,
        }
    }

    /// Puts a newly built update cache in place of the old one.
    pub fn replace_update_cache(&mut self, cache: Vec<(String, StackUpdateInfo)>)
        requires
            old(self).wf(),
            distinct_keys(cache@),
        ensures
            final(self).wf(),
            final(self).update_cache == cache,
            final(self).stack_cache == old(self).stack_cache,
            final(self).recreate_cache == old(self).recreate_cache,
            final(self).jwt_secret == old(self).jwt_secret,
            final(self).need_setup == old(self).need_setup,
            final(self).version == old(self).version,
            final(self).latest_version == old(self).latest_version,
    {
        self.update_cache = cache;
    }

    /// Records whether a stack needs its containers made anew.
    pub fn set_recreate(&mut self, name: &str, flag: bool)
        requires
            old(self).wf(),
        ensures
            final(self).wf(),
            as_map(final(self).recreate_cache@) == as_map(old(self).recreate_cache@).insert(
                name@,
                flag,
            ),
            final(self).stack_cache == old(self).stack_cache,
            final(self).update_cache == old(self).update_cache,
            final(self).jwt_secret == old(self).jwt_secret,
            final(self).need_setup == old(self).need_setup,
            final(self).version == old(self).version,
            final(self).latest_version == old(self).latest_version,
    {
        put_distinct(&mut self.recreate_cache, owned(name), flag);
    }
}

/// Builds the stack cache anew from a freshly computed list of stacks.
/// After it the cache equals the computed list. Where the list could not
/// be computed the cache stays as it is.
pub fn refresh_stack_cache(state: &mut AppState, stacks: Result<&Vec<(String, Stack)>, &AppError>)
    requires
        old(state).wf(),
        stacks matches Ok(list) ==> distinct_keys(list@),
    ensures
        final(state).wf(),
        match stacks {
            Ok(list) => info_map(final(state).stack_cache@) == computed_list(
                list@,
                old(state).update_cache@,
                old(state).recreate_cache@,
            ),
            Err(_) => final(state).stack_cache == old(state).stack_cache,
        },
        final(state).update_cache == old(state).update_cache,
        final(state).recreate_cache == old(state).recreate_cache,
        final(state).jwt_secret == old(state).jwt_secret,
        final(state).need_setup == old(state).need_setup,
        final(state).version == old(state).version,
        final(state).latest_version == old(state).latest_version,
{
    match stacks {
        Ok(list) => {
            let mut cache: Vec<(String, SimpleStackInfo)> = Vec::new();
            let mut i: usize = 0;
            while i < list.len()
                invariant
                    i <= list.len(),
                    cache@.len() == i,
                    forall|k: int| 0 <= k < i ==> (#[trigger] cache@[k]).0@ == list@[k].0@,
                    forall|k: int|
                        0 <= k < i ==> (#[trigger] cache@[k]).1@ == list@[k].1@.simple(
                            Seq::empty(),
                            recreate_flag(state.recreate_cache@, list@[k].0@),
                            updates_flag(state.update_cache@, list@[k].0@),
                        ),
                    *state == *old(state),
                decreases list.len() - i,
            {
                let name = list[i].0.as_str();
                let info = list[i].1.to_simple_json(
                    "",
                    state.recreate_necessary(name),
                    state.image_updates_available(name),
                );
                proof {
                    reveal_strlit("");
                    assert(""@ =~= Seq::<char>::empty());
                }
                cache.push((list[i].0.clone(), info));
                i = i + 1;
            }
            proof {
                let want = computed_list(list@, state.update_cache@, state.recreate_cache@);
                assert forall|a: int, b: int| 0 <= a < b < cache@.len() implies cache@[a].0@
                    != cache@[b].0@ by {
                    assert(cache@[a].0@ == list@[a].0@ && cache@[b].0@ == list@[b].0@);
                }
                assert forall|n: Seq<char>| #[trigger]
                    info_map(cache@).dom().contains(n) == want.dom().contains(n) && (info_map(
                        cache@,
                    ).dom().contains(n) ==> info_map(cache@)[n] == want[n]) by {
                    lemma_same_keys(cache@, list@, n, 0);
                    lemma_key_index_from(list@, n, 0);
                    lemma_key_index_from(cache@, n, 0);
                }
                assert(info_map(cache@) =~= want);
            }
            state.stack_cache = cache;
        },
        Err(_) => {},
    }
}

/// Refreshes the stack cache and hands out the list to send to every
/// session.
pub fn broadcast_stack_list<'a>(
    state: &'a mut AppState,
    stacks: Result<&Vec<(String, Stack)>, &AppError>,
) -> (r: &'a Vec<(String, SimpleStackInfo)>)
    requires
        old(state).wf(),
        stacks matches Ok(list) ==> distinct_keys(list@),
    ensures
        final(state).wf(),
        *r == final(state).stack_cache,
        match stacks {
            Ok(list) => info_map(r@) == computed_list(
                list@,
                old(state).update_cache@,
                old(state).recreate_cache@,
            ),
            Err(_) => *r == old(state).stack_cache,
        },
        final(state).update_cache == old(state).update_cache,
        final(state).recreate_cache == old(state).recreate_cache,
{
    refresh_stack_cache(state, stacks);
    &state.stack_cache
}

} // verus!
