//! Connections: who is logged in on which, and who is told to go when an
//! account changes.

use crate::text::owned;
use crate::user::User;
use vstd::prelude::*;

verus! {

/// The endpoint that a connection names in its handshake; empty for the
/// server itself.
#[derive(Debug, Clone, PartialEq)]
pub struct SocketEndpoint(pub String);

/// The name of the user that is logged in on a connection.
#[derive(Debug, Clone, PartialEq)]
pub struct SocketUsername(pub String);

/// The id of the user that is logged in on a connection.
#[derive(Clone, Copy, Debug, PartialEq, Eq, Structural)]
pub struct SocketUserId(pub i64);

/// A connection: `{ id, endpoint, userId?, username? }`. It begins without
/// user; a login puts one in, a logout takes it out.
#[derive(Debug, Clone, PartialEq)]
pub struct Session {
    pub id: String,
    pub endpoint: SocketEndpoint,
    pub user_id: Option<SocketUserId>,
    pub username: Option<SocketUsername>,
}

impl Session {
    /// The id of the user of the session.
    pub open spec fn user(&self) -> Option<i64> {
        match self.user_id {
            Some(id) => Some(id.0),
            None => None,
        }
    }

    /// A connection that has just been opened: no user; the endpoint is
    /// the one of the handshake, empty where the handshake names none.
    pub fn new(id: &str, endpoint_header: Option<&str>) -> (s: Session)
        ensures
            s.id@ == id@,
            s.endpoint.0@ == match endpoint_header {
                Some(e) => e@,
                None => Seq::<char>::empty(),
            },
            s.user() is None,
            s.username is None,
    {
        let endpoint = match endpoint_header {
            Some(e) => owned(e),
            None => String::new(),
        };
        Session { id: owned(id), endpoint: SocketEndpoint(endpoint), user_id: None, username: None }
    }

    /// Puts a user into the session.
    pub fn login(&mut self, user: &User)
        ensures
            final(self).user() == Some(user.id),
            final(self).username matches Some(n) && n.0@ == user.username@,
            final(self).id == old(self).id,
            final(self).endpoint == old(self).endpoint,
    {
        self.user_id = Some(SocketUserId(user.id));
        self.username = Some(SocketUsername(user.username.clone()));
    }

    /// Takes the user out of the session.
    pub fn logout(&mut self)
        ensures
            final(self).user() is None,
            final(self).username is None,
            final(self).id == old(self).id,
            final(self).endpoint == old(self).endpoint,
    {
        self.user_id = None;
        self.username = None;
    }

    /// Commands of a session with an empty endpoint are for this server.
    pub fn is_local(&self) -> (r: bool)
        ensures
            r == (self.endpoint.0@.len() == 0),
    {
        self.endpoint.0.as_str().is_empty()
    }
}

/// The id of the user that is logged in on the session, if any.
pub fn check_login(session: &Session) -> (r: Option<i64>)
    ensures
        r == session.user(),
{
    match session.user_id {
        Some(id) => Some(id.0),
        None => None,
    }
}

/// A session is told to refresh and is disconnected when it is not the
/// one that asks and belongs to the user in question, or to any user where
/// none is given.
pub open spec fn is_other_client(session: Session, current_id: Seq<char>, user_id: Option<i64>)
    -> bool {
    session.id@ != current_id && (user_id is None || session.user() == user_id)
}

/// The indices of the sessions that are to be told to refresh and then
/// disconnected, in their order.
pub fn disconnect_other_clients(
    sessions: &Vec<Session>,
    current_socket_id: &str,
    user_id: Option<i64>,
) -> (r: Vec<usize>)
    ensures
        forall|k: int| 0 <= k < r@.len() ==> 0 <= #[trigger] r@[k] < sessions@.len(),
        forall|k: int, l: int| 0 <= k < l < r@.len() ==> r@[k] < r@[l],
        forall|i: int|
            0 <= i < sessions@.len() ==> (r@.contains(i as usize) <==> is_other_client(
                #[trigger] sessions@[i],
                current_socket_id@,
                user_id,
            )),
{
    let mut out: Vec<usize> = Vec::new();
    let mut i: usize = 0;
    while i < sessions.len()
        invariant
            i <= sessions.len(),
            forall|k: int| 0 <= k < out@.len() ==> 0 <= #[trigger] out@[k] < i,
            forall|k: int, l: int| 0 <= k < l < out@.len() ==> out@[k] < out@[l],
            forall|j: int|
                0 <= j < i ==> (out@.contains(j as usize) <==> is_other_client(
                    #[trigger] sessions@[j],
                    current_socket_id@,
                    user_id,
                )),
        decreases sessions.len() - i,
    {
        let s = &sessions[i];
        let same_id = crate::text::str_eq(s.id.as_str(), current_socket_id);
        let other_user = check_login(s);
        let wanted = !same_id && (match user_id {
            None => true,
            Some(u) => match other_user {
                Some(o) => o == u,
                None => false,
            },
        });
        let ghost before = out@;
        if wanted {
            out.push(i);
            proof {
                assert(out@[before.len() as int] == i);
                assert forall|j: int| 0 <= j < i + 1 implies (out@.contains(j as usize)
                    <==> is_other_client(
                    #[trigger] sessions@[j],
                    current_socket_id@,
                    user_id,
                )) by {
                    if j < i {
                        if before.contains(j as usize) {
                            let k = choose|k: int| 0 <= k < before.len() && before[k] == j as usize;
                            assert(out@[k] == j as usize);
                        }
                        if out@.contains(j as usize) {
                            let k = choose|k: int| 0 <= k < out@.len() && out@[k] == j as usize;
                            assert(before[k] == j as usize);
                        }
                    }
                }
            }
        } else {
            proof {
                assert(!out@.contains(i)) by {
                    if out@.contains(i) {
                        let k = choose|k: int| 0 <= k < out@.len() && out@[k] == i;
                        assert(out@[k] < i);
                    }
                }
            }
        }
        i = i + 1;
    }
    out
}

} // verus!
