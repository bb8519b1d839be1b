//! Presence registry: the number of gateway connections of each user and the status
//! they chose. The status others see is `offline` while the user has no connection or
//! chose `invisible`.

use vstd::prelude::*;
use std::collections::HashMap;
use crate::error::{AppError, is_bad_request};
use crate::text::{char_count, str_eq, trim, trim_spec};

verus! {

broadcast use vstd::std_specs::hash::group_hash_axioms;

/// What the registry holds for one user.
pub struct PresenceEntry {
    pub connections: u32,
    /// Chosen status: `online`, `idle`, `dnd` or `invisible`.
    pub status: String,
    pub custom_status: Option<String>,
}

/// View of an optional string.
pub open spec fn opt_view(s: Option<String>) -> Option<Seq<char>> {
    match s {
        Some(t) => Some(t@),
        None => None,
    }
}

/// Whether `s` is one of the statuses a user may choose.
pub open spec fn valid_status_spec(s: Seq<char>) -> bool {
    s == "online"@ || s == "idle"@ || s == "dnd"@ || s == "invisible"@
}

/// Connections of `uid` in `m` (`0` without entry).
pub open spec fn connections_of(m: Map<i64, PresenceEntry>, uid: i64) -> int {
    if m.contains_key(uid) {
        m[uid].connections as int
    } else {
        0
    }
}

/// The status others see of `uid`, with its custom status.
pub open spec fn effective_spec(m: Map<i64, PresenceEntry>, uid: i64) -> (
    Seq<char>,
    Option<Seq<char>>,
) {
    if m.contains_key(uid) && m[uid].connections > 0 && m[uid].status@ != "invisible"@ {
        (m[uid].status@, opt_view(m[uid].custom_status))
    } else {
        ("offline"@, None)
    }
}

/// Registry after one more connection of `uid`: a new entry starts `online` with no
/// connection before the increment.
pub open spec fn after_connect(m: Map<i64, PresenceEntry>, uid: i64, e: PresenceEntry) -> bool {
    if m.contains_key(uid) {
        &&& e.connections == m[uid].connections + 1
        &&& e.status@ == m[uid].status@
        &&& opt_view(e.custom_status) == opt_view(m[uid].custom_status)
    } else {
        &&& e.connections == 1
        &&& e.status@ == "online"@
        &&& e.custom_status is None
    }
}

pub struct Registry {
    inner: HashMap<i64, PresenceEntry>,
}

impl Registry {
    /// Entries of the registry, by user id.
    pub closed spec fn entries(&self) -> Map<i64, PresenceEntry> {
        self.inner@
    }

    pub fn new() -> (r: Registry)
        ensures
            r.entries() == Map::<i64, PresenceEntry>::empty(),
    {
        Registry { inner: HashMap::new() }
    }

    /// Whether `s` is a status a user may choose.
    pub fn valid_status(s: &str) -> (r: bool)
        ensures
            r == valid_status_spec(s@),
    {
        str_eq(s, "online") || str_eq(s, "idle") || str_eq(s, "dnd") || str_eq(s, "invisible")
    }

    /// Counts one more connection of `uid`; answers whether the user just came online
    /// (this is their only connection).
    pub fn connect(&mut self, uid: i64) -> (came_online: bool)
        requires
            connections_of(old(self).entries(), uid) < u32::MAX,
        ensures
            final(self).entries().dom() == old(self).entries().dom().insert(uid),
            forall|k: i64| k != uid && old(self).entries().contains_key(k) ==> final(self).entries()[k]
                == old(self).entries()[k],
            after_connect(old(self).entries(), uid, final(self).entries()[uid]),
            came_online == (connections_of(old(self).entries(), uid) == 0),
    {
        let e = match self.inner.remove(&uid) {
            Some(mut e) => {
                e.connections = e.connections + 1;
                e
            },
            None => PresenceEntry {
                connections: 1,
                status: "online".to_owned(),
                custom_status: None,
            },
        };
        let n = e.connections;
        self.inner.insert(uid, e);
        assert(self.inner@.dom() =~= old(self).inner@.dom().insert(uid));
        n == 1
    }

    /// Counts one connection of `uid` less; answers whether the user just went offline.
    /// The entry is dropped when no connection is left.
    pub fn disconnect(&mut self, uid: i64) -> (went_offline: bool)
        ensures
            went_offline == (old(self).entries().contains_key(uid) && old(
                self,
            ).entries()[uid].connections <= 1),
            went_offline ==> final(self).entries() == old(self).entries().remove(uid),
            !old(self).entries().contains_key(uid) ==> final(self).entries() == old(
                self,
            ).entries(),
            old(self).entries().contains_key(uid) && !went_offline ==> {
                &&& final(self).entries().dom() == old(self).entries().dom()
                &&& forall|k: i64|
                    k != uid && old(self).entries().contains_key(k) ==> final(self).entries()[k]
                        == old(self).entries()[k]
                &&& final(self).entries()[uid].connections == old(self).entries()[uid].connections
                    - 1
                &&& final(self).entries()[uid].status@ == old(self).entries()[uid].status@
                &&& opt_view(final(self).entries()[uid].custom_status) == opt_view(
                    old(self).entries()[uid].custom_status,
                )
            },
    {
        match self.inner.remove(&uid) {
            Some(mut e) => {
                if e.connections <= 1 {
                    true
                } else {
                    e.connections = e.connections - 1;
                    self.inner.insert(uid, e);
                    assert(self.inner@.dom() =~= old(self).inner@.dom());
                    false
                }
            },
            None => false,
        }
    }

    /// Sets the chosen status of `uid` (creating the entry, with no connection, if needed);
    /// the connection count is unchanged.
    pub fn set_status(&mut self, uid: i64, status: &str, custom_status: Option<String>)
        ensures
            final(self).entries().dom() == old(self).entries().dom().insert(uid),
            forall|k: i64| k != uid && old(self).entries().contains_key(k) ==> final(self).entries()[k]
                == old(self).entries()[k],
            final(self).entries()[uid].connections == connections_of(old(self).entries(), uid),
            final(self).entries()[uid].status@ == status@,
            opt_view(final(self).entries()[uid].custom_status) == opt_view(custom_status),
    {
        let connections = match self.inner.remove(&uid) {
            Some(e) => e.connections,
            None => 0,
        };
        self.inner.insert(
            uid,
            PresenceEntry { connections, status: status.to_owned(), custom_status },
        );
        assert(self.inner@.dom() =~= old(self).inner@.dom().insert(uid));
    }

    /// The number of live connections of `uid` (`0` without entry).
    pub fn connection_count(&self, uid: i64) -> (r: u32)
        ensures
            r == connections_of(self.entries(), uid),
    {
        match self.inner.get(&uid) {
            Some(e) => e.connections,
            None => 0,
        }
    }

    /// The custom status `uid` chose, whether or not others see it.
    pub fn current_custom(&self, uid: i64) -> (r: Option<String>)
        ensures
            opt_view(r) == (if self.entries().contains_key(uid) {
                opt_view(self.entries()[uid].custom_status)
            } else {
                None
            }),
    {
        match self.inner.get(&uid) {
            Some(e) => match &e.custom_status {
                Some(c) => Some(c.clone()),
                None => None,
            },
            None => None,
        }
    }

    /// The status others see of `uid`: `offline` while disconnected or invisible.
    pub fn effective(&self, uid: i64) -> (r: (String, Option<String>))
        ensures
            (r.0@, opt_view(r.1)) == effective_spec(self.entries(), uid),
    {
        match self.inner.get(&uid) {
            Some(e) => {
                if e.connections > 0 && !str_eq(e.status.as_str(), "invisible") {
                    let custom = match &e.custom_status {
                        Some(c) => Some(c.clone()),
                        None => None,
                    };
                    (e.status.clone(), custom)
                } else {
                    ("offline".to_owned(), None)
                }
            },
            None => ("offline".to_owned(), None),
        }
    }
}

/// Longest custom status, in characters.
pub const MAX_CUSTOM_STATUS: usize = 128;

/// The custom status after a status change: not sent keeps the current one, an explicit
/// `null` clears it, a text is trimmed (blank clears it) and holds at most 128 characters.
pub fn custom_status_after(current: Option<String>, sent: Option<Option<String>>) -> (r: Result<Option<String>, AppError>)
    ensures
        match sent {
            None => r matches Ok(c) && opt_view(c) == opt_view(current),
            Some(None) => r matches Ok(c) && c is None,
            Some(Some(s)) => if trim_spec(s@).len() == 0 {
                r matches Ok(c) && c is None
            } else if trim_spec(s@).len() > 128 {
                r matches Err(e) && is_bad_request(e, "statut personnalisé trop long (max 128)"@)
            } else {
                r matches Ok(c) && opt_view(c) == Some(trim_spec(s@))
            },
        },
{
    match sent {
        None => Ok(current),
        Some(None) => Ok(None),
        Some(Some(s)) => {
            let t = trim(s.as_str());
            let n = char_count(t.as_str());
            if n == 0 {
                Ok(None)
            } else if n > MAX_CUSTOM_STATUS {
                Err(AppError::bad_request("statut personnalisé trop long (max 128)"))
            } else {
                Ok(Some(t))
            }
        },
    }
}

/// Connections are counted: a disconnect undoes a connect. From a user with at least one
/// connection, connecting then disconnecting leaves the same count, status and custom
/// status; from a user without entry, it leaves no entry.
pub proof fn law_connect_disconnect_roundtrip(
    m: Map<i64, PresenceEntry>,
    uid: i64,
    after: PresenceEntry,
)
    requires
        after_connect(m, uid, after),
    ensures
        !m.contains_key(uid) ==> after.connections <= 1,
        m.contains_key(uid) && m[uid].connections >= 1 ==> {
            &&& after.connections > 1
            &&& after.connections - 1 == m[uid].connections
            &&& after.status@ == m[uid].status@
            &&& opt_view(after.custom_status) == opt_view(m[uid].custom_status)
        },
{
}

/// A user who chose `invisible`, or who has no connection, is seen `offline` with no
/// custom status.
pub proof fn law_invisible_or_disconnected_is_offline(m: Map<i64, PresenceEntry>, uid: i64)
    requires
        !m.contains_key(uid) || m[uid].connections == 0 || m[uid].status@ == "invisible"@,
    ensures
        effective_spec(m, uid) == ("offline"@, None::<Seq<char>>),
{
}

} // verus!
