//! Per-connection session records.
//!
//! A session is created when a client's `initialize` succeeds and lives
//! until the connection closes or the record is reclaimed for idleness.
//! Time enters as milliseconds supplied by the caller, so every operation
//! here is a function of its arguments.

use vstd::prelude::*;

use crate::capabilities::ClientCapabilities;
use crate::rpc::RequestId;
use crate::types::Implementation;

verus! {

/// One session: who connected, what they can do, and when they were
/// last heard from.
#[derive(Debug, Clone)]
pub struct Session {
    pub id: RequestId,
    pub client_info: Implementation,
    pub capabilities: ClientCapabilities,
    pub created_at: u64,
    pub last_activity: u64,
}

impl Session {
    /// A session created now.
    pub fn new(id: RequestId, client_info: Implementation, capabilities: ClientCapabilities, now_ms: u64) -> (r: Session)
        ensures
            r.id@ == id@,
            r.client_info == client_info,
            r.capabilities == capabilities,
            r.created_at == now_ms,
            r.last_activity == now_ms,
    {
        Session { id, client_info, capabilities, created_at: now_ms, last_activity: now_ms }
    }

    /// Records activity now.
    pub fn update_activity(&mut self, now_ms: u64)
        ensures
            final(self).last_activity == now_ms,
            final(self).id == old(self).id,
            final(self).created_at == old(self).created_at,
    {
        self.last_activity = now_ms;
    }
}

/// The live sessions of a peer, keyed by the id of the `initialize`
/// request that created each.
#[derive(Debug)]
pub struct SessionManager {
    pub sessions: Vec<Session>,
}

impl SessionManager {
    /// Where a session with this id sits, if one does.
    pub open spec fn spec_find(&self, id: crate::rpc::IdView) -> Option<int> {
        if exists|k: int| 0 <= k < self.sessions@.len() && self.sessions@[k].id@ == id {
            Some(choose|k: int| 0 <= k < self.sessions@.len() && self.sessions@[k].id@ == id)
        } else {
            None
        }
    }

    /// No sessions yet.
    pub fn new() -> (r: SessionManager)
        ensures
            r.sessions@.len() == 0,
    {
        SessionManager { sessions: Vec::new() }
    }

    /// Creates and stores a session for a client that initialized now.
    pub fn create_session(
        &mut self,
        id: RequestId,
        client_info: Implementation,
        capabilities: ClientCapabilities,
        now_ms: u64,
    )
        ensures
            final(self).sessions@.len() == old(self).sessions@.len() + 1,
            final(self).sessions@.last().id@ == id@,
            final(self).sessions@.last().client_info == client_info,
            final(self).sessions@.last().capabilities == capabilities,
            final(self).sessions@.last().created_at == now_ms,
            final(self).sessions@.last().last_activity == now_ms,
            forall|k: int|
                0 <= k < old(self).sessions@.len() ==> final(self).sessions@[k] == old(
                    self,
                ).sessions@[k],
    {
        let s = Session::new(id, client_info, capabilities, now_ms);
        self.sessions.push(s);
    }

    /// The session with this id, if one lives.
    pub fn get_session(&self, id: &RequestId) -> (r: Option<&Session>)
        ensures
            match r {
                Some(s) => exists|k: int|
                    0 <= k < self.sessions@.len() && self.sessions@[k].id@ == id@ && self.sessions@[
                        k
                    ] == *s,
                None => forall|k: int|
                    0 <= k < self.sessions@.len() ==> self.sessions@[k].id@ != id@,
            },
    {
        let mut i: usize = 0;
        while i < self.sessions.len()
            invariant
                i <= self.sessions@.len(),
                forall|k: int| 0 <= k < i ==> self.sessions@[k].id@ != id@,
            decreases self.sessions@.len() - i,
        {
            if self.sessions[i].id.eq(id) {
                return Some(&self.sessions[i]);
            }
            i = i + 1;
        }
        None
    }

    /// Removes and hands back the session with this id, if one lives.
    pub fn remove_session(&mut self, id: &RequestId) -> (r: Option<Session>)
        ensures
            match r {
                Some(s) => s.id@ == id@ && final(self).sessions@.len() == old(
                    self,
                ).sessions@.len() - 1,
                None => *final(self) == *old(self) && forall|k: int|
                    0 <= k < old(self).sessions@.len() ==> old(self).sessions@[k].id@ != id@,
            },
    {
        let mut i: usize = 0;
        while i < self.sessions.len()
            invariant
                i <= self.sessions@.len(),
                self.sessions == old(self).sessions,
                forall|k: int| 0 <= k < i ==> self.sessions@[k].id@ != id@,
            decreases self.sessions@.len() - i,
        {
            if self.sessions[i].id.eq(id) {
                let s = self.sessions.remove(i);
                return Some(s);
            }
            i = i + 1;
        }
        None
    }

    /// How many sessions live.
    pub fn session_count(&self) -> (r: usize)
        ensures
            r == self.sessions@.len(),
    {
        self.sessions.len()
    }

    /// Drops every session idle longer than `max_idle_ms` at `now_ms`.
    /// The sessions that remain are exactly those active recently enough,
    /// in their original order.
    #[verifier::loop_isolation(false)]
    pub fn cleanup_inactive_sessions(&mut self, max_idle_ms: u64, now_ms: u64)
        ensures
            final(self).sessions@ == spec_retained(old(self).sessions@, max_idle_ms, now_ms),
    {
        let ghost orig = self.sessions@;
        let mut i: usize = 0;
        let ghost mut j: int = 0;
        proof {
            assert(orig.subrange(0, 0).len() == 0);
            assert(self.sessions@ =~= spec_retained(orig.subrange(0, 0), max_idle_ms, now_ms).add(
                orig.skip(0),
            ));
        }
        while i < self.sessions.len()
            invariant
                0 <= j <= orig.len(),
                i == spec_retained(orig.subrange(0, j), max_idle_ms, now_ms).len(),
                i <= self.sessions@.len(),
                self.sessions@ == spec_retained(orig.subrange(0, j), max_idle_ms, now_ms).add(
                    orig.skip(j),
                ),
            decreases self.sessions@.len() - i,
        {
            proof {
                assert(orig.skip(j).len() > 0);
                assert(j < orig.len());
                assert(self.sessions@[i as int] == orig.skip(j)[0]);
                assert(orig.skip(j)[0] == orig[j]);
                assert(orig.subrange(0, j + 1).drop_last() =~= orig.subrange(0, j));
                assert(orig.subrange(0, j + 1).last() == orig[j]);
            }
            let idle_out: bool = now_ms >= self.sessions[i].last_activity && now_ms
                - self.sessions[i].last_activity >= max_idle_ms;
            if idle_out {
                self.sessions.remove(i);
                proof {
                    j = j + 1;
                    assert(self.sessions@ =~= spec_retained(
                        orig.subrange(0, j),
                        max_idle_ms,
                        now_ms,
                    ).add(orig.skip(j)));
                }
            } else {
                i = i + 1;
                proof {
                    j = j + 1;
                    assert(self.sessions@ =~= spec_retained(
                        orig.subrange(0, j),
                        max_idle_ms,
                        now_ms,
                    ).add(orig.skip(j)));
                }
            }
        }
        proof {
            assert(orig.skip(j).len() == 0);
            assert(j == orig.len());
            assert(orig.subrange(0, j) =~= orig);
            assert(self.sessions@ =~= spec_retained(orig, max_idle_ms, now_ms));
        }
    }
}

/// A session stays when its last activity is within the idle bound.
pub open spec fn spec_session_kept(s: Session, max_idle_ms: u64, now_ms: u64) -> bool {
    now_ms < s.last_activity || now_ms - s.last_activity < max_idle_ms
}

/// The sessions that survive an idle sweep, in their original order.
pub open spec fn spec_retained(sessions: Seq<Session>, max_idle_ms: u64, now_ms: u64) -> Seq<
    Session,
>
    decreases sessions.len(),
{
    if sessions.len() == 0 {
        Seq::<Session>::empty()
    } else if spec_session_kept(sessions.last(), max_idle_ms, now_ms) {
        spec_retained(sessions.drop_last(), max_idle_ms, now_ms).push(sessions.last())
    } else {
        spec_retained(sessions.drop_last(), max_idle_ms, now_ms)
    }
}

impl Default for SessionManager {
    /// No sessions, as `new` gives it.
    fn default() -> (r: SessionManager)
        ensures
            r.sessions@.len() == 0,
    {
        SessionManager::new()
    }
}

} // verus!
