//! Server-side bookkeeping of the live connections.
//!
//! Each connection is known by its identifier, carries the entity of its
//! player and the time of its last successful ping. Identifiers are unique.
use vstd::prelude::*;
use crate::geometry::Vec3;
use crate::packet::{ConnectionUUID, EntityId};

verus! {

/// A connection is dead after this many time units without a ping.
pub const LIVENESS_TIMEOUT: u64 = 60;

/// How often a client should ping, in time units.
pub const PING_INTERVAL: u64 = 5;

pub struct ConnectionEntry {
    pub uuid: ConnectionUUID,
    pub entity_id: EntityId,
    pub last_ping: u64,
}

/// The entry has gone more than the timeout without a ping.
pub open spec fn is_stale(e: ConnectionEntry, now: u64) -> bool {
    now >= e.last_ping && now - e.last_ping > LIVENESS_TIMEOUT
}

pub open spec fn uuids_unique(s: Seq<ConnectionEntry>) -> bool {
    forall|i: int, j: int| 0 <= i < j < s.len() ==> #[trigger] s[i].uuid@ != #[trigger] s[j].uuid@
}

/// Position of the entry for `u`, or -1.
pub open spec fn find_spec(s: Seq<ConnectionEntry>, u: Seq<char>) -> int {
    if exists|i: int| 0 <= i < s.len() && #[trigger] s[i].uuid@ == u {
        choose|i: int| 0 <= i < s.len() && #[trigger] s[i].uuid@ == u
    } else {
        -1
    }
}

pub struct ConnectionRegistry {
    pub entries: Vec<ConnectionEntry>,
}

impl ConnectionRegistry {
    pub open spec fn wf(&self) -> bool {
        uuids_unique(self.entries@)
    }

    /// The identifiers of the registered connections, in registration order.
    pub open spec fn uuids(&self) -> Seq<Seq<char>> {
        self.entries@.map_values(|e: ConnectionEntry| e.uuid@)
    }

    pub fn new() -> (r: Self)
        ensures
            r.wf(),
            r.entries@ == Seq::<ConnectionEntry>::empty(),
    {
        ConnectionRegistry { entries: Vec::new() }
    }

    pub fn len(&self) -> (r: usize)
        ensures
            r == self.entries@.len(),
    {
        self.entries.len()
    }

    pub fn find(&self, uuid: &String) -> (r: Option<usize>)
        requires
            self.wf(),
        ensures
            r matches Some(i) ==> i == find_spec(self.entries@, uuid@) && i < self.entries@.len(),
            r is None ==> find_spec(self.entries@, uuid@) == -1,
    {
        let mut i: usize = 0;
        while i < self.entries.len()
            invariant
                self.wf(),
                i <= self.entries@.len(),
                forall|j: int| 0 <= j < i ==> #[trigger] self.entries@[j].uuid@ != uuid@,
            decreases self.entries@.len() - i,
        {
            if self.entries[i].uuid == *uuid {
                proof {
                    assert(self.entries@[i as int].uuid@ == uuid@);
                    let c = choose|c: int| 0 <= c < self.entries@.len() && #[trigger] self.entries@[c].uuid@ == uuid@;
                    if c != i as int {
                        if c < i as int {
                            assert(self.entries@[c].uuid@ != self.entries@[i as int].uuid@);
                        } else {
                            assert(self.entries@[i as int].uuid@ != self.entries@[c].uuid@);
                        }
                    }
                }
                return Some(i);
            }
            i = i + 1;
        }
        None
    }

    /// Registers a connection after its snapshot went out; one that is
    /// already registered gets the new entity and ping time instead.
    pub fn register(&mut self, uuid: ConnectionUUID, entity_id: EntityId, now: u64) -> (r: usize)
        requires
            old(self).wf(),
        ensures
            final(self).wf(),
            find_spec(old(self).entries@, uuid@) >= 0 ==> r == find_spec(old(self).entries@, uuid@)
                && final(self).entries@ == old(self).entries@.update(
                r as int,
                ConnectionEntry { uuid, entity_id, last_ping: now },
            ),
            find_spec(old(self).entries@, uuid@) == -1 ==> r == old(self).entries@.len()
                && final(self).entries@ == old(self).entries@.push(
                ConnectionEntry { uuid, entity_id, last_ping: now },
            ),
    {
        match self.find(&uuid) {
            Some(i) => {
                self.entries.set(i, ConnectionEntry { uuid, entity_id, last_ping: now });
                i
            },
            None => {
                let n = self.entries.len();
                self.entries.push(ConnectionEntry { uuid, entity_id, last_ping: now });
                n
            },
        }
    }

    /// Strikes a connection; returns the entity of its player.
    pub fn unregister(&mut self, uuid: &String) -> (r: Option<EntityId>)
        requires
            old(self).wf(),
        ensures
            final(self).wf(),
            find_spec(old(self).entries@, uuid@) >= 0 ==> r == Some(
                old(self).entries@[find_spec(old(self).entries@, uuid@)].entity_id,
            ) && final(self).entries@ == old(self).entries@.remove(
                find_spec(old(self).entries@, uuid@),
            ),
            find_spec(old(self).entries@, uuid@) == -1 ==> r is None && final(self).entries@ == old(self).entries@,
    {
        match self.find(uuid) {
            Some(i) => {
                let e = self.entries.remove(i);
                assert forall|a: int, b: int| 0 <= a < b < self.entries@.len() implies #[trigger] self.entries@[a].uuid@
                    != #[trigger] self.entries@[b].uuid@ by {
                    let a0 = if a < i { a } else { a + 1 };
                    let b0 = if b < i { b } else { b + 1 };
                    assert(self.entries@[a] == old(self).entries@[a0]);
                    assert(self.entries@[b] == old(self).entries@[b0]);
                }
                Some(e.entity_id)
            },
            None => None,
        }
    }

    /// Records a successful ping; says whether the connection is known.
    pub fn record_ping(&mut self, uuid: &String, now: u64) -> (r: bool)
        requires
            old(self).wf(),
        ensures
            final(self).wf(),
            r == (find_spec(old(self).entries@, uuid@) >= 0),
            r ==> final(self).entries@ == old(self).entries@.update(
                find_spec(old(self).entries@, uuid@),
                ConnectionEntry { last_ping: now, ..old(self).entries@[find_spec(old(self).entries@, uuid@)] },
            ),
            !r ==> final(self).entries@ == old(self).entries@,
    {
        match self.find(uuid) {
            Some(i) => {
                let e = self.entries.remove(i);
                let ghost removed = self.entries@;
                self.entries.insert(i, ConnectionEntry { last_ping: now, ..e });
                assert(self.entries@ =~= old(self).entries@.update(
                    i as int,
                    ConnectionEntry { last_ping: now, ..old(self).entries@[i as int] },
                ));
                assert forall|a: int, b: int| 0 <= a < b < self.entries@.len() implies #[trigger] self.entries@[a].uuid@
                    != #[trigger] self.entries@[b].uuid@ by {
                    assert(self.entries@[a].uuid == old(self).entries@[a].uuid);
                    assert(self.entries@[b].uuid == old(self).entries@[b].uuid);
                }
                true
            },
            None => false,
        }
    }

    /// Every registered connection, in registration order.
    pub fn list_all(&self) -> (r: Vec<ConnectionUUID>)
        ensures
            r@.len() == self.entries@.len(),
            forall|i: int| 0 <= i < r@.len() ==> #[trigger] r@[i] == self.entries@[i].uuid,
    {
        let mut out: Vec<ConnectionUUID> = Vec::new();
        let mut i: usize = 0;
        while i < self.entries.len()
            invariant
                i <= self.entries@.len(),
                out@.len() == i,
                forall|k: int| 0 <= k < i ==> #[trigger] out@[k] == self.entries@[k].uuid,
            decreases self.entries@.len() - i,
        {
            out.push(self.entries[i].uuid.clone());
            i = i + 1;
        }
        out
    }

    /// The connections that must hear of something at `position`: every
    /// registered connection, as no spatial filter exists.
    pub fn list_affected(&self, position: Vec3) -> (r: Vec<ConnectionUUID>)
        ensures
            r@.len() == self.entries@.len(),
            forall|i: int| 0 <= i < r@.len() ==> #[trigger] r@[i] == self.entries@[i].uuid,
    {
        self.list_all()
    }

    /// Removes every connection that went more than the timeout without a
    /// ping, and returns them in registration order.
    pub fn take_stale(&mut self, now: u64) -> (r: Vec<ConnectionEntry>)
        requires
            old(self).wf(),
        ensures
            final(self).wf(),
            r@ == old(self).entries@.filter(|e: ConnectionEntry| is_stale(e, now)),
            final(self).entries@ == old(self).entries@.filter(|e: ConnectionEntry| !is_stale(e, now)),
    {
        let ghost s = self.entries@;
        let ghost stale = |e: ConnectionEntry| is_stale(e, now);
        let ghost live = |e: ConnectionEntry| !is_stale(e, now);
        let mut rest: Vec<ConnectionEntry> = Vec::new();
        std::mem::swap(&mut rest, &mut self.entries);
        let mut dead: Vec<ConnectionEntry> = Vec::new();
        let ghost mut k: int = 0;
        proof {
            reveal(Seq::filter);
            assert(s.take(0) =~= Seq::<ConnectionEntry>::empty());
        }
        while rest.len() > 0
            invariant
                0 <= k <= s.len(),
                stale == (|e: ConnectionEntry| is_stale(e, now)),
                live == (|e: ConnectionEntry| !is_stale(e, now)),
                rest@ =~= s.skip(k),
                dead@ == s.take(k).filter(stale),
                self.entries@ == s.take(k).filter(live),
            decreases rest@.len(),
        {
            let e = rest.remove(0);
            let ghost t = s.take(k + 1);
            proof {
                reveal(Seq::filter);
                assert(t.drop_last() =~= s.take(k));
                assert(t.last() == e);
                assert(t.filter(stale) == if stale(t.last()) {
                    t.drop_last().filter(stale).push(t.last())
                } else {
                    t.drop_last().filter(stale)
                });
                assert(t.filter(live) == if live(t.last()) {
                    t.drop_last().filter(live).push(t.last())
                } else {
                    t.drop_last().filter(live)
                });
            }
            if is_stale_now(&e, now) {
                dead.push(e);
            } else {
                self.entries.push(e);
            }
            proof {
                k = k + 1;
                assert(rest@ =~= s.skip(k));
            }
        }
        proof {
            assert(s.take(k) =~= s);
            lemma_filter_unique(s, live);
        }
        dead
    }
}

fn is_stale_now(e: &ConnectionEntry, now: u64) -> (r: bool)
    ensures
        r == is_stale(*e, now),
{
    now >= e.last_ping && now - e.last_ping > LIVENESS_TIMEOUT
}

proof fn lemma_filter_unique(s: Seq<ConnectionEntry>, p: spec_fn(ConnectionEntry) -> bool)
    requires
        uuids_unique(s),
    ensures
        uuids_unique(s.filter(p)),
    decreases s.len(),
{
    reveal(Seq::filter);
    if s.len() > 0 {
        let r = s.drop_last();
        assert(uuids_unique(r)) by {
            assert forall|i: int, j: int| 0 <= i < j < r.len() implies #[trigger] r[i].uuid@
                != #[trigger] r[j].uuid@ by {
                assert(r[i] == s[i] && r[j] == s[j]);
            }
        }
        lemma_filter_unique(r, p);
        let f = r.filter(p);
        if p(s.last()) {
            let g = f.push(s.last());
            assert forall|i: int, j: int| 0 <= i < j < g.len() implies #[trigger] g[i].uuid@
                != #[trigger] g[j].uuid@ by {
                if j == g.len() - 1 {
                    assert(f.contains(g[i]));
                    r.lemma_filter_contains_rev(p, g[i]);
                    let k = choose|k: int| 0 <= k < r.len() && r[k] == g[i];
                    assert(s[k] == r[k]);
                    assert(s[s.len() - 1] == s.last());
                } else {
                    assert(g[i] == f[i] && g[j] == f[j]);
                }
            }
        }
    }
}

} // verus!
