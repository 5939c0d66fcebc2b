//! The iterative lookup engine: one query's worth of state, driven by
//! events. Requests go to the closest not-yet-tried peers within the
//! parallelism budget; replies merge newly discovered peers; a peer that
//! misses its own timeout is marked unresponsive for this query only and
//! stops counting against the budget.

use vstd::prelude::*;
use crate::ident::{NodeId, xor_distance};
use crate::record::PeerRecord;
use crate::table::{BucketEntry, ConnectionDirection, sort_entries_by_target, ranks_before, seq_has_id};
use crate::counting::count_matching;

verus! {

/// How far the query has taken one candidate peer.
#[derive(Clone, Copy, PartialEq, Eq, Structural, Debug)]
pub enum QueryPeerState {
    /// Discovered, not yet asked.
    Untried,
    /// A request is out and counts against the parallelism budget.
    InFlight,
    /// The peer answered.
    Responded,
    /// The peer missed its own timeout; it no longer counts against the
    /// budget, though a late reply is still merged.
    Unresponsive,
}

/// One candidate in a query.
#[derive(Clone, Copy, PartialEq, Eq, Structural, Debug)]
pub struct QueryPeer {
    pub record: PeerRecord,
    pub state: QueryPeerState,
}

/// Membership test for candidates with a request in flight.
pub open spec fn inflight_pred() -> spec_fn(QueryPeer) -> bool {
    |p: QueryPeer| p.state is InFlight
}

/// Whether some candidate carries identity `id`.
pub open spec fn peers_have_id(s: Seq<QueryPeer>, id: NodeId) -> bool {
    exists|i: int| 0 <= i < s.len() && (#[trigger] s[i]).record.id == id
}

/// Whether some candidate carries exactly this record.
pub open spec fn peers_have_record(s: Seq<QueryPeer>, r: PeerRecord) -> bool {
    exists|i: int| 0 <= i < s.len() && (#[trigger] s[i]).record == r
}

/// One iterative lookup.
pub struct QueryState {
    pub target: NodeId,
    /// How many requests may be in flight at once.
    pub parallelism: usize,
    pub peers: Vec<QueryPeer>,
    pub started: u64,
    /// The overall deadline, measured from `started`.
    pub timeout: u64,
}

impl QueryState {
    pub open spec fn wf(self) -> bool {
        &&& self.parallelism >= 1
        &&& forall|i: int, j: int| 0 <= i < j < self.peers@.len() ==>
            (#[trigger] self.peers@[i]).record.id != (#[trigger] self.peers@[j]).record.id
    }

    pub open spec fn has_id(self, id: NodeId) -> bool {
        peers_have_id(self.peers@, id)
    }

    /// How many requests are in flight.
    pub open spec fn in_flight(self) -> int {
        count_matching(self.peers@, inflight_pred())
    }

    pub open spec fn has_untried(self) -> bool {
        exists|i: int| 0 <= i < self.peers@.len() && (#[trigger] self.peers@[i]).state is Untried
    }

    /// The query is done once its overall deadline passed, or once no
    /// candidate is left to ask or to hear from.
    pub open spec fn spec_done(self, now: u64) -> bool {
        ||| now > self.started + self.timeout
        ||| (!self.has_untried() && self.in_flight() == 0)
    }

    /// Seed a query from the closest peers the routing table knows,
    /// deduplicated by identity.
    pub fn new(target: NodeId, seed: &Vec<PeerRecord>, parallelism: usize, started: u64, timeout: u64) -> (q: QueryState)
        requires
            parallelism >= 1,
        ensures
            q.wf(),
            q.target == target,
            q.parallelism == parallelism,
            q.started == started,
            q.timeout == timeout,
            forall|i: int| 0 <= i < q.peers@.len() ==> (#[trigger] q.peers@[i]).state is Untried,
            forall|r: int| 0 <= r < seed@.len() ==> q.has_id((#[trigger] seed@[r]).id),
            forall|i: int| 0 <= i < q.peers@.len() ==> seed@.contains(
                (#[trigger] q.peers@[i]).record,
            ),
    {
        let mut peers: Vec<QueryPeer> = Vec::new();
        let n = seed.len();
        let mut i: usize = 0;
        while i < n
            invariant
                n == seed@.len(),
                i <= n,
                forall|a: int, b: int| 0 <= a < b < peers@.len() ==>
                    (#[trigger] peers@[a]).record.id != (#[trigger] peers@[b]).record.id,
                forall|k: int| 0 <= k < peers@.len() ==> (#[trigger] peers@[k]).state is Untried,
                forall|k: int| 0 <= k < peers@.len() ==> seed@.contains(
                    (#[trigger] peers@[k]).record,
                ),
                forall|r: int| 0 <= r < i ==> peers_have_id(peers@, (#[trigger] seed@[r]).id),
            decreases n - i,
        {
            let r = seed[i];
            let mut found = false;
            let mut k: usize = 0;
            let plen = peers.len();
            while k < plen
                invariant
                    plen == peers@.len(),
                    k <= plen,
                    found ==> peers_have_id(peers@, r.id),
                    !found ==> forall|x: int| 0 <= x < k ==> (#[trigger] peers@[x]).record.id
                        != r.id,
                decreases plen - k,
            {
                if peers[k].record.id == r.id {
                    proof {
                        assert(peers@[k as int].record.id == r.id);
                    }
                    found = true;
                }
                k = k + 1;
            }
            let ghost oldpeers = peers@;
            if !found {
                peers.push(QueryPeer { record: r, state: QueryPeerState::Untried });
                proof {
                    assert(peers@[peers@.len() - 1].record == r);
                    assert(seed@[i as int] == r);
                    assert(seed@.contains(r));
                }
            }
            proof {
                assert(peers_have_id(peers@, seed@[i as int].id));
                assert forall|r2: int| 0 <= r2 < i + 1 implies peers_have_id(
                    peers@,
                    (#[trigger] seed@[r2]).id,
                ) by {
                    if r2 < i {
                        let w = choose|w: int|
                            0 <= w < oldpeers.len() && oldpeers[w].record.id == seed@[r2].id;
                        assert(peers@[w].record.id == seed@[r2].id);
                    }
                }
            }
            i = i + 1;
        }
        QueryState { target, parallelism, peers, started, timeout }
    }

    fn count_in_flight(&self) -> (n: usize)
        ensures
            n as int == self.in_flight(),
    {
        let ghost p = inflight_pred();
        let len = self.peers.len();
        let mut n: usize = 0;
        let mut i: usize = 0;
        proof {
            assert(self.peers@.take(0) =~= Seq::<QueryPeer>::empty());
        }
        while i < len
            invariant
                len == self.peers@.len(),
                i <= len,
                n <= i,
                p == inflight_pred(),
                n as int == count_matching(self.peers@.take(i as int), p),
            decreases len - i,
        {
            let q = self.peers[i];
            proof {
                crate::counting::lemma_count_matching_take_step(self.peers@, p, i as int);
            }
            if matches!(q.state, QueryPeerState::InFlight) {
                n = n + 1;
            }
            i = i + 1;
        }
        proof {
            assert(self.peers@.take(len as int) =~= self.peers@);
        }
        n
    }

    /// The next peer to ask: the closest untried candidate, if the
    /// parallelism budget has room. Marks it in flight.
    pub fn next_to_query(&mut self) -> (r: Option<PeerRecord>)
        requires
            old(self).wf(),
        ensures
            final(self).wf(),
            final(self).target == old(self).target,
            final(self).parallelism == old(self).parallelism,
            final(self).started == old(self).started,
            final(self).timeout == old(self).timeout,
            r is None ==> *final(self) == *old(self) && (old(self).in_flight()
                >= old(self).parallelism || !old(self).has_untried()),
            r matches Some(rec) ==> old(self).in_flight() < old(self).parallelism && exists|i: int|
                0 <= i < old(self).peers@.len() && (#[trigger] old(self).peers@[i]).record == rec
                    && old(self).peers@[i].state is Untried && final(self).peers@ == old(self).peers@.update(i, (QueryPeer { record: rec, state: QueryPeerState::InFlight }))
                    && (forall|j: int|
                    0 <= j < old(self).peers@.len() && (#[trigger] old(self).peers@[j]).state
                        is Untried ==> xor_distance(rec.id, old(self).target) <= xor_distance(
                        old(self).peers@[j].record.id,
                        old(self).target,
                    )),
    {
        let inflight = self.count_in_flight();
        if inflight >= self.parallelism {
            return None;
        }
        let len = self.peers.len();
        let mut best: usize = len;  // len means none found yet
        let mut i: usize = 0;
        while i < len
            invariant
                len == self.peers@.len(),
                i <= len,
                best <= len,
                best < len ==> self.peers@[best as int].state is Untried,
                best < len ==> forall|j: int|
                    0 <= j < i && (#[trigger] self.peers@[j]).state is Untried ==> xor_distance(
                        self.peers@[best as int].record.id,
                        self.target,
                    ) <= xor_distance(self.peers@[j].record.id, self.target),
                best == len ==> forall|j: int| 0 <= j < i ==> !((#[trigger] self.peers@[j]).state
                    is Untried),
            decreases len - i,
        {
            let q = self.peers[i];
            if matches!(q.state, QueryPeerState::Untried) {
                if best == len {
                    best = i;
                } else {
                    let db = self.peers[best].record.id.distance(self.target);
                    let di = q.record.id.distance(self.target);
                    if di < db {
                        best = i;
                    }
                }
            }
            i = i + 1;
        }
        if best == len {
            return None;
        }
        let rec = self.peers[best].record;
        self.peers.set(best, QueryPeer { record: rec, state: QueryPeerState::InFlight });
        proof {
            assert forall|a: int, b: int|
                0 <= a < b < self.peers@.len() implies (#[trigger] self.peers@[a]).record.id != (
            #[trigger] self.peers@[b]).record.id by {
                assert(old(self).peers@[a].record.id != old(self).peers@[b].record.id);
            }
        }
        Some(rec)
    }

    /// A reply from `peer` carrying newly discovered records: the peer is
    /// marked responded (even a late reply is merged while the query
    /// lives), and each unknown identity joins the candidate set untried,
    /// keeping every existing candidate in place.
    pub fn on_reply(&mut self, peer: NodeId, found: &Vec<PeerRecord>)
        requires
            old(self).wf(),
        ensures
            final(self).wf(),
            final(self).target == old(self).target,
            final(self).parallelism == old(self).parallelism,
            final(self).started == old(self).started,
            final(self).timeout == old(self).timeout,
            old(self).peers@.len() <= final(self).peers@.len(),
            // existing candidates keep their slot; only the sender's state moves
            forall|x: int|
                #![trigger old(self).peers@[x]]
                0 <= x < old(self).peers@.len() ==> {
                    &&& (old(self).peers@[x].record.id == peer ==> final(self).peers@[x] == (
                    QueryPeer {
                        record: old(self).peers@[x].record,
                        state: QueryPeerState::Responded,
                    }))
                    &&& (old(self).peers@[x].record.id != peer ==> final(self).peers@[x] == old(self).peers@[x])
                },
            // whatever was appended is an untried candidate out of the reply
            forall|k: int|
                old(self).peers@.len() <= k < final(self).peers@.len() ==> (#[trigger] final(self).peers@[k]).state is Untried && found@.contains(final(self).peers@[k].record),
            // every reported identity is now a candidate
            forall|r: int| 0 <= r < found@.len() ==> final(self).has_id((#[trigger] found@[r]).id),
    {
        let len0 = self.peers.len();
        let mut i: usize = 0;
        while i < len0
            invariant
                len0 == self.peers@.len(),
                i <= len0,
                self.target == old(self).target,
                self.parallelism == old(self).parallelism,
                self.started == old(self).started,
                self.timeout == old(self).timeout,
                forall|x: int|
                    #![trigger old(self).peers@[x]]
                    0 <= x < len0 ==> old(self).peers@[x].record == self.peers@[x].record,
                forall|x: int|
                    #![trigger old(self).peers@[x]]
                    0 <= x < i && old(self).peers@[x].record.id == peer ==> self.peers@[x] == (
                    QueryPeer {
                        record: old(self).peers@[x].record,
                        state: QueryPeerState::Responded,
                    }),
                forall|x: int|
                    #![trigger old(self).peers@[x]]
                    0 <= x < len0 && !(x < i && old(self).peers@[x].record.id == peer)
                        ==> self.peers@[x] == old(self).peers@[x],
            decreases len0 - i,
        {
            if self.peers[i].record.id == peer {
                let rec = self.peers[i].record;
                self.peers.set(i, QueryPeer { record: rec, state: QueryPeerState::Responded });
            }
            i = i + 1;
        }
        let ghost marked = self.peers@;
        proof {
            assert forall|a: int, b: int|
                0 <= a < b < self.peers@.len() implies (#[trigger] self.peers@[a]).record.id != (
            #[trigger] self.peers@[b]).record.id by {
                assert(old(self).peers@[a].record.id != old(self).peers@[b].record.id);
            }
        }
        // merge the newly discovered records
        let flen = found.len();
        let mut r: usize = 0;
        while r < flen
            invariant
                flen == found@.len(),
                len0 == marked.len(),
                len0 <= self.peers@.len(),
                self.target == old(self).target,
                self.parallelism == old(self).parallelism,
                self.started == old(self).started,
                self.timeout == old(self).timeout,
                r <= flen,
                forall|a: int, b: int| 0 <= a < b < self.peers@.len() ==>
                    (#[trigger] self.peers@[a]).record.id != (#[trigger] self.peers@[b]).record.id,
                forall|x: int| #![trigger marked[x]] 0 <= x < len0 ==> self.peers@[x] == marked[x],
                forall|k: int|
                    len0 <= k < self.peers@.len() ==> (#[trigger] self.peers@[k]).state is Untried
                        && found@.contains(self.peers@[k].record),
                forall|x: int| 0 <= x < r ==> peers_have_id(self.peers@, (#[trigger] found@[x]).id),
            decreases flen - r,
        {
            let rec = found[r];
            let mut present = false;
            let mut k: usize = 0;
            let plen = self.peers.len();
            while k < plen
                invariant
                    plen == self.peers@.len(),
                    k <= plen,
                    present ==> peers_have_id(self.peers@, rec.id),
                    !present ==> forall|x: int| 0 <= x < k ==> (#[trigger] self.peers@[x]).record.id
                        != rec.id,
                decreases plen - k,
            {
                if self.peers[k].record.id == rec.id {
                    proof {
                        assert(self.peers@[k as int].record.id == rec.id);
                    }
                    present = true;
                }
                k = k + 1;
            }
            let ghost oldpeers = self.peers@;
            if !present {
                self.peers.push(QueryPeer { record: rec, state: QueryPeerState::Untried });
                proof {
                    assert(self.peers@[self.peers@.len() - 1].record == rec);
                    assert(found@[r as int] == rec);
                    assert(found@.contains(rec));
                }
            }
            proof {
                assert(peers_have_id(self.peers@, found@[r as int].id));
                assert forall|x: int| 0 <= x < r + 1 implies peers_have_id(
                    self.peers@,
                    (#[trigger] found@[x]).id,
                ) by {
                    if x < r {
                        let w = choose|w: int|
                            0 <= w < oldpeers.len() && oldpeers[w].record.id == found@[x].id;
                        assert(self.peers@[w].record.id == found@[x].id);
                    }
                }
            }
            r = r + 1;
        }
    }

    /// A per-peer timeout: an in-flight peer becomes unresponsive for this
    /// query only, freeing its slot in the parallelism budget.
    pub fn on_peer_timeout(&mut self, peer: NodeId)
        requires
            old(self).wf(),
        ensures
            final(self).wf(),
            final(self).target == old(self).target,
            final(self).parallelism == old(self).parallelism,
            final(self).started == old(self).started,
            final(self).timeout == old(self).timeout,
            !old(self).has_id(peer) ==> *final(self) == *old(self),
            forall|i: int|
                #![trigger old(self).peers@[i]]
                0 <= i < old(self).peers@.len() && old(self).peers@[i].record.id == peer ==> {
                    &&& (old(self).peers@[i].state is InFlight ==> final(self).peers@ == old(self).peers@.update(
                        i,
                        (QueryPeer {
                            record: old(self).peers@[i].record,
                            state: QueryPeerState::Unresponsive,
                        }),
                    ))
                    &&& (!(old(self).peers@[i].state is InFlight) ==> *final(self) == *old(self))
                },
    {
        let len = self.peers.len();
        let mut i: usize = 0;
        while i < len
            invariant
                len == self.peers@.len(),
                i <= len,
                old(self).wf(),
                *self == *old(self),
                forall|k: int| 0 <= k < i ==> (#[trigger] self.peers@[k]).record.id != peer,
            decreases len - i,
        {
            if self.peers[i].record.id == peer {
                let q = self.peers[i];
                if matches!(q.state, QueryPeerState::InFlight) {
                    self.peers.set(
                        i,
                        QueryPeer { record: q.record, state: QueryPeerState::Unresponsive },
                    );
                    proof {
                        assert forall|a: int, b: int|
                            0 <= a < b < self.peers@.len() implies (
                        #[trigger] self.peers@[a]).record.id != (
                        #[trigger] self.peers@[b]).record.id by {
                            assert(old(self).peers@[a].record.id != old(self).peers@[b].record.id);
                        }
                    }
                }
                return ;
            }
            i = i + 1;
        }
    }

    /// Whether the query is done at `now`.
    pub fn is_done(&self, now: u64) -> (d: bool)
        ensures
            d == self.spec_done(now),
    {
        if now > self.started && now - self.started > self.timeout {
            return true;
        }
        let len = self.peers.len();
        let mut i: usize = 0;
        let mut untried = false;
        let mut inflight = false;
        while i < len
            invariant
                len == self.peers@.len(),
                i <= len,
                untried == exists|k: int| 0 <= k < i && (#[trigger] self.peers@[k]).state
                    is Untried,
                inflight == exists|k: int| 0 <= k < i && (#[trigger] self.peers@[k]).state
                    is InFlight,
            decreases len - i,
        {
            let q = self.peers[i];
            if matches!(q.state, QueryPeerState::Untried) {
                proof {
                    assert(self.peers@[i as int].state is Untried);
                }
                untried = true;
            }
            if matches!(q.state, QueryPeerState::InFlight) {
                proof {
                    assert(self.peers@[i as int].state is InFlight);
                }
                inflight = true;
            }
            i = i + 1;
        }
        proof {
            if !inflight {
                crate::counting::lemma_count_matching_nonzero(self.peers@, inflight_pred());
            } else {
                let k = choose|k: int|
                    0 <= k < len && (#[trigger] self.peers@[k]).state is InFlight;
                crate::counting::lemma_count_matching_member(self.peers@, inflight_pred(), k);
            }
        }
        !untried && !inflight
    }

    /// The best-known result: the up-to-`count` discovered peers closest
    /// to the target, nearest first.
    pub fn best_results(&self, count: usize) -> (r: Vec<PeerRecord>)
        requires
            self.wf(),
        ensures
            r@.len() == if count < self.peers@.len() {
                count as int
            } else {
                self.peers@.len() as int
            },
            forall|i: int, j: int|
                #![trigger r@[i], r@[j]]
                0 <= i < j < r@.len() ==> xor_distance(r@[i].id, self.target) <= xor_distance(
                    r@[j].id,
                    self.target,
                ),
            forall|i: int| #![trigger r@[i]] 0 <= i < r@.len() ==> peers_have_record(
                self.peers@,
                r@[i],
            ),
            forall|x: int, i: int|
                #![trigger self.peers@[x], r@[i]]
                0 <= x < self.peers@.len() && 0 <= i < r@.len() && !seq_has_id(
                    r@,
                    self.peers@[x].record.id,
                ) ==> xor_distance(r@[i].id, self.target) <= xor_distance(
                    self.peers@[x].record.id,
                    self.target,
                ),
    {
        broadcast use vstd::seq_lib::group_to_multiset_ensures;
        broadcast use vstd::multiset::group_multiset_axioms;

        let mut all: Vec<BucketEntry> = Vec::new();
        let len = self.peers.len();
        let mut i: usize = 0;
        while i < len
            invariant
                len == self.peers@.len(),
                i <= len,
                all@.len() == i,
                forall|k: int| #![trigger all@[k]] 0 <= k < i ==> all@[k].record
                    == self.peers@[k].record,
            decreases len - i,
        {
            all.push(
                BucketEntry {
                    record: self.peers[i].record,
                    direction: ConnectionDirection::Outgoing,
                    last_seen: 0,
                },
            );
            i = i + 1;
        }
        let ghost allg = all@;
        let sorted = sort_entries_by_target(self.target, all);
        let n = if count < sorted.len() {
            count
        } else {
            sorted.len()
        };
        let mut r: Vec<PeerRecord> = Vec::new();
        let mut j: usize = 0;
        while j < n
            invariant
                n <= sorted@.len(),
                j <= n,
                r@.len() == j,
                forall|x: int| #![trigger r@[x]] 0 <= x < j ==> r@[x] == sorted@[x].record,
            decreases n - j,
        {
            r.push(sorted[j].record);
            j = j + 1;
        }
        proof {
            assert(sorted@.to_multiset() == allg.to_multiset());
            assert forall|i2: int| #![trigger r@[i2]] 0 <= i2 < r@.len() implies peers_have_record(
                self.peers@,
                r@[i2],
            ) by {
                assert(sorted@.contains(sorted@[i2]));
                vstd::seq_lib::to_multiset_contains(sorted@, sorted@[i2]);
                vstd::seq_lib::to_multiset_contains(allg, sorted@[i2]);
                assert(allg.contains(sorted@[i2]));
                let w = choose|w: int| 0 <= w < allg.len() && allg[w] == sorted@[i2];
                assert(0 <= w < self.peers@.len() && self.peers@[w].record == r@[i2]);
            }
            assert forall|i2: int, j2: int|
                #![trigger r@[i2], r@[j2]]
                0 <= i2 < j2 < r@.len() implies xor_distance(r@[i2].id, self.target)
                <= xor_distance(r@[j2].id, self.target) by {
                assert(ranks_before(self.target, sorted@[i2], sorted@[j2]));
            }
            assert forall|x: int, i2: int|
                #![trigger self.peers@[x], r@[i2]]
                0 <= x < self.peers@.len() && 0 <= i2 < r@.len() && !seq_has_id(
                    r@,
                    self.peers@[x].record.id,
                ) implies xor_distance(r@[i2].id, self.target) <= xor_distance(
                self.peers@[x].record.id,
                self.target,
            ) by {
                assert(allg.contains(allg[x]));
                vstd::seq_lib::to_multiset_contains(allg, allg[x]);
                vstd::seq_lib::to_multiset_contains(sorted@, allg[x]);
                assert(sorted@.contains(allg[x]));
                let w = choose|w: int| 0 <= w < sorted@.len() && sorted@[w] == allg[x];
                if w < r@.len() {
                    assert(r@[w].id == self.peers@[x].record.id);
                } else {
                    assert(ranks_before(self.target, sorted@[i2], sorted@[w]));
                }
            }
        }
        r
    }
}

} // verus!
