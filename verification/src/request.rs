//! In-flight requests: fresh id assignment, reply matching that completes a
//! request exactly once, and the timeout/retry policy.

use vstd::prelude::*;
use crate::ident::NodeId;

verus! {

/// The typed outcome of a request timeout.
#[derive(Clone, Copy, PartialEq, Eq, Structural, Debug)]
pub enum TimeoutOutcome {
    /// Send the request again, under the same request id.
    Retry,
    /// Retries are exhausted: fail with a timeout error and report the
    /// peer unresponsive.
    Failed,
}

/// One request awaiting its reply.
#[derive(Clone, Copy, PartialEq, Eq, Structural, Debug)]
pub struct PendingRequest {
    pub id: u64,
    pub peer: NodeId,
    pub body: u64,
    pub sent_at: u64,
    pub retries_used: u8,
}

/// What a timeout does to a pending request: a resend under the same id
/// while retries remain, a failure once they are exhausted.
pub open spec fn spec_on_timeout(p: PendingRequest, max_retries: u8, now: u64) -> (
    PendingRequest,
    TimeoutOutcome,
) {
    if p.retries_used < max_retries {
        (
            PendingRequest {
                id: p.id,
                peer: p.peer,
                body: p.body,
                sent_at: now,
                retries_used: (p.retries_used + 1) as u8,
            },
            TimeoutOutcome::Retry,
        )
    } else {
        (p, TimeoutOutcome::Failed)
    }
}

/// The request after `k` timeouts (the resend time does not matter to the
/// retry policy, so it is fixed).
pub open spec fn after_timeouts(p: PendingRequest, max_retries: u8, k: nat) -> PendingRequest
    decreases k,
{
    if k == 0 {
        p
    } else {
        spec_on_timeout(after_timeouts(p, max_retries, (k - 1) as nat), max_retries, 0).0
    }
}

/// Retry law: starting from a fresh request, every timeout keeps the
/// request id, peer and body; each of the first `max_retries` timeouts
/// resends (a retry), and the next one fails with a timeout result.
pub proof fn lemma_retry_policy(p: PendingRequest, max_retries: u8, k: nat)
    requires
        p.retries_used == 0,
    ensures
        after_timeouts(p, max_retries, k).id == p.id,
        after_timeouts(p, max_retries, k).peer == p.peer,
        after_timeouts(p, max_retries, k).body == p.body,
        after_timeouts(p, max_retries, k).retries_used == if k < max_retries {
            k as int
        } else {
            max_retries as int
        },
        k < max_retries ==> spec_on_timeout(after_timeouts(p, max_retries, k), max_retries, 0).1
            is Retry,
        k >= max_retries ==> spec_on_timeout(after_timeouts(p, max_retries, k), max_retries, 0).1
            is Failed,
    decreases k,
{
    if k > 0 {
        lemma_retry_policy(p, max_retries, (k - 1) as nat);
    }
}

impl PendingRequest {
    /// Apply a timeout: resend under the same id while retries remain,
    /// otherwise report failure and leave the request unchanged.
    pub fn on_timeout(&mut self, max_retries: u8, now: u64) -> (o: TimeoutOutcome)
        ensures
            (*final(self), o) == spec_on_timeout(*old(self), max_retries, now),
            final(self).id == old(self).id,
            final(self).peer == old(self).peer,
            final(self).body == old(self).body,
    {
        if self.retries_used < max_retries {
            self.retries_used = self.retries_used + 1;
            self.sent_at = now;
            TimeoutOutcome::Retry
        } else {
            TimeoutOutcome::Failed
        }
    }
}

/// The set of in-flight requests, keyed by locally assigned ids.
pub struct PendingRequests {
    pub requests: Vec<PendingRequest>,
    /// The next id to hand out; every stored id is smaller.
    pub next_id: u64,
}

impl PendingRequests {
    pub open spec fn wf(self) -> bool {
        &&& forall|i: int| 0 <= i < self.requests@.len() ==> (#[trigger] self.requests@[i]).id
            < self.next_id
        &&& forall|i: int, j: int| 0 <= i < j < self.requests@.len() ==>
            (#[trigger] self.requests@[i]).id != (#[trigger] self.requests@[j]).id
    }

    pub open spec fn has_id(self, id: u64) -> bool {
        exists|i: int| 0 <= i < self.requests@.len() && (#[trigger] self.requests@[i]).id == id
    }

    pub fn new() -> (r: PendingRequests)
        ensures
            r.wf(),
            r.requests@.len() == 0,
            r.next_id == 0,
    {
        PendingRequests { requests: Vec::new(), next_id: 0 }
    }

    fn find_index(&self, id: u64) -> (r: Option<usize>)
        ensures
            r matches Some(i) ==> i < self.requests@.len() && self.requests@[i as int].id == id,
            r is None ==> !self.has_id(id),
    {
        let n = self.requests.len();
        let mut i: usize = 0;
        while i < n
            invariant
                n == self.requests@.len(),
                i <= n,
                forall|k: int| 0 <= k < i ==> (#[trigger] self.requests@[k]).id != id,
            decreases n - i,
        {
            if self.requests[i].id == id {
                return Some(i);
            }
            i = i + 1;
        }
        None
    }

    /// Store a new request under a fresh id and hand the id back.
    pub fn begin_request(&mut self, peer: NodeId, body: u64, now: u64) -> (id: u64)
        requires
            old(self).wf(),
            old(self).next_id < u64::MAX,
        ensures
            final(self).wf(),
            id == old(self).next_id,
            !old(self).has_id(id),
            final(self).next_id == old(self).next_id + 1,
            final(self).requests@ == old(self).requests@.push(
                (PendingRequest { id, peer, body, sent_at: now, retries_used: 0 }),
            ),
    {
        let id = self.next_id;
        self.requests.push(PendingRequest { id, peer, body, sent_at: now, retries_used: 0 });
        self.next_id = self.next_id + 1;
        id
    }

    /// Match an inbound reply to its pending request. A matching request is
    /// completed exactly once: it is removed and handed back. A duplicate
    /// or unmatched reply changes nothing and is reported as `None`.
    pub fn on_reply(&mut self, id: u64) -> (r: Option<PendingRequest>)
        requires
            old(self).wf(),
        ensures
            final(self).wf(),
            final(self).next_id == old(self).next_id,
            !old(self).has_id(id) ==> r is None && *final(self) == *old(self),
            forall|i: int|
                #![trigger old(self).requests@[i]]
                0 <= i < old(self).requests@.len() && old(self).requests@[i].id == id ==> r
                    == Some(old(self).requests@[i]) && final(self).requests@ == old(self).requests@.remove(i),
            !final(self).has_id(id),
    {
        match self.find_index(id) {
            Some(i) => {
                let ghost olds = self.requests@;
                let ghost ii = i as int;
                let p = self.requests[i];
                self.requests.remove(i);
                proof {
                    assert forall|j: int|
                        0 <= j < olds.len() && (#[trigger] olds[j]).id == id implies Some(p)
                        == Some(olds[j]) && self.requests@ == olds.remove(j) by {
                        if j != ii {
                            assert(olds[ii].id == id);
                        }
                    }
                    if self.has_id(id) {
                        let k = choose|k: int|
                            0 <= k < self.requests@.len() && self.requests@[k].id == id;
                        let k0: int = if k < ii {
                            k
                        } else {
                            k + 1
                        };
                        assert(olds[k0].id == id);
                        assert(k0 != ii);
                    }
                }
                Some(p)
            },
            None => None,
        }
    }

    /// Apply a timeout event to the request holding `id`: while retries
    /// remain the request stays, refreshed under the same id, and the
    /// caller resends; once exhausted it is removed and the caller fails
    /// the operation with a timeout error.
    pub fn on_timeout_event(&mut self, id: u64, max_retries: u8, now: u64) -> (o: Option<TimeoutOutcome>)
        requires
            old(self).wf(),
        ensures
            final(self).wf(),
            final(self).next_id == old(self).next_id,
            !old(self).has_id(id) ==> o is None && *final(self) == *old(self),
            forall|i: int|
                #![trigger old(self).requests@[i]]
                0 <= i < old(self).requests@.len() && old(self).requests@[i].id == id ==> {
                    &&& o == Some(spec_on_timeout(old(self).requests@[i], max_retries, now).1)
                    &&& (old(self).requests@[i].retries_used < max_retries ==> final(self).requests@ == old(self).requests@.update(
                        i,
                        spec_on_timeout(old(self).requests@[i], max_retries, now).0,
                    ))
                    &&& (old(self).requests@[i].retries_used >= max_retries ==> final(self).requests@ == old(self).requests@.remove(i))
                },
    {
        match self.find_index(id) {
            Some(i) => {
                let mut p = self.requests[i];
                let out = p.on_timeout(max_retries, now);
                match out {
                    TimeoutOutcome::Retry => {
                        self.requests.set(i, p);
                    },
                    TimeoutOutcome::Failed => {
                        self.requests.remove(i);
                    },
                }
                Some(out)
            },
            None => None,
        }
    }

    /// How many requests are in flight.
    pub fn len(&self) -> (n: usize)
        ensures
            n == self.requests@.len(),
    {
        self.requests.len()
    }
}

} // verus!
