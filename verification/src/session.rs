//! Per-peer encrypted-session state: the challenge-response handshake
//! phases, an inactivity sweep, and least-recently-used eviction when the
//! cache is full.

use vstd::prelude::*;
use crate::ident::NodeId;

verus! {

/// Handshake progress of one peer's session.
#[derive(Clone, Copy, PartialEq, Eq, Structural, Debug)]
pub enum SessionPhase {
    /// A challenge went out; we await the peer's proof of identity.
    ChallengeSent { token: u64 },
    /// Keys are derived; ordinary encrypted traffic may flow.
    Established { key: u64 },
}

/// One peer's session: handshake phase, last activity, and at most one
/// outbound payload queued until the handshake completes.
#[derive(Clone, Copy, PartialEq, Eq, Structural, Debug)]
pub struct Session {
    pub peer: NodeId,
    pub phase: SessionPhase,
    pub last_active: u64,
    pub queued: Option<u64>,
}

/// What the caller must put on the wire after an outbound event.
#[derive(Clone, Copy, PartialEq, Eq, Structural, Debug)]
pub enum SessionAction {
    /// A handshake was started: send this challenge token.
    SendChallenge { token: u64 },
    /// The session is established: encrypt the payload under this key.
    SendEncrypted { key: u64, payload: u64 },
    /// A handshake is pending: the payload was queued until it completes.
    Queued,
}

/// A session is expired at `now` when it has seen no traffic for longer
/// than the timeout.
pub open spec fn spec_expired(s: Session, timeout: u64, now: u64) -> bool {
    s.last_active + timeout < now
}

/// How an outbound payload at `now` refreshes an existing session: an
/// established session only sees its activity refreshed, a pending
/// handshake also queues the payload.
pub open spec fn outbound_update(s: Session, payload: u64, now: u64) -> Session {
    match s.phase {
        SessionPhase::Established { key } => Session {
            peer: s.peer,
            phase: s.phase,
            last_active: now,
            queued: s.queued,
        },
        SessionPhase::ChallengeSent { token } => Session {
            peer: s.peer,
            phase: s.phase,
            last_active: now,
            queued: Some(payload),
        },
    }
}

/// What an outbound payload does on the wire for an existing session.
pub open spec fn outbound_action(s: Session, payload: u64) -> SessionAction {
    match s.phase {
        SessionPhase::Established { key } => SessionAction::SendEncrypted { key, payload },
        SessionPhase::ChallengeSent { token } => SessionAction::Queued,
    }
}

/// The session cache: at most `capacity` sessions, one per peer.
pub struct SessionStore {
    pub capacity: usize,
    pub timeout: u64,
    pub sessions: Vec<Session>,
}

impl SessionStore {
    pub open spec fn wf(self) -> bool {
        &&& self.capacity >= 1
        &&& self.sessions@.len() <= self.capacity
        &&& forall|i: int, j: int| 0 <= i < j < self.sessions@.len() ==>
                (#[trigger] self.sessions@[i]).peer != (#[trigger] self.sessions@[j]).peer
    }

    pub open spec fn has_peer(self, peer: NodeId) -> bool {
        exists|i: int| 0 <= i < self.sessions@.len() && (#[trigger] self.sessions@[i]).peer == peer
    }

    pub fn new(capacity: usize, timeout: u64) -> (s: SessionStore)
        requires
            capacity >= 1,
        ensures
            s.wf(),
            s.capacity == capacity,
            s.timeout == timeout,
            s.sessions@.len() == 0,
    {
        SessionStore { capacity, timeout, sessions: Vec::new() }
    }

    fn find_index(&self, peer: NodeId) -> (r: Option<usize>)
        ensures
            r matches Some(i) ==> i < self.sessions@.len() && self.sessions@[i as int].peer == peer,
            r is None ==> !self.has_peer(peer),
    {
        let n = self.sessions.len();
        let mut i: usize = 0;
        while i < n
            invariant
                n == self.sessions@.len(),
                i <= n,
                forall|k: int| 0 <= k < i ==> (#[trigger] self.sessions@[k]).peer != peer,
            decreases n - i,
        {
            if self.sessions[i].peer == peer {
                return Some(i);
            }
            i = i + 1;
        }
        None
    }

    /// Handle an outbound payload for `peer`. An established session
    /// encrypts at once; a pending handshake queues the payload; an unknown
    /// peer starts a fresh handshake with the caller-supplied challenge
    /// token, evicting the least-recently-active session if the cache is
    /// full.
    pub fn on_outbound(&mut self, peer: NodeId, payload: u64, token: u64, now: u64) -> (a: SessionAction)
        requires
            old(self).wf(),
        ensures
            final(self).wf(),
            final(self).capacity == old(self).capacity,
            final(self).timeout == old(self).timeout,
            final(self).has_peer(peer),
            forall|i: int|
                #![trigger old(self).sessions@[i]]
                0 <= i < old(self).sessions@.len() && old(self).sessions@[i].peer == peer ==> a
                    == outbound_action(old(self).sessions@[i], payload) && final(self).sessions@
                    == old(self).sessions@.update(
                    i,
                    outbound_update(old(self).sessions@[i], payload, now),
                ),
            !old(self).has_peer(peer) ==> a == (SessionAction::SendChallenge { token }),
            !old(self).has_peer(peer) && old(self).sessions@.len() < old(self).capacity ==> final(self).sessions@ == old(self).sessions@.push(
                (Session { peer, phase: SessionPhase::ChallengeSent { token }, last_active: now, queued: Some(payload) }),
            ),
            // LRU law: a full cache evicts a least-recently-active session
            !old(self).has_peer(peer) && old(self).sessions@.len() == old(self).capacity
                ==> exists|j: int|
                0 <= j < old(self).sessions@.len() && (forall|k: int|
                    0 <= k < old(self).sessions@.len() ==> (#[trigger] old(
                        self,
                    ).sessions@[k]).last_active >= old(self).sessions@[j].last_active) && final(self).sessions@ == old(self).sessions@.remove(j).push(
                    (Session { peer, phase: SessionPhase::ChallengeSent { token }, last_active: now, queued: Some(payload) }),
                ),
    {
        match self.find_index(peer) {
            Some(i) => {
                let s = self.sessions[i];
                match s.phase {
                    SessionPhase::Established { key } => {
                        self.sessions.set(
                            i,
                            Session { peer, phase: s.phase, last_active: now, queued: s.queued },
                        );
                        proof {
                            assert(self.sessions@[i as int].peer == peer);
                        }
                        SessionAction::SendEncrypted { key, payload }
                    },
                    SessionPhase::ChallengeSent { .. } => {
                        self.sessions.set(
                            i,
                            Session { peer, phase: s.phase, last_active: now, queued: Some(payload) },
                        );
                        proof {
                            assert(self.sessions@[i as int].peer == peer);
                        }
                        SessionAction::Queued
                    },
                }
            },
            None => {
                let fresh = Session {
                    peer,
                    phase: SessionPhase::ChallengeSent { token },
                    last_active: now,
                    queued: Some(payload),
                };
                if self.sessions.len() == self.capacity {
                    // find a least-recently-active session
                    let mut m: usize = 0;
                    let mut k: usize = 1;
                    while k < self.sessions.len()
                        invariant
                            0 < self.sessions@.len(),
                            m < k,
                            k <= self.sessions@.len(),
                            forall|t: int|
                                0 <= t < k ==> (#[trigger] self.sessions@[t]).last_active
                                    >= self.sessions@[m as int].last_active,
                        decreases self.sessions@.len() - k,
                    {
                        if self.sessions[k].last_active < self.sessions[m].last_active {
                            m = k;
                        }
                        k = k + 1;
                    }
                    let ghost olds = self.sessions@;
                    let ghost mm = m as int;
                    self.sessions.remove(m);
                    self.sessions.push(fresh);
                    proof {
                        assert(self.sessions@ == olds.remove(mm).push(fresh));
                        assert forall|i: int, j: int|
                            0 <= i < j < self.sessions@.len() implies (#[trigger] self.sessions@[i]).peer
                            != (#[trigger] self.sessions@[j]).peer by {
                            if j < self.sessions@.len() - 1 {
                                let i0: int = if i < mm {
                                    i
                                } else {
                                    i + 1
                                };
                                let j0: int = if j < mm {
                                    j
                                } else {
                                    j + 1
                                };
                                assert(self.sessions@[i] == olds[i0]);
                                assert(self.sessions@[j] == olds[j0]);
                            } else {
                                let i0: int = if i < mm {
                                    i
                                } else {
                                    i + 1
                                };
                                assert(self.sessions@[i] == olds[i0]);
                                assert(!old(self).has_peer(peer));
                            }
                        }
                    }
                } else {
                    self.sessions.push(fresh);
                }
                proof {
                    assert(self.sessions@[self.sessions@.len() - 1].peer == peer);
                }
                SessionAction::SendChallenge { token }
            },
        }
    }

    /// Complete the handshake for `peer`: the session becomes established
    /// under `key` and any queued payload is handed back for sending. A
    /// peer with no pending handshake is ignored.
    pub fn on_handshake_complete(&mut self, peer: NodeId, key: u64, now: u64) -> (r: Option<u64>)
        requires
            old(self).wf(),
        ensures
            final(self).wf(),
            final(self).capacity == old(self).capacity,
            final(self).timeout == old(self).timeout,
            !old(self).has_peer(peer) ==> r is None && *final(self) == *old(self),
            forall|i: int|
                #![trigger old(self).sessions@[i]]
                0 <= i < old(self).sessions@.len() && old(self).sessions@[i].peer == peer ==> {
                    &&& (old(self).sessions@[i].phase is ChallengeSent ==> r == old(
                        self,
                    ).sessions@[i].queued && final(self).sessions@ == old(self).sessions@.update(
                        i,
                        (Session {
                            peer,
                            phase: SessionPhase::Established { key },
                            last_active: now,
                            queued: None,
                        }),
                    ))
                    &&& (old(self).sessions@[i].phase is Established ==> r is None && *final(self)
                        == *old(self))
                },
    {
        match self.find_index(peer) {
            Some(i) => {
                let s = self.sessions[i];
                match s.phase {
                    SessionPhase::ChallengeSent { .. } => {
                        self.sessions.set(
                            i,
                            Session {
                                peer,
                                phase: SessionPhase::Established { key },
                                last_active: now,
                                queued: None,
                            },
                        );
                        s.queued
                    },
                    SessionPhase::Established { .. } => None,
                }
            },
            None => None,
        }
    }

    /// Record traffic from `peer` at `now`.
    pub fn touch(&mut self, peer: NodeId, now: u64) -> (found: bool)
        requires
            old(self).wf(),
        ensures
            final(self).wf(),
            final(self).capacity == old(self).capacity,
            final(self).timeout == old(self).timeout,
            found <==> old(self).has_peer(peer),
            !found ==> *final(self) == *old(self),
            forall|i: int|
                #![trigger old(self).sessions@[i]]
                0 <= i < old(self).sessions@.len() && old(self).sessions@[i].peer == peer ==> final(self).sessions@ == old(self).sessions@.update(
                    i,
                    (Session {
                        peer,
                        phase: old(self).sessions@[i].phase,
                        last_active: now,
                        queued: old(self).sessions@[i].queued,
                    }),
                ),
    {
        match self.find_index(peer) {
            Some(i) => {
                let s = self.sessions[i];
                self.sessions.set(
                    i,
                    Session { peer, phase: s.phase, last_active: now, queued: s.queued },
                );
                true
            },
            None => false,
        }
    }

    /// Evict every session that has been inactive for longer than the
    /// session timeout. An evicted peer's next message finds no session and
    /// restarts its handshake from scratch.
    pub fn sweep(&mut self, now: u64)
        requires
            old(self).wf(),
        ensures
            final(self).wf(),
            final(self).capacity == old(self).capacity,
            final(self).timeout == old(self).timeout,
            // nothing expired survives
            forall|k: int| 0 <= k < final(self).sessions@.len() ==> !spec_expired(
                #[trigger] final(self).sessions@[k],
                old(self).timeout,
                now,
            ),
            // an expired peer is gone entirely
            forall|j: int|
                0 <= j < old(self).sessions@.len() && spec_expired(
                    #[trigger] old(self).sessions@[j],
                    old(self).timeout,
                    now,
                ) ==> !final(self).has_peer(old(self).sessions@[j].peer),
            // every unexpired session survives unchanged
            forall|j: int|
                0 <= j < old(self).sessions@.len() && !spec_expired(
                    #[trigger] old(self).sessions@[j],
                    old(self).timeout,
                    now,
                ) ==> final(self).sessions@.contains(old(self).sessions@[j]),
            // nothing new appears
            forall|k: int| 0 <= k < final(self).sessions@.len() ==> old(self).sessions@.contains(
                #[trigger] final(self).sessions@[k],
            ),
    {
        let n = self.sessions.len();
        let mut kept: Vec<Session> = Vec::new();
        let mut i: usize = 0;
        while i < n
            invariant
                n == self.sessions@.len(),
                i <= n,
                kept@.len() <= i,
                forall|x: int, y: int| 0 <= x < y < self.sessions@.len() ==>
                    (#[trigger] self.sessions@[x]).peer != (#[trigger] self.sessions@[y]).peer,
                forall|k: int| 0 <= k < kept@.len() ==> exists|j: int|
                    0 <= j < i && self.sessions@[j] == #[trigger] kept@[k],
                forall|a: int, b: int| 0 <= a < b < kept@.len() ==> (#[trigger] kept@[a]).peer != (
                #[trigger] kept@[b]).peer,
                forall|k: int| 0 <= k < kept@.len() ==> !spec_expired(
                    #[trigger] kept@[k],
                    self.timeout,
                    now,
                ),
                forall|j: int|
                    0 <= j < i && !spec_expired(#[trigger] self.sessions@[j], self.timeout, now)
                        ==> kept@.contains(self.sessions@[j]),
            decreases n - i,
        {
            let s = self.sessions[i];
            let expired = now > s.last_active && now - s.last_active > self.timeout;
            let ghost oldkept = kept@;
            if !expired {
                kept.push(s);
            }
            proof {
                assert forall|j: int|
                    0 <= j < i + 1 && !spec_expired(#[trigger] self.sessions@[j], self.timeout, now)
                        implies kept@.contains(self.sessions@[j]) by {
                    if j < i {
                        let w = choose|w: int| 0 <= w < oldkept.len() && oldkept[w]
                            == self.sessions@[j];
                        assert(kept@[w] == self.sessions@[j]);
                    } else {
                        assert(kept@[kept@.len() - 1] == self.sessions@[j]);
                    }
                }
                if !spec_expired(s, self.timeout, now) {
                    assert forall|a: int, b: int|
                        0 <= a < b < kept@.len() implies (#[trigger] kept@[a]).peer != (
                    #[trigger] kept@[b]).peer by {
                        if b == kept@.len() - 1 {
                            assert(kept@[a] == oldkept[a]);
                            assert(kept@[b] == s);
                            assert(exists|j: int| 0 <= j < i && self.sessions@[j] == oldkept[a]);
                            let w = choose|w: int| 0 <= w < i && self.sessions@[w] == oldkept[a];
                            assert(self.sessions@[w].peer != self.sessions@[i as int].peer);
                        }
                    }
                }
            }
            i = i + 1;
        }
        let ghost olds = self.sessions@;
        self.sessions = kept;
        proof {
            assert forall|j: int|
                0 <= j < olds.len() && spec_expired(#[trigger] olds[j], self.timeout, now)
                    implies !self.has_peer(olds[j].peer) by {
                if self.has_peer(olds[j].peer) {
                    let k = choose|k: int|
                        0 <= k < self.sessions@.len() && self.sessions@[k].peer == olds[j].peer;
                    assert(!spec_expired(self.sessions@[k], self.timeout, now));
                    let w = choose|w: int| 0 <= w < olds.len() && olds[w] == self.sessions@[k];
                    assert(w != j);
                    assert(olds[w].peer != olds[j].peer);
                }
            }
        }
    }

    /// How many sessions the cache holds.
    pub fn len(&self) -> (n: usize)
        ensures
            n == self.sessions@.len(),
    {
        self.sessions.len()
    }
}

} // verus!
