//! External-address discovery: peers vote on what our address looks like
//! from outside; enough agreeing votes update the advertised record, and a
//! listen window afterwards decides whether we are reachable at all.

use vstd::prelude::*;
use crate::ident::NodeId;
use crate::counting::{count_matching, lemma_count_matching_take_step};

verus! {

/// An external IPv4 address and port as a peer reported seeing us.
#[derive(Clone, Copy, PartialEq, Eq, Structural, Debug)]
pub struct SocketAddress {
    pub ip: u32,
    pub port: u16,
}

/// One peer's latest vote on our external address; stale votes are ignored
/// once `expires` has passed.
#[derive(Clone, Copy, PartialEq, Eq, Structural, Debug)]
pub struct Vote {
    pub peer: NodeId,
    pub addr: SocketAddress,
    pub expires: u64,
}

/// Where the advertisement stands.
#[derive(Clone, Copy, PartialEq, Eq, Structural, Debug)]
pub enum AdvertState {
    /// Nothing advertised, free to advertise on the next quorum.
    Idle,
    /// An address went out; waiting for an incoming connection until then.
    Listening { until: u64 },
    /// An incoming connection arrived: we are contactable.
    Contactable,
    /// No incoming connection came: advertisement retracted until then.
    Retracted { until: u64 },
}

/// `a + b`, stopping at the top of the range.
pub open spec fn sat_add(a: u64, b: u64) -> u64 {
    if a + b <= u64::MAX {
        (a + b) as u64
    } else {
        u64::MAX
    }
}

fn sat_add_exec(a: u64, b: u64) -> (r: u64)
    ensures
        r == sat_add(a, b),
{
    if b <= u64::MAX - a {
        a + b
    } else {
        u64::MAX
    }
}

/// Membership test for live votes on one address.
pub open spec fn vote_pred(addr: SocketAddress, now: u64) -> spec_fn(Vote) -> bool {
    |v: Vote| v.addr == addr && v.expires > now
}

/// Watches votes and drives the advertisement state machine.
pub struct ReachabilityMonitor {
    /// How long one vote stays live.
    pub vote_window: u64,
    /// Distinct agreeing peers needed before the record is updated.
    pub min_votes: usize,
    /// Whether record updates are enabled at all.
    pub enr_update: bool,
    /// How long to listen for an incoming connection after advertising;
    /// `None` advertises unconditionally and never retracts.
    pub listen_duration: Option<u64>,
    /// How long a retracted advertisement stays down before a retry.
    pub cooldown: u64,
    pub votes: Vec<Vote>,
    /// The advertised external address of the local record, if any.
    pub current: Option<SocketAddress>,
    pub state: AdvertState,
}

impl ReachabilityMonitor {
    pub open spec fn wf(self) -> bool {
        &&& self.min_votes >= 1
        &&& forall|i: int, j: int| 0 <= i < j < self.votes@.len() ==>
            (#[trigger] self.votes@[i]).peer != (#[trigger] self.votes@[j]).peer
    }

    /// How many distinct peers hold a live vote for `addr` at `now`.
    pub open spec fn votes_for(self, addr: SocketAddress, now: u64) -> int {
        count_matching(self.votes@, vote_pred(addr, now))
    }

    pub open spec fn has_voter(self, peer: NodeId) -> bool {
        exists|i: int| 0 <= i < self.votes@.len() && (#[trigger] self.votes@[i]).peer == peer
    }

    pub fn new(
        vote_window: u64,
        min_votes: usize,
        enr_update: bool,
        listen_duration: Option<u64>,
        cooldown: u64,
    ) -> (m: ReachabilityMonitor)
        requires
            min_votes >= 1,
        ensures
            m.wf(),
            m.vote_window == vote_window,
            m.min_votes == min_votes,
            m.enr_update == enr_update,
            m.listen_duration == listen_duration,
            m.cooldown == cooldown,
            m.votes@.len() == 0,
            m.current is None,
            m.state is Idle,
    {
        ReachabilityMonitor {
            vote_window,
            min_votes,
            enr_update,
            listen_duration,
            cooldown,
            votes: Vec::new(),
            current: None,
            state: AdvertState::Idle,
        }
    }

    fn find_index(&self, peer: NodeId) -> (r: Option<usize>)
        ensures
            r matches Some(i) ==> i < self.votes@.len() && self.votes@[i as int].peer == peer,
            r is None ==> !self.has_voter(peer),
    {
        let n = self.votes.len();
        let mut i: usize = 0;
        while i < n
            invariant
                n == self.votes@.len(),
                i <= n,
                forall|k: int| 0 <= k < i ==> (#[trigger] self.votes@[k]).peer != peer,
            decreases n - i,
        {
            if self.votes[i].peer == peer {
                return Some(i);
            }
            i = i + 1;
        }
        None
    }

    fn count_votes(&self, addr: SocketAddress, now: u64) -> (n: usize)
        ensures
            n as int == self.votes_for(addr, now),
    {
        let ghost p = vote_pred(addr, now);
        let len = self.votes.len();
        let mut n: usize = 0;
        let mut i: usize = 0;
        proof {
            assert(self.votes@.take(0) =~= Seq::<Vote>::empty());
        }
        while i < len
            invariant
                len == self.votes@.len(),
                i <= len,
                n <= i,
                p == vote_pred(addr, now),
                n as int == count_matching(self.votes@.take(i as int), p),
            decreases len - i,
        {
            let v = self.votes[i];
            proof {
                lemma_count_matching_take_step(self.votes@, p, i as int);
            }
            if v.addr.ip == addr.ip && v.addr.port == addr.port && v.expires > now {
                n = n + 1;
            }
            i = i + 1;
        }
        proof {
            assert(self.votes@.take(len as int) =~= self.votes@);
        }
        n
    }

    /// Record `peer`'s vote that our external address is `addr`. The
    /// peer's previous vote, if any, is replaced: one peer, one vote. When
    /// at least `min_votes` distinct peers hold a live vote for `addr`,
    /// updates are enabled, and `addr` is not already advertised, the
    /// record is updated to `addr` — exactly once, since a repeat of the
    /// same quorum finds `addr` already advertised.
    pub fn on_vote(&mut self, peer: NodeId, addr: SocketAddress, now: u64) -> (updated: bool)
        requires
            old(self).wf(),
        ensures
            final(self).wf(),
            final(self).vote_window == old(self).vote_window,
            final(self).min_votes == old(self).min_votes,
            final(self).enr_update == old(self).enr_update,
            final(self).listen_duration == old(self).listen_duration,
            final(self).cooldown == old(self).cooldown,
            // the vote book: replace the peer's vote or add a first one
            forall|i: int|
                #![trigger old(self).votes@[i]]
                0 <= i < old(self).votes@.len() && old(self).votes@[i].peer == peer ==> final(self).votes@ == old(self).votes@.update(
                    i,
                    (Vote { peer, addr, expires: sat_add(now, old(self).vote_window) }),
                ),
            !old(self).has_voter(peer) ==> final(self).votes@ == old(self).votes@.push(
                (Vote { peer, addr, expires: sat_add(now, old(self).vote_window) }),
            ),
            // quorum law: updated exactly when a quorum agrees on a new address
            updated <==> final(self).votes_for(addr, now) >= old(self).min_votes && old(self).enr_update && old(self).current != Some(addr),
            updated ==> final(self).current == Some(addr),
            updated ==> (match old(self).listen_duration {
                Some(d) => final(self).state == (AdvertState::Listening {
                    until: sat_add(now, d),
                }),
                None => final(self).state is Contactable,
            }),
            !updated ==> final(self).current == old(self).current && final(self).state == old(self).state,
    {
        let expires = sat_add_exec(now, self.vote_window);
        match self.find_index(peer) {
            Some(i) => {
                self.votes.set(i, Vote { peer, addr, expires });
            },
            None => {
                self.votes.push(Vote { peer, addr, expires });
            },
        }
        let live = self.count_votes(addr, now);
        let already = match &self.current {
            Some(c) => c.ip == addr.ip && c.port == addr.port,
            None => false,
        };
        if live >= self.min_votes && self.enr_update && !already {
            self.current = Some(addr);
            self.state = match self.listen_duration {
                Some(d) => AdvertState::Listening { until: sat_add_exec(now, d) },
                None => AdvertState::Contactable,
            };
            true
        } else {
            false
        }
    }

    /// An incoming connection proves we are contactable: the listen window
    /// is satisfied.
    pub fn on_incoming(&mut self, now: u64)
        requires
            old(self).wf(),
        ensures
            final(self).wf(),
            old(self).state is Listening ==> final(self).state is Contactable,
            !(old(self).state is Listening) ==> *final(self) == *old(self),
            final(self).votes@ == old(self).votes@,
            final(self).current == old(self).current,
            final(self).vote_window == old(self).vote_window,
            final(self).min_votes == old(self).min_votes,
            final(self).enr_update == old(self).enr_update,
            final(self).listen_duration == old(self).listen_duration,
            final(self).cooldown == old(self).cooldown,
    {
        match self.state {
            AdvertState::Listening { .. } => {
                self.state = AdvertState::Contactable;
            },
            _ => {},
        }
    }

    /// Drive the timers: a listen window that lapses with no incoming
    /// connection retracts the advertisement for the cooldown; a lapsed
    /// cooldown frees the monitor to advertise again. Returns whether the
    /// advertisement was retracted by this tick.
    pub fn tick(&mut self, now: u64) -> (retracted: bool)
        requires
            old(self).wf(),
        ensures
            final(self).wf(),
            final(self).votes@ == old(self).votes@,
            final(self).vote_window == old(self).vote_window,
            final(self).min_votes == old(self).min_votes,
            final(self).enr_update == old(self).enr_update,
            final(self).listen_duration == old(self).listen_duration,
            final(self).cooldown == old(self).cooldown,
            retracted <==> (old(self).state matches AdvertState::Listening { until } && now
                > until),
            retracted ==> final(self).current is None && final(self).state == (
            AdvertState::Retracted { until: sat_add(now, old(self).cooldown) }),
            old(self).state matches AdvertState::Retracted { until } && now > until ==> final(self).state is Idle && final(self).current == old(self).current,
            !retracted && !(old(self).state matches AdvertState::Retracted { until } && now
                > until) ==> *final(self) == *old(self),
    {
        match self.state {
            AdvertState::Listening { until } => {
                if now > until {
                    self.current = None;
                    self.state = AdvertState::Retracted { until: sat_add_exec(now, self.cooldown) };
                    true
                } else {
                    false
                }
            },
            AdvertState::Retracted { until } => {
                if now > until {
                    self.state = AdvertState::Idle;
                }
                false
            },
            _ => false,
        }
    }
}

} // verus!
