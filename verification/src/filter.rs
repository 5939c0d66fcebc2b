//! The inbound abuse filter: permit and ban lists, fixed-window rate
//! limiting at three granularities, strike-based bans, and banning an IP
//! once enough distinct node identities behind it have been banned.

use vstd::prelude::*;
use crate::ident::NodeId;

verus! {

/// Whether to let an inbound packet through.
#[derive(Clone, Copy, PartialEq, Eq, Structural, Debug)]
pub enum Decision {
    Admit,
    Drop,
}

/// A rate: at most `limit` packets per `window` of time.
#[derive(Clone, Copy, PartialEq, Eq, Structural, Debug)]
pub struct RateQuota {
    pub limit: u64,
    pub window: u64,
}

/// A fixed-window counter: packets seen since the window opened.
#[derive(Clone, Copy, PartialEq, Eq, Structural, Debug)]
pub struct WindowCount {
    pub window_start: u64,
    pub count: u64,
}

/// A counter that has never seen a packet.
pub open spec fn fresh_count() -> WindowCount {
    WindowCount { window_start: 0, count: 0 }
}

/// One packet arrives at `now`: the window rolls over when it has lapsed,
/// otherwise the packet is counted while the quota lasts and refused once
/// it is spent.
pub open spec fn spec_rate_step(c: WindowCount, q: RateQuota, now: u64) -> (WindowCount, bool) {
    if now >= c.window_start + q.window {
        (WindowCount { window_start: now, count: 1 }, true)
    } else if c.count < q.limit {
        (WindowCount { window_start: c.window_start, count: (c.count + 1) as u64 }, true)
    } else {
        (c, false)
    }
}

fn rate_step(c: WindowCount, q: RateQuota, now: u64) -> (r: (WindowCount, bool))
    ensures
        r == spec_rate_step(c, q, now),
{
    if now >= c.window_start && now - c.window_start >= q.window {
        (WindowCount { window_start: now, count: 1 }, true)
    } else if c.count < q.limit {
        (WindowCount { window_start: c.window_start, count: c.count + 1 }, true)
    } else {
        (c, false)
    }
}

/// A ban with an optional expiry; `None` is a permanent ban.
pub open spec fn ban_active(expiry: Option<u64>, now: u64) -> bool {
    match expiry {
        None => true,
        Some(e) => e > now,
    }
}

/// Force lists: bans take precedence over permits, permits over counters.
#[derive(Clone, PartialEq, Eq, Debug)]
pub struct PermitBanList {
    pub permit_ips: Vec<u32>,
    pub permit_nodes: Vec<u64>,
    pub ban_ips: Vec<(u32, Option<u64>)>,
    pub ban_nodes: Vec<(u64, Option<u64>)>,
}

impl PermitBanList {
    pub open spec fn ip_permitted(self, ip: u32) -> bool {
        self.permit_ips@.contains(ip)
    }

    pub open spec fn node_permitted(self, node: u64) -> bool {
        self.permit_nodes@.contains(node)
    }

    pub open spec fn ip_banned(self, ip: u32, now: u64) -> bool {
        exists|i: int|
            0 <= i < self.ban_ips@.len() && (#[trigger] self.ban_ips@[i]).0 == ip && ban_active(
                self.ban_ips@[i].1,
                now,
            )
    }

    pub open spec fn node_banned(self, node: u64, now: u64) -> bool {
        exists|i: int|
            0 <= i < self.ban_nodes@.len() && (#[trigger] self.ban_nodes@[i]).0 == node
                && ban_active(self.ban_nodes@[i].1, now)
    }

    pub fn new() -> (r: PermitBanList)
        ensures
            r.permit_ips@.len() == 0,
            r.permit_nodes@.len() == 0,
            r.ban_ips@.len() == 0,
            r.ban_nodes@.len() == 0,
    {
        PermitBanList {
            permit_ips: Vec::new(),
            permit_nodes: Vec::new(),
            ban_ips: Vec::new(),
            ban_nodes: Vec::new(),
        }
    }

    fn is_ip_permitted(&self, ip: u32) -> (b: bool)
        ensures
            b == self.ip_permitted(ip),
    {
        let n = self.permit_ips.len();
        let mut i: usize = 0;
        while i < n
            invariant
                n == self.permit_ips@.len(),
                i <= n,
                forall|k: int| 0 <= k < i ==> self.permit_ips@[k] != ip,
            decreases n - i,
        {
            if self.permit_ips[i] == ip {
                return true;
            }
            i = i + 1;
        }
        false
    }

    fn is_node_permitted(&self, node: u64) -> (b: bool)
        ensures
            b == self.node_permitted(node),
    {
        let n = self.permit_nodes.len();
        let mut i: usize = 0;
        while i < n
            invariant
                n == self.permit_nodes@.len(),
                i <= n,
                forall|k: int| 0 <= k < i ==> self.permit_nodes@[k] != node,
            decreases n - i,
        {
            if self.permit_nodes[i] == node {
                return true;
            }
            i = i + 1;
        }
        false
    }

    fn is_ip_banned(&self, ip: u32, now: u64) -> (b: bool)
        ensures
            b == self.ip_banned(ip, now),
    {
        let n = self.ban_ips.len();
        let mut i: usize = 0;
        while i < n
            invariant
                n == self.ban_ips@.len(),
                i <= n,
                forall|k: int|
                    0 <= k < i ==> !((#[trigger] self.ban_ips@[k]).0 == ip && ban_active(
                        self.ban_ips@[k].1,
                        now,
                    )),
            decreases n - i,
        {
            let (bip, expiry) = self.ban_ips[i];
            if bip == ip {
                match expiry {
                    None => { return true; },
                    Some(e) => {
                        if e > now {
                            return true;
                        }
                    },
                }
            }
            i = i + 1;
        }
        false
    }

    fn is_node_banned(&self, node: u64, now: u64) -> (b: bool)
        ensures
            b == self.node_banned(node, now),
    {
        let n = self.ban_nodes.len();
        let mut i: usize = 0;
        while i < n
            invariant
                n == self.ban_nodes@.len(),
                i <= n,
                forall|k: int|
                    0 <= k < i ==> !((#[trigger] self.ban_nodes@[k]).0 == node && ban_active(
                        self.ban_nodes@[k].1,
                        now,
                    )),
            decreases n - i,
        {
            let (bn, expiry) = self.ban_nodes[i];
            if bn == node {
                match expiry {
                    None => { return true; },
                    Some(e) => {
                        if e > now {
                            return true;
                        }
                    },
                }
            }
            i = i + 1;
        }
        false
    }
}

/// The three-level rate limiter: a total quota, and optional per-node and
/// per-IP quotas.
#[derive(Clone, PartialEq, Eq, Debug)]
pub struct RateLimiter {
    pub total_quota: RateQuota,
    pub node_quota: Option<RateQuota>,
    pub ip_quota: Option<RateQuota>,
    pub total: WindowCount,
    pub node_counts: Vec<(u64, WindowCount)>,
    pub ip_counts: Vec<(u32, WindowCount)>,
}

/// The error of building a rate limiter without its total quota.
#[derive(Clone, Copy, PartialEq, Eq, Structural, Debug)]
pub enum RateLimiterError {
    TotalRateMissing,
}

/// Builds a `RateLimiter`; the total quota is mandatory.
#[derive(Clone, Copy, PartialEq, Eq, Structural, Debug)]
pub struct RateLimiterBuilder {
    pub total: Option<RateQuota>,
    pub node: Option<RateQuota>,
    pub ip: Option<RateQuota>,
}

impl RateLimiterBuilder {
    pub fn new() -> (r: RateLimiterBuilder)
        ensures
            r.total is None,
            r.node is None,
            r.ip is None,
    {
        RateLimiterBuilder { total: None, node: None, ip: None }
    }

    /// Allow at most `n` packets in all per `every` of time.
    pub fn total_n_every(self, n: u64, every: u64) -> (r: RateLimiterBuilder)
        ensures
            r == (RateLimiterBuilder {
                total: Some(RateQuota { limit: n, window: every }),
                ..self
            }),
    {
        RateLimiterBuilder { total: Some(RateQuota { limit: n, window: every }), ..self }
    }

    /// Allow at most `n` packets per node per `every` of time.
    pub fn node_n_every(self, n: u64, every: u64) -> (r: RateLimiterBuilder)
        ensures
            r == (RateLimiterBuilder {
                node: Some(RateQuota { limit: n, window: every }),
                ..self
            }),
    {
        RateLimiterBuilder { node: Some(RateQuota { limit: n, window: every }), ..self }
    }

    /// Allow at most `n` packets per source IP per `every` of time.
    pub fn ip_n_every(self, n: u64, every: u64) -> (r: RateLimiterBuilder)
        ensures
            r == (RateLimiterBuilder { ip: Some(RateQuota { limit: n, window: every }), ..self }),
    {
        RateLimiterBuilder { ip: Some(RateQuota { limit: n, window: every }), ..self }
    }

    /// Succeeds exactly when the total quota was specified.
    pub fn build(self) -> (r: Result<RateLimiter, RateLimiterError>)
        ensures
            self.total matches Some(t) ==> r matches Ok(l) && l.total_quota == t && l.node_quota
                == self.node && l.ip_quota == self.ip && l.total == fresh_count()
                && l.node_counts@.len() == 0 && l.ip_counts@.len() == 0,
            self.total is None ==> r == Err::<RateLimiter, RateLimiterError>(
                RateLimiterError::TotalRateMissing,
            ),
    {
        match self.total {
            Some(t) => Ok(
                RateLimiter {
                    total_quota: t,
                    node_quota: self.node,
                    ip_quota: self.ip,
                    total: WindowCount { window_start: 0, count: 0 },
                    node_counts: Vec::new(),
                    ip_counts: Vec::new(),
                },
            ),
            None => Err(RateLimiterError::TotalRateMissing),
        }
    }
}

impl RateLimiter {
    /// The per-node counter, a fresh one for a node never seen.
    pub open spec fn node_counter(self, node: u64) -> WindowCount {
        match assoc_get(self.node_counts@, node) {
            Some(c) => c,
            None => fresh_count(),
        }
    }

    /// The per-IP counter, a fresh one for an address never seen.
    pub open spec fn ip_counter(self, ip: u32) -> WindowCount {
        match assoc_get(self.ip_counts@, ip) {
            Some(c) => c,
            None => fresh_count(),
        }
    }

    pub open spec fn wf(self) -> bool {
        &&& forall|i: int, j: int| 0 <= i < j < self.node_counts@.len() ==>
            (#[trigger] self.node_counts@[i]).0 != (#[trigger] self.node_counts@[j]).0
        &&& forall|i: int, j: int| 0 <= i < j < self.ip_counts@.len() ==>
            (#[trigger] self.ip_counts@[i]).0 != (#[trigger] self.ip_counts@[j]).0
    }

    /// Whether one packet from `node` at `ip` passes all three quotas at
    /// `now`, given the current counters.
    pub open spec fn spec_allows(self, ip: u32, node: u64, now: u64) -> bool {
        &&& spec_rate_step(self.total, self.total_quota, now).1
        &&& (self.node_quota matches Some(q) ==> spec_rate_step(
            self.node_counter(node),
            q,
            now,
        ).1)
        &&& (self.ip_quota matches Some(q) ==> spec_rate_step(self.ip_counter(ip), q, now).1)
    }

    fn node_index(&self, node: u64) -> (r: Option<usize>)
        ensures
            r matches Some(i) ==> i < self.node_counts@.len() && self.node_counts@[i as int].0
                == node,
            r is None ==> forall|i: int|
                0 <= i < self.node_counts@.len() ==> (#[trigger] self.node_counts@[i]).0 != node,
    {
        let n = self.node_counts.len();
        let mut i: usize = 0;
        while i < n
            invariant
                n == self.node_counts@.len(),
                i <= n,
                forall|k: int| 0 <= k < i ==> (#[trigger] self.node_counts@[k]).0 != node,
            decreases n - i,
        {
            if self.node_counts[i].0 == node {
                return Some(i);
            }
            i = i + 1;
        }
        None
    }

    fn ip_index(&self, ip: u32) -> (r: Option<usize>)
        ensures
            r matches Some(i) ==> i < self.ip_counts@.len() && self.ip_counts@[i as int].0 == ip,
            r is None ==> forall|i: int|
                0 <= i < self.ip_counts@.len() ==> (#[trigger] self.ip_counts@[i]).0 != ip,
    {
        let n = self.ip_counts.len();
        let mut i: usize = 0;
        while i < n
            invariant
                n == self.ip_counts@.len(),
                i <= n,
                forall|k: int| 0 <= k < i ==> (#[trigger] self.ip_counts@[k]).0 != ip,
            decreases n - i,
        {
            if self.ip_counts[i].0 == ip {
                return Some(i);
            }
            i = i + 1;
        }
        None
    }

    /// Count one packet from `node` at `ip` against all three quotas and
    /// say whether every quota admitted it. Each level's counter advances
    /// by its own rule, so a packet refused at one level still counts at
    /// the others.
    pub fn allows(&mut self, ip: u32, node: u64, now: u64) -> (admitted: bool)
        requires
            old(self).wf(),
        ensures
            final(self).wf(),
            final(self).total_quota == old(self).total_quota,
            final(self).node_quota == old(self).node_quota,
            final(self).ip_quota == old(self).ip_quota,
            admitted == old(self).spec_allows(ip, node, now),
            final(self).total == spec_rate_step(old(self).total, old(self).total_quota, now).0,
            old(self).node_quota matches Some(q) ==> final(self).node_counter(node)
                == spec_rate_step(old(self).node_counter(node), q, now).0,
            old(self).ip_quota matches Some(q) ==> final(self).ip_counter(ip) == spec_rate_step(
                old(self).ip_counter(ip),
                q,
                now,
            ).0,
            old(self).node_quota is None ==> final(self).node_counts@ == old(self).node_counts@,
            old(self).ip_quota is None ==> final(self).ip_counts@ == old(self).ip_counts@,
            forall|n2: u64| n2 != node ==> final(self).node_counter(n2) == old(self).node_counter(n2),
            forall|ip2: u32| ip2 != ip ==> final(self).ip_counter(ip2) == old(self).ip_counter(
                ip2,
            ),
    {
        let (t2, total_ok) = rate_step(self.total, self.total_quota, now);
        self.total = t2;
        let node_ok = match self.node_quota {
            Some(q) => {
                match self.node_index(node) {
                    Some(i) => {
                        let ghost olds = self.node_counts@;
                        proof {
                            let a = choose|a: int| 0 <= a < olds.len() && (#[trigger] olds[a]).0
                                == node;
                            if a != i as int {
                                assert(olds[a].0 == olds[i as int].0);
                            }
                            assert(assoc_get(olds, node) == Some(olds[i as int].1));
                        }
                        let (c2, ok) = rate_step(self.node_counts[i].1, q, now);
                        self.node_counts.set(i, (node, c2));
                        proof {
                            lemma_assoc_get_update(olds, self.node_counts@, i as int, node, c2);
                        }
                        ok
                    },
                    None => {
                        let ghost olds = self.node_counts@;
                        proof {
                            // the probe found no slot for this key, so a
                            // chosen witness would contradict it
                            if exists|a: int| 0 <= a < olds.len() && (#[trigger] olds[a]).0
                                == node {
                                let a = choose|a: int| 0 <= a < olds.len() && (
                                #[trigger] olds[a]).0 == node;
                            }
                            assert(assoc_get(olds, node) is None);
                        }
                        let (c2, ok) = rate_step(
                            WindowCount { window_start: 0, count: 0 },
                            q,
                            now,
                        );
                        self.node_counts.push((node, c2));
                        proof {
                            lemma_assoc_get_push(olds, self.node_counts@, node, c2);
                        }
                        ok
                    },
                }
            },
            None => true,
        };
        let ip_ok = match self.ip_quota {
            Some(q) => {
                match self.ip_index(ip) {
                    Some(i) => {
                        let ghost olds = self.ip_counts@;
                        proof {
                            let a = choose|a: int| 0 <= a < olds.len() && (#[trigger] olds[a]).0
                                == ip;
                            if a != i as int {
                                assert(olds[a].0 == olds[i as int].0);
                            }
                            assert(assoc_get(olds, ip) == Some(olds[i as int].1));
                        }
                        let (c2, ok) = rate_step(self.ip_counts[i].1, q, now);
                        self.ip_counts.set(i, (ip, c2));
                        proof {
                            lemma_assoc_get_update(olds, self.ip_counts@, i as int, ip, c2);
                        }
                        ok
                    },
                    None => {
                        let ghost olds = self.ip_counts@;
                        proof {
                            // the probe found no slot for this key, so a
                            // chosen witness would contradict it
                            if exists|a: int| 0 <= a < olds.len() && (#[trigger] olds[a]).0
                                == ip {
                                let a = choose|a: int| 0 <= a < olds.len() && (
                                #[trigger] olds[a]).0 == ip;
                            }
                            assert(assoc_get(olds, ip) is None);
                        }
                        let (c2, ok) = rate_step(
                            WindowCount { window_start: 0, count: 0 },
                            q,
                            now,
                        );
                        self.ip_counts.push((ip, c2));
                        proof {
                            lemma_assoc_get_push(olds, self.ip_counts@, ip, c2);
                        }
                        ok
                    },
                }
            },
            None => true,
        };
        total_ok && node_ok && ip_ok
    }
}


pub open spec fn assoc_counter_u64(s: Seq<(u64, WindowCount)>, k: u64) -> WindowCount {
    if exists|i: int| 0 <= i < s.len() && (#[trigger] s[i]).0 == k {
        s[choose|i: int| 0 <= i < s.len() && (#[trigger] s[i]).0 == k].1
    } else {
        fresh_count()
    }
}

pub open spec fn assoc_counter_u32(s: Seq<(u32, WindowCount)>, k: u32) -> WindowCount {
    if exists|i: int| 0 <= i < s.len() && (#[trigger] s[i]).0 == k {
        s[choose|i: int| 0 <= i < s.len() && (#[trigger] s[i]).0 == k].1
    } else {
        fresh_count()
    }
}

/// The value stored under key `k`, if any.
pub open spec fn assoc_get<K, V>(s: Seq<(K, V)>, k: K) -> Option<V> {
    if exists|i: int| 0 <= i < s.len() && (#[trigger] s[i]).0 == k {
        Some(s[choose|i: int| 0 <= i < s.len() && (#[trigger] s[i]).0 == k].1)
    } else {
        None
    }
}

proof fn lemma_assoc_get_update<K, V>(olds: Seq<(K, V)>, news: Seq<(K, V)>, i: int, k: K, v: V)
    requires
        0 <= i < olds.len(),
        olds[i].0 == k,
        news == olds.update(i, (k, v)),
        forall|a: int, b: int| 0 <= a < b < olds.len() ==> (#[trigger] olds[a]).0 != (
        #[trigger] olds[b]).0,
    ensures
        forall|a: int, b: int| 0 <= a < b < news.len() ==> (#[trigger] news[a]).0 != (
        #[trigger] news[b]).0,
        assoc_get(news, k) == Some(v),
        forall|k2: K| k2 != k ==> assoc_get(news, k2) == assoc_get(olds, k2),
{
    assert forall|k2: K| k2 != k implies assoc_get(news, k2) == assoc_get(olds, k2) by {
        if exists|a: int| 0 <= a < olds.len() && (#[trigger] olds[a]).0 == k2 {
            let a = choose|a: int| 0 <= a < olds.len() && (#[trigger] olds[a]).0 == k2;
            assert(news[a].0 == k2);
        } else {
            if exists|a: int| 0 <= a < news.len() && (#[trigger] news[a]).0 == k2 {
                let a = choose|a: int| 0 <= a < news.len() && (#[trigger] news[a]).0 == k2;
                assert(olds[a].0 == k2);
            }
        }
    }
    assert(news[i].0 == k && news[i].1 == v);
    let w = choose|a: int| 0 <= a < news.len() && (#[trigger] news[a]).0 == k;
    if w != i {
        assert(olds[w].0 == k);
    }
}

proof fn lemma_assoc_get_push<K, V>(olds: Seq<(K, V)>, news: Seq<(K, V)>, k: K, v: V)
    requires
        news == olds.push((k, v)),
        forall|a: int| 0 <= a < olds.len() ==> (#[trigger] olds[a]).0 != k,
        forall|a: int, b: int| 0 <= a < b < olds.len() ==> (#[trigger] olds[a]).0 != (
        #[trigger] olds[b]).0,
    ensures
        forall|a: int, b: int| 0 <= a < b < news.len() ==> (#[trigger] news[a]).0 != (
        #[trigger] news[b]).0,
        assoc_get(news, k) == Some(v),
        forall|k2: K| k2 != k ==> assoc_get(news, k2) == assoc_get(olds, k2),
{
    assert(news[news.len() - 1].0 == k && news[news.len() - 1].1 == v);
    let w = choose|a: int| 0 <= a < news.len() && (#[trigger] news[a]).0 == k;
    if w != news.len() - 1 {
        assert(olds[w].0 == k);
    }
    assert forall|k2: K| k2 != k implies assoc_get(news, k2) == assoc_get(olds, k2) by {
        if exists|a: int| 0 <= a < olds.len() && (#[trigger] olds[a]).0 == k2 {
            let a = choose|a: int| 0 <= a < olds.len() && (#[trigger] olds[a]).0 == k2;
            assert(news[a].0 == k2);
        } else {
            if exists|a: int| 0 <= a < news.len() && (#[trigger] news[a]).0 == k2 {
                let a = choose|a: int| 0 <= a < news.len() && (#[trigger] news[a]).0 == k2;
                assert(a < news.len() - 1);
                assert(olds[a].0 == k2);
            }
        }
    }
}

/// The strike count recorded for a node, zero if none.
pub open spec fn spec_strikes(s: Seq<(u64, u64)>, node: u64) -> u64 {
    match assoc_get(s, node) {
        Some(v) => v,
        None => 0,
    }
}

/// A ban issued at `now` expires after the configured duration; with no
/// duration, or past the end of time, it is permanent.
pub open spec fn spec_ban_expiry(now: u64, dur: Option<u64>) -> Option<u64> {
    match dur {
        None => None,
        Some(d) => if now + d <= u64::MAX {
            Some((now + d) as u64)
        } else {
            None
        },
    }
}

fn ban_expiry(now: u64, dur: Option<u64>) -> (r: Option<u64>)
    ensures
        r == spec_ban_expiry(now, dur),
{
    match dur {
        None => None,
        Some(d) => {
            if d <= u64::MAX - now {
                Some(now + d)
            } else {
                None
            }
        },
    }
}

/// The inbound packet filter: force lists first, then the rate limiter;
/// repeated rate denials earn a node a ban, and enough distinct banned
/// nodes behind one IP ban the IP itself.
pub struct AbuseFilter {
    pub limiter: RateLimiter,
    pub lists: PermitBanList,
    /// Rate denials a node is allowed before it is banned.
    pub strikes_to_ban: u64,
    /// Distinct node identities allowed behind one IP before it is banned.
    pub max_nodes_per_ip: Option<usize>,
    /// Distinct banned node identities behind one IP before the IP is banned.
    pub max_bans_per_ip: Option<usize>,
    /// How long a ban lasts; `None` bans forever.
    pub ban_duration: Option<u64>,
    pub strikes: Vec<(u64, u64)>,
    /// Which banned node identities arrived from which IP.
    pub ban_records: Vec<(u32, u64)>,
    /// Which node identities have been seen from which IP.
    pub node_records: Vec<(u32, u64)>,
}

/// Membership test for the records of one source IP.
pub open spec fn from_ip_pred(ip: u32) -> spec_fn((u32, u64)) -> bool {
    |p: (u32, u64)| p.0 == ip
}

fn pairs_contain(v: &Vec<(u32, u64)>, ip: u32, node: u64) -> (b: bool)
    ensures
        b == v@.contains((ip, node)),
{
    let n = v.len();
    let mut i: usize = 0;
    while i < n
        invariant
            n == v@.len(),
            i <= n,
            forall|k: int| 0 <= k < i ==> (#[trigger] v@[k]) != (ip, node),
        decreases n - i,
    {
        let (rip, rnode) = v[i];
        if rip == ip && rnode == node {
            proof {
                assert(v@[i as int] == (ip, node));
            }
            return true;
        }
        i = i + 1;
    }
    false
}

fn count_from_ip(v: &Vec<(u32, u64)>, ip: u32) -> (n: usize)
    ensures
        n as int == crate::counting::count_matching(v@, from_ip_pred(ip)),
{
    let ghost p = from_ip_pred(ip);
    let len = v.len();
    let mut n: usize = 0;
    let mut i: usize = 0;
    proof {
        assert(v@.take(0) =~= Seq::<(u32, u64)>::empty());
    }
    while i < len
        invariant
            len == v@.len(),
            i <= len,
            n <= i,
            p == from_ip_pred(ip),
            n as int == crate::counting::count_matching(v@.take(i as int), p),
        decreases len - i,
    {
        let (rip, _rnode) = v[i];
        proof {
            crate::counting::lemma_count_matching_take_step(v@, p, i as int);
        }
        if rip == ip {
            n = n + 1;
        }
        i = i + 1;
    }
    proof {
        assert(v@.take(len as int) =~= v@);
    }
    n
}

impl AbuseFilter {
    pub open spec fn wf(self) -> bool {
        &&& self.limiter.wf()
        &&& self.strikes_to_ban >= 1
        &&& forall|a: int, b: int| 0 <= a < b < self.strikes@.len() ==>
            (#[trigger] self.strikes@[a]).0 != (#[trigger] self.strikes@[b]).0
        &&& forall|a: int, b: int| 0 <= a < b < self.ban_records@.len() ==>
            (#[trigger] self.ban_records@[a]) != (#[trigger] self.ban_records@[b])
        &&& forall|a: int, b: int| 0 <= a < b < self.node_records@.len() ==>
            (#[trigger] self.node_records@[a]) != (#[trigger] self.node_records@[b])
    }

    /// How many distinct banned node identities stand against `ip`.
    pub open spec fn bans_from(self, ip: u32) -> int {
        crate::counting::count_matching(self.ban_records@, from_ip_pred(ip))
    }

    /// How many distinct node identities have been seen from `ip`.
    pub open spec fn nodes_from(self, ip: u32) -> int {
        crate::counting::count_matching(self.node_records@, from_ip_pred(ip))
    }

    /// Whether counting this packet's identity against its source address
    /// pushes the address past the distinct-identities limit.
    pub open spec fn nodes_exceeded(self, ip: u32, node: u64) -> bool {
        self.max_nodes_per_ip matches Some(m) && self.nodes_from(ip) + (
        if self.node_records@.contains((ip, node)) {
            0int
        } else {
            1int
        }) > m
    }

    /// Why a packet is dropped, over the state before the packet.
    pub open spec fn spec_drops(self, ip: u32, node: u64, now: u64) -> bool {
        ||| self.lists.ip_banned(ip, now)
        ||| self.lists.node_banned(node, now)
        ||| (!self.lists.ip_permitted(ip) && !self.lists.node_permitted(node) && (
            self.nodes_exceeded(ip, node) || !self.limiter.spec_allows(ip, node, now)))
    }

    pub fn new(
        limiter: RateLimiter,
        lists: PermitBanList,
        strikes_to_ban: u64,
        max_nodes_per_ip: Option<usize>,
        max_bans_per_ip: Option<usize>,
        ban_duration: Option<u64>,
    ) -> (f: AbuseFilter)
        requires
            limiter.wf(),
            strikes_to_ban >= 1,
        ensures
            f.wf(),
            f.limiter == limiter,
            f.lists == lists,
            f.strikes_to_ban == strikes_to_ban,
            f.max_nodes_per_ip == max_nodes_per_ip,
            f.max_bans_per_ip == max_bans_per_ip,
            f.ban_duration == ban_duration,
            f.strikes@.len() == 0,
            f.ban_records@.len() == 0,
            f.node_records@.len() == 0,
    {
        AbuseFilter {
            limiter,
            lists,
            strikes_to_ban,
            max_nodes_per_ip,
            max_bans_per_ip,
            ban_duration,
            strikes: Vec::new(),
            ban_records: Vec::new(),
            node_records: Vec::new(),
        }
    }

    fn strike_index(&self, node: u64) -> (r: Option<usize>)
        ensures
            r matches Some(i) ==> i < self.strikes@.len() && self.strikes@[i as int].0 == node,
            r is None ==> forall|i: int| 0 <= i < self.strikes@.len() ==>
                (#[trigger] self.strikes@[i]).0 != node,
    {
        let n = self.strikes.len();
        let mut i: usize = 0;
        while i < n
            invariant
                n == self.strikes@.len(),
                i <= n,
                forall|k: int| 0 <= k < i ==> (#[trigger] self.strikes@[k]).0 != node,
            decreases n - i,
        {
            if self.strikes[i].0 == node {
                return Some(i);
            }
            i = i + 1;
        }
        None
    }


    /// Decide the fate of an inbound packet from `node` at `src_ip`: active bans drop
    /// it outright, the permit lists let it past the counters, and otherwise
    /// the three rate quotas decide. A rate denial is a strike against the
    /// node; `strikes_to_ban` strikes ban it, the ban is recorded against
    /// the source IP, and once more than `max_bans_per_ip` distinct node
    /// identities behind one IP have been banned, the IP is banned too.
    pub fn decide(&mut self, src_ip: u32, node: NodeId, now: u64) -> (d: Decision)
        requires
            old(self).wf(),
        ensures
            final(self).wf(),
            final(self).strikes_to_ban == old(self).strikes_to_ban,
            final(self).max_nodes_per_ip == old(self).max_nodes_per_ip,
            final(self).max_bans_per_ip == old(self).max_bans_per_ip,
            final(self).ban_duration == old(self).ban_duration,
            final(self).limiter.total_quota == old(self).limiter.total_quota,
            final(self).limiter.node_quota == old(self).limiter.node_quota,
            final(self).limiter.ip_quota == old(self).limiter.ip_quota,
            final(self).lists.permit_ips@ == old(self).lists.permit_ips@,
            final(self).lists.permit_nodes@ == old(self).lists.permit_nodes@,
            d is Drop <==> old(self).spec_drops(src_ip, node.raw, now),
            // bans and permits leave all state untouched
            old(self).lists.ip_banned(src_ip, now) || old(self).lists.node_banned(node.raw, now)
                ==> *final(self) == *old(self),
            !old(self).lists.ip_banned(src_ip, now) && !old(self).lists.node_banned(node.raw, now)
                && (old(self).lists.ip_permitted(src_ip) || old(self).lists.node_permitted(
                node.raw,
            )) ==> *final(self) == *old(self),
            // the counted path records the identity against its source
            !old(self).lists.ip_banned(src_ip, now) && !old(self).lists.node_banned(node.raw, now)
                && !old(self).lists.ip_permitted(src_ip) && !old(self).lists.node_permitted(
                node.raw,
            ) ==> final(self).node_records@ == (if old(self).node_records@.contains(
                (src_ip, node.raw),
            ) {
                old(self).node_records@
            } else {
                old(self).node_records@.push((src_ip, node.raw))
            }),
            // a source past its identity limit is banned outright
            !old(self).lists.ip_banned(src_ip, now) && !old(self).lists.node_banned(node.raw, now)
                && !old(self).lists.ip_permitted(src_ip) && !old(self).lists.node_permitted(
                node.raw,
            ) && old(self).nodes_exceeded(src_ip, node.raw) ==> {
                &&& final(self).lists.ban_ips@ == old(self).lists.ban_ips@.push(
                    ((src_ip, spec_ban_expiry(now, old(self).ban_duration))),
                )
                &&& final(self).lists.ban_nodes@ == old(self).lists.ban_nodes@
                &&& final(self).strikes@ == old(self).strikes@
                &&& final(self).ban_records@ == old(self).ban_records@
                &&& final(self).limiter == old(self).limiter
            },
            // otherwise each counter advances by its own window rule
            !old(self).lists.ip_banned(src_ip, now) && !old(self).lists.node_banned(node.raw, now)
                && !old(self).lists.ip_permitted(src_ip) && !old(self).lists.node_permitted(
                node.raw,
            ) && !old(self).nodes_exceeded(src_ip, node.raw) ==> {
                &&& final(self).limiter.total == spec_rate_step(
                    old(self).limiter.total,
                    old(self).limiter.total_quota,
                    now,
                ).0
                &&& (old(self).limiter.node_quota matches Some(q) ==> final(self).limiter.node_counter(node.raw) == spec_rate_step(
                    old(self).limiter.node_counter(node.raw),
                    q,
                    now,
                ).0)
                &&& (old(self).limiter.ip_quota matches Some(q) ==> final(self).limiter.ip_counter(src_ip) == spec_rate_step(
                    old(self).limiter.ip_counter(src_ip),
                    q,
                    now,
                ).0)
            },
            // an admitted packet earns no strike and no ban
            d is Admit ==> final(self).strikes@ == old(self).strikes@ && final(self).lists.ban_nodes@
                == old(self).lists.ban_nodes@ && final(self).lists.ban_ips@ == old(self).lists.ban_ips@ && final(self).ban_records@ == old(self).ban_records@,
            // a rate denial is a strike; enough strikes ban the node
            !old(self).lists.ip_banned(src_ip, now) && !old(self).lists.node_banned(node.raw, now)
                && !old(self).lists.ip_permitted(src_ip) && !old(self).lists.node_permitted(
                node.raw,
            ) && !old(self).nodes_exceeded(src_ip, node.raw) && !old(self).limiter.spec_allows(
                src_ip,
                node.raw,
                now,
            ) ==> {
                &&& spec_strikes(final(self).strikes@, node.raw) == spec_bump(
                    spec_strikes(old(self).strikes@, node.raw),
                )
                &&& (spec_bump(spec_strikes(old(self).strikes@, node.raw)) >= old(self).strikes_to_ban ==> {
                    &&& final(self).lists.ban_nodes@ == old(self).lists.ban_nodes@.push(
                        ((node.raw, spec_ban_expiry(now, old(self).ban_duration))),
                    )
                    &&& final(self).ban_records@.contains((src_ip, node.raw))
                    &&& (old(self).max_bans_per_ip matches Some(m) && final(self).bans_from(
                        src_ip,
                    ) > m ==> final(self).lists.ban_ips@ == old(self).lists.ban_ips@.push(
                        ((src_ip, spec_ban_expiry(now, old(self).ban_duration))),
                    ))
                    &&& (!(old(self).max_bans_per_ip matches Some(m) && final(self).bans_from(
                        src_ip,
                    ) > m) ==> final(self).lists.ban_ips@ == old(self).lists.ban_ips@)
                })
                &&& (spec_bump(spec_strikes(old(self).strikes@, node.raw)) < old(self).strikes_to_ban ==> final(self).lists.ban_nodes@ == old(self).lists.ban_nodes@
                    && final(self).lists.ban_ips@ == old(self).lists.ban_ips@ && final(self).ban_records@ == old(self).ban_records@)
            },
    {
        if self.lists.is_ip_banned(src_ip, now) {
            return Decision::Drop;
        }
        if self.lists.is_node_banned(node.raw, now) {
            return Decision::Drop;
        }
        if self.lists.is_ip_permitted(src_ip) {
            return Decision::Admit;
        }
        if self.lists.is_node_permitted(node.raw) {
            return Decision::Admit;
        }
        // count this identity against its source address
        let known = pairs_contain(&self.node_records, src_ip, node.raw);
        if !known {
            let ghost oldn = self.node_records@;
            self.node_records.push((src_ip, node.raw));
            proof {
                assert(self.node_records@[self.node_records@.len() - 1] == (src_ip, node.raw));
                assert forall|a: int, b: int|
                    0 <= a < b < self.node_records@.len() implies (
                #[trigger] self.node_records@[a]) != (#[trigger] self.node_records@[b]) by {
                    if b == self.node_records@.len() - 1 {
                        assert(self.node_records@[a] == oldn[a]);
                    }
                }
                crate::counting::lemma_count_matching_push(
                    oldn,
                    from_ip_pred(src_ip),
                    (src_ip, node.raw),
                );
            }
        }
        let ncnt = count_from_ip(&self.node_records, src_ip);
        let over_nodes = match self.max_nodes_per_ip {
            Some(m) => ncnt > m,
            None => false,
        };
        if over_nodes {
            let expiry = ban_expiry(now, self.ban_duration);
            self.lists.ban_ips.push((src_ip, expiry));
            return Decision::Drop;
        }
        let allowed = self.limiter.allows(src_ip, node.raw, now);
        if allowed {
            return Decision::Admit;
        }
        // a denial: strike the node
        let newstrikes: u64;
        match self.strike_index(node.raw) {
            Some(i) => {
                let ghost olds = self.strikes@;
                let sv = self.strikes[i].1;
                newstrikes = if sv < u64::MAX {
                    sv + 1
                } else {
                    sv
                };
                proof {
                    let a = choose|a: int| 0 <= a < olds.len() && (#[trigger] olds[a]).0
                        == node.raw;
                    if a != i as int {
                        assert(olds[a].0 == olds[i as int].0);
                    }
                }
                self.strikes.set(i, (node.raw, newstrikes));
                proof {
                    lemma_assoc_get_update(olds, self.strikes@, i as int, node.raw, newstrikes);
                }
            },
            None => {
                let ghost olds = self.strikes@;
                newstrikes = 1;
                proof {
                    // no slot holds this node, so its strike count reads zero
                    if exists|a: int| 0 <= a < olds.len() && (#[trigger] olds[a]).0 == node.raw {
                        let a = choose|a: int| 0 <= a < olds.len() && (#[trigger] olds[a]).0
                            == node.raw;
                    }
                }
                self.strikes.push((node.raw, 1));
                proof {
                    lemma_assoc_get_push(olds, self.strikes@, node.raw, 1u64);
                }
            },
        }
        if newstrikes >= self.strikes_to_ban {
            let expiry = ban_expiry(now, self.ban_duration);
            self.lists.ban_nodes.push((node.raw, expiry));
            if !pairs_contain(&self.ban_records, src_ip, node.raw) {
                let ghost oldr = self.ban_records@;
                self.ban_records.push((src_ip, node.raw));
                proof {
                    assert(self.ban_records@[self.ban_records@.len() - 1] == (src_ip, node.raw));
                    assert forall|a: int, b: int|
                        0 <= a < b < self.ban_records@.len() implies (
                    #[trigger] self.ban_records@[a]) != (#[trigger] self.ban_records@[b]) by {
                        if b == self.ban_records@.len() - 1 {
                            assert(self.ban_records@[a] == oldr[a]);
                        }
                    }
                }
            }
            let cnt = count_from_ip(&self.ban_records, src_ip);
            let over = match self.max_bans_per_ip {
                Some(m) => cnt > m,
                None => false,
            };
            if over {
                self.lists.ban_ips.push((src_ip, expiry));
            }
        }
        Decision::Drop
    }
}

/// One more strike, saturating at the top of the range.
pub open spec fn spec_bump(s: u64) -> u64 {
    if s < u64::MAX {
        (s + 1) as u64
    } else {
        s
    }
}

} // verus!
