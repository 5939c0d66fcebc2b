//! The Kademlia routing table: peers bucketed by the bit length of their
//! XOR distance from the local identity, with per-bucket capacity, an
//! incoming sub-limit, and an optional subnet-diversity limit.

use vstd::prelude::*;
use crate::ident::{NodeId, xor_distance, bit_length};
use crate::record::{PeerRecord, Ipv4Net, spec_subnet, subnet_of};
use crate::counting::{
    count_matching, lemma_count_matching_push, lemma_count_matching_take_step,
    lemma_count_matching_update, lemma_count_matching_remove,
};

verus! {

/// Largest number of peers a bucket can hold.
pub const MAX_NODES_PER_BUCKET: usize = 16;

/// Which side initiated contact with a peer: peers that dialed us are
/// `Incoming` and count against the per-bucket incoming sub-limit.
#[derive(Clone, Copy, PartialEq, Eq, Structural, Debug)]
pub enum ConnectionDirection {
    Incoming,
    Outgoing,
}

/// One routing-table slot: the newest record seen for an identity, the
/// contact direction, and when the peer was last seen.
#[derive(Clone, Copy, PartialEq, Eq, Structural, Debug)]
pub struct BucketEntry {
    pub record: PeerRecord,
    pub direction: ConnectionDirection,
    pub last_seen: u64,
}

/// Membership test for bucket `b` (the bit length of the XOR distance).
pub open spec fn bucket_pred(local: NodeId, b: int) -> spec_fn(BucketEntry) -> bool {
    |e: BucketEntry| bit_length(xor_distance(local, e.record.id)) == b
}

/// Membership test for the incoming-sourced part of bucket `b`.
pub open spec fn bucket_incoming_pred(local: NodeId, b: int) -> spec_fn(BucketEntry) -> bool {
    |e: BucketEntry|
        bit_length(xor_distance(local, e.record.id)) == b && e.direction is Incoming
}

/// Membership test for the /24-equivalent subnet `sn`.
pub open spec fn subnet_pred(sn: u32) -> spec_fn(BucketEntry) -> bool {
    |e: BucketEntry| spec_subnet(e.record.ip) == sn
}

/// A pluggable acceptance predicate consulted before a record may enter the
/// table. Users implement it; `AcceptAll` is the default.
pub trait TableFilter {
    spec fn accepts(&self, r: PeerRecord) -> bool;

    fn accept(&self, r: &PeerRecord) -> (b: bool)
        ensures
            b == self.accepts(*r),
    ;
}

/// The default table filter: every record is acceptable.
#[derive(Clone, Copy, PartialEq, Eq, Structural, Debug)]
pub struct AcceptAll;

impl TableFilter for AcceptAll {
    open spec fn accepts(&self, r: PeerRecord) -> bool {
        true
    }

    fn accept(&self, r: &PeerRecord) -> (b: bool) {
        true
    }
}

/// The routing table. Entries are held flat; the bucket structure lives in
/// the well-formedness invariant, which bounds every bucket's size and its
/// incoming-sourced share.
pub struct RoutingTable<F: TableFilter> {
    pub local: NodeId,
    pub entries: Vec<BucketEntry>,
    /// Largest number of incoming-sourced peers a bucket may hold.
    pub incoming_limit: usize,
    /// Whether the subnet-diversity limit is enforced.
    pub ip_limit: bool,
    /// Largest number of peers from one /24-equivalent subnet, table-wide.
    pub subnet_limit: usize,
    /// Acceptance predicate applied to every candidate record.
    pub filter: F,
    /// Source addresses in this range bypass the claimed-address check.
    pub allowed_cidr: Option<Ipv4Net>,
}

impl<F: TableFilter> RoutingTable<F> {
    /// How many peers stand in bucket `b`.
    pub open spec fn bucket_load(self, b: int) -> int {
        count_matching(self.entries@, bucket_pred(self.local, b))
    }

    /// How many incoming-sourced peers stand in bucket `b`.
    pub open spec fn bucket_incoming_load(self, b: int) -> int {
        count_matching(self.entries@, bucket_incoming_pred(self.local, b))
    }

    /// How many peers across the table advertise an address in subnet `sn`.
    pub open spec fn subnet_load(self, sn: u32) -> int {
        count_matching(self.entries@, subnet_pred(sn))
    }

    pub open spec fn has_id(self, id: NodeId) -> bool {
        exists|i: int| 0 <= i < self.entries@.len() && (#[trigger] self.entries@[i]).record.id == id
    }

    pub open spec fn contains_entry(self, e: BucketEntry) -> bool {
        exists|i: int| 0 <= i < self.entries@.len() && #[trigger] self.entries@[i] == e
    }

    /// Whether some slot holds exactly this record.
    pub open spec fn contains_record(self, r: PeerRecord) -> bool {
        exists|i: int| 0 <= i < self.entries@.len() && (#[trigger] self.entries@[i]).record == r
    }

    pub open spec fn wf(self) -> bool {
        &&& self.incoming_limit <= MAX_NODES_PER_BUCKET
        &&& (self.allowed_cidr matches Some(c) ==> c.wf())
        &&& forall|i: int| 0 <= i < self.entries@.len() ==>
                (#[trigger] self.entries@[i]).record.id != self.local
        &&& forall|i: int, j: int| 0 <= i < j < self.entries@.len() ==>
                (#[trigger] self.entries@[i]).record.id != (#[trigger] self.entries@[j]).record.id
        &&& forall|b: int| 1 <= b <= 64 ==> #[trigger] self.bucket_load(b) <= MAX_NODES_PER_BUCKET as int
        &&& forall|b: int| 1 <= b <= 64 ==>
                #[trigger] self.bucket_incoming_load(b) <= self.incoming_limit as int
    }

    /// The claimed-address rule: a record is acceptable if it advertises the
    /// address it was received from, or if the source lies in the trusted
    /// range configured for relayed and NAT'd peers.
    pub open spec fn addr_acceptable(self, record: PeerRecord, source_ip: u32) -> bool {
        ||| record.ip == source_ip
        ||| (self.allowed_cidr matches Some(c) && c.spec_contains(source_ip))
    }

    /// The gates every candidate must pass, whether new or an update: not
    /// ourselves, accepted by the filter, and address-acceptable.
    pub open spec fn gates_pass(self, record: PeerRecord, source_ip: u32) -> bool {
        &&& record.id != self.local
        &&& self.filter.accepts(record)
        &&& self.addr_acceptable(record, source_ip)
    }

    /// Room for a fresh identity: bucket not full, incoming sub-limit not
    /// exhausted for an incoming peer, subnet diversity respected.
    pub open spec fn insert_allowed(self, record: PeerRecord, direction: ConnectionDirection) -> bool {
        let b = bit_length(xor_distance(self.local, record.id));
        &&& self.bucket_load(b) < MAX_NODES_PER_BUCKET as int
        &&& (direction is Incoming ==> self.bucket_incoming_load(b) < self.incoming_limit as int)
        &&& (self.ip_limit ==> self.subnet_load(spec_subnet(record.ip)) < self.subnet_limit as int)
    }

    pub fn new(local: NodeId, incoming_limit: usize, ip_limit: bool, subnet_limit: usize, filter: F, allowed_cidr: Option<Ipv4Net>) -> (t: RoutingTable<F>)
        requires
            incoming_limit <= MAX_NODES_PER_BUCKET,
            allowed_cidr matches Some(c) ==> c.wf(),
        ensures
            t.wf(),
            t.local == local,
            t.entries@.len() == 0,
            t.incoming_limit == incoming_limit,
            t.ip_limit == ip_limit,
            t.subnet_limit == subnet_limit,
            t.filter == filter,
            t.allowed_cidr == allowed_cidr,
    {
        let t = RoutingTable {
            local,
            entries: Vec::new(),
            incoming_limit,
            ip_limit,
            subnet_limit,
            filter,
            allowed_cidr,
        };
        proof {
            assert forall|b: int| 1 <= b <= 64 implies #[trigger] t.bucket_load(b) == 0
                && t.bucket_incoming_load(b) == 0 by {
                assert(t.entries@.len() == 0);
            }
        }
        t
    }

    /// Index of the entry holding `id`, if any.
    fn find_index(&self, id: NodeId) -> (r: Option<usize>)
        ensures
            r matches Some(i) ==> i < self.entries@.len() && self.entries@[i as int].record.id == id,
            r is None ==> !self.has_id(id),
    {
        let n = self.entries.len();
        let mut i: usize = 0;
        while i < n
            invariant
                n == self.entries@.len(),
                i <= n,
                forall|k: int| 0 <= k < i ==> (#[trigger] self.entries@[k]).record.id != id,
            decreases n - i,
        {
            if self.entries[i].record.id == id {
                return Some(i);
            }
            i = i + 1;
        }
        None
    }

    fn count_bucket(&self, b: usize) -> (n: usize)
        ensures
            n as int == self.bucket_load(b as int),
    {
        let ghost p = bucket_pred(self.local, b as int);
        let len = self.entries.len();
        let mut n: usize = 0;
        let mut i: usize = 0;
        proof {
            assert(self.entries@.take(0) =~= Seq::<BucketEntry>::empty());
        }
        while i < len
            invariant
                len == self.entries@.len(),
                i <= len,
                n <= i,
                p == bucket_pred(self.local, b as int),
                n as int == count_matching(self.entries@.take(i as int), p),
            decreases len - i,
        {
            let e = self.entries[i];
            let ebl = self.local.log2_distance(e.record.id);
            proof {
                lemma_count_matching_take_step(self.entries@, p, i as int);
            }
            if ebl == b {
                n = n + 1;
            }
            i = i + 1;
        }
        proof {
            assert(self.entries@.take(len as int) =~= self.entries@);
        }
        n
    }

    fn count_bucket_incoming(&self, b: usize) -> (n: usize)
        ensures
            n as int == self.bucket_incoming_load(b as int),
    {
        let ghost p = bucket_incoming_pred(self.local, b as int);
        let len = self.entries.len();
        let mut n: usize = 0;
        let mut i: usize = 0;
        proof {
            assert(self.entries@.take(0) =~= Seq::<BucketEntry>::empty());
        }
        while i < len
            invariant
                len == self.entries@.len(),
                i <= len,
                n <= i,
                p == bucket_incoming_pred(self.local, b as int),
                n as int == count_matching(self.entries@.take(i as int), p),
            decreases len - i,
        {
            let e = self.entries[i];
            let ebl = self.local.log2_distance(e.record.id);
            proof {
                lemma_count_matching_take_step(self.entries@, p, i as int);
            }
            if ebl == b && matches!(e.direction, ConnectionDirection::Incoming) {
                n = n + 1;
            }
            i = i + 1;
        }
        proof {
            assert(self.entries@.take(len as int) =~= self.entries@);
        }
        n
    }

    fn count_subnet(&self, sn: u32) -> (n: usize)
        ensures
            n as int == self.subnet_load(sn),
    {
        let ghost p = subnet_pred(sn);
        let len = self.entries.len();
        let mut n: usize = 0;
        let mut i: usize = 0;
        proof {
            assert(self.entries@.take(0) =~= Seq::<BucketEntry>::empty());
        }
        while i < len
            invariant
                len == self.entries@.len(),
                i <= len,
                n <= i,
                p == subnet_pred(sn),
                n as int == count_matching(self.entries@.take(i as int), p),
            decreases len - i,
        {
            let e = self.entries[i];
            let esn = subnet_of(e.record.ip);
            proof {
                lemma_count_matching_take_step(self.entries@, p, i as int);
            }
            if esn == sn {
                n = n + 1;
            }
            i = i + 1;
        }
        proof {
            assert(self.entries@.take(len as int) =~= self.entries@);
        }
        n
    }

    /// Admit a record. A known identity is updated when the record is
    /// strictly newer; a fresh identity is inserted when its bucket has
    /// room (no existing entry is ever evicted for a newcomer). Returns
    /// whether the table changed.
    pub fn insert_or_update(&mut self, record: PeerRecord, direction: ConnectionDirection, source_ip: u32, now: u64) -> (changed: bool)
        requires
            old(self).wf(),
        ensures
            final(self).wf(),
            final(self).local == old(self).local,
            final(self).incoming_limit == old(self).incoming_limit,
            final(self).ip_limit == old(self).ip_limit,
            final(self).subnet_limit == old(self).subnet_limit,
            final(self).filter == old(self).filter,
            final(self).allowed_cidr == old(self).allowed_cidr,
            !changed ==> *final(self) == *old(self),
            !old(self).gates_pass(record, source_ip) ==> !changed,
            forall|i: int|
                0 <= i < old(self).entries@.len()
                    && (#[trigger] old(self).entries@[i]).record.id == record.id ==> {
                    &&& (changed <==> old(self).gates_pass(record, source_ip)
                            && record.seq > old(self).entries@[i].record.seq)
                    &&& (changed ==> final(self).entries@ == old(self).entries@.update(
                            i,
                            (BucketEntry {
                                record,
                                direction: old(self).entries@[i].direction,
                                last_seen: now,
                            }),
                        ))
                },
            !old(self).has_id(record.id) ==> (changed <==> old(self).gates_pass(record, source_ip)
                && old(self).insert_allowed(record, direction)),
            !old(self).has_id(record.id) && changed ==> final(self).entries@ == old(
                self,
            ).entries@.push((BucketEntry { record, direction, last_seen: now })),
    {
        if record.id == self.local {
            return false;
        }
        if !self.filter.accept(&record) {
            return false;
        }
        let addr_ok = if record.ip == source_ip {
            true
        } else {
            match &self.allowed_cidr {
                Some(c) => c.contains(source_ip),
                None => false,
            }
        };
        if !addr_ok {
            return false;
        }
        match self.find_index(record.id) {
            Some(i) => {
                let e = self.entries[i];
                if record.seq > e.record.seq {
                    let newe = BucketEntry { record, direction: e.direction, last_seen: now };
                    self.entries.set(i, newe);
                    proof {
                        let olds = old(self).entries@;
                        let news = self.entries@;
                        assert forall|b: int| 1 <= b <= 64 implies #[trigger] self.bucket_load(b)
                            <= MAX_NODES_PER_BUCKET as int by {
                            assert(old(self).bucket_load(b) <= MAX_NODES_PER_BUCKET as int);
                            lemma_count_matching_update(olds, bucket_pred(self.local, b), i as int, newe);
                        }
                        assert forall|b: int| 1 <= b <= 64 implies #[trigger] self.bucket_incoming_load(b)
                            <= self.incoming_limit as int by {
                            assert(old(self).bucket_incoming_load(b) <= self.incoming_limit as int);
                            lemma_count_matching_update(
                                olds,
                                bucket_incoming_pred(self.local, b),
                                i as int,
                                newe,
                            );
                        }
                    }
                    true
                } else {
                    false
                }
            },
            None => {
                let b = self.local.log2_distance(record.id);
                let load = self.count_bucket(b);
                if load >= MAX_NODES_PER_BUCKET {
                    return false;
                }
                if matches!(direction, ConnectionDirection::Incoming) {
                    let inl = self.count_bucket_incoming(b);
                    if inl >= self.incoming_limit {
                        return false;
                    }
                }
                if self.ip_limit {
                    let sl = self.count_subnet(subnet_of(record.ip));
                    if sl >= self.subnet_limit {
                        return false;
                    }
                }
                let newe = BucketEntry { record, direction, last_seen: now };
                self.entries.push(newe);
                proof {
                    let olds = old(self).entries@;
                    let b0 = bit_length(xor_distance(self.local, record.id));
                    assert forall|bb: int| 1 <= bb <= 64 implies #[trigger] self.bucket_load(bb)
                        <= MAX_NODES_PER_BUCKET as int by {
                        assert(old(self).bucket_load(bb) <= MAX_NODES_PER_BUCKET as int);
                        lemma_count_matching_push(olds, bucket_pred(self.local, bb), newe);
                    }
                    assert forall|bb: int| 1 <= bb <= 64 implies #[trigger] self.bucket_incoming_load(bb)
                        <= self.incoming_limit as int by {
                        assert(old(self).bucket_incoming_load(bb) <= self.incoming_limit as int);
                        lemma_count_matching_push(olds, bucket_incoming_pred(self.local, bb), newe);
                    }
                }
                true
            },
        }
    }

    /// Evict the peer holding `id`, for example after a failed send.
    /// Returns whether the peer was present.
    pub fn remove(&mut self, id: NodeId) -> (removed: bool)
        requires
            old(self).wf(),
        ensures
            final(self).wf(),
            final(self).local == old(self).local,
            final(self).incoming_limit == old(self).incoming_limit,
            final(self).ip_limit == old(self).ip_limit,
            final(self).subnet_limit == old(self).subnet_limit,
            final(self).filter == old(self).filter,
            final(self).allowed_cidr == old(self).allowed_cidr,
            removed <==> old(self).has_id(id),
            !removed ==> *final(self) == *old(self),
            !final(self).has_id(id),
            forall|i: int|
                0 <= i < old(self).entries@.len()
                    && (#[trigger] old(self).entries@[i]).record.id == id ==> (removed
                    && final(self).entries@ == old(self).entries@.remove(i)),
    {
        match self.find_index(id) {
            Some(i) => {
                let ghost olds = self.entries@;
                let ghost ii = i as int;
                self.entries.remove(i);
                proof {
                    assert forall|b: int| 1 <= b <= 64 implies #[trigger] self.bucket_load(b)
                        <= MAX_NODES_PER_BUCKET as int by {
                        assert(old(self).bucket_load(b) <= MAX_NODES_PER_BUCKET as int);
                        lemma_count_matching_remove(olds, bucket_pred(self.local, b), ii);
                    }
                    assert forall|b: int| 1 <= b <= 64 implies #[trigger] self.bucket_incoming_load(b)
                        <= self.incoming_limit as int by {
                        assert(old(self).bucket_incoming_load(b) <= self.incoming_limit as int);
                        lemma_count_matching_remove(olds, bucket_incoming_pred(self.local, b), ii);
                    }
                    assert forall|j: int|
                        0 <= j < old(self).entries@.len() && (#[trigger] old(
                            self,
                        ).entries@[j]).record.id == id implies final(self).entries@ == old(
                        self,
                    ).entries@.remove(j) by {
                        if j != ii {
                            assert(old(self).entries@[ii].record.id == id);
                        }
                    }
                }
                true
            },
            None => false,
        }
    }

    /// How many peers the table holds in all.
    pub fn len(&self) -> (n: usize)
        ensures
            n == self.entries@.len(),
    {
        self.entries.len()
    }
}

/// `a` ranks at least as close to `target` as `b`: nearer by XOR distance,
/// ties broken by more recent activity.
pub open spec fn ranks_before(target: NodeId, a: BucketEntry, b: BucketEntry) -> bool {
    ||| xor_distance(a.record.id, target) < xor_distance(b.record.id, target)
    ||| (xor_distance(a.record.id, target) == xor_distance(b.record.id, target)
        && a.last_seen >= b.last_seen)
}

pub open spec fn sorted_by_target(target: NodeId, s: Seq<BucketEntry>) -> bool {
    forall|i: int, j: int| 0 <= i < j < s.len() ==> ranks_before(target, #[trigger] s[i], #[trigger] s[j])
}

/// Whether some record in `r` carries identity `id`.
pub open spec fn seq_has_id(r: Seq<PeerRecord>, id: NodeId) -> bool {
    exists|i: int| 0 <= i < r.len() && (#[trigger] r[i]).id == id
}

fn ranked_before(target: NodeId, a: &BucketEntry, b: &BucketEntry) -> (r: bool)
    ensures
        r == ranks_before(target, *a, *b),
{
    let da = a.record.id.distance(target);
    let db = b.record.id.distance(target);
    da < db || (da == db && a.last_seen >= b.last_seen)
}

/// Order entries by closeness to `target`, nearest first.
pub(crate) fn sort_entries_by_target(target: NodeId, v: Vec<BucketEntry>) -> (out: Vec<BucketEntry>)
    ensures
        out@.to_multiset() == v@.to_multiset(),
        out@.len() == v@.len(),
        sorted_by_target(target, out@),
{
    broadcast use vstd::seq_lib::group_to_multiset_ensures;
    broadcast use vstd::multiset::group_multiset_axioms;

    let mut pending = v;
    let mut out: Vec<BucketEntry> = Vec::new();
    proof {
        assert(out@.to_multiset().add(pending@.to_multiset()) =~= v@.to_multiset());
    }
    while pending.len() > 0
        invariant
            out@.len() + pending@.len() == v@.len(),
            out@.to_multiset().add(pending@.to_multiset()) == v@.to_multiset(),
            sorted_by_target(target, out@),
            forall|i: int, j: int|
                0 <= i < out@.len() && 0 <= j < pending@.len() ==> ranks_before(
                    target,
                    #[trigger] out@[i],
                    #[trigger] pending@[j],
                ),
        decreases pending@.len(),
    {
        let mut m: usize = 0;
        let mut k: usize = 1;
        while k < pending.len()
            invariant
                0 < pending@.len(),
                m < k,
                k <= pending@.len(),
                forall|t: int|
                    0 <= t < k ==> ranks_before(target, pending@[m as int], #[trigger] pending@[t]),
            decreases pending@.len() - k,
        {
            if ranked_before(target, &pending[k], &pending[m]) {
                m = k;
            }
            k = k + 1;
        }
        let ghost olds = pending@;
        let ghost oldout = out@;
        let e = pending.remove(m);
        out.push(e);
        proof {
            assert(olds[m as int] == e);
            assert(olds.contains(e));
            assert(pending@ == olds.remove(m as int));
            assert(out@ == oldout.push(e));
            vstd::seq_lib::to_multiset_build(oldout, e);
            vstd::seq_lib::to_multiset_remove(olds, m as int);
            vstd::seq_lib::to_multiset_contains(olds, e);
            assert(olds.to_multiset().count(e) >= 1);
            assert(out@.to_multiset().add(pending@.to_multiset()) =~= oldout.to_multiset().add(
                olds.to_multiset(),
            ));
            assert forall|i: int, j: int|
                0 <= i < out@.len() && 0 <= j < pending@.len() implies ranks_before(
                target,
                #[trigger] out@[i],
                #[trigger] pending@[j],
            ) by {
                let jj: int = if j < m as int {
                    j
                } else {
                    j + 1
                };
                assert(pending@[j] == olds[jj]);
                if i < oldout.len() {
                    assert(out@[i] == oldout[i]);
                    assert(ranks_before(target, oldout[i], olds[jj]));
                } else {
                    assert(out@[i] == e);
                    assert(ranks_before(target, e, olds[jj]));
                }
            }
            assert forall|i: int, j: int| 0 <= i < j < out@.len() implies ranks_before(
                target,
                #[trigger] out@[i],
                #[trigger] out@[j],
            ) by {
                if j < oldout.len() {
                    assert(ranks_before(target, oldout[i], oldout[j]));
                } else {
                    assert(out@[j] == e);
                    assert(ranks_before(target, oldout[i], olds[m as int]));
                }
            }
        }
    }
    out
}

/// What `find_closest` promises: up to `count` results, each a record held
/// in the table, ordered nearest-first, with distinct identities, and no
/// left-out peer closer than any returned one.
pub open spec fn find_closest_post<F: TableFilter>(
    t: RoutingTable<F>,
    target: NodeId,
    count: int,
    r: Seq<PeerRecord>,
) -> bool {
    &&& r.len() == if count < t.entries@.len() {
        count
    } else {
        t.entries@.len() as int
    }
    &&& forall|i: int| #![trigger r[i]] 0 <= i < r.len() ==> t.contains_record(r[i])
    &&& forall|i: int, j: int|
        0 <= i < j < r.len() ==> xor_distance((#[trigger] r[i]).id, target) <= xor_distance(
            (#[trigger] r[j]).id,
            target,
        )
    &&& forall|i: int, j: int|
        #![trigger r[i], r[j]]
        0 <= i < j < r.len() ==> r[i].id != r[j].id
    &&& forall|x: int, i: int|
        #![trigger t.entries@[x], r[i]]
        0 <= x < t.entries@.len() && 0 <= i < r.len() && !seq_has_id(r, t.entries@[x].record.id)
            ==> xor_distance(r[i].id, target) <= xor_distance(t.entries@[x].record.id, target)
}

impl<F: TableFilter> RoutingTable<F> {
    /// The up-to-`count` known peers nearest `target` by the XOR metric,
    /// nearest first, ties broken by most recently seen.
    pub fn find_closest(&self, target: NodeId, count: usize) -> (r: Vec<PeerRecord>)
        requires
            self.wf(),
        ensures
            find_closest_post(*self, target, count as int, r@),
    {
        broadcast use vstd::seq_lib::group_to_multiset_ensures;
        broadcast use vstd::multiset::group_multiset_axioms;

        let mut all: Vec<BucketEntry> = Vec::new();
        let len = self.entries.len();
        let mut i: usize = 0;
        while i < len
            invariant
                len == self.entries@.len(),
                i <= len,
                all@ == self.entries@.take(i as int),
            decreases len - i,
        {
            all.push(self.entries[i]);
            proof {
                assert(self.entries@.take(i as int).push(self.entries@[i as int]) =~= self.entries@.take(
                    i as int + 1,
                ));
            }
            i = i + 1;
        }
        proof {
            assert(self.entries@.take(len as int) =~= self.entries@);
        }
        let sorted = sort_entries_by_target(target, all);
        let n = if count < sorted.len() {
            count
        } else {
            sorted.len()
        };
        let mut r: Vec<PeerRecord> = Vec::new();
        let mut j: usize = 0;
        while j < n
            invariant
                n <= sorted@.len(),
                j <= n,
                r@.len() == j,
                forall|x: int| 0 <= x < j ==> #[trigger] r@[x] == sorted@[x].record,
            decreases n - j,
        {
            r.push(sorted[j].record);
            j = j + 1;
        }
        proof {
            let s = sorted@;
            let es = self.entries@;
            assert(s.to_multiset() == es.to_multiset());
            // every sorted entry is a table entry, and conversely
            assert forall|x: int| 0 <= x < s.len() implies es.contains(#[trigger] s[x]) by {
                assert(s.contains(s[x]));
                assert(s.to_multiset().count(s[x]) > 0);
            }
            assert forall|x: int| 0 <= x < es.len() implies s.contains(#[trigger] es[x]) by {
                assert(es.contains(es[x]));
                assert(es.to_multiset().count(es[x]) > 0);
            }
            // results come from the table
            assert forall|i2: int| #![trigger r@[i2]] 0 <= i2 < r@.len() implies self.contains_record(
                r@[i2],
            ) by {
                assert(es.contains(s[i2]));
                let w = choose|w: int| 0 <= w < es.len() && es[w] == s[i2];
                assert(r@[i2] == s[i2].record);
                assert(0 <= w < self.entries@.len() && self.entries@[w].record == r@[i2]);
            }
            // distinct identities among the results
            assert forall|i2: int, j2: int|
                #![trigger r@[i2], r@[j2]]
                0 <= i2 < j2 < r@.len() implies r@[i2].id != r@[j2].id by {
                if r@[i2].id == r@[j2].id {
                    assert(es.no_duplicates()) by {
                        assert forall|a: int, b: int|
                            0 <= a < b < es.len() implies es[a] != es[b] by {
                            assert(es[a].record.id != es[b].record.id);
                        }
                    }
                    es.lemma_multiset_has_no_duplicates();
                    s.lemma_multiset_has_no_duplicates_conv();
                    assert(s[i2] != s[j2]);
                    assert(es.contains(s[i2]));
                    assert(es.contains(s[j2]));
                    let w1 = choose|w: int| 0 <= w < es.len() && es[w] == s[i2];
                    let w2 = choose|w: int| 0 <= w < es.len() && es[w] == s[j2];
                    assert(es[w1].record.id == es[w2].record.id);
                    assert(w1 != w2);
                }
            }
            // nothing left out is closer than anything returned
            assert forall|x: int, i2: int|
                0 <= x < es.len() && 0 <= i2 < r@.len() && !seq_has_id(
                    r@,
                    (#[trigger] es[x]).record.id,
                ) implies xor_distance((#[trigger] r@[i2]).id, target) <= xor_distance(
                es[x].record.id,
                target,
            ) by {
                assert(s.contains(es[x]));
                let w = choose|w: int| 0 <= w < s.len() && s[w] == es[x];
                if w < r@.len() {
                    assert(r@[w].id == es[x].record.id);
                } else {
                    assert(ranks_before(target, s[i2], s[w]));
                }
            }
        }
        r
    }
}

/// Self-lookup law: a record present in a well-formed table, looked up with
/// its own identity as the target, comes back as the first result, at
/// distance zero.
pub proof fn lemma_self_lookup_first<F: TableFilter>(
    t: RoutingTable<F>,
    x: BucketEntry,
    count: int,
    r: Seq<PeerRecord>,
)
    requires
        t.wf(),
        t.contains_entry(x),
        count >= 1,
        find_closest_post(t, x.record.id, count, r),
    ensures
        r.len() >= 1,
        r[0] == x.record,
        xor_distance(r[0].id, x.record.id) == 0,
{
    let target = x.record.id;
    let xi = choose|i: int| 0 <= i < t.entries@.len() && t.entries@[i] == x;
    assert(t.entries@.len() >= 1);
    assert(r.len() >= 1);
    crate::ident::lemma_distance_zero_iff_equal(x.record.id, target);
    if seq_has_id(r, target) {
        let i = choose|i: int| 0 <= i < r.len() && r[i].id == target;
        crate::ident::lemma_distance_zero_iff_equal(r[i].id, target);
        assert(xor_distance(r[i].id, target) == 0);
        if i > 0 {
            assert(xor_distance(r[0].id, target) <= xor_distance(r[i].id, target));
        }
        crate::ident::lemma_distance_zero_iff_equal(r[0].id, target);
        assert(r[0].id == target);
        // the record at index 0 is a table record with x's identity, so it is x's record
        let w = choose|w: int| 0 <= w < t.entries@.len() && t.entries@[w].record == r[0];
        if w != xi {
            assert(t.entries@[w].record.id != t.entries@[xi].record.id);
        }
        assert(r[0] == x.record);
    } else {
        assert(xor_distance(r[0].id, target) <= xor_distance(t.entries@[xi].record.id, target));
        crate::ident::lemma_distance_zero_iff_equal(r[0].id, target);
        assert(r[0].id == target);
        assert(seq_has_id(r, target));
    }
}

/// Occupancy law: a well-formed table never holds more entries in a bucket
/// than the bucket capacity, and never more incoming-sourced entries than
/// the configured incoming limit.
pub proof fn lemma_bucket_bounds<F: TableFilter>(t: RoutingTable<F>)
    requires
        t.wf(),
    ensures
        forall|b: int| 1 <= b <= 64 ==> #[trigger] t.bucket_load(b) <= MAX_NODES_PER_BUCKET as int,
        forall|b: int| 1 <= b <= 64 ==> #[trigger] t.bucket_incoming_load(b) <= t.incoming_limit as int,
{
}

} // verus!
