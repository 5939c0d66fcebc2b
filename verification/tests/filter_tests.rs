use discv5::filter::{
    AbuseFilter, Decision, PermitBanList, RateLimiterBuilder, RateLimiterError,
};
use discv5::ident::NodeId;

fn limiter(total: (u64, u64), node: Option<(u64, u64)>, ip: Option<(u64, u64)>) -> discv5::filter::RateLimiter {
    let mut b = RateLimiterBuilder::new().total_n_every(total.0, total.1);
    if let Some((n, w)) = node {
        b = b.node_n_every(n, w);
    }
    if let Some((n, w)) = ip {
        b = b.ip_n_every(n, w);
    }
    b.build().unwrap()
}

#[test]
fn builder_requires_total_rate() {
    assert_eq!(
        RateLimiterBuilder::new().node_n_every(5, 1000).build().err(),
        Some(RateLimiterError::TotalRateMissing)
    );
    assert!(RateLimiterBuilder::new().total_n_every(5, 1000).build().is_ok());
}

#[test]
fn per_ip_rate_drops_until_window_rolls() {
    let l = limiter((100, 1000), None, Some((3, 1000)));
    let mut f = AbuseFilter::new(l, PermitBanList::new(), 100, None, None, None);
    let ip = 0x0A000001;
    // three packets fit the per-IP quota, the fourth and fifth are dropped
    for k in 0..5u64 {
        let d = f.decide(ip, NodeId::new(100 + k), k);
        if k < 3 {
            assert_eq!(d, Decision::Admit, "packet {k}");
        } else {
            assert_eq!(d, Decision::Drop, "packet {k}");
        }
    }
    // another source is unaffected
    assert_eq!(f.decide(0x0B000001, NodeId::new(7), 5), Decision::Admit);
    // once the window rolls over the source is admitted again
    assert_eq!(f.decide(ip, NodeId::new(200), 1001), Decision::Admit);
}

#[test]
fn repeated_denials_ban_the_node() {
    // per-node quota of 1; two strikes ban the node
    let l = limiter((1000, 1000), Some((1, 1000)), None);
    let mut f = AbuseFilter::new(l, PermitBanList::new(), 2, None, None, Some(10_000));
    let ip = 1;
    let node = NodeId::new(42);
    assert_eq!(f.decide(ip, node, 0), Decision::Admit);
    assert_eq!(f.decide(ip, node, 1), Decision::Drop); // strike 1
    assert_eq!(f.decide(ip, node, 2), Decision::Drop); // strike 2: banned
    // now the drop comes from the ban itself, and it expires with time
    assert_eq!(f.decide(ip, node, 3), Decision::Drop);
    assert_eq!(f.decide(ip, node, 10_003), Decision::Admit);
}

#[test]
fn enough_banned_nodes_ban_the_ip() {
    // one strike bans a node; two banned nodes from one IP ban the IP
    let l = limiter((1000, 1000), Some((1, 1000)), None);
    let mut f = AbuseFilter::new(l, PermitBanList::new(), 1, None, Some(2), None);
    let ip = 9;
    // three node identities behind one address each overrun their quota
    for n in 0..3u64 {
        assert_eq!(f.decide(ip, NodeId::new(n), 0), Decision::Admit);
        assert_eq!(f.decide(ip, NodeId::new(n), 1), Decision::Drop);
    }
    // the third ban crossed the per-IP limit: a fresh node is dropped too
    assert_eq!(f.decide(ip, NodeId::new(999), 2), Decision::Drop);
    // another address is unaffected
    assert_eq!(f.decide(10, NodeId::new(999), 2), Decision::Admit);
}

#[test]
fn permit_list_bypasses_counters() {
    let l = limiter((1, 1000), None, None);
    let mut lists = PermitBanList::new();
    lists.permit_ips.push(5);
    let mut f = AbuseFilter::new(l, lists, 100, None, None, None);
    // the total quota of one would drop these, but the IP is permitted
    assert_eq!(f.decide(5, NodeId::new(1), 0), Decision::Admit);
    assert_eq!(f.decide(5, NodeId::new(1), 0), Decision::Admit);
    assert_eq!(f.decide(5, NodeId::new(1), 0), Decision::Admit);
}

#[test]
fn ban_list_beats_permit_list() {
    let l = limiter((1000, 1000), None, None);
    let mut lists = PermitBanList::new();
    lists.permit_ips.push(5);
    lists.ban_ips.push((5, None)); // permanent
    let mut f = AbuseFilter::new(l, lists, 100, None, None, None);
    assert_eq!(f.decide(5, NodeId::new(1), 0), Decision::Drop);
}

#[test]
fn banned_node_is_dropped_everywhere() {
    let l = limiter((1000, 1000), None, None);
    let mut lists = PermitBanList::new();
    lists.ban_nodes.push((77, Some(500)));
    let mut f = AbuseFilter::new(l, lists, 100, None, None, None);
    assert_eq!(f.decide(1, NodeId::new(77), 0), Decision::Drop);
    assert_eq!(f.decide(2, NodeId::new(77), 0), Decision::Drop);
    // the ban expires
    assert_eq!(f.decide(1, NodeId::new(77), 501), Decision::Admit);
}

#[test]
fn total_rate_applies_across_sources() {
    let l = limiter((2, 1000), None, None);
    let mut f = AbuseFilter::new(l, PermitBanList::new(), 100, None, None, None);
    assert_eq!(f.decide(1, NodeId::new(1), 0), Decision::Admit);
    assert_eq!(f.decide(2, NodeId::new(2), 0), Decision::Admit);
    assert_eq!(f.decide(3, NodeId::new(3), 0), Decision::Drop);
}

#[test]
fn too_many_identities_behind_one_ip() {
    let l = limiter((1000, 1000), None, None);
    let mut f = AbuseFilter::new(l, PermitBanList::new(), 100, Some(2), None, Some(5000));
    let ip = 4;
    assert_eq!(f.decide(ip, NodeId::new(1), 0), Decision::Admit);
    assert_eq!(f.decide(ip, NodeId::new(2), 0), Decision::Admit);
    // known identities stay welcome
    assert_eq!(f.decide(ip, NodeId::new(1), 0), Decision::Admit);
    // a third identity crosses the limit and bans the address
    assert_eq!(f.decide(ip, NodeId::new(3), 0), Decision::Drop);
    assert_eq!(f.decide(ip, NodeId::new(1), 1), Decision::Drop);
    // the recorded identities persist, so the address is banned anew
    // as soon as the old ban lapses
    assert_eq!(f.decide(ip, NodeId::new(1), 5001), Decision::Drop);
    // an address with few identities is unaffected throughout
    assert_eq!(f.decide(8, NodeId::new(1), 5002), Decision::Admit);
}
