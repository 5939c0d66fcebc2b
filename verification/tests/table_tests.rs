use discv5::ident::NodeId;
use discv5::record::{Ipv4Net, PeerRecord};
use discv5::table::{AcceptAll, ConnectionDirection, RoutingTable, MAX_NODES_PER_BUCKET};

fn rec(id: u64, ip: u32, seq: u64) -> PeerRecord {
    PeerRecord { id: NodeId::new(id), ip, port: 9000, seq, caps: 0 }
}

fn table() -> RoutingTable<AcceptAll> {
    RoutingTable::new(NodeId::new(0), MAX_NODES_PER_BUCKET, false, 0, AcceptAll, None)
}

#[test]
fn bucket_capacity_is_enforced() {
    let mut t = table();
    // ids sharing the top bit all land in the same bucket relative to 0
    for k in 0..20u64 {
        let r = rec(0x8000_0000_0000_0000 | k, k as u32, 1);
        let changed = t.insert_or_update(r, ConnectionDirection::Outgoing, k as u32, k);
        if k < MAX_NODES_PER_BUCKET as u64 {
            assert!(changed, "peer {k} should fit");
        } else {
            assert!(!changed, "peer {k} should be rejected: bucket full");
        }
    }
    assert_eq!(t.len(), MAX_NODES_PER_BUCKET);
}

#[test]
fn incoming_sub_limit_is_enforced() {
    let mut t = RoutingTable::new(NodeId::new(0), 2, false, 0, AcceptAll, None);
    for k in 0..3u64 {
        let r = rec(0x8000_0000_0000_0000 | k, k as u32, 1);
        let changed = t.insert_or_update(r, ConnectionDirection::Incoming, k as u32, k);
        assert_eq!(changed, k < 2, "incoming peer {k}");
    }
    // an outgoing peer still fits in the same bucket
    let r = rec(0x8000_0000_0000_0000 | 7, 7, 1);
    assert!(t.insert_or_update(r, ConnectionDirection::Outgoing, 7, 9));
}

#[test]
fn newer_sequence_supersedes() {
    let mut t = table();
    assert!(t.insert_or_update(rec(5, 1, 1), ConnectionDirection::Outgoing, 1, 0));
    // stale and equal sequence numbers change nothing
    assert!(!t.insert_or_update(rec(5, 2, 1), ConnectionDirection::Outgoing, 2, 1));
    assert!(t.insert_or_update(rec(5, 2, 2), ConnectionDirection::Outgoing, 2, 2));
    let got = t.find_closest(NodeId::new(5), 1);
    assert_eq!(got[0].seq, 2);
    assert_eq!(got[0].ip, 2);
}

#[test]
fn own_identity_is_never_inserted() {
    let mut t = table();
    assert!(!t.insert_or_update(rec(0, 1, 1), ConnectionDirection::Outgoing, 1, 0));
    assert_eq!(t.len(), 0);
}

#[test]
fn remove_evicts_a_peer() {
    let mut t = table();
    assert!(t.insert_or_update(rec(5, 1, 1), ConnectionDirection::Outgoing, 1, 0));
    assert!(t.remove(NodeId::new(5)));
    assert!(!t.remove(NodeId::new(5)));
    assert_eq!(t.len(), 0);
}

#[test]
fn claimed_address_must_match_source() {
    let mut t = table();
    // source 9 differs from the advertised address 1
    assert!(!t.insert_or_update(rec(5, 1, 1), ConnectionDirection::Outgoing, 9, 0));
    // inside the trusted range the mismatch is tolerated
    let net = Ipv4Net::new(0x0A00_0000, 8).unwrap();
    let mut t2 = RoutingTable::new(
        NodeId::new(0),
        MAX_NODES_PER_BUCKET,
        false,
        0,
        AcceptAll,
        Some(net),
    );
    assert!(t2.insert_or_update(rec(5, 1, 1), ConnectionDirection::Outgoing, 0x0A01_0203, 0));
    assert!(!t2.insert_or_update(rec(6, 1, 1), ConnectionDirection::Outgoing, 0x0B01_0203, 0));
}

#[test]
fn subnet_diversity_limit() {
    let mut t = RoutingTable::new(NodeId::new(0), MAX_NODES_PER_BUCKET, true, 2, AcceptAll, None);
    // three peers in distinct buckets but one /24
    assert!(t.insert_or_update(rec(1, 0x0A000001, 1), ConnectionDirection::Outgoing, 0x0A000001, 0));
    assert!(t.insert_or_update(rec(2, 0x0A000002, 1), ConnectionDirection::Outgoing, 0x0A000002, 0));
    assert!(!t.insert_or_update(rec(4, 0x0A000003, 1), ConnectionDirection::Outgoing, 0x0A000003, 0));
    // a different /24 still fits
    assert!(t.insert_or_update(rec(8, 0x0A000103, 1), ConnectionDirection::Outgoing, 0x0A000103, 0));
}

#[test]
fn find_closest_round_trip() {
    let mut t = table();
    let mut ids = vec![3u64, 17, 0x8000_0000_0000_0001, 255, 1024];
    for (k, id) in ids.iter().enumerate() {
        assert!(t.insert_or_update(
            rec(*id, k as u32, 1),
            ConnectionDirection::Outgoing,
            k as u32,
            k as u64
        ));
    }
    // a record queried by its own identity comes back first, at distance zero
    let got = t.find_closest(NodeId::new(17), 3);
    assert_eq!(got[0].id.raw, 17);
    assert_eq!(got[0].id.distance(NodeId::new(17)), 0);
    // the full result is the brute-force nearest ordering
    let target = 17u64;
    ids.sort_by_key(|id| id ^ target);
    let got_all = t.find_closest(NodeId::new(17), 5);
    let got_ids: Vec<u64> = got_all.iter().map(|r| r.id.raw).collect();
    assert_eq!(got_ids, ids);
}

#[test]
fn find_closest_truncates_to_count() {
    let mut t = table();
    for k in 1..=10u64 {
        assert!(t.insert_or_update(rec(k, k as u32, 1), ConnectionDirection::Outgoing, k as u32, k));
    }
    assert_eq!(t.find_closest(NodeId::new(1), 4).len(), 4);
    assert_eq!(t.find_closest(NodeId::new(1), 40).len(), 10);
}

#[test]
fn ipv4_net_contains() {
    let net = Ipv4Net::new(0xC0A80100, 24).unwrap();
    assert!(net.contains(0xC0A80142));
    assert!(!net.contains(0xC0A80242));
    assert!(Ipv4Net::new(0, 33).is_none());
    let all = Ipv4Net::new(0, 0).unwrap();
    assert!(all.contains(0xFFFF_FFFF));
}

#[test]
fn log2_distance_values() {
    let a = NodeId::new(0);
    assert_eq!(a.log2_distance(NodeId::new(0)), 0);
    assert_eq!(a.log2_distance(NodeId::new(1)), 1);
    assert_eq!(a.log2_distance(NodeId::new(0b1000)), 4);
    assert_eq!(a.log2_distance(NodeId::new(u64::MAX)), 64);
}

#[test]
fn distance_metric_laws_concrete() {
    let a = NodeId::new(0xDEAD_BEEF);
    let b = NodeId::new(0x1234_5678);
    assert_eq!(a.distance(b), b.distance(a));
    assert_eq!(a.distance(a), 0);
    assert_ne!(a.distance(b), 0);
}
