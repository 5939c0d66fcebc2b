use discv5::config::{ConfigBuilder, ListenConfig};
use discv5::ident::NodeId;
use discv5::reachability::{AdvertState, ReachabilityMonitor, SocketAddress};
use discv5::record::Ipv4Net;
use discv5::table::MAX_NODES_PER_BUCKET;

fn addr(ip: u32, port: u16) -> SocketAddress {
    SocketAddress { ip, port }
}

#[test]
fn quorum_updates_the_record_exactly_once() {
    let mut m = ReachabilityMonitor::new(120_000, 3, true, None, 0);
    let a = addr(0x01020304, 30303);
    assert!(!m.on_vote(NodeId::new(1), a, 0));
    assert!(!m.on_vote(NodeId::new(2), a, 1));
    // the third distinct peer completes the quorum
    assert!(m.on_vote(NodeId::new(3), a, 2));
    assert_eq!(m.current, Some(a));
    // repeated identical votes change nothing: the update is idempotent
    assert!(!m.on_vote(NodeId::new(1), a, 3));
    assert!(!m.on_vote(NodeId::new(4), a, 4));
    assert_eq!(m.current, Some(a));
}

#[test]
fn one_peer_cannot_vote_twice() {
    let mut m = ReachabilityMonitor::new(120_000, 2, true, None, 0);
    let a = addr(0x01020304, 30303);
    assert!(!m.on_vote(NodeId::new(1), a, 0));
    assert!(!m.on_vote(NodeId::new(1), a, 1));
    assert!(!m.on_vote(NodeId::new(1), a, 2));
    assert_eq!(m.current, None);
}

#[test]
fn stale_votes_do_not_count() {
    let mut m = ReachabilityMonitor::new(100, 2, true, None, 0);
    let a = addr(0x01020304, 30303);
    assert!(!m.on_vote(NodeId::new(1), a, 0));
    // the first vote expired before the second arrived
    assert!(!m.on_vote(NodeId::new(2), a, 200));
}

#[test]
fn disabled_updates_never_advertise() {
    let mut m = ReachabilityMonitor::new(120_000, 1, false, None, 0);
    let a = addr(0x01020304, 30303);
    assert!(!m.on_vote(NodeId::new(1), a, 0));
    assert_eq!(m.current, None);
}

#[test]
fn silent_listen_window_retracts_then_retries() {
    let mut m = ReachabilityMonitor::new(120_000, 1, true, Some(300), 6000);
    let a = addr(0x01020304, 30303);
    assert!(m.on_vote(NodeId::new(1), a, 0));
    assert_eq!(m.state, AdvertState::Listening { until: 300 });
    // nothing inbound: the advertisement is retracted for the cooldown
    assert!(m.tick(301));
    assert_eq!(m.current, None);
    assert_eq!(m.state, AdvertState::Retracted { until: 6301 });
    // after the cooldown the monitor is free to advertise again
    assert!(!m.tick(6302));
    assert_eq!(m.state, AdvertState::Idle);
    assert!(m.on_vote(NodeId::new(2), a, 6303));
}

#[test]
fn incoming_connection_confirms_reachability() {
    let mut m = ReachabilityMonitor::new(120_000, 1, true, Some(300), 6000);
    let a = addr(0x01020304, 30303);
    assert!(m.on_vote(NodeId::new(1), a, 0));
    m.on_incoming(100);
    assert_eq!(m.state, AdvertState::Contactable);
    // no retraction happens once we are contactable
    assert!(!m.tick(10_000));
    assert_eq!(m.current, Some(a));
}

#[test]
fn config_defaults() {
    let lc = ListenConfig::Ipv4 { ip: 0, port: 9000 };
    let c = ConfigBuilder::new(lc).build();
    assert!(!c.enable_packet_filter);
    assert_eq!(c.request_timeout, 1000);
    assert_eq!(c.vote_duration, 120_000);
    assert_eq!(c.query_peer_timeout, 2000);
    assert_eq!(c.query_timeout, 60_000);
    assert_eq!(c.request_retries, 1);
    assert_eq!(c.session_timeout, 86_400_000);
    assert_eq!(c.session_cache_capacity, 1000);
    assert!(c.enr_update);
    assert_eq!(c.max_nodes_response, 16);
    assert_eq!(c.enr_peer_update_min, 10);
    assert_eq!(c.query_parallelism, 3);
    assert!(!c.ip_limit);
    assert_eq!(c.incoming_bucket_limit, MAX_NODES_PER_BUCKET);
    assert_eq!(c.ping_interval, 300_000);
    assert!(c.report_discovered_peers);
    let l = c.filter_rate_limiter.expect("default limiter");
    assert_eq!(l.total_quota.limit, 10);
    assert_eq!(l.node_quota.unwrap().limit, 8);
    assert_eq!(l.ip_quota.unwrap().limit, 9);
    assert_eq!(c.filter_max_nodes_per_ip, Some(10));
    assert_eq!(c.filter_max_bans_per_ip, Some(5));
    assert_eq!(c.ban_duration, Some(3_600_000));
    assert_eq!(c.auto_nat_listen_duration, Some(300_000));
    assert_eq!(c.listen_config, lc);
    assert!(c.allowed_cidr.is_none());
}

#[test]
fn builder_setters_chain() {
    let lc = ListenConfig::Ipv4 { ip: 0, port: 9000 };
    let mut b = ConfigBuilder::new(lc);
    b.enable_packet_filter()
        .request_timeout(250)
        .query_parallelism(5)
        .request_retries(4)
        .session_timeout(500)
        .session_cache_capacity(12)
        .disable_enr_update()
        .max_nodes_response(8)
        .enr_peer_update_min(2)
        .ip_limit()
        .incoming_bucket_limit(4)
        .ping_interval(77)
        .disable_report_discovered_peers()
        .vote_duration(1234)
        .query_peer_timeout(55)
        .query_timeout(5555)
        .filter_max_nodes_per_ip(Some(3))
        .filter_max_bans_per_ip(None)
        .ban_duration(None)
        .auto_nat_listen_duration(Some(9))
        .allowed_cidr(&Ipv4Net { addr: 0x0A000000, prefix: 8 });
    let c = b.build();
    assert!(c.enable_packet_filter);
    assert_eq!(c.request_timeout, 250);
    assert_eq!(c.query_parallelism, 5);
    assert_eq!(c.request_retries, 4);
    assert_eq!(c.session_timeout, 500);
    assert_eq!(c.session_cache_capacity, 12);
    assert!(!c.enr_update);
    assert_eq!(c.max_nodes_response, 8);
    assert_eq!(c.enr_peer_update_min, 2);
    assert!(c.ip_limit);
    assert_eq!(c.incoming_bucket_limit, 4);
    assert_eq!(c.ping_interval, 77);
    assert!(!c.report_discovered_peers);
    assert_eq!(c.vote_duration, 1234);
    assert_eq!(c.query_peer_timeout, 55);
    assert_eq!(c.query_timeout, 5555);
    assert_eq!(c.filter_max_nodes_per_ip, Some(3));
    assert_eq!(c.filter_max_bans_per_ip, None);
    assert_eq!(c.ban_duration, None);
    assert_eq!(c.auto_nat_listen_duration, Some(9));
    assert_eq!(c.allowed_cidr, Some(Ipv4Net { addr: 0x0A000000, prefix: 8 }));
}
