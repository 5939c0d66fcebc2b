use discv5::ident::NodeId;
use discv5::request::{PendingRequests, TimeoutOutcome};
use discv5::session::{SessionAction, SessionStore};

#[test]
fn handshake_flow() {
    let mut s = SessionStore::new(10, 1000);
    let peer = NodeId::new(7);
    // first outbound message starts a handshake and queues the payload
    let a = s.on_outbound(peer, 42, 555, 0);
    assert_eq!(a, SessionAction::SendChallenge { token: 555 });
    // a second payload before completion is queued too
    let a = s.on_outbound(peer, 43, 556, 1);
    assert_eq!(a, SessionAction::Queued);
    // completion hands back the queued payload and establishes the session
    let flushed = s.on_handshake_complete(peer, 99, 2);
    assert_eq!(flushed, Some(43));
    // from now on traffic is encrypted at once
    let a = s.on_outbound(peer, 44, 557, 3);
    assert_eq!(a, SessionAction::SendEncrypted { key: 99, payload: 44 });
}

#[test]
fn expired_session_is_swept_and_handshake_restarts() {
    let mut s = SessionStore::new(10, 1000);
    let peer = NodeId::new(7);
    s.on_outbound(peer, 1, 5, 0);
    s.on_handshake_complete(peer, 9, 0);
    // inactivity shorter than the timeout survives a sweep
    s.sweep(900);
    assert_eq!(s.len(), 1);
    // longer inactivity evicts on the next sweep
    s.sweep(1001);
    assert_eq!(s.len(), 0);
    // the peer's next message restarts from scratch
    let a = s.on_outbound(peer, 2, 6, 1002);
    assert_eq!(a, SessionAction::SendChallenge { token: 6 });
}

#[test]
fn lru_eviction_at_capacity() {
    let mut s = SessionStore::new(2, 100_000);
    let a = NodeId::new(1);
    let b = NodeId::new(2);
    let c = NodeId::new(3);
    s.on_outbound(a, 0, 1, 10);
    s.on_outbound(b, 0, 2, 20);
    // a is the least recently active; c's arrival evicts it
    s.on_outbound(c, 0, 3, 30);
    assert_eq!(s.len(), 2);
    assert!(!s.touch(a, 31), "least-recently-active session should be gone");
    assert!(s.touch(b, 32));
    assert!(s.touch(c, 33));
}

#[test]
fn lru_respects_recent_activity() {
    let mut s = SessionStore::new(2, 100_000);
    let a = NodeId::new(1);
    let b = NodeId::new(2);
    let c = NodeId::new(3);
    s.on_outbound(a, 0, 1, 10);
    s.on_outbound(b, 0, 2, 20);
    // touching a makes b the eviction candidate
    s.touch(a, 25);
    s.on_outbound(c, 0, 3, 30);
    assert!(s.touch(a, 31));
    assert!(!s.touch(b, 32));
    assert!(s.touch(c, 33));
}

#[test]
fn retries_keep_the_id_then_fail() {
    let mut p = PendingRequests::new();
    let peer = NodeId::new(9);
    let id = p.begin_request(peer, 77, 0);
    // two retries allowed: two timeouts resend under the same id
    assert_eq!(p.on_timeout_event(id, 2, 100), Some(TimeoutOutcome::Retry));
    assert_eq!(p.on_timeout_event(id, 2, 200), Some(TimeoutOutcome::Retry));
    // the third timeout exhausts the retries
    assert_eq!(p.on_timeout_event(id, 2, 300), Some(TimeoutOutcome::Failed));
    // the request is gone now
    assert_eq!(p.on_timeout_event(id, 2, 400), None);
    assert_eq!(p.len(), 0);
}

#[test]
fn reply_completes_exactly_once() {
    let mut p = PendingRequests::new();
    let id = p.begin_request(NodeId::new(9), 77, 0);
    let got = p.on_reply(id);
    assert!(got.is_some());
    assert_eq!(got.unwrap().body, 77);
    // a duplicate reply is discarded and changes nothing
    assert!(p.on_reply(id).is_none());
}

#[test]
fn unmatched_reply_is_ignored() {
    let mut p = PendingRequests::new();
    let id = p.begin_request(NodeId::new(9), 77, 0);
    assert!(p.on_reply(id + 1).is_none());
    assert_eq!(p.len(), 1);
}

#[test]
fn ids_are_fresh_per_request() {
    let mut p = PendingRequests::new();
    let a = p.begin_request(NodeId::new(1), 0, 0);
    let b = p.begin_request(NodeId::new(2), 0, 0);
    assert_ne!(a, b);
}
