use discv5::ident::NodeId;
use discv5::query::QueryState;
use discv5::record::PeerRecord;

fn rec(id: u64) -> PeerRecord {
    PeerRecord { id: NodeId::new(id), ip: (id & 0xFFFF) as u32, port: 30303, seq: 1, caps: 0 }
}

fn network(n: u64) -> Vec<PeerRecord> {
    // a deterministic pseudo-random id population
    let mut x: u64 = 0x9E37_79B9_7F4A_7C15;
    let mut out = Vec::new();
    for _ in 0..n {
        x = x.wrapping_mul(6364136223846793005).wrapping_add(1442695040888963407);
        out.push(rec(x));
    }
    out
}

fn k_nearest(all: &[PeerRecord], target: u64, k: usize) -> Vec<u64> {
    let mut ids: Vec<u64> = all.iter().map(|r| r.id.raw).collect();
    ids.sort_by_key(|id| id ^ target);
    ids.truncate(k);
    ids
}

#[test]
fn iterative_query_finds_true_k_nearest() {
    let all = network(30);
    let target = NodeId::new(0x1234_5678_9ABC_DEF0);
    // every synthetic peer answers a lookup with its 6 closest to the target
    let reply_of = |_asked: u64| -> Vec<PeerRecord> {
        let mut v = all.clone();
        v.sort_by_key(|r| r.id.raw ^ target.raw);
        v.truncate(6);
        v
    };
    // seed with the three *farthest* peers, so the walk has to discover
    let mut seed = all.clone();
    seed.sort_by_key(|r| r.id.raw ^ target.raw);
    let seed: Vec<PeerRecord> = seed.into_iter().rev().take(3).collect();
    let mut q = QueryState::new(target, &seed, 3, 0, 1_000_000);
    let mut rounds = 0;
    while !q.is_done(1) && rounds < 1000 {
        let mut asked = Vec::new();
        while let Some(r) = q.next_to_query() {
            asked.push(r);
        }
        for r in asked {
            q.on_reply(r.id, &reply_of(r.id.raw));
        }
        rounds += 1;
    }
    assert!(q.is_done(1), "query should converge");
    let best = q.best_results(6);
    let got: Vec<u64> = best.iter().map(|r| r.id.raw).collect();
    // compare against a brute-force distance sort over the whole network
    let mut everything = all.clone();
    everything.extend(seed.iter().cloned());
    assert_eq!(got, k_nearest(&everything, target.raw, 6));
}

#[test]
fn unresponsive_peers_free_the_budget() {
    let target = NodeId::new(0);
    let seed = vec![rec(1), rec(2), rec(3)];
    let mut q = QueryState::new(target, &seed, 1, 0, 1_000_000);
    let first = q.next_to_query().expect("one request fits the budget");
    assert_eq!(first.id.raw, 1, "closest untried goes first");
    // the budget of one is spent
    assert!(q.next_to_query().is_none());
    // a peer timeout frees it
    q.on_peer_timeout(first.id);
    let second = q.next_to_query().expect("budget freed");
    assert_eq!(second.id.raw, 2);
}

#[test]
fn replies_merge_deduplicated() {
    let target = NodeId::new(0);
    let seed = vec![rec(1), rec(2)];
    let mut q = QueryState::new(target, &seed, 2, 0, 1_000_000);
    let asked = q.next_to_query().unwrap();
    q.on_reply(asked.id, &vec![rec(2), rec(5), rec(5), rec(9)]);
    // 1, 2 from the seed, 5 and 9 newly discovered: duplicates collapse
    let best = q.best_results(10);
    let mut ids: Vec<u64> = best.iter().map(|r| r.id.raw).collect();
    ids.sort();
    assert_eq!(ids, vec![1, 2, 5, 9]);
}

#[test]
fn empty_seed_converges_immediately() {
    let q = QueryState::new(NodeId::new(0), &Vec::new(), 3, 0, 1_000_000);
    assert!(q.is_done(0));
    assert_eq!(q.best_results(16).len(), 0);
}

#[test]
fn overall_timeout_ends_the_query() {
    let seed = vec![rec(1)];
    let q = QueryState::new(NodeId::new(0), &seed, 3, 100, 50);
    assert!(!q.is_done(120));
    assert!(q.is_done(151));
}
