use lkl_fuzz::engine::{Fuzzer, Verdict};
use lkl_fuzz::execution::{after_run, before_run, classify_run, ChildAction, ChildState, ExitKind};
use lkl_fuzz::generalized::{GeneralizedInput, Segment};
use lkl_fuzz::timeout::{timeout_from_millis_str, Timeout};

fn map_with(size: usize, edges: &[(usize, u8)]) -> Vec<u8> {
    let mut m = vec![0u8; size];
    for &(e, c) in edges {
        m[e] = c;
    }
    m
}

#[test]
fn seed_then_mutation_with_new_edge_is_kept() {
    let mut f = Fuzzer::new(8, 7, 3);
    let seed = vec![b'x'; 10];
    let idx = f.add_seed(seed, &map_with(8, &[(1, 1), (2, 1), (3, 1)]), 5);
    assert_eq!(idx, 0);
    assert_eq!(f.feedback.history[4], 0);
    let v = f.evaluate(
        b"xxxxxxxxxy".to_vec(),
        &map_with(8, &[(1, 1), (2, 1), (3, 1), (4, 1)]),
        ExitKind::Completed,
        5,
    );
    assert_eq!(v, Verdict::StoredCorpus(1));
    assert_eq!(f.corpus.exploration.len(), 2);
    assert_eq!(f.corpus.exploration[1].input, b"xxxxxxxxxy".to_vec());
    assert!(f.feedback.history[4] > 0);
    assert_eq!(f.feedback.history, vec![0, 1, 1, 1, 1, 0, 0, 0]);
}

#[test]
fn timed_out_run_is_stored_once_and_child_respawned() {
    let timeout = timeout_from_millis_str("1000").unwrap();
    assert_eq!(timeout, Timeout { millis: 1000 });
    let kind = classify_run(None, 1500, timeout.millis);
    assert_eq!(kind, ExitKind::TimedOut);
    let mut f = Fuzzer::new(4, 1, 3);
    f.add_seed(b"seed".to_vec(), &map_with(4, &[(0, 1)]), 3);
    let m = map_with(4, &[(0, 1), (2, 1)]);
    assert_eq!(f.evaluate(b"slow".to_vec(), &m, kind, 1500), Verdict::StoredObjective);
    assert_eq!(f.evaluate(b"slow".to_vec(), &m, kind, 1500), Verdict::Discarded);
    assert_eq!(f.corpus.objectives.len(), 1);
    assert_eq!(f.corpus.objectives[0].exit, ExitKind::TimedOut);
    assert_eq!(f.corpus.exploration.len(), 1);
    let child = after_run(kind);
    assert_eq!(child, ChildState::TimedOutKilled);
    assert_eq!(before_run(child), ChildAction::RespawnThenRun);
}

#[test]
fn identical_crashes_are_kept_once() {
    let mut f = Fuzzer::new(4, 1, 3);
    let m = map_with(4, &[(1, 2)]);
    assert_eq!(f.evaluate(b"a".to_vec(), &m, ExitKind::Crashed(11), 1), Verdict::StoredObjective);
    assert_eq!(f.evaluate(b"b".to_vec(), &m, ExitKind::Crashed(11), 1), Verdict::Discarded);
    assert_eq!(f.corpus.objectives.len(), 1);
    assert_eq!(f.corpus.objectives[0].input, b"a".to_vec());
    assert_eq!(f.evaluate(b"c".to_vec(), &m, ExitKind::Crashed(6), 1), Verdict::StoredObjective);
    assert_eq!(f.corpus.objectives.len(), 2);
}

#[test]
fn run_without_new_bits_is_discarded() {
    let mut f = Fuzzer::new(4, 1, 3);
    f.add_seed(b"seed".to_vec(), &map_with(4, &[(0, 3), (1, 1)]), 2);
    let before = f.feedback.history.clone();
    let v = f.evaluate(b"other".to_vec(), &map_with(4, &[(0, 3)]), ExitKind::Completed, 2);
    assert_eq!(v, Verdict::Discarded);
    assert_eq!(f.corpus.exploration.len(), 1);
    assert_eq!(f.corpus.objectives.len(), 0);
    assert_eq!(f.feedback.history, before);
}

#[test]
fn higher_bucket_on_known_edge_is_new() {
    let mut f = Fuzzer::new(4, 1, 3);
    f.add_seed(b"seed".to_vec(), &map_with(4, &[(0, 1)]), 2);
    // 3 hits fall in bucket 4, above bucket 1
    let v = f.evaluate(b"more".to_vec(), &map_with(4, &[(0, 3)]), ExitKind::Completed, 2);
    assert_eq!(v, Verdict::StoredCorpus(1));
    assert_eq!(f.feedback.history, vec![4, 0, 0, 0]);
    // 2 hits fall in bucket 2, below what is recorded
    let v = f.evaluate(b"less".to_vec(), &map_with(4, &[(0, 2)]), ExitKind::Completed, 2);
    assert_eq!(v, Verdict::Discarded);
}

#[test]
fn stores_hold_distinct_ids() {
    let mut f = Fuzzer::new(4, 1, 3);
    f.add_seed(b"seed".to_vec(), &map_with(4, &[(0, 1)]), 2);
    f.evaluate(b"boom".to_vec(), &map_with(4, &[(0, 1)]), ExitKind::Crashed(11), 2);
    f.evaluate(b"new".to_vec(), &map_with(4, &[(1, 1)]), ExitKind::Completed, 2);
    let expl: Vec<u64> = f.corpus.exploration.iter().map(|e| e.seq_id).collect();
    let obj: Vec<u64> = f.corpus.objectives.iter().map(|e| e.seq_id).collect();
    assert_eq!(expl, vec![0, 2]);
    assert_eq!(obj, vec![1]);
    for id in &expl {
        assert!(!obj.contains(id));
    }
}

#[test]
fn favored_set_drops_redundant_entries() {
    let mut f = Fuzzer::new(4, 1, 3);
    f.add_seed(b"long".to_vec(), &map_with(4, &[(0, 1), (1, 1)]), 2);
    assert_eq!(f.corpus.favored, vec![true]);
    // shorter and higher on edge 1: preferred for edge 1, but entry 0 still covers it
    let v = f.evaluate(b"sh".to_vec(), &map_with(4, &[(1, 3)]), ExitKind::Completed, 2);
    assert_eq!(v, Verdict::StoredCorpus(1));
    assert_eq!(f.corpus.top_rated[1], Some(1));
    assert_eq!(f.corpus.favored, vec![true, false]);
    let v = f.evaluate(b"z".to_vec(), &map_with(4, &[(2, 1)]), ExitKind::Completed, 2);
    assert_eq!(v, Verdict::StoredCorpus(2));
    assert_eq!(f.corpus.favored, vec![true, false, true]);
}

#[test]
fn favored_set_prefers_small_entries() {
    let mut f = Fuzzer::new(2, 1, 3);
    f.add_seed(b"big one".to_vec(), &map_with(2, &[(0, 1)]), 2);
    f.add_seed(b"s".to_vec(), &map_with(2, &[(0, 1), (1, 1)]), 2);
    assert_eq!(f.corpus.top_rated, vec![Some(1), Some(1)]);
    assert_eq!(f.corpus.favored, vec![false, true]);
}

#[test]
fn same_seed_replays_the_same_run() {
    let build = || {
        let mut f = Fuzzer::new(4, 42, 3);
        f.add_token(b"FOO".to_vec());
        f.add_seed(b"abcd".to_vec(), &map_with(4, &[(0, 1)]), 1);
        f.add_seed(b"efgh".to_vec(), &map_with(4, &[(1, 1)]), 1);
        f
    };
    let mut a = build();
    let mut b = build();
    let donor = vec![Segment::Gap(b"zz".to_vec())];
    for _ in 0..6 {
        let ia = a.select_next();
        let ib = b.select_next();
        assert_eq!(ia, ib);
        let input = GeneralizedInput::new(a.corpus.exploration[ia].input.clone());
        let ma = a.mutate(&input, &donor);
        let mb = b.mutate(&input, &donor);
        assert_eq!(ma.bytes, mb.bytes);
        assert_eq!(a.rng, b.rng);
    }
}

#[test]
fn peer_entry_received_twice_is_kept_once() {
    let mut f = Fuzzer::new(4, 1, 3);
    let m = map_with(4, &[(3, 1)]);
    assert_eq!(f.merge_received(b"peer".to_vec(), &m, 1), Verdict::StoredCorpus(0));
    assert_eq!(f.merge_received(b"peer".to_vec(), &m, 1), Verdict::Discarded);
    assert_eq!(f.corpus.exploration.len(), 1);
}

#[test]
fn seeding_only_on_empty_corpus() {
    let mut f = Fuzzer::new(4, 1, 3);
    assert!(f.needs_seeding());
    f.add_seed(b"seed".to_vec(), &map_with(4, &[]), 1);
    assert!(!f.needs_seeding());
    assert_eq!(f.corpus.exploration.len(), 1);
}
