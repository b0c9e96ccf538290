use lkl_fuzz::coverage::{classify_count, classify_map, FeedbackState};
use lkl_fuzz::execution::{classify_run, ExitKind};
use lkl_fuzz::generalized::{
    derive_generalized, record_span_verdict, reconstruct, without_span, GeneralizedInput, Generalizer,
    Segment,
};
use lkl_fuzz::mutation::{apply_op, delete_gap, extend_gap, flip_bit, replace_gap};
use lkl_fuzz::rand::Rng;
use lkl_fuzz::scheduler::select;
use lkl_fuzz::timeout::{timeout_from_millis_str, Timeout, TimeoutError};
use lkl_fuzz::worker::{is_seed_file, next_phase, Phase};

fn describe(segs: &[Segment]) -> Vec<(bool, Vec<u8>)> {
    segs.iter().map(|s| (s.is_gap(), s.content().clone())).collect()
}

#[test]
fn buckets_of_counts() {
    let pairs = [
        (0u8, 0u8), (1, 1), (2, 2), (3, 4), (4, 8), (7, 8), (8, 16), (15, 16), (16, 32), (31, 32),
        (32, 64), (127, 64), (128, 128), (255, 128),
    ];
    for (c, b) in pairs {
        assert_eq!(classify_count(c), b, "count {}", c);
    }
    assert_eq!(classify_map(&vec![0, 3, 200, 9]), vec![0, 4, 128, 16]);
}

#[test]
fn feedback_record_grows() {
    let mut fb = FeedbackState::new(3);
    assert_eq!(fb.history, vec![0, 0, 0]);
    assert!(fb.is_interesting(&vec![0, 1, 0]));
    fb.commit(&vec![0, 1, 0]);
    fb.commit(&vec![2, 0, 0]);
    assert_eq!(fb.history, vec![2, 1, 0]);
    assert!(!fb.is_interesting(&vec![1, 1, 0]));
    assert!(fb.is_interesting(&vec![0, 0, 1]));
}

#[test]
fn generalized_form_spells_the_input() {
    let raw = b"abcdef".to_vec();
    let mask = vec![false, false, true, true, false, true];
    let segs = derive_generalized(&raw, &mask).unwrap();
    assert_eq!(
        describe(&segs),
        vec![
            (false, b"ab".to_vec()),
            (true, b"cd".to_vec()),
            (false, b"e".to_vec()),
            (true, b"f".to_vec()),
        ]
    );
    assert_eq!(reconstruct(&segs), raw);
}

#[test]
fn no_gap_leaves_input_ungeneralized() {
    let raw = b"abc".to_vec();
    assert!(derive_generalized(&raw, &vec![false; 3]).is_none());
    let mut input = GeneralizedInput::new(raw.clone());
    assert!(!input.generalize(&vec![false; 3]));
    assert!(input.generalized.is_none());
    assert!(input.generalize(&vec![true; 3]));
    let segs = input.generalized.as_ref().unwrap();
    assert_eq!(describe(segs), vec![(true, b"abc".to_vec())]);
    assert_eq!(input.bytes, raw);
}

#[test]
fn empty_input_has_no_generalized_form() {
    assert!(derive_generalized(&vec![], &vec![]).is_none());
}

#[test]
fn span_removal_and_verdict() {
    let raw = b"hello".to_vec();
    assert_eq!(without_span(&raw, 1, 3), b"hlo".to_vec());
    assert_eq!(without_span(&raw, 0, 5), Vec::<u8>::new());
    let mut mask = vec![false; 5];
    assert!(record_span_verdict(&mut mask, 1, 3, &vec![1, 2], &vec![1, 2]));
    assert_eq!(mask, vec![false, true, true, false, false]);
    assert!(!record_span_verdict(&mut mask, 3, 5, &vec![1, 2], &vec![1, 4]));
    assert_eq!(mask, vec![false, true, true, false, false]);
}

#[test]
fn from_segments_spells_bytes() {
    let input = GeneralizedInput::from_segments(vec![
        Segment::Fixed(b"mkdir ".to_vec()),
        Segment::Gap(b"/a".to_vec()),
    ]);
    assert_eq!(input.bytes, b"mkdir /a".to_vec());
}

#[test]
fn gap_operators() {
    let base = || vec![Segment::Fixed(b"a".to_vec()), Segment::Gap(b"b".to_vec())];
    assert_eq!(
        describe(&extend_gap(base(), 1)),
        vec![(false, b"a".to_vec()), (true, b"b".to_vec()), (true, b"b".to_vec())]
    );
    assert_eq!(describe(&extend_gap(base(), 0)), describe(&base()));
    assert_eq!(
        describe(&replace_gap(base(), 1, b"zz".to_vec())),
        vec![(false, b"a".to_vec()), (true, b"zz".to_vec())]
    );
    assert_eq!(describe(&replace_gap(base(), 0, b"zz".to_vec())), describe(&base()));
    assert_eq!(describe(&delete_gap(base(), 1)), vec![(false, b"a".to_vec())]);
    assert_eq!(describe(&delete_gap(base(), 5)), describe(&base()));
}

#[test]
fn operator_slots() {
    let base = || vec![Segment::Fixed(b"a".to_vec()), Segment::Gap(b"b".to_vec())];
    let tokens = vec![b"FOO".to_vec(), b"BAR".to_vec()];
    let donor = vec![Segment::Fixed(b"q".to_vec()), Segment::Gap(b"don".to_vec())];
    // slot 0 extends, target 1 % 2 == 1
    assert_eq!(describe(&apply_op(base(), 0, 1, 0, &tokens, &donor)).len(), 3);
    // slot 1 takes the donor gap at 3 % 2 == 1
    assert_eq!(
        describe(&apply_op(base(), 1, 1, 3, &tokens, &donor)),
        vec![(false, b"a".to_vec()), (true, b"don".to_vec())]
    );
    // slot 1 with a fixed donor segment changes nothing
    assert_eq!(describe(&apply_op(base(), 1, 1, 2, &tokens, &donor)), describe(&base()));
    // slot 2 takes token 1
    assert_eq!(
        describe(&apply_op(base(), 7, 3, 1, &tokens, &donor)),
        vec![(false, b"a".to_vec()), (true, b"BAR".to_vec())]
    );
    // slots 3 and 4 delete
    assert_eq!(describe(&apply_op(base(), 3, 1, 0, &tokens, &donor)), vec![(false, b"a".to_vec())]);
    assert_eq!(describe(&apply_op(base(), 4, 1, 0, &tokens, &donor)), vec![(false, b"a".to_vec())]);
}

#[test]
fn bit_flips() {
    assert_eq!(flip_bit(vec![0, 0], 1, 3), vec![0, 8]);
    assert_eq!(flip_bit(vec![0xff], 0, 15), vec![0x7f]);
    assert_eq!(flip_bit(vec![1], 4, 0), vec![1]);
}

#[test]
fn generator_values() {
    let mut r = Rng::with_seed(0);
    assert_eq!(r.next(), 0xE220A8397B1DCDAF);
    assert_eq!(r.next(), 0x6E789E6AA1B965F4);
    assert_eq!(r.next(), 0x06C45D188009454F);
}

#[test]
fn queue_selection() {
    let fav = vec![false, true, false];
    assert_eq!(select(&fav, 0, 50), 1);
    assert_eq!(select(&fav, 0, 3), 0);
    assert_eq!(select(&fav, 2, 50), 1);
    assert_eq!(select(&fav, 5, 50), 1);
    assert_eq!(select(&vec![false, false], 3, 50), 1);
    assert_eq!(select(&vec![true], 9, 99), 0);
}

#[test]
fn run_classification() {
    assert_eq!(classify_run(None, 10, 1000), ExitKind::Completed);
    assert_eq!(classify_run(Some(11), 10, 1000), ExitKind::Crashed(11));
    assert_eq!(classify_run(Some(9), 1001, 1000), ExitKind::TimedOut);
    assert_eq!(classify_run(None, 1000, 1000), ExitKind::Completed);
}

#[test]
fn timeout_strings() {
    assert_eq!(timeout_from_millis_str("1000"), Ok(Timeout { millis: 1000 }));
    assert_eq!(timeout_from_millis_str("+5"), Ok(Timeout { millis: 5 }));
    assert_eq!(timeout_from_millis_str("0"), Ok(Timeout { millis: 0 }));
    assert_eq!(
        timeout_from_millis_str("18446744073709551615"),
        Ok(Timeout { millis: u64::MAX })
    );
    assert_eq!(timeout_from_millis_str(""), Err(TimeoutError::Empty));
    assert_eq!(timeout_from_millis_str("+"), Err(TimeoutError::InvalidDigit));
    assert_eq!(timeout_from_millis_str("12a"), Err(TimeoutError::InvalidDigit));
    assert_eq!(timeout_from_millis_str("-1"), Err(TimeoutError::InvalidDigit));
    assert_eq!(timeout_from_millis_str("18446744073709551616"), Err(TimeoutError::Overflow));
}

#[test]
fn loop_phases() {
    let mut p = Phase::Idle;
    let mut seen = vec![];
    for _ in 0..5 {
        p = next_phase(p, false);
        seen.push(p);
    }
    assert_eq!(
        seen,
        vec![Phase::SelectEntry, Phase::Mutate, Phase::Execute, Phase::Evaluate, Phase::Idle]
    );
    assert_eq!(next_phase(Phase::Execute, true), Phase::Evaluate);
    assert_eq!(next_phase(Phase::Idle, true), Phase::Stopped);
    assert_eq!(next_phase(Phase::Stopped, false), Phase::Stopped);
}

#[test]
fn seed_files() {
    assert!(is_seed_file(true, 3));
    assert!(!is_seed_file(true, 0));
    assert!(!is_seed_file(false, 3));
}

#[test]
fn staged_generalization_pass() {
    let mut g = Generalizer::new(b"abcde".to_vec(), vec![1, 0, 4], 2);
    assert!(!g.is_done());
    assert_eq!(g.candidate(), b"cde".to_vec());
    assert!(!g.observe(&vec![1, 0, 0]));
    assert_eq!(g.pos, 2);
    assert_eq!(g.candidate(), b"abe".to_vec());
    assert!(g.observe(&vec![1, 0, 4]));
    assert_eq!(g.candidate(), b"abcd".to_vec());
    assert!(!g.observe(&vec![0, 0, 0]));
    assert!(g.is_done());
    assert_eq!(g.mask, vec![false, false, true, true, false]);
    let input = g.finish();
    assert_eq!(input.bytes, b"abcde".to_vec());
    assert_eq!(
        describe(input.generalized.as_ref().unwrap()),
        vec![(false, b"ab".to_vec()), (true, b"cd".to_vec()), (false, b"e".to_vec())]
    );
}

#[test]
fn pass_without_gaps_leaves_no_form() {
    let mut g = Generalizer::new(b"xy".to_vec(), vec![2], 5);
    assert_eq!(g.candidate(), Vec::<u8>::new());
    assert!(!g.observe(&vec![0]));
    assert!(g.is_done());
    assert!(g.finish().generalized.is_none());
}
