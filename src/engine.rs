use vstd::prelude::*;

use crate::corpus::Corpus;
use crate::coverage::{classified, classify_map, has_new_bits, merged, FeedbackState};
use crate::execution::ExitKind;
use crate::generalized::{copy_bytes, flatten, GeneralizedInput, Segment};
use crate::mutation::{havoc_spec, mutate_bytes, mutate_segments, segs_view, stack_depth, stack_spec, tokens_view};
use crate::rand::{advance, mix, Rng};
use crate::scheduler::{select, select_spec};

verus! {

/// What became of an evaluated run.
#[derive(PartialEq, Eq, Structural, Clone, Copy, Debug)]
pub enum Verdict {
    /// Kept for mutation at this index of the exploration store.
    StoredCorpus(usize),
    /// Kept as a finding.
    StoredObjective,
    /// Not kept.
    Discarded,
}

/// The verdict on a run with classified map `map` and outcome `exit`: a finding is kept unless
/// one with the same signature and outcome is stored already; a completed run is kept when it
/// brings new bits.
pub open spec fn verdict_of(c: Corpus, history: Seq<u8>, map: Seq<u8>, exit: ExitKind) -> Verdict {
    if exit.is_objective_spec() {
        if exists|j: int|
            0 <= j < c.objectives@.len() && (#[trigger] c.objectives@[j]).coverage@ == map
                && c.objectives@[j].exit == exit {
            Verdict::Discarded
        } else {
            Verdict::StoredObjective
        }
    } else if has_new_bits(history, map) {
        Verdict::StoredCorpus(c.exploration@.len() as usize)
    } else {
        Verdict::Discarded
    }
}

/// The state of one worker: its corpus and its cumulative feedback.
pub struct Fuzzer {
    pub corpus: Corpus,
    pub feedback: FeedbackState,
    pub rng: Rng,
    /// Where the queue stands.
    pub cursor: usize,
    /// Literals that string replacement draws from.
    pub tokens: Vec<Vec<u8>>,
    /// The most operators stacked on one mutation.
    pub max_stack: u64,
}

/// A fresh vector of segments with the same kinds and bytes.
pub fn copy_segments(v: &Vec<Segment>) -> (r: Vec<Segment>)
    ensures
        segs_view(r@) == segs_view(v@),
        flatten(r@) == flatten(v@),
{
    let mut r: Vec<Segment> = Vec::new();
    let mut i: usize = 0;
    while i < v.len()
        invariant
            i <= v@.len(),
            segs_view(r@) == segs_view(v@.take(i as int)),
            flatten(r@) == flatten(v@.take(i as int)),
        decreases v.len() - i,
    {
        let seg = v[i].duplicate();
        let ghost before = r@;
        r.push(seg);
        proof {
            assert(v@.take(i + 1) =~= v@.take(i as int).push(v@[i as int]));
            assert(segs_view(r@) =~= segs_view(before).push(crate::mutation::seg_view(seg)));
            assert(segs_view(v@.take(i + 1)) =~= segs_view(v@.take(i as int)).push(
                crate::mutation::seg_view(v@[i as int]),
            ));
            crate::generalized::lemma_flatten_push(before, seg);
            crate::generalized::lemma_flatten_push(v@.take(i as int), v@[i as int]);
        }
        i += 1;
    }
    assert(v@.take(i as int) =~= v@);
    r
}

impl Fuzzer {
    pub open spec fn wf(&self) -> bool {
        &&& self.corpus.wf()
        &&& self.corpus.tracks(self.feedback@)
        &&& self.corpus.minimized(self.feedback@)
        &&& self.corpus.favored_are_preferred(self.feedback@)
    }

    pub open spec fn map_size(&self) -> usize {
        self.corpus.map_size
    }

    /// Room is left for one more sequence id.
    pub open spec fn can_store(&self) -> bool {
        self.corpus.next_id < u64::MAX
    }

    /// A worker with empty stores and an empty record, for maps of `map_size` edges, drawing
    /// from `seed` and stacking up to `max_stack` operators.
    pub fn new(map_size: usize, seed: u64, max_stack: u64) -> (r: Fuzzer)
        requires
            max_stack > 0,
        ensures
            r.rng.state == seed,
            r.cursor == 0,
            r.max_stack == max_stack,
            r.tokens@.len() == 0,
            r.wf(),
            r.map_size() == map_size,
            r.feedback@.len() == map_size,
            forall|e: int| 0 <= e < map_size ==> r.feedback@[e] == 0,
            r.corpus.exploration@.len() == 0,
            r.corpus.objectives@.len() == 0,
            r.corpus.next_id == 0,
    {
        let corpus = Corpus::new(map_size);
        let feedback = FeedbackState::new(map_size);
        Fuzzer { corpus, feedback, rng: Rng::with_seed(seed), cursor: 0, tokens: Vec::new(), max_stack }
    }

    /// Keeps a run for mutation: records its map and recomputes the favored set.
    fn store(&mut self, input: Vec<u8>, map: Vec<u8>, exec_time_ms: u64) -> (idx: usize)
        requires
            old(self).wf(),
            old(self).can_store(),
            map@.len() == old(self).map_size(),
        ensures
            final(self).wf(),
            idx == old(self).corpus.exploration@.len(),
            final(self).feedback@ == merged(old(self).feedback@, map@),
            final(self).corpus.exploration@.len() == old(self).corpus.exploration@.len() + 1,
            final(self).corpus.exploration@.drop_last() == old(self).corpus.exploration@,
            final(self).corpus.exploration@.last().input@ == input@,
            final(self).corpus.exploration@.last().coverage@ == map@,
            final(self).corpus.exploration@.last().exec_time_ms == exec_time_ms,
            final(self).corpus.objectives@ == old(self).corpus.objectives@,
            final(self).corpus.next_id == old(self).corpus.next_id + 1,
            final(self).map_size() == old(self).map_size(),
            final(self).rng == old(self).rng,
            final(self).cursor == old(self).cursor,
            final(self).tokens@ == old(self).tokens@,
            final(self).max_stack == old(self).max_stack,
    {
        self.feedback.commit(&map);
        let idx = self.corpus.add_exploration(input, map, exec_time_ms);
        self.corpus.cull(&self.feedback.history);
        idx
    }

    /// Adds a starting input to the exploration store whatever its coverage, recording its map.
    pub fn add_seed(&mut self, input: Vec<u8>, raw_map: &Vec<u8>, exec_time_ms: u64) -> (idx: usize)
        requires
            old(self).wf(),
            old(self).can_store(),
            raw_map@.len() == old(self).map_size(),
        ensures
            final(self).wf(),
            idx == old(self).corpus.exploration@.len(),
            final(self).feedback@ == merged(old(self).feedback@, classified(raw_map@)),
            final(self).corpus.exploration@.len() == old(self).corpus.exploration@.len() + 1,
            final(self).corpus.exploration@.drop_last() == old(self).corpus.exploration@,
            final(self).corpus.exploration@.last().input@ == input@,
            final(self).corpus.exploration@.last().coverage@ == classified(raw_map@),
            final(self).corpus.objectives@ == old(self).corpus.objectives@,
            final(self).map_size() == old(self).map_size(),
            final(self).rng == old(self).rng,
            final(self).cursor == old(self).cursor,
            final(self).tokens@ == old(self).tokens@,
            final(self).max_stack == old(self).max_stack,
    {
        let map = classify_map(raw_map);
        self.store(input, map, exec_time_ms)
    }

    /// Judges one run from its raw counters and outcome, and stores the input where it belongs.
    pub fn evaluate(&mut self, input: Vec<u8>, raw_map: &Vec<u8>, exit: ExitKind, exec_time_ms: u64) -> (r: Verdict)
        requires
            old(self).wf(),
            old(self).can_store(),
            raw_map@.len() == old(self).map_size(),
        ensures
            final(self).wf(),
            final(self).map_size() == old(self).map_size(),
            final(self).rng == old(self).rng,
            final(self).cursor == old(self).cursor,
            final(self).tokens@ == old(self).tokens@,
            final(self).max_stack == old(self).max_stack,
            r == verdict_of(old(self).corpus, old(self).feedback@, classified(raw_map@), exit),
            r is Discarded ==> {
                &&& final(self).corpus.exploration@ == old(self).corpus.exploration@
                &&& final(self).corpus.objectives@ == old(self).corpus.objectives@
                &&& final(self).feedback@ == old(self).feedback@
                &&& final(self).corpus.next_id == old(self).corpus.next_id
            },
            r is StoredObjective ==> {
                &&& final(self).corpus.exploration@ == old(self).corpus.exploration@
                &&& final(self).corpus.objectives@.drop_last() == old(self).corpus.objectives@
                &&& final(self).corpus.objectives@.len() == old(self).corpus.objectives@.len() + 1
                &&& final(self).corpus.objectives@.last().input@ == input@
                &&& final(self).corpus.objectives@.last().coverage@ == classified(raw_map@)
                &&& final(self).corpus.objectives@.last().exit == exit
                &&& final(self).feedback@ == old(self).feedback@
            },
            r is StoredCorpus ==> {
                &&& final(self).corpus.objectives@ == old(self).corpus.objectives@
                &&& final(self).corpus.exploration@.drop_last() == old(self).corpus.exploration@
                &&& final(self).corpus.exploration@.len() == old(self).corpus.exploration@.len() + 1
                &&& final(self).corpus.exploration@.last().input@ == input@
                &&& final(self).corpus.exploration@.last().coverage@ == classified(raw_map@)
                &&& final(self).feedback@ == merged(old(self).feedback@, classified(raw_map@))
            },
            !exit.is_objective_spec() && !has_new_bits(old(self).feedback@, classified(raw_map@))
                ==> final(self).corpus.exploration@.len() == old(self).corpus.exploration@.len()
                && final(self).corpus.objectives@.len() == old(self).corpus.objectives@.len(),
    {
        let map = classify_map(raw_map);
        if exit.is_objective() {
            if self.corpus.has_objective_like(&map, exit) {
                Verdict::Discarded
            } else {
                self.corpus.add_objective(input, map, exec_time_ms, exit);
                Verdict::StoredObjective
            }
        } else if self.feedback.is_interesting(&map) {
            let idx = self.store(input, map, exec_time_ms);
            Verdict::StoredCorpus(idx)
        } else {
            Verdict::Discarded
        }
    }
}


impl Fuzzer {
    /// Adds a literal for string replacement to draw from.
    pub fn add_token(&mut self, token: Vec<u8>)
        ensures
            final(self).tokens@ == old(self).tokens@.push(token),
            final(self).corpus == old(self).corpus,
            final(self).feedback == old(self).feedback,
            final(self).rng == old(self).rng,
            final(self).cursor == old(self).cursor,
            final(self).max_stack == old(self).max_stack,
    {
        self.tokens.push(token);
    }

    /// Hands out the exploration entry to mutate next and moves the queue past it.
    pub fn select_next(&mut self) -> (r: usize)
        requires
            old(self).wf(),
            old(self).corpus.exploration@.len() > 0,
        ensures
            final(self).wf(),
            final(self).rng.state == advance(old(self).rng.state),
            r == select_spec(old(self).corpus.favored@, old(self).cursor as int, mix(final(self).rng.state)),
            r < final(self).corpus.exploration@.len(),
            final(self).cursor == r + 1,
            final(self).corpus == old(self).corpus,
            final(self).feedback == old(self).feedback,
            final(self).tokens@ == old(self).tokens@,
            final(self).max_stack == old(self).max_stack,
    {
        let roll = self.rng.next();
        let n = self.corpus.favored.len();
        let r = select(&self.corpus.favored, self.cursor, roll);
        assert(r < n);
        self.cursor = r + 1;
        r
    }

    /// A new candidate from `input`: a stack of structure-aware operators on its generalized
    /// form, with `donor` lending gaps, or bit flips on its bytes where it has no such form.
    pub fn mutate(&mut self, input: &GeneralizedInput, donor: &Vec<Segment>) -> (r: GeneralizedInput)
        requires
            old(self).max_stack > 0,
        ensures
            r.wf(),
            final(self).corpus == old(self).corpus,
            final(self).feedback == old(self).feedback,
            final(self).cursor == old(self).cursor,
            final(self).tokens@ == old(self).tokens@,
            final(self).max_stack == old(self).max_stack,
            ({
                let s1 = advance(old(self).rng.state);
                let depth = stack_depth(mix(s1), old(self).max_stack);
                match input.generalized {
                    Some(segs) => {
                        let res = stack_spec(
                            segs_view(segs@),
                            s1,
                            depth,
                            tokens_view(old(self).tokens@),
                            segs_view(donor@),
                        );
                        &&& r.generalized matches Some(out) && segs_view(out@) == res.0
                        &&& r.bytes@ == flatten(r.generalized->Some_0@)
                        &&& final(self).rng.state == res.1
                    },
                    None => {
                        let res = havoc_spec(input.bytes@, s1, depth);
                        &&& r.generalized is None
                        &&& r.bytes@ == res.0
                        &&& final(self).rng.state == res.1
                    },
                }
            }),
    {
        match &input.generalized {
            Some(segs) => {
                let copy = copy_segments(segs);
                let out = mutate_segments(copy, &mut self.rng, self.max_stack, &self.tokens, donor);
                GeneralizedInput::from_segments(out)
            },
            None => {
                let bytes = copy_bytes(&input.bytes);
                let out = mutate_bytes(bytes, &mut self.rng, self.max_stack);
                GeneralizedInput::new(out)
            },
        }
    }
}

/// Replay: two workers in the same state hand out the same entry and then produce the same
/// mutation of the same input, leaving the same generator state behind.
pub proof fn lemma_replay_deterministic(
    a: Fuzzer,
    b: Fuzzer,
    input: GeneralizedInput,
    donor: Seq<Segment>,
)
    requires
        a.corpus.favored@ == b.corpus.favored@,
        a.cursor == b.cursor,
        a.rng == b.rng,
        tokens_view(a.tokens@) == tokens_view(b.tokens@),
        a.max_stack == b.max_stack,
    ensures
        select_spec(a.corpus.favored@, a.cursor as int, mix(advance(a.rng.state))) == select_spec(
            b.corpus.favored@,
            b.cursor as int,
            mix(advance(b.rng.state)),
        ),
        ({
            let s = advance(advance(a.rng.state));
            let depth = stack_depth(mix(s), a.max_stack);
            let t = advance(advance(b.rng.state));
            let depth_b = stack_depth(mix(t), b.max_stack);
            &&& input.generalized matches Some(segs) ==> stack_spec(
                segs_view(segs@),
                s,
                depth,
                tokens_view(a.tokens@),
                segs_view(donor),
            ) == stack_spec(segs_view(segs@), t, depth_b, tokens_view(b.tokens@), segs_view(donor))
            &&& havoc_spec(input.bytes@, s, depth) == havoc_spec(input.bytes@, t, depth_b)
        }),
{
}

} // verus!
