use vstd::prelude::*;

use crate::corpus::Corpus;
use crate::coverage::{classified, merged};
use crate::engine::{verdict_of, Fuzzer, Verdict};
use crate::execution::ExitKind;
use crate::generalized::bytes_equal;

verus! {

/// Where one iteration of the fuzzing loop stands.
#[derive(PartialEq, Eq, Structural, Clone, Copy, Debug)]
pub enum Phase {
    Idle,
    SelectEntry,
    Mutate,
    Execute,
    Evaluate,
    Stopped,
}

/// The loop's order: a shutdown request is honoured only between iterations, and a stopped
/// loop stays stopped.
pub open spec fn next_phase_spec(p: Phase, shutdown: bool) -> Phase {
    match p {
        Phase::Idle => if shutdown {
            Phase::Stopped
        } else {
            Phase::SelectEntry
        },
        Phase::SelectEntry => Phase::Mutate,
        Phase::Mutate => Phase::Execute,
        Phase::Execute => Phase::Evaluate,
        Phase::Evaluate => Phase::Idle,
        Phase::Stopped => Phase::Stopped,
    }
}

pub fn next_phase(p: Phase, shutdown: bool) -> (r: Phase)
    ensures
        r == next_phase_spec(p, shutdown),
{
    match p {
        Phase::Idle => if shutdown {
            Phase::Stopped
        } else {
            Phase::SelectEntry
        },
        Phase::SelectEntry => Phase::Mutate,
        Phase::Mutate => Phase::Execute,
        Phase::Execute => Phase::Evaluate,
        Phase::Evaluate => Phase::Idle,
        Phase::Stopped => Phase::Stopped,
    }
}

/// A file of the starting directory is loaded when it is a regular file with some content.
pub fn is_seed_file(is_file: bool, len: u64) -> (r: bool)
    ensures
        r == (is_file && len > 0),
{
    is_file && len > 0
}

/// Some exploration entry holds exactly these bytes.
pub open spec fn holds_input(c: Corpus, input: Seq<u8>) -> bool {
    exists|i: int| 0 <= i < c.exploration@.len() && (#[trigger] c.exploration@[i]).input@ == input
}

impl Fuzzer {
    /// Whether the starting inputs are still to be loaded: nothing is kept for mutation yet.
    pub fn needs_seeding(&self) -> (r: bool)
        ensures
            r == (self.corpus.exploration@.len() == 0),
    {
        self.corpus.exploration_len() == 0
    }

    /// Whether an exploration entry holds exactly these bytes.
    pub fn holds_input(&self, input: &Vec<u8>) -> (r: bool)
        ensures
            r == holds_input(self.corpus, input@),
    {
        let mut i: usize = 0;
        while i < self.corpus.exploration.len()
            invariant
                i <= self.corpus.exploration@.len(),
                forall|k: int| 0 <= k < i ==> (#[trigger] self.corpus.exploration@[k]).input@ != input@,
            decreases self.corpus.exploration.len() - i,
        {
            if bytes_equal(&self.corpus.exploration[i].input, input) {
                return true;
            }
            i += 1;
        }
        false
    }

    /// Takes in an entry that a peer broadcast: ignored when these bytes are kept already,
    /// otherwise judged as a completed local run.
    pub fn merge_received(&mut self, input: Vec<u8>, raw_map: &Vec<u8>, exec_time_ms: u64) -> (r: Verdict)
        requires
            old(self).wf(),
            old(self).can_store(),
            raw_map@.len() == old(self).map_size(),
        ensures
            final(self).wf(),
            final(self).map_size() == old(self).map_size(),
            holds_input(old(self).corpus, input@) ==> r is Discarded && final(self).corpus.exploration@
                == old(self).corpus.exploration@ && final(self).corpus.objectives@
                == old(self).corpus.objectives@ && final(self).feedback@ == old(self).feedback@,
            !holds_input(old(self).corpus, input@) ==> r == verdict_of(
                old(self).corpus,
                old(self).feedback@,
                classified(raw_map@),
                ExitKind::Completed,
            ),
            r is StoredCorpus ==> holds_input(final(self).corpus, input@)
                && final(self).feedback@ == merged(old(self).feedback@, classified(raw_map@)),
            r is Discarded ==> final(self).corpus.exploration@ == old(self).corpus.exploration@
                && final(self).feedback@ == old(self).feedback@,
            !(r is StoredObjective),
    {
        if self.holds_input(&input) {
            return Verdict::Discarded;
        }
        let ghost bytes = input@;
        let r = self.evaluate(input, raw_map, ExitKind::Completed, exec_time_ms);
        proof {
            if r is StoredCorpus {
                let last = self.corpus.exploration@.len() - 1;
                assert(self.corpus.exploration@[last].input@ == bytes);
            }
        }
        r
    }
}

} // verus!
