use vstd::prelude::*;

verus! {

/// The hit-count bucket that a raw edge counter falls into.
pub open spec fn bucket_of(c: u8) -> u8 {
    if c == 0 {
        0
    } else if c == 1 {
        1
    } else if c == 2 {
        2
    } else if c == 3 {
        4
    } else if c <= 7 {
        8
    } else if c <= 15 {
        16
    } else if c <= 31 {
        32
    } else if c <= 127 {
        64
    } else {
        128
    }
}

/// Classifies one raw counter into its saturation bucket.
pub fn classify_count(c: u8) -> (r: u8)
    ensures
        r == bucket_of(c),
{
    if c == 0 {
        0
    } else if c == 1 {
        1
    } else if c == 2 {
        2
    } else if c == 3 {
        4
    } else if c <= 7 {
        8
    } else if c <= 15 {
        16
    } else if c <= 31 {
        32
    } else if c <= 127 {
        64
    } else {
        128
    }
}


/// The classified form of a raw counter map.
pub open spec fn classified(raw: Seq<u8>) -> Seq<u8> {
    Seq::new(raw.len(), |i: int| bucket_of(raw[i]))
}

/// Turns raw edge counters into hit-count buckets, index by index.
pub fn classify_map(raw: &Vec<u8>) -> (r: Vec<u8>)
    ensures
        r@ == classified(raw@),
{
    let mut r: Vec<u8> = Vec::new();
    let mut i: usize = 0;
    while i < raw.len()
        invariant
            i <= raw.len(),
            r@ == classified(raw@.subrange(0, i as int)),
        decreases raw.len() - i,
    {
        r.push(classify_count(raw[i]));
        i += 1;
        assert(r@ =~= classified(raw@.subrange(0, i as int)));
    }
    assert(raw@.subrange(0, i as int) =~= raw@);
    r
}

/// A map brings new information over a baseline when some index climbs above it.
pub open spec fn has_new_bits(baseline: Seq<u8>, map: Seq<u8>) -> bool {
    exists|i: int| 0 <= i < map.len() && i < baseline.len() && map[i] > baseline[i]
}

/// The pointwise maximum of a baseline and a map of the same size.
pub open spec fn merged(baseline: Seq<u8>, map: Seq<u8>) -> Seq<u8> {
    Seq::new(baseline.len(), |i: int| if map[i] > baseline[i] { map[i] } else { baseline[i] })
}

/// An edge is covered by a map when its bucket is not zero.
pub open spec fn covers_edge(map: Seq<u8>, e: int) -> bool {
    0 <= e < map.len() && map[e] > 0
}

/// The cumulative record of the best buckets seen so far over a run.
pub struct FeedbackState {
    pub history: Vec<u8>,
}

impl FeedbackState {
    pub open spec fn view(&self) -> Seq<u8> {
        self.history@
    }

    /// An empty record for maps of `size` edges.
    pub fn new(size: usize) -> (r: FeedbackState)
        ensures
            r@.len() == size,
            forall|i: int| 0 <= i < size ==> r@[i] == 0,
    {
        let mut history: Vec<u8> = Vec::new();
        let mut i: usize = 0;
        while i < size
            invariant
                i <= size,
                history@.len() == i,
                forall|k: int| 0 <= k < i ==> history@[k] == 0,
            decreases size - i,
        {
            history.push(0);
            i += 1;
        }
        FeedbackState { history }
    }

    pub fn size(&self) -> (r: usize)
        ensures
            r == self@.len(),
    {
        self.history.len()
    }

    /// Whether a classified map reaches a bucket that the record has not seen at its index.
    pub fn is_interesting(&self, map: &Vec<u8>) -> (r: bool)
        requires
            map@.len() == self@.len(),
        ensures
            r == has_new_bits(self@, map@),
    {
        let mut i: usize = 0;
        while i < map.len()
            invariant
                i <= map.len(),
                map@.len() == self@.len(),
                forall|k: int| 0 <= k < i ==> map@[k] <= self@[k],
            decreases map.len() - i,
        {
            if map[i] > self.history[i] {
                return true;
            }
            i += 1;
        }
        false
    }

    /// Raises each index of the record to the bucket of the map where that is higher.
    pub fn commit(&mut self, map: &Vec<u8>)
        requires
            map@.len() == old(self)@.len(),
        ensures
            final(self)@ == merged(old(self)@, map@),
    {
        let mut i: usize = 0;
        while i < map.len()
            invariant
                i <= map.len(),
                map@.len() == old(self)@.len(),
                self@.len() == old(self)@.len(),
                forall|k: int| 0 <= k < i ==> self@[k] == merged(old(self)@, map@)[k],
                forall|k: int| i <= k < self@.len() ==> self@[k] == old(self)@[k],
            decreases map.len() - i,
        {
            if map[i] > self.history[i] {
                self.history.set(i, map[i]);
            }
            i += 1;
        }
        assert(self@ =~= merged(old(self)@, map@));
    }
}

/// Merging never lowers an index, and the merged record has nothing new to learn from the map.
pub proof fn lemma_merge_monotone(baseline: Seq<u8>, map: Seq<u8>)
    requires
        baseline.len() == map.len(),
    ensures
        forall|i: int| 0 <= i < baseline.len() ==> merged(baseline, map)[i] >= baseline[i],
        forall|i: int| 0 <= i < baseline.len() ==> merged(baseline, map)[i] >= map[i],
        !has_new_bits(merged(baseline, map), map),
{
}

} // verus!
