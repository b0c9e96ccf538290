use vstd::prelude::*;

verus! {

/// One span of a generalized input: structure to keep, or a gap whose content may change.
pub enum Segment {
    Fixed(Vec<u8>),
    Gap(Vec<u8>),
}

impl Segment {
    pub open spec fn bytes(&self) -> Seq<u8> {
        match self {
            Segment::Fixed(b) => b@,
            Segment::Gap(b) => b@,
        }
    }

    pub open spec fn is_gap_spec(&self) -> bool {
        self is Gap
    }

    pub fn is_gap(&self) -> (r: bool)
        ensures
            r == self.is_gap_spec(),
    {
        match self {
            Segment::Fixed(_) => false,
            Segment::Gap(_) => true,
        }
    }

    pub fn content(&self) -> (r: &Vec<u8>)
        ensures
            r@ == self.bytes(),
    {
        match self {
            Segment::Fixed(b) => b,
            Segment::Gap(b) => b,
        }
    }

    pub fn duplicate(&self) -> (r: Segment)
        ensures
            r.bytes() == self.bytes(),
            r.is_gap_spec() == self.is_gap_spec(),
    {
        match self {
            Segment::Fixed(b) => Segment::Fixed(copy_bytes(b)),
            Segment::Gap(b) => Segment::Gap(copy_bytes(b)),
        }
    }
}

/// A fresh vector with the same bytes.
pub fn copy_bytes(b: &Vec<u8>) -> (r: Vec<u8>)
    ensures
        r@ == b@,
{
    let mut r: Vec<u8> = Vec::new();
    let mut i: usize = 0;
    while i < b.len()
        invariant
            i <= b.len(),
            r@ == b@.subrange(0, i as int),
        decreases b.len() - i,
    {
        r.push(b[i]);
        i += 1;
        assert(r@ =~= b@.subrange(0, i as int));
    }
    assert(b@.subrange(0, i as int) =~= b@);
    r
}

/// The bytes that a sequence of segments spells, gaps included with their current content.
pub open spec fn flatten(segs: Seq<Segment>) -> Seq<u8>
    decreases segs.len(),
{
    if segs.len() == 0 {
        Seq::<u8>::empty()
    } else {
        flatten(segs.drop_last()) + segs.last().bytes()
    }
}

/// Where segment `k` starts in the flattened bytes.
pub open spec fn offset(segs: Seq<Segment>, k: int) -> int {
    flatten(segs.take(k)).len() as int
}

/// Each byte lies in a gap exactly when the mask marks it.
pub open spec fn kinds_follow(segs: Seq<Segment>, mask: Seq<bool>) -> bool {
    forall|k: int, p: int|
        0 <= k < segs.len() && offset(segs, k) <= p < offset(segs, k) + segs[k].bytes().len()
            ==> mask[p] == segs[k].is_gap_spec()
}

/// Segments are non-empty and no two neighbours are of the same kind.
pub open spec fn runs_are_maximal(segs: Seq<Segment>) -> bool {
    &&& forall|k: int| 0 <= k < segs.len() ==> segs[k].bytes().len() > 0
    &&& forall|k: int|
        0 < k < segs.len() ==> #[trigger] segs[k].is_gap_spec() != segs[k - 1].is_gap_spec()
}

pub proof fn lemma_flatten_push(segs: Seq<Segment>, x: Segment)
    ensures
        flatten(segs.push(x)) == flatten(segs) + x.bytes(),
{
    assert(segs.push(x).drop_last() =~= segs);
}

proof fn lemma_offsets_after_push(segs: Seq<Segment>, x: Segment)
    ensures
        forall|k: int| 0 <= k <= segs.len() ==> offset(segs.push(x), k) == offset(segs, k),
        offset(segs, segs.len() as int) == flatten(segs).len(),
{
    assert forall|k: int| 0 <= k <= segs.len() implies offset(segs.push(x), k) == offset(
        segs,
        k,
    ) by {
        assert(segs.push(x).take(k) =~= segs.take(k));
    }
    assert(segs.take(segs.len() as int) =~= segs);
}

/// Concatenates the segments back into plain bytes.
pub fn reconstruct(segs: &Vec<Segment>) -> (r: Vec<u8>)
    ensures
        r@ == flatten(segs@),
{
    let mut r: Vec<u8> = Vec::new();
    let mut k: usize = 0;
    while k < segs.len()
        invariant
            k <= segs.len(),
            r@ == flatten(segs@.take(k as int)),
        decreases segs.len() - k,
    {
        let b = segs[k].content();
        let ghost before = r@;
        let mut i: usize = 0;
        while i < b.len()
            invariant
                i <= b.len(),
                r@ == before + b@.subrange(0, i as int),
            decreases b.len() - i,
        {
            r.push(b[i]);
            i += 1;
            assert(r@ =~= before + b@.subrange(0, i as int));
        }
        proof {
            assert(b@.subrange(0, i as int) =~= b@);
            assert(segs@.take(k + 1) =~= segs@.take(k as int).push(segs@[k as int]));
            lemma_flatten_push(segs@.take(k as int), segs@[k as int]);
        }
        k += 1;
    }
    assert(segs@.take(k as int) =~= segs@);
    r
}

/// Groups the bytes into maximal runs, a run being a gap where the mask says the bytes do not
/// matter to coverage; `None` when no byte is marked.
pub fn derive_generalized(raw: &Vec<u8>, irrelevant: &Vec<bool>) -> (r: Option<Vec<Segment>>)
    requires
        irrelevant@.len() == raw@.len(),
    ensures
        r is None <==> forall|p: int| 0 <= p < raw@.len() ==> !irrelevant@[p],
        r matches Some(s) ==> is_generalization_of(s@, raw@, irrelevant@),
{
    let mut any_gap = false;
    let mut segs: Vec<Segment> = Vec::new();
    let mut cur: Vec<u8> = Vec::new();
    let mut cur_gap = false;
    let mut i: usize = 0;
    while i < raw.len()
        invariant
            i <= raw.len(),
            irrelevant@.len() == raw@.len(),
            any_gap <==> exists|p: int| 0 <= p < i && irrelevant@[p],
            i > 0 ==> cur@.len() > 0,
            i == 0 ==> cur@.len() == 0 && segs@.len() == 0,
            cur@.len() <= i,
            flatten(segs@) == raw@.subrange(0, i - cur@.len()),
            cur@ == raw@.subrange(i - cur@.len(), i as int),
            forall|p: int| i - cur@.len() <= p < i ==> irrelevant@[p] == cur_gap,
            kinds_follow(segs@, irrelevant@),
            runs_are_maximal(segs@),
            segs@.len() > 0 ==> segs@.last().is_gap_spec() != cur_gap,
        decreases raw.len() - i,
    {
        let g = irrelevant[i];
        if g {
            any_gap = true;
        }
        if i > 0 && g != cur_gap {
            let ghost old_segs = segs@;
            let ghost start = i - cur@.len();
            let seg = if cur_gap {
                Segment::Gap(cur)
            } else {
                Segment::Fixed(cur)
            };
            segs.push(seg);
            proof {
                lemma_flatten_push(old_segs, seg);
                lemma_offsets_after_push(old_segs, seg);
                assert(raw@.subrange(0, start) + raw@.subrange(start, i as int) =~= raw@.subrange(
                    0,
                    i as int,
                ));
                assert forall|k: int, p: int|
                    0 <= k < segs@.len() && offset(segs@, k) <= p < offset(segs@, k)
                        + segs@[k].bytes().len() implies irrelevant@[p]
                    == segs@[k].is_gap_spec() by {
                    if k < old_segs.len() {
                        assert(segs@[k] == old_segs[k]);
                    }
                }
            }
            cur = Vec::new();
        }
        cur_gap = g;
        cur.push(raw[i]);
        i += 1;
        assert(cur@ =~= raw@.subrange(i - cur@.len(), i as int));
    }
    if !any_gap {
        return None;
    }
    let ghost old_segs = segs@;
    let ghost start = i - cur@.len();
    let seg = if cur_gap {
        Segment::Gap(cur)
    } else {
        Segment::Fixed(cur)
    };
    segs.push(seg);
    proof {
        lemma_flatten_push(old_segs, seg);
        lemma_offsets_after_push(old_segs, seg);
        assert(raw@.subrange(0, start) + raw@.subrange(start, i as int) =~= raw@);
        assert forall|k: int, p: int|
            0 <= k < segs@.len() && offset(segs@, k) <= p < offset(segs@, k)
                + segs@[k].bytes().len() implies irrelevant@[p] == segs@[k].is_gap_spec() by {
            if k < old_segs.len() {
                assert(segs@[k] == old_segs[k]);
            }
        }
    }
    Some(segs)
}


/// `segs` is the generalized form of `raw` under `mask`: it spells `raw`, its gaps are exactly
/// the marked bytes, and its runs are maximal.
pub open spec fn is_generalization_of(segs: Seq<Segment>, raw: Seq<u8>, mask: Seq<bool>) -> bool {
    &&& flatten(segs) == raw
    &&& kinds_follow(segs, mask)
    &&& runs_are_maximal(segs)
}

/// Reconstructing the bytes of a derived generalized form gives back the raw input.
pub proof fn lemma_generalization_round_trip(raw: Seq<u8>, mask: Seq<bool>, segs: Seq<Segment>)
    requires
        is_generalization_of(segs, raw, mask),
    ensures
        flatten(segs) == raw,
{
}

/// An input: raw bytes and, once derived, a generalized form that spells them.
pub struct GeneralizedInput {
    pub bytes: Vec<u8>,
    pub generalized: Option<Vec<Segment>>,
}

impl GeneralizedInput {
    pub open spec fn wf(&self) -> bool {
        self.generalized matches Some(s) ==> flatten(s@) == self.bytes@
    }

    /// A raw input without a generalized form.
    pub fn new(bytes: Vec<u8>) -> (r: GeneralizedInput)
        ensures
            r.wf(),
            r.bytes@ == bytes@,
            r.generalized is None,
    {
        GeneralizedInput { bytes, generalized: None }
    }

    /// An input whose bytes are what the segments spell.
    pub fn from_segments(segs: Vec<Segment>) -> (r: GeneralizedInput)
        ensures
            r.wf(),
            r.bytes@ == flatten(segs@),
            r.generalized matches Some(s) && s@ == segs@,
    {
        let bytes = reconstruct(&segs);
        GeneralizedInput { bytes, generalized: Some(segs) }
    }

    /// Derives the generalized form from the coverage-irrelevance mask of the bytes; the input
    /// stays as it was when no byte is marked.
    pub fn generalize(&mut self, irrelevant: &Vec<bool>) -> (r: bool)
        requires
            old(self).wf(),
            irrelevant@.len() == old(self).bytes@.len(),
        ensures
            final(self).wf(),
            final(self).bytes@ == old(self).bytes@,
            r <==> exists|p: int| 0 <= p < irrelevant@.len() && irrelevant@[p],
            r ==> (final(self).generalized matches Some(s) && is_generalization_of(
                s@,
                old(self).bytes@,
                irrelevant@,
            )),
            !r ==> final(self).generalized == old(self).generalized,
    {
        match derive_generalized(&self.bytes, irrelevant) {
            Some(segs) => {
                self.generalized = Some(segs);
                true
            },
            None => false,
        }
    }
}

/// The bytes with the span `start..end` taken out: the candidate that a generalization step runs.
pub fn without_span(raw: &Vec<u8>, start: usize, end: usize) -> (r: Vec<u8>)
    requires
        start <= end <= raw@.len(),
    ensures
        r@ == raw@.subrange(0, start as int) + raw@.subrange(end as int, raw@.len() as int),
{
    let mut r: Vec<u8> = Vec::new();
    let mut i: usize = 0;
    while i < start
        invariant
            i <= start <= end <= raw@.len(),
            r@ == raw@.subrange(0, i as int),
        decreases start - i,
    {
        r.push(raw[i]);
        i += 1;
        assert(r@ =~= raw@.subrange(0, i as int));
    }
    let mut j: usize = end;
    while j < raw.len()
        invariant
            start <= end <= j <= raw@.len(),
            r@ == raw@.subrange(0, start as int) + raw@.subrange(end as int, j as int),
        decreases raw.len() - j,
    {
        r.push(raw[j]);
        j += 1;
        assert(r@ =~= raw@.subrange(0, start as int) + raw@.subrange(end as int, j as int));
    }
    r
}

/// Marks the span `start..end` as coverage-irrelevant when the run without it kept the baseline
/// signature; returns whether it did.
pub fn record_span_verdict(
    mask: &mut Vec<bool>,
    start: usize,
    end: usize,
    baseline: &Vec<u8>,
    observed: &Vec<u8>,
) -> (r: bool)
    requires
        start <= end <= old(mask)@.len(),
    ensures
        r == (baseline@ == observed@),
        final(mask)@.len() == old(mask)@.len(),
        forall|p: int|
            0 <= p < old(mask)@.len() ==> final(mask)@[p] == if r && start <= p < end {
                true
            } else {
                old(mask)@[p]
            },
{
    let same = bytes_equal(baseline, observed);
    if same {
        let mut p: usize = start;
        while p < end
            invariant
                start <= p <= end <= mask@.len(),
                mask@.len() == old(mask)@.len(),
                forall|q: int|
                    0 <= q < mask@.len() ==> mask@[q] == if start <= q < p {
                        true
                    } else {
                        old(mask)@[q]
                    },
            decreases end - p,
        {
            mask.set(p, true);
            p += 1;
        }
    }
    same
}

/// The staged generalization pass over one input: it removes one span at a time, the caller
/// runs each candidate, and spans whose removal keeps the baseline signature become gaps.
pub struct Generalizer {
    pub bytes: Vec<u8>,
    pub mask: Vec<bool>,
    /// The classified coverage of the input itself.
    pub baseline: Vec<u8>,
    /// Where the next span starts.
    pub pos: usize,
    /// How many bytes a span holds at most.
    pub width: usize,
}

/// The span that starts at `pos`: `width` bytes, cut at the end of the input.
pub open spec fn span_end(pos: int, width: int, len: int) -> int {
    if pos + width < len {
        pos + width
    } else {
        len
    }
}

impl Generalizer {
    pub open spec fn wf(&self) -> bool {
        &&& self.mask@.len() == self.bytes@.len()
        &&& self.pos <= self.bytes@.len()
        &&& self.width > 0
    }

    /// A pass over `bytes`, whose run gave the classified map `baseline`.
    pub fn new(bytes: Vec<u8>, baseline: Vec<u8>, width: usize) -> (r: Generalizer)
        requires
            width > 0,
        ensures
            r.wf(),
            r.bytes@ == bytes@,
            r.baseline@ == baseline@,
            r.pos == 0,
            r.width == width,
            forall|p: int| 0 <= p < bytes@.len() ==> !r.mask@[p],
    {
        let mut mask: Vec<bool> = Vec::new();
        let mut i: usize = 0;
        while i < bytes.len()
            invariant
                i <= bytes@.len(),
                mask@.len() == i,
                forall|p: int| 0 <= p < i ==> !mask@[p],
            decreases bytes.len() - i,
        {
            mask.push(false);
            i += 1;
        }
        Generalizer { bytes, mask, baseline, pos: 0, width }
    }

    pub fn is_done(&self) -> (r: bool)
        ensures
            r == (self.pos >= self.bytes@.len()),
    {
        self.pos >= self.bytes.len()
    }

    fn end_of_span(&self) -> (r: usize)
        requires
            self.wf(),
            self.pos < self.bytes@.len(),
        ensures
            r == span_end(self.pos as int, self.width as int, self.bytes@.len() as int),
    {
        if self.width < self.bytes.len() - self.pos {
            self.pos + self.width
        } else {
            self.bytes.len()
        }
    }

    /// The input without the pending span, for the caller to run.
    pub fn candidate(&self) -> (r: Vec<u8>)
        requires
            self.wf(),
            self.pos < self.bytes@.len(),
        ensures
            ({
                let end = span_end(self.pos as int, self.width as int, self.bytes@.len() as int);
                r@ == self.bytes@.subrange(0, self.pos as int) + self.bytes@.subrange(
                    end,
                    self.bytes@.len() as int,
                )
            }),
    {
        let end = self.end_of_span();
        without_span(&self.bytes, self.pos, end)
    }

    /// Takes the classified map of the candidate's run: the pending span becomes a gap when it
    /// equals the baseline; the pass moves to the next span either way.
    pub fn observe(&mut self, observed: &Vec<u8>) -> (r: bool)
        requires
            old(self).wf(),
            old(self).pos < old(self).bytes@.len(),
        ensures
            final(self).wf(),
            r == (old(self).baseline@ == observed@),
            final(self).pos == span_end(
                old(self).pos as int,
                old(self).width as int,
                old(self).bytes@.len() as int,
            ),
            final(self).bytes@ == old(self).bytes@,
            final(self).baseline@ == old(self).baseline@,
            final(self).width == old(self).width,
            forall|p: int|
                0 <= p < old(self).mask@.len() ==> final(self).mask@[p] == if r && old(self).pos <= p
                    < final(self).pos {
                    true
                } else {
                    old(self).mask@[p]
                },
    {
        let end = self.end_of_span();
        let same = record_span_verdict(&mut self.mask, self.pos, end, &self.baseline, observed);
        self.pos = end;
        same
    }

    /// The input with the generalized form that the mask gives, or with none when no span
    /// turned out to be a gap.
    pub fn finish(self) -> (r: GeneralizedInput)
        requires
            self.wf(),
        ensures
            r.wf(),
            r.bytes@ == self.bytes@,
            (exists|p: int| 0 <= p < self.mask@.len() && self.mask@[p]) ==> (r.generalized matches Some(
                s,
            ) && is_generalization_of(s@, self.bytes@, self.mask@)),
            (forall|p: int| 0 <= p < self.mask@.len() ==> !self.mask@[p]) ==> r.generalized is None,
    {
        let generalized = derive_generalized(&self.bytes, &self.mask);
        GeneralizedInput { bytes: self.bytes, generalized }
    }
}

/// Whether two byte vectors hold the same bytes.
pub fn bytes_equal(a: &Vec<u8>, b: &Vec<u8>) -> (r: bool)
    ensures
        r == (a@ == b@),
{
    if a.len() != b.len() {
        return false;
    }
    let mut i: usize = 0;
    while i < a.len()
        invariant
            i <= a@.len() == b@.len(),
            forall|k: int| 0 <= k < i ==> a@[k] == b@[k],
        decreases a.len() - i,
    {
        if a[i] != b[i] {
            return false;
        }
        i += 1;
    }
    assert(a@ =~= b@);
    true
}

} // verus!
