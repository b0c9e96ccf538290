use vstd::prelude::*;

use crate::coverage::merged;
use crate::execution::ExitKind;

verus! {

/// A retained input with what was observed when it ran.
pub struct CorpusEntry {
    pub input: Vec<u8>,
    /// The classified coverage map of its run.
    pub coverage: Vec<u8>,
    pub exec_time_ms: u64,
    /// Insertion order over both stores.
    pub seq_id: u64,
    pub exit: ExitKind,
}

/// Entry `a` is preferred over entry `b`: fewer bytes, then less time, then earlier insertion.
pub open spec fn preferred(a: CorpusEntry, b: CorpusEntry) -> bool {
    ||| a.input@.len() < b.input@.len()
    ||| (a.input@.len() == b.input@.len() && a.exec_time_ms < b.exec_time_ms)
    ||| (a.input@.len() == b.input@.len() && a.exec_time_ms == b.exec_time_ms && a.seq_id
        < b.seq_id)
}

pub fn is_preferred(a: &CorpusEntry, b: &CorpusEntry) -> (r: bool)
    ensures
        r == preferred(*a, *b),
{
    if a.input.len() != b.input.len() {
        a.input.len() < b.input.len()
    } else if a.exec_time_ms != b.exec_time_ms {
        a.exec_time_ms < b.exec_time_ms
    } else {
        a.seq_id < b.seq_id
    }
}

/// The retained inputs, in two disjoint stores: those kept for mutation and the findings.
pub struct Corpus {
    pub exploration: Vec<CorpusEntry>,
    pub objectives: Vec<CorpusEntry>,
    /// Per exploration entry, whether it is in the minimized set.
    pub favored: Vec<bool>,
    /// Per edge, the preferred exploration entry that covers it.
    pub top_rated: Vec<Option<usize>>,
    pub next_id: u64,
    pub map_size: usize,
}

/// Some favored entry covers edge `e`.
pub open spec fn favored_cover(entries: Seq<CorpusEntry>, fav: Seq<bool>, e: int) -> bool {
    exists|j: int| 0 <= j < entries.len() && fav[j] && #[trigger] entries[j].coverage@[e] > 0
}

/// Entry `j` covers edge `e` and no other favored entry does.
pub open spec fn sole_cover(entries: Seq<CorpusEntry>, fav: Seq<bool>, j: int, e: int) -> bool {
    &&& entries[j].coverage@[e] > 0
    &&& forall|k: int|
        0 <= k < entries.len() && k != j && fav[k] ==> #[trigger] entries[k].coverage@[e] == 0
}

/// Every edge of `history` is covered by a favored entry, and each favored entry is the only
/// favored cover of some edge of `history`.
pub open spec fn minimal_cover(entries: Seq<CorpusEntry>, fav: Seq<bool>, history: Seq<u8>) -> bool {
    &&& forall|e: int| 0 <= e < history.len() && #[trigger] history[e] > 0 ==> favored_cover(entries, fav, e)
    &&& forall|j: int|
        0 <= j < entries.len() && #[trigger] fav[j] ==> exists|e: int|
            0 <= e < history.len() && history[e] > 0 && #[trigger] sole_cover(entries, fav, j, e)
}

impl Corpus {
    pub open spec fn in_exploration(&self, id: u64) -> bool {
        exists|i: int| 0 <= i < self.exploration@.len() && #[trigger] self.exploration@[i].seq_id == id
    }

    pub open spec fn in_objectives(&self, id: u64) -> bool {
        exists|i: int| 0 <= i < self.objectives@.len() && #[trigger] self.objectives@[i].seq_id == id
    }

    pub open spec fn ids_ok(&self) -> bool {
        &&& forall|i: int|
            0 <= i < self.exploration@.len() ==> #[trigger] self.exploration@[i].seq_id < self.next_id
        &&& forall|i: int|
            0 <= i < self.objectives@.len() ==> #[trigger] self.objectives@[i].seq_id < self.next_id
        &&& forall|i: int, j: int|
            0 <= i < self.exploration@.len() && 0 <= j < self.objectives@.len()
                ==> #[trigger] self.exploration@[i].seq_id != #[trigger] self.objectives@[j].seq_id
    }

    pub open spec fn sizes_ok(&self) -> bool {
        &&& forall|i: int|
            0 <= i < self.exploration@.len() ==> (#[trigger] self.exploration@[i]).coverage@.len()
                == self.map_size
        &&& forall|i: int|
            0 <= i < self.objectives@.len() ==> (#[trigger] self.objectives@[i]).coverage@.len()
                == self.map_size
        &&& self.top_rated@.len() == self.map_size
        &&& self.favored@.len() == self.exploration@.len()
    }

    pub open spec fn top_ok(&self) -> bool {
        forall|e: int|
            0 <= e < self.map_size && #[trigger] self.top_rated@[e] is Some ==> {
                let j = self.top_rated@[e]->Some_0 as int;
                &&& j < self.exploration@.len()
                &&& self.exploration@[j].coverage@[e] > 0
            }
    }

    pub open spec fn wf(&self) -> bool {
        self.ids_ok() && self.sizes_ok() && self.top_ok()
    }

    /// The exploration entries account for exactly the edges of `history`, and each edge of it
    /// has a preferred entry.
    pub open spec fn tracks(&self, history: Seq<u8>) -> bool {
        &&& history.len() == self.map_size
        &&& forall|e: int| 0 <= e < history.len() && #[trigger] history[e] > 0 ==> self.top_rated@[e] is Some
        &&& forall|j: int, e: int|
            0 <= j < self.exploration@.len() && 0 <= e < self.map_size
                && #[trigger] self.exploration@[j].coverage@[e] > 0 ==> history[e] > 0
    }

    pub open spec fn minimized(&self, history: Seq<u8>) -> bool {
        minimal_cover(self.exploration@, self.favored@, history)
    }

    /// Each favored entry is the preferred entry of some edge of `history`.
    pub open spec fn favored_are_preferred(&self, history: Seq<u8>) -> bool {
        forall|j: int|
            0 <= j < self.favored@.len() && #[trigger] self.favored@[j] ==> exists|e: int|
                0 <= e < history.len() && history[e] > 0 && #[trigger] self.top_rated@[e] == Some(
                    j as usize,
                )
    }

    /// An empty corpus for maps of `map_size` edges.
    pub fn new(map_size: usize) -> (r: Corpus)
        ensures
            r.wf(),
            r.map_size == map_size,
            r.exploration@.len() == 0,
            r.objectives@.len() == 0,
            r.next_id == 0,
            forall|e: int| 0 <= e < map_size ==> r.top_rated@[e] is None,
    {
        let mut top_rated: Vec<Option<usize>> = Vec::new();
        let mut i: usize = 0;
        while i < map_size
            invariant
                i <= map_size,
                top_rated@.len() == i,
                forall|e: int| 0 <= e < i ==> top_rated@[e] is None,
            decreases map_size - i,
        {
            top_rated.push(None);
            i += 1;
        }
        Corpus {
            exploration: Vec::new(),
            objectives: Vec::new(),
            favored: Vec::new(),
            top_rated,
            next_id: 0,
            map_size,
        }
    }

    pub fn exploration_len(&self) -> (r: usize)
        ensures
            r == self.exploration@.len(),
    {
        self.exploration.len()
    }

    pub fn objectives_len(&self) -> (r: usize)
        ensures
            r == self.objectives@.len(),
    {
        self.objectives.len()
    }

    /// Stores a finding; the exploration store is left as it was.
    pub fn add_objective(&mut self, input: Vec<u8>, coverage: Vec<u8>, exec_time_ms: u64, exit: ExitKind)
        requires
            old(self).wf(),
            old(self).next_id < u64::MAX,
            coverage@.len() == old(self).map_size,
        ensures
            final(self).wf(),
            final(self).objectives@.len() == old(self).objectives@.len() + 1,
            final(self).objectives@.drop_last() == old(self).objectives@,
            final(self).objectives@.last().input@ == input@,
            final(self).objectives@.last().coverage@ == coverage@,
            final(self).objectives@.last().exec_time_ms == exec_time_ms,
            final(self).objectives@.last().exit == exit,
            final(self).objectives@.last().seq_id == old(self).next_id,
            final(self).next_id == old(self).next_id + 1,
            final(self).exploration@ == old(self).exploration@,
            final(self).favored@ == old(self).favored@,
            final(self).top_rated@ == old(self).top_rated@,
            final(self).map_size == old(self).map_size,
    {
        let entry = CorpusEntry { input, coverage, exec_time_ms, seq_id: self.next_id, exit };
        self.objectives.push(entry);
        self.next_id = self.next_id + 1;
        assert(self.objectives@.drop_last() =~= old(self).objectives@);
        assert forall|i: int, j: int|
            0 <= i < self.exploration@.len() && 0 <= j < self.objectives@.len()
                implies #[trigger] self.exploration@[i].seq_id
            != #[trigger] self.objectives@[j].seq_id by {
            if j < old(self).objectives@.len() {
                assert(self.objectives@[j] == old(self).objectives@[j]);
            }
        }
    }

    /// The preferred entry of edge `e` once `entry` joins at index `idx`.
    pub open spec fn top_after_add(&self, entry: CorpusEntry, idx: int, e: int) -> Option<usize> {
        if entry.coverage@[e] > 0 && (self.top_rated@[e] is None || preferred(
            entry,
            self.exploration@[self.top_rated@[e]->Some_0 as int],
        )) {
            Some(idx as usize)
        } else {
            self.top_rated@[e]
        }
    }

    /// Stores an input kept for mutation, and makes it the preferred entry of each edge it
    /// covers where it beats the current one.
    pub fn add_exploration(&mut self, input: Vec<u8>, coverage: Vec<u8>, exec_time_ms: u64) -> (idx: usize)
        requires
            old(self).wf(),
            old(self).next_id < u64::MAX,
            coverage@.len() == old(self).map_size,
        ensures
            final(self).wf(),
            idx == old(self).exploration@.len(),
            final(self).exploration@.len() == old(self).exploration@.len() + 1,
            final(self).exploration@.drop_last() == old(self).exploration@,
            final(self).exploration@.last().input@ == input@,
            final(self).exploration@.last().coverage@ == coverage@,
            final(self).exploration@.last().exec_time_ms == exec_time_ms,
            final(self).exploration@.last().exit == ExitKind::Completed,
            final(self).exploration@.last().seq_id == old(self).next_id,
            final(self).next_id == old(self).next_id + 1,
            final(self).objectives@ == old(self).objectives@,
            final(self).favored@ == old(self).favored@.push(false),
            final(self).map_size == old(self).map_size,
            forall|e: int|
                0 <= e < old(self).map_size ==> #[trigger] final(self).top_rated@[e]
                    == old(self).top_after_add(final(self).exploration@.last(), idx as int, e),
            forall|h: Seq<u8>| old(self).tracks(h) ==> #[trigger] final(self).tracks(merged(h, coverage@)),
    {
        let idx = self.exploration.len();
        let entry = CorpusEntry {
            input,
            coverage,
            exec_time_ms,
            seq_id: self.next_id,
            exit: ExitKind::Completed,
        };
        self.exploration.push(entry);
        self.favored.push(false);
        self.next_id = self.next_id + 1;
        let ghost added = self.exploration@.last();
        assert(self.exploration@.drop_last() =~= old(self).exploration@);
        assert forall|i: int, j: int|
            0 <= i < self.exploration@.len() && 0 <= j < self.objectives@.len()
                implies #[trigger] self.exploration@[i].seq_id
            != #[trigger] self.objectives@[j].seq_id by {
            if i < old(self).exploration@.len() {
                assert(self.exploration@[i] == old(self).exploration@[i]);
            }
        }
        let mut e: usize = 0;
        while e < self.map_size
            invariant
                e <= self.map_size,
                self.map_size == old(self).map_size,
                idx == old(self).exploration@.len(),
                self.exploration@ == old(self).exploration@.push(added),
                self.objectives@ == old(self).objectives@,
                self.favored@ == old(self).favored@.push(false),
                self.next_id == old(self).next_id + 1,
                self.ids_ok(),
                old(self).wf(),
                added.coverage@.len() == self.map_size,
                self.top_rated@.len() == self.map_size,
                forall|k: int|
                    0 <= k < e ==> #[trigger] self.top_rated@[k] == old(self).top_after_add(
                        added,
                        idx as int,
                        k,
                    ),
                forall|k: int| e <= k < self.map_size ==> #[trigger] self.top_rated@[k] == old(self).top_rated@[k],
            decreases self.map_size - e,
        {
            if self.exploration[idx].coverage[e] > 0 {
                let replace = match self.top_rated[e] {
                    None => true,
                    Some(j) => is_preferred(&self.exploration[idx], &self.exploration[j]),
                };
                if replace {
                    self.top_rated.set(e, Some(idx));
                }
            }
            e += 1;
        }
        proof {
            assert forall|k: int|
                0 <= k < self.map_size && #[trigger] self.top_rated@[k] is Some implies {
                let j = self.top_rated@[k]->Some_0 as int;
                &&& j < self.exploration@.len()
                &&& self.exploration@[j].coverage@[k] > 0
            } by {
                assert(self.top_rated@[k] == old(self).top_after_add(added, idx as int, k));
                if old(self).top_rated@[k] is Some {
                    let j = old(self).top_rated@[k]->Some_0 as int;
                    assert(self.exploration@[j] == old(self).exploration@[j]);
                }
            }
            assert forall|h: Seq<u8>| old(self).tracks(h) implies #[trigger] self.tracks(
                merged(h, added.coverage@),
            ) by {
                let m = merged(h, added.coverage@);
                assert forall|e2: int| 0 <= e2 < m.len() && #[trigger] m[e2] > 0 implies self.top_rated@[e2] is Some by {
                    assert(self.top_rated@[e2] == old(self).top_after_add(added, idx as int, e2));
                }
                assert forall|j: int, e2: int|
                    0 <= j < self.exploration@.len() && 0 <= e2 < self.map_size
                        && #[trigger] self.exploration@[j].coverage@[e2] > 0 implies m[e2] > 0 by {
                    if j < old(self).exploration@.len() {
                        assert(self.exploration@[j] == old(self).exploration@[j]);
                    }
                }
            }
        }
        idx
    }

    /// Whether a finding with this coverage signature and outcome is already stored.
    pub fn has_objective_like(&self, coverage: &Vec<u8>, exit: ExitKind) -> (r: bool)
        ensures
            r == exists|j: int|
                0 <= j < self.objectives@.len() && (#[trigger] self.objectives@[j]).coverage@
                    == coverage@ && self.objectives@[j].exit == exit,
    {
        let mut j: usize = 0;
        while j < self.objectives.len()
            invariant
                j <= self.objectives@.len(),
                forall|k: int|
                    0 <= k < j ==> !((#[trigger] self.objectives@[k]).coverage@ == coverage@
                        && self.objectives@[k].exit == exit),
            decreases self.objectives.len() - j,
        {
            let entry = &self.objectives[j];
            if entry.exit == exit && crate::generalized::bytes_equal(&entry.coverage, coverage) {
                return true;
            }
            j += 1;
        }
        false
    }
}


/// Whether an entry other than `j` that is favored covers edge `e`.
fn covered_by_other(entries: &Vec<CorpusEntry>, fav: &Vec<bool>, j: usize, e: usize) -> (r: bool)
    requires
        fav@.len() == entries@.len(),
        forall|k: int| 0 <= k < entries@.len() ==> e < (#[trigger] entries@[k]).coverage@.len(),
    ensures
        r == exists|k: int|
            0 <= k < entries@.len() && k != j && fav@[k] && #[trigger] entries@[k].coverage@[e as int] > 0,
{
    let mut k: usize = 0;
    while k < entries.len()
        invariant
            k <= entries@.len(),
            fav@.len() == entries@.len(),
            forall|q: int| 0 <= q < entries@.len() ==> e < (#[trigger] entries@[q]).coverage@.len(),
            forall|q: int|
                0 <= q < k && q != j && fav@[q] ==> #[trigger] entries@[q].coverage@[e as int] == 0,
        decreases entries.len() - k,
    {
        if k != j && fav[k] && entries[k].coverage[e] > 0 {
            return true;
        }
        k += 1;
    }
    false
}

/// Whether every edge that entry `j` covers is covered by another favored entry too.
fn is_redundant(entries: &Vec<CorpusEntry>, fav: &Vec<bool>, j: usize, size: usize) -> (r: bool)
    requires
        fav@.len() == entries@.len(),
        j < entries@.len(),
        forall|k: int| 0 <= k < entries@.len() ==> (#[trigger] entries@[k]).coverage@.len() == size,
    ensures
        r == forall|e: int|
            0 <= e < size && #[trigger] entries@[j as int].coverage@[e] > 0 ==> exists|k: int|
                0 <= k < entries@.len() && k != j && fav@[k] && #[trigger] entries@[k].coverage@[e] > 0,
{
    let mut e: usize = 0;
    while e < size
        invariant
            e <= size,
            fav@.len() == entries@.len(),
            j < entries@.len(),
            forall|k: int| 0 <= k < entries@.len() ==> (#[trigger] entries@[k]).coverage@.len() == size,
            forall|q: int|
                0 <= q < e && #[trigger] entries@[j as int].coverage@[q] > 0 ==> exists|k: int|
                    0 <= k < entries@.len() && k != j && fav@[k] && #[trigger] entries@[k].coverage@[q] > 0,
        decreases size - e,
    {
        if entries[j].coverage[e] > 0 && !covered_by_other(entries, fav, j, e) {
            return false;
        }
        e += 1;
    }
    true
}

impl Corpus {
    /// Recomputes the favored set: first the preferred entry of each edge of `history`, then,
    /// in insertion order, each favored entry whose edges all have another favored cover is
    /// dropped.
    pub fn cull(&mut self, history: &Vec<u8>)
        requires
            old(self).wf(),
            old(self).tracks(history@),
        ensures
            final(self).wf(),
            final(self).minimized(history@),
            final(self).favored_are_preferred(history@),
            final(self).tracks(history@),
            final(self).exploration@ == old(self).exploration@,
            final(self).objectives@ == old(self).objectives@,
            final(self).top_rated@ == old(self).top_rated@,
            final(self).next_id == old(self).next_id,
            final(self).map_size == old(self).map_size,
    {
        let n = self.exploration.len();
        let mut fav: Vec<bool> = Vec::new();
        let mut i: usize = 0;
        while i < n
            invariant
                i <= n,
                fav@.len() == i,
                forall|k: int| 0 <= k < i ==> !fav@[k],
            decreases n - i,
        {
            fav.push(false);
            i += 1;
        }
        let mut e: usize = 0;
        while e < self.map_size
            invariant
                e <= self.map_size,
                n == self.exploration@.len(),
                fav@.len() == n,
                self.wf(),
                self.tracks(history@),
                forall|q: int|
                    0 <= q < e && #[trigger] history@[q] > 0 ==> fav@[self.top_rated@[q]->Some_0 as int],
                forall|p: int|
                    0 <= p < n && #[trigger] fav@[p] ==> exists|q: int|
                        0 <= q < history@.len() && history@[q] > 0 && #[trigger] self.top_rated@[q]
                            == Some(p as usize),
            decreases self.map_size - e,
        {
            if history[e] > 0 {
                let j = self.top_rated[e].unwrap();
                let ghost before = fav@;
                fav.set(j, true);
                proof {
                    assert forall|p: int| 0 <= p < n && #[trigger] fav@[p] implies exists|q: int|
                        0 <= q < history@.len() && history@[q] > 0 && #[trigger] self.top_rated@[q]
                            == Some(p as usize) by {
                        if p == j {
                            assert(self.top_rated@[e as int] == Some(p as usize));
                        } else {
                            assert(before[p]);
                        }
                    }
                }
            }
            e += 1;
        }
        assert forall|q: int| 0 <= q < history@.len() && #[trigger] history@[q] > 0 implies favored_cover(
            self.exploration@,
            fav@,
            q,
        ) by {
            let j = self.top_rated@[q]->Some_0 as int;
            assert(self.exploration@[j].coverage@[q] > 0);
        }
        let ghost phase1 = fav@;
        let mut j: usize = 0;
        while j < n
            invariant
                j <= n,
                n == self.exploration@.len(),
                fav@.len() == n,
                self.wf(),
                self.tracks(history@),
                forall|q: int|
                    0 <= q < history@.len() && #[trigger] history@[q] > 0 ==> favored_cover(
                        self.exploration@,
                        fav@,
                        q,
                    ),
                forall|p: int| 0 <= p < n && #[trigger] fav@[p] ==> phase1[p],
                forall|p: int|
                    0 <= p < j && #[trigger] fav@[p] ==> exists|q: int|
                        0 <= q < history@.len() && history@[q] > 0 && #[trigger] sole_cover(
                            self.exploration@,
                            fav@,
                            p,
                            q,
                        ),
            decreases n - j,
        {
            if fav[j] {
                let redundant = is_redundant(&self.exploration, &fav, j, self.map_size);
                let ghost before = fav@;
                if redundant {
                    fav.set(j, false);
                    proof {
                        let entries = self.exploration@;
                        assert forall|p: int| 0 <= p < n && #[trigger] fav@[p] implies phase1[p] by {
                            assert(before[p]);
                        }
                        assert forall|q: int|
                            0 <= q < history@.len() && #[trigger] history@[q] > 0 implies favored_cover(
                                entries,
                                fav@,
                                q,
                            ) by {
                            let w = choose|w: int|
                                0 <= w < entries.len() && before[w] && #[trigger] entries[w].coverage@[q] > 0;
                            if w == j {
                                assert(entries[j as int].coverage@[q] > 0);
                                let k = choose|k: int|
                                    0 <= k < entries.len() && k != j && before[k]
                                        && #[trigger] entries[k].coverage@[q] > 0;
                                assert(fav@[k]);
                            } else {
                                assert(fav@[w]);
                            }
                        }
                        assert forall|p: int|
                            0 <= p < j + 1 && #[trigger] fav@[p] implies exists|q: int|
                                0 <= q < history@.len() && history@[q] > 0 && #[trigger] sole_cover(
                                    entries,
                                    fav@,
                                    p,
                                    q,
                                ) by {
                            assert(before[p]);
                            let q = choose|q: int|
                                0 <= q < history@.len() && history@[q] > 0 && #[trigger] sole_cover(
                                    entries,
                                    before,
                                    p,
                                    q,
                                );
                            assert(sole_cover(entries, fav@, p, q));
                        }
                    }
                } else {
                    proof {
                        let entries = self.exploration@;
                        let q = choose|q: int|
                            0 <= q < self.map_size && #[trigger] entries[j as int].coverage@[q] > 0
                                && !exists|k: int|
                                0 <= k < entries.len() && k != j && fav@[k]
                                    && #[trigger] entries[k].coverage@[q] > 0;
                        assert(history@[q] > 0);
                        assert(sole_cover(entries, fav@, j as int, q));
                    }
                }
            }
            j += 1;
        }
        assert forall|p: int| 0 <= p < n && #[trigger] fav@[p] implies exists|q: int|
            0 <= q < history@.len() && history@[q] > 0 && #[trigger] self.top_rated@[q] == Some(
                p as usize,
            ) by {
            assert(phase1[p]);
        }
        self.favored = fav;
    }
}

/// The favored entries cover every edge of the cumulative record, and dropping any one of them
/// leaves some edge of the record without a favored cover.
pub proof fn lemma_favored_set_is_minimal(c: Corpus, history: Seq<u8>, j: int)
    requires
        c.wf(),
        c.minimized(history),
        0 <= j < c.exploration@.len(),
        c.favored@[j],
    ensures
        forall|e: int| 0 <= e < history.len() && history[e] > 0 ==> favored_cover(c.exploration@, c.favored@, e),
        exists|e: int|
            0 <= e < history.len() && history[e] > 0 && !favored_cover(
                c.exploration@,
                c.favored@.update(j, false),
                e,
            ),
{
    let entries = c.exploration@;
    let fav = c.favored@;
    assert forall|e: int| 0 <= e < history.len() && history[e] > 0 implies favored_cover(entries, fav, e) by {
        assert(history[e] > 0);
    }
    let e = choose|e: int| 0 <= e < history.len() && history[e] > 0 && #[trigger] sole_cover(entries, fav, j, e);
    assert(!favored_cover(entries, fav.update(j, false), e)) by {
        if favored_cover(entries, fav.update(j, false), e) {
            let k = choose|k: int|
                0 <= k < entries.len() && fav.update(j, false)[k] && #[trigger] entries[k].coverage@[e] > 0;
            assert(k != j);
            assert(fav[k]);
        }
    }
}

/// No input is ever in both stores: an id found among the findings is not among the entries kept
/// for mutation.
pub proof fn lemma_stores_disjoint(c: Corpus, id: u64)
    requires
        c.wf(),
    ensures
        !(c.in_exploration(id) && c.in_objectives(id)),
{
    if c.in_exploration(id) && c.in_objectives(id) {
        let i = choose|i: int| 0 <= i < c.exploration@.len() && #[trigger] c.exploration@[i].seq_id == id;
        let j = choose|j: int| 0 <= j < c.objectives@.len() && #[trigger] c.objectives@[j].seq_id == id;
        assert(c.exploration@[i].seq_id != c.objectives@[j].seq_id);
    }
}

} // verus!
