use vstd::arithmetic::div_mod::{lemma_mod_add_multiples_vanish, lemma_small_mod};
use vstd::prelude::*;

verus! {

/// Out of this many draws, this many let the queue take an unfavored entry in turn.
pub const UNFAVORED_SHARE: u64 = 5;

pub const DRAW_RANGE: u64 = 100;

/// The first favored index met walking cyclically from `start`, having skipped `k` indices;
/// `start` itself when none is favored.
pub open spec fn first_favored_from(fav: Seq<bool>, start: int, k: int) -> int
    decreases fav.len() - k,
{
    if k >= fav.len() {
        start
    } else if fav[(start + k) % (fav.len() as int)] {
        (start + k) % (fav.len() as int)
    } else {
        first_favored_from(fav, start, k + 1)
    }
}

/// The entry that the queue hands out at `cursor` with draw `roll`: the entry at the cursor when
/// the draw lets unfavored entries through, else the next favored one from the cursor on.
pub open spec fn select_spec(fav: Seq<bool>, cursor: int, roll: u64) -> int {
    let start = cursor % (fav.len() as int);
    if roll % DRAW_RANGE < UNFAVORED_SHARE {
        start
    } else {
        first_favored_from(fav, start, 0)
    }
}

/// Picks the next entry to mutate.
pub fn select(fav: &Vec<bool>, cursor: usize, roll: u64) -> (r: usize)
    requires
        fav@.len() > 0,
    ensures
        r == select_spec(fav@, cursor as int, roll),
        r < fav@.len(),
{
    let n = fav.len();
    let start = cursor % n;
    if roll % DRAW_RANGE < UNFAVORED_SHARE {
        return start;
    }
    let mut k: usize = 0;
    while k < n
        invariant
            n == fav@.len(),
            start == cursor % n,
            roll % DRAW_RANGE >= UNFAVORED_SHARE,
            0 <= k <= n,
            first_favored_from(fav@, start as int, 0) == first_favored_from(fav@, start as int, k as int),
        decreases n - k,
    {
        let idx = if k < n - start {
            start + k
        } else {
            k - (n - start)
        };
        proof {
            if k < n - start {
                lemma_small_mod((start + k) as nat, n as nat);
            } else {
                lemma_small_mod((start + k - n) as nat, n as nat);
                lemma_mod_add_multiples_vanish(start + k - n, n as int);
            }
        }
        assert(idx as int == (start + k) % (n as int));
        if fav[idx] {
            assert(first_favored_from(fav@, start as int, k as int) == idx as int);
            return idx;
        }
        k += 1;
    }
    start
}

} // verus!
