use vstd::prelude::*;

use crate::generalized::{copy_bytes, Segment};
use crate::rand::{advance, mix, Rng};

verus! {

/// A segment seen as whether it is a gap, and its bytes.
pub open spec fn seg_view(s: Segment) -> (bool, Seq<u8>) {
    (s.is_gap_spec(), s.bytes())
}

pub open spec fn segs_view(v: Seq<Segment>) -> Seq<(bool, Seq<u8>)> {
    v.map_values(|s: Segment| seg_view(s))
}

pub open spec fn tokens_view(t: Seq<Vec<u8>>) -> Seq<Seq<u8>> {
    t.map_values(|b: Vec<u8>| b@)
}

/// Extension: the gap at `t` is followed by a copy of itself.
pub open spec fn extend_spec(v: Seq<(bool, Seq<u8>)>, t: int) -> Seq<(bool, Seq<u8>)> {
    if 0 <= t < v.len() && v[t].0 {
        v.insert(t + 1, v[t])
    } else {
        v
    }
}

/// Replacement: the gap at `t` takes `content`.
pub open spec fn replace_spec(v: Seq<(bool, Seq<u8>)>, t: int, content: Seq<u8>) -> Seq<(bool, Seq<u8>)> {
    if 0 <= t < v.len() && v[t].0 {
        v.update(t, (true, content))
    } else {
        v
    }
}

/// Deletion: the gap at `t` goes.
pub open spec fn delete_spec(v: Seq<(bool, Seq<u8>)>, t: int) -> Seq<(bool, Seq<u8>)> {
    if 0 <= t < v.len() && v[t].0 {
        v.remove(t)
    } else {
        v
    }
}

pub fn extend_gap(segs: Vec<Segment>, t: usize) -> (r: Vec<Segment>)
    ensures
        segs_view(r@) == extend_spec(segs_view(segs@), t as int),
{
    let mut segs = segs;
    if t < segs.len() && segs[t].is_gap() {
        let copy = segs[t].duplicate();
        let ghost before = segs@;
        segs.insert(t + 1, copy);
        assert(segs_view(segs@) =~= segs_view(before).insert(t + 1, segs_view(before)[t as int]));
    }
    segs
}

pub fn replace_gap(segs: Vec<Segment>, t: usize, content: Vec<u8>) -> (r: Vec<Segment>)
    ensures
        segs_view(r@) == replace_spec(segs_view(segs@), t as int, content@),
{
    let mut segs = segs;
    if t < segs.len() && segs[t].is_gap() {
        let ghost before = segs@;
        segs.set(t, Segment::Gap(content));
        assert(segs_view(segs@) =~= segs_view(before).update(t as int, (true, content@)));
    }
    segs
}

pub fn delete_gap(segs: Vec<Segment>, t: usize) -> (r: Vec<Segment>)
    ensures
        segs_view(r@) == delete_spec(segs_view(segs@), t as int),
{
    let mut segs = segs;
    if t < segs.len() && segs[t].is_gap() {
        let ghost before = segs@;
        segs.remove(t);
        assert(segs_view(segs@) =~= segs_view(before).remove(t as int));
    }
    segs
}

/// The number of operator slots; deletion holds two of them.
pub const OPERATOR_SLOTS: u64 = 5;

/// One operator, chosen by `op`, aimed at the segment that `b` picks, with `c` picking the
/// donor gap or the token.
pub open spec fn apply_op_spec(
    v: Seq<(bool, Seq<u8>)>,
    op: u64,
    b: u64,
    c: u64,
    toks: Seq<Seq<u8>>,
    donor: Seq<(bool, Seq<u8>)>,
) -> Seq<(bool, Seq<u8>)> {
    if v.len() == 0 {
        v
    } else {
        let t = (b as int) % (v.len() as int);
        let slot = op % OPERATOR_SLOTS;
        if slot == 0 {
            extend_spec(v, t)
        } else if slot == 1 {
            if donor.len() > 0 && donor[(c as int) % (donor.len() as int)].0 {
                replace_spec(v, t, donor[(c as int) % (donor.len() as int)].1)
            } else {
                v
            }
        } else if slot == 2 {
            if toks.len() > 0 {
                replace_spec(v, t, toks[(c as int) % (toks.len() as int)])
            } else {
                v
            }
        } else {
            delete_spec(v, t)
        }
    }
}

pub fn apply_op(
    segs: Vec<Segment>,
    op: u64,
    b: u64,
    c: u64,
    tokens: &Vec<Vec<u8>>,
    donor: &Vec<Segment>,
) -> (r: Vec<Segment>)
    ensures
        segs_view(r@) == apply_op_spec(segs_view(segs@), op, b, c, tokens_view(tokens@), segs_view(donor@)),
{
    if segs.len() == 0 {
        return segs;
    }
    let t = (b % (segs.len() as u64)) as usize;
    let slot = op % OPERATOR_SLOTS;
    if slot == 0 {
        extend_gap(segs, t)
    } else if slot == 1 {
        if donor.len() > 0 {
            let d = (c % (donor.len() as u64)) as usize;
            if donor[d].is_gap() {
                let content = copy_bytes(donor[d].content());
                return replace_gap(segs, t, content);
            }
        }
        segs
    } else if slot == 2 {
        if tokens.len() > 0 {
            let k = (c % (tokens.len() as u64)) as usize;
            let content = copy_bytes(&tokens[k]);
            return replace_gap(segs, t, content);
        }
        segs
    } else {
        delete_gap(segs, t)
    }
}


/// The segments and generator state after `n` operators drawn from state `s`, three draws each.
pub open spec fn stack_spec(
    v: Seq<(bool, Seq<u8>)>,
    s: u64,
    n: nat,
    toks: Seq<Seq<u8>>,
    donor: Seq<(bool, Seq<u8>)>,
) -> (Seq<(bool, Seq<u8>)>, u64)
    decreases n,
{
    if n == 0 {
        (v, s)
    } else {
        let (v1, s1) = stack_spec(v, s, (n - 1) as nat, toks, donor);
        let sa = advance(s1);
        let sb = advance(sa);
        let sc = advance(sb);
        (apply_op_spec(v1, mix(sa), mix(sb), mix(sc), toks, donor), sc)
    }
}

/// The number of stacked operators that draw `d` asks for: one up to `max_stack`.
pub open spec fn stack_depth(d: u64, max_stack: u64) -> nat {
    (1 + d % max_stack) as nat
}

/// Applies a stack of operators to the segments, the depth and each operator drawn from `rng`.
pub fn mutate_segments(
    segs: Vec<Segment>,
    rng: &mut Rng,
    max_stack: u64,
    tokens: &Vec<Vec<u8>>,
    donor: &Vec<Segment>,
) -> (r: Vec<Segment>)
    requires
        max_stack > 0,
    ensures
        ({
            let s1 = advance(old(rng).state);
            let res = stack_spec(
                segs_view(segs@),
                s1,
                stack_depth(mix(s1), max_stack),
                tokens_view(tokens@),
                segs_view(donor@),
            );
            segs_view(r@) == res.0 && final(rng).state == res.1
        }),
{
    let d = rng.next();
    let n = 1 + d % max_stack;
    let ghost s1 = rng.state;
    let ghost v0 = segs_view(segs@);
    let mut cur = segs;
    let mut i: u64 = 0;
    while i < n
        invariant
            i <= n,
            n == 1 + d % max_stack,
            ({
                let res = stack_spec(v0, s1, i as nat, tokens_view(tokens@), segs_view(donor@));
                segs_view(cur@) == res.0 && rng.state == res.1
            }),
        decreases n - i,
    {
        let a = rng.next();
        let b = rng.next();
        let c = rng.next();
        cur = apply_op(cur, a, b, c, tokens, donor);
        i += 1;
    }
    cur
}

/// The bytes with bit `bit` of the byte at `pos` flipped, when `pos` is inside them.
pub open spec fn flip_spec(v: Seq<u8>, pos: int, bit: u64) -> Seq<u8> {
    if 0 <= pos < v.len() {
        v.update(pos, v[pos] ^ ((1u8 << ((bit % 8) as u8)) as u8))
    } else {
        v
    }
}

pub fn flip_bit(bytes: Vec<u8>, pos: usize, bit: u64) -> (r: Vec<u8>)
    ensures
        r@ == flip_spec(bytes@, pos as int, bit),
{
    let mut bytes = bytes;
    if pos < bytes.len() {
        let mask: u8 = 1u8 << ((bit % 8) as u8);
        let old_byte = bytes[pos];
        bytes.set(pos, old_byte ^ mask);
    }
    bytes
}

/// The bytes and generator state after `n` bit flips drawn from state `s`, two draws each.
pub open spec fn havoc_spec(v: Seq<u8>, s: u64, n: nat) -> (Seq<u8>, u64)
    decreases n,
{
    if n == 0 {
        (v, s)
    } else {
        let (v1, s1) = havoc_spec(v, s, (n - 1) as nat);
        let sa = advance(s1);
        let sb = advance(sa);
        let pos = if v1.len() == 0 { 0 } else { (mix(sa) as int) % (v1.len() as int) };
        (flip_spec(v1, pos, mix(sb)), sb)
    }
}

/// Flips a stack of bits of a raw input, the depth and each flip drawn from `rng`.
pub fn mutate_bytes(bytes: Vec<u8>, rng: &mut Rng, max_stack: u64) -> (r: Vec<u8>)
    requires
        max_stack > 0,
    ensures
        ({
            let s1 = advance(old(rng).state);
            let res = havoc_spec(bytes@, s1, stack_depth(mix(s1), max_stack));
            r@ == res.0 && final(rng).state == res.1
        }),
{
    let d = rng.next();
    let n = 1 + d % max_stack;
    let ghost s1 = rng.state;
    let ghost v0 = bytes@;
    let mut cur = bytes;
    let mut i: u64 = 0;
    while i < n
        invariant
            i <= n,
            n == 1 + d % max_stack,
            ({
                let res = havoc_spec(v0, s1, i as nat);
                cur@ == res.0 && rng.state == res.1
            }),
        decreases n - i,
    {
        let a = rng.next();
        let b = rng.next();
        let pos: usize = if cur.len() == 0 {
            0
        } else {
            (a % (cur.len() as u64)) as usize
        };
        cur = flip_bit(cur, pos, b);
        i += 1;
    }
    cur
}

} // verus!
