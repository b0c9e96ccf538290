use vstd::prelude::*;
use vstd::string::StringSliceAdditionalSpecFns;

verus! {

/// A per-run deadline in milliseconds.
#[derive(PartialEq, Eq, Structural, Clone, Copy, Debug)]
pub struct Timeout {
    pub millis: u64,
}

/// Why a millisecond count could not be read.
#[derive(PartialEq, Eq, Structural, Clone, Copy, Debug)]
pub enum TimeoutError {
    Empty,
    InvalidDigit,
    Overflow,
}

pub open spec fn is_digit(b: u8) -> bool {
    48 <= b <= 57
}

/// The number that a string of decimal digits spells.
pub open spec fn decimal_value(d: Seq<u8>) -> nat
    decreases d.len(),
{
    if d.len() == 0 {
        0
    } else {
        decimal_value(d.drop_last()) * 10 + (d.last() - 48) as nat
    }
}

/// The digits of a count: the text without one leading `+`.
pub open spec fn digits_of(s: Seq<u8>) -> Seq<u8> {
    if s.len() > 0 && s[0] == 43u8 {
        s.drop_first()
    } else {
        s
    }
}

/// How a text reads as a millisecond count: an optional `+`, then at least one decimal digit and
/// nothing else, of a value that fits in 64 bits.
pub open spec fn parse_millis(s: Seq<u8>) -> Result<u64, TimeoutError> {
    let d = digits_of(s);
    if s.len() == 0 {
        Err(TimeoutError::Empty)
    } else if d.len() == 0 || exists|i: int| 0 <= i < d.len() && !is_digit(#[trigger] d[i]) {
        Err(TimeoutError::InvalidDigit)
    } else if decimal_value(d) > u64::MAX {
        Err(TimeoutError::Overflow)
    } else {
        Ok(decimal_value(d) as u64)
    }
}

proof fn lemma_value_grows(d: Seq<u8>, k: int)
    requires
        0 <= k <= d.len(),
        forall|i: int| 0 <= i < d.len() ==> is_digit(#[trigger] d[i]),
    ensures
        decimal_value(d.subrange(0, k)) <= decimal_value(d),
    decreases d.len() - k,
{
    if k < d.len() {
        lemma_value_grows(d, k + 1);
        assert(d.subrange(0, k + 1).drop_last() =~= d.subrange(0, k));
    } else {
        assert(d.subrange(0, k) =~= d);
    }
}

/// Reads a deadline given in milliseconds.
pub fn timeout_from_millis_str(time: &str) -> (r: Result<Timeout, TimeoutError>)
    ensures
        r matches Ok(t) ==> parse_millis(time.spec_bytes()) == Ok::<u64, TimeoutError>(t.millis),
        r matches Err(e) ==> parse_millis(time.spec_bytes()) == Err::<u64, TimeoutError>(e),
{
    let s = time.as_bytes();
    let ghost sb = s@;
    if s.len() == 0 {
        return Err(TimeoutError::Empty);
    }
    assert(sb == time.spec_bytes());
    let start: usize = if s[0] == 43u8 { 1 } else { 0 };
    let ghost d = digits_of(sb);
    assert(d =~= sb.subrange(start as int, sb.len() as int));
    if start == s.len() {
        return Err(TimeoutError::InvalidDigit);
    }
    let mut i: usize = start;
    while i < s.len()
        invariant
            start <= i <= s@.len(),
            s@ == sb,
            sb == time.spec_bytes(),
            sb.len() > 0,
            d == digits_of(sb),
            d == sb.subrange(start as int, sb.len() as int),
            forall|k: int| 0 <= k < i - start ==> is_digit(#[trigger] d[k]),
        decreases s.len() - i,
    {
        assert(d[i - start] == s@[i as int]);
        if s[i] < 48u8 || s[i] > 57u8 {
            assert(!is_digit(d[i - start]));
            return Err(TimeoutError::InvalidDigit);
        }
        i += 1;
    }
    let mut v: u64 = 0;
    let mut j: usize = start;
    while j < s.len()
        invariant
            start <= j <= s@.len(),
            s@ == sb,
            sb == time.spec_bytes(),
            sb.len() > 0,
            d == digits_of(sb),
            d == sb.subrange(start as int, sb.len() as int),
            forall|k: int| 0 <= k < d.len() ==> is_digit(#[trigger] d[k]),
            v as nat == decimal_value(d.subrange(0, j - start)),
        decreases s.len() - j,
    {
        assert(d[j - start] == s@[j as int]);
        assert(is_digit(d[j - start]));
        let digit: u64 = (s[j] - 48u8) as u64;
        assert(d.subrange(0, j + 1 - start).drop_last() =~= d.subrange(0, j - start));
        assert(decimal_value(d.subrange(0, j + 1 - start)) == v as nat * 10 + digit as nat);
        if v > (u64::MAX - digit) / 10 {
            proof {
                lemma_value_grows(d, j + 1 - start);
                assert(v as nat * 10 + digit as nat > u64::MAX) by (nonlinear_arith)
                    requires
                        v > (u64::MAX - digit) / 10,
                        digit <= 9,
                ;
            }
            return Err(TimeoutError::Overflow);
        }
        assert(v * 10 + digit <= u64::MAX) by (nonlinear_arith)
            requires
                v <= (u64::MAX - digit) / 10,
                digit <= 9,
        ;
        v = v * 10 + digit;
        j += 1;
    }
    assert(d.subrange(0, d.len() as int) =~= d);
    Ok(Timeout { millis: v })
}

} // verus!
