//! Parsing a line of console input as a signed 32-bit integer: the bytes
//! are trimmed of surrounding whitespace and read as an optionally signed
//! decimal literal.

use vstd::prelude::*;

verus! {

/// Whether `b` is an ASCII whitespace byte: tab through carriage return,
/// or the space itself.
pub open spec fn is_ascii_space(b: u8) -> bool {
    b == 32 || (9 <= b && b <= 13)
}

/// `s` without its leading whitespace bytes.
pub open spec fn trim_start(s: Seq<u8>) -> Seq<u8>
    decreases s.len(),
{
    if s.len() > 0 && is_ascii_space(s[0]) {
        trim_start(s.drop_first())
    } else {
        s
    }
}

/// `s` without its trailing whitespace bytes.
pub open spec fn trim_end(s: Seq<u8>) -> Seq<u8>
    decreases s.len(),
{
    if s.len() > 0 && is_ascii_space(s.last()) {
        trim_end(s.drop_last())
    } else {
        s
    }
}

/// `s` without its leading and trailing whitespace bytes.
pub open spec fn trimmed(s: Seq<u8>) -> Seq<u8> {
    trim_end(trim_start(s))
}

/// Whether `b` is an ASCII decimal digit.
pub open spec fn is_digit(b: u8) -> bool {
    48 <= b && b <= 57
}

/// Whether every byte of `s` is a decimal digit.
pub open spec fn all_digits(s: Seq<u8>) -> bool {
    forall|k: int| 0 <= k < s.len() ==> is_digit(#[trigger] s[k])
}

/// The number that the digit bytes of `s` write in decimal.
pub open spec fn digits_val(s: Seq<u8>) -> int
    decreases s.len(),
{
    if s.len() == 0 {
        0
    } else {
        digits_val(s.drop_last()) * 10 + (s.last() as int - 48)
    }
}

/// The literal `t` without its single leading sign byte, if one stands
/// there.
pub open spec fn unsigned_part(t: Seq<u8>) -> Seq<u8> {
    if t.len() > 0 && (t[0] == 43 || t[0] == 45) {
        t.drop_first()
    } else {
        t
    }
}

/// Whether the literal `t` carries a leading minus sign.
pub open spec fn is_negative_literal(t: Seq<u8>) -> bool {
    t.len() > 0 && t[0] == 45
}

/// The integer that the literal `t` writes: the value of its digits,
/// negated under a leading minus sign.
pub open spec fn literal_value(t: Seq<u8>) -> int {
    if is_negative_literal(t) {
        -digits_val(unsigned_part(t))
    } else {
        digits_val(unsigned_part(t))
    }
}

/// Whether `t` is a decimal literal that an `i32` can hold: at least one
/// digit after an optional sign, digits throughout, and a value within
/// the type's bounds.
pub open spec fn valid_i32_literal(t: Seq<u8>) -> bool {
    let u = unsigned_part(t);
    u.len() > 0 && all_digits(u) && -0x8000_0000 <= literal_value(t) <= 0x7FFF_FFFF
}

/// Dropping the leading whitespace bytes of `s` leaves its suffix from
/// the first non-whitespace position on.
proof fn lemma_trim_start_skip(s: Seq<u8>, lo: int)
    requires
        0 <= lo <= s.len(),
        forall|k: int| 0 <= k < lo ==> is_ascii_space(#[trigger] s[k]),
        lo == s.len() || !is_ascii_space(s[lo]),
    ensures
        trim_start(s) == s.skip(lo),
    decreases lo,
{
    if lo == 0 {
        assert(s.skip(0) =~= s);
    } else {
        assert(is_ascii_space(s[0]));
        lemma_trim_start_skip(s.drop_first(), lo - 1);
        assert(s.drop_first().skip(lo - 1) =~= s.skip(lo));
    }
}

/// Dropping the trailing whitespace bytes of `s` leaves its prefix up to
/// the last non-whitespace position.
proof fn lemma_trim_end_take(s: Seq<u8>, hi: int)
    requires
        0 <= hi <= s.len(),
        forall|k: int| hi <= k < s.len() ==> is_ascii_space(#[trigger] s[k]),
        hi == 0 || !is_ascii_space(s[hi - 1]),
    ensures
        trim_end(s) == s.take(hi),
    decreases s.len() - hi,
{
    if hi == s.len() {
        assert(s.take(hi) =~= s);
    } else {
        assert(is_ascii_space(s.last()));
        lemma_trim_end_take(s.drop_last(), hi);
        assert(s.drop_last().take(hi) =~= s.take(hi));
    }
}

/// The value of a run of digits is at least the value of any of its
/// prefixes: appending digits never shrinks it.
proof fn lemma_digits_val_prefix(u: Seq<u8>, m: int)
    requires
        0 <= m <= u.len(),
        all_digits(u),
    ensures
        digits_val(u) >= digits_val(u.take(m)),
        digits_val(u.take(m)) >= 0,
    decreases u.len() - m,
{
    if m == 0 {
        assert(u.take(0) =~= Seq::<u8>::empty());
        lemma_digits_val_nonneg(u);
    } else if m == u.len() {
        assert(u.take(m) =~= u);
        lemma_digits_val_nonneg(u);
    } else {
        lemma_digits_val_prefix(u, m + 1);
        assert(u.take(m + 1).drop_last() =~= u.take(m));
        assert(u.take(m + 1).last() == u[m]);
        assert(digits_val(u.take(m + 1)) == digits_val(u.take(m)) * 10 + (u[m] as int - 48));
        lemma_digits_val_nonneg(u.take(m));
    }
}

/// Digit bytes write a non-negative value.
proof fn lemma_digits_val_nonneg(u: Seq<u8>)
    requires
        all_digits(u),
    ensures
        digits_val(u) >= 0,
    decreases u.len(),
{
    if u.len() > 0 {
        assert(all_digits(u.drop_last())) by {
            assert(forall|k: int| 0 <= k < u.len() - 1 ==> u.drop_last()[k] == #[trigger] u[k]);
        }
        lemma_digits_val_nonneg(u.drop_last());
        assert(is_digit(u.last()));
    }
}

/// An exec test of `is_ascii_space`.
fn is_space_byte(b: u8) -> (r: bool)
    ensures
        r == is_ascii_space(b),
{
    b == 32 || (9 <= b && b <= 13)
}

/// Reads `s` as an optionally signed decimal integer after trimming
/// surrounding whitespace: the parsed value when the trimmed bytes form a
/// literal within `i32`'s bounds, and nothing otherwise.
pub fn parse_i32(s: &[u8]) -> (r: Option<i32>)
    ensures
        r is Some <==> valid_i32_literal(trimmed(s@)),
        r is Some ==> r->0 as int == literal_value(trimmed(s@)),
{
    let n: usize = s.len();
    let mut lo: usize = 0;
    while lo < n && is_space_byte(s[lo])
        invariant
            lo <= n,
            n == s@.len(),
            forall|k: int| 0 <= k < lo ==> is_ascii_space(#[trigger] s@[k]),
        decreases n - lo,
    {
        lo = lo + 1;
    }
    let mut hi: usize = n;
    while hi > lo && is_space_byte(s[hi - 1])
        invariant
            lo <= hi <= n,
            n == s@.len(),
            forall|k: int| 0 <= k < lo ==> is_ascii_space(#[trigger] s@[k]),
            lo == n || !is_ascii_space(s@[lo as int]),
            forall|k: int| hi <= k < n ==> is_ascii_space(#[trigger] s@[k]),
        decreases hi,
    {
        hi = hi - 1;
    }
    proof {
        lemma_trim_start_skip(s@, lo as int);
        lemma_trim_end_take(s@.skip(lo as int), hi - lo);
        assert(s@.skip(lo as int).take(hi - lo) =~= s@.subrange(lo as int, hi as int));
    }
    let ghost t = trimmed(s@);
    assert(t == s@.subrange(lo as int, hi as int));
    if lo == hi {
        assert(unsigned_part(t).len() == 0);
        return None;
    }
    let first: u8 = s[lo];
    let neg: bool = first == 45;
    let idx: usize = if first == 43 || first == 45 {
        lo + 1
    } else {
        lo
    };
    let ghost u = unsigned_part(t);
    proof {
        if idx > lo {
            assert(u =~= s@.subrange(idx as int, hi as int));
        } else {
            assert(u =~= s@.subrange(idx as int, hi as int));
        }
        assert(neg == is_negative_literal(t));
    }
    if idx == hi {
        assert(u.len() == 0);
        return None;
    }
    let mut magnitude: u64 = 0;
    let mut j: usize = idx;
    while j < hi
        invariant
            idx <= j <= hi,
            n == s@.len(),
            hi <= n,
            t == trimmed(s@),
            u == unsigned_part(t),
            neg == is_negative_literal(t),
            u == s@.subrange(idx as int, hi as int),
            forall|k: int| idx <= k < j ==> is_digit(#[trigger] s@[k]),
            magnitude == digits_val(s@.subrange(idx as int, j as int)),
            magnitude <= 0x8000_0000,
        decreases hi - j,
    {
        let b: u8 = s[j];
        if b < 48 || b > 57 {
            assert(!all_digits(u)) by {
                assert(u[j - idx] == s@[j as int]);
            }
            return None;
        }
        proof {
            let before = s@.subrange(idx as int, j as int);
            let after = s@.subrange(idx as int, j as int + 1);
            assert(after.drop_last() =~= before);
            assert(after.last() == s@[j as int]);
        }
        magnitude = magnitude * 10 + ((b - 48) as u64);
        if magnitude > 0x8000_0000 {
            assert(!valid_i32_literal(t)) by {
                if all_digits(u) {
                    lemma_digits_val_prefix(u, j + 1 - idx);
                    assert(u.take(j + 1 - idx) =~= s@.subrange(idx as int, j as int + 1));
                }
            }
            return None;
        }
        j = j + 1;
    }
    proof {
        assert(u =~= s@.subrange(idx as int, hi as int));
        assert(all_digits(u)) by {
            assert(forall|k: int| 0 <= k < u.len() ==> u[k] == #[trigger] s@[k + idx]);
        }
        assert(digits_val(u) == magnitude);
    }
    if neg {
        let value: i64 = -(magnitude as i64);
        assert(literal_value(t) == value as int);
        Some(value as i32)
    } else {
        if magnitude > 0x7FFF_FFFF {
            assert(!valid_i32_literal(t));
            None
        } else {
            Some(magnitude as i32)
        }
    }
}

} // verus!
