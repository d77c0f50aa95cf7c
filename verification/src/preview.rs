//! Rendering a truncated preview of an integer vector: up to a limit of
//! leading elements, space-separated, inside square brackets.

use vstd::prelude::*;

verus! {

/// The character that writes the decimal digit `d`.
pub open spec fn digit_char(d: int) -> char {
    if d == 0 {
        '0'
    } else if d == 1 {
        '1'
    } else if d == 2 {
        '2'
    } else if d == 3 {
        '3'
    } else if d == 4 {
        '4'
    } else if d == 5 {
        '5'
    } else if d == 6 {
        '6'
    } else if d == 7 {
        '7'
    } else if d == 8 {
        '8'
    } else {
        '9'
    }
}

/// The decimal digits of the non-negative number `n`, most significant
/// first, with no leading zero except for `n == 0` itself.
pub open spec fn dec_chars(n: nat) -> Seq<char>
    decreases n,
{
    if n < 10 {
        seq![digit_char(n as int)]
    } else {
        dec_chars(n / 10).push(digit_char((n % 10) as int))
    }
}

/// The decimal writing of the integer `v`: its magnitude's digits, after
/// a minus sign when `v` is negative.
pub open spec fn int_chars(v: int) -> Seq<char> {
    if v < 0 {
        seq!['-'] + dec_chars((-v) as nat)
    } else {
        dec_chars(v as nat)
    }
}

/// The elements of `s` written in decimal and joined by single spaces.
pub open spec fn joined_chars(s: Seq<i32>) -> Seq<char>
    decreases s.len(),
{
    if s.len() == 0 {
        Seq::empty()
    } else if s.len() == 1 {
        int_chars(s[0] as int)
    } else {
        joined_chars(s.drop_last()) + seq![' '] + int_chars(s.last() as int)
    }
}

/// The preview of `s` under `limit`: the first `limit` elements (all of
/// them when fewer) joined by spaces, between square brackets.
pub open spec fn preview_chars(s: Seq<i32>, limit: int) -> Seq<char> {
    let shown = if s.len() <= limit {
        s
    } else {
        s.take(limit)
    };
    seq!['['] + joined_chars(shown) + seq![']']
}

/// Returns whether the vector holds at least one element.
pub fn not_empty<T>(vec: &Vec<T>) -> (r: bool)
    ensures
        r == (vec@.len() > 0),
{
    vec.len() > 0
}

/// The one-character string that writes the decimal digit `d`.
fn digit_str(d: u32) -> (s: &'static str)
    requires
        d < 10,
    ensures
        s@ == seq![digit_char(d as int)],
{
    proof {
        reveal_strlit("0");
        reveal_strlit("1");
        reveal_strlit("2");
        reveal_strlit("3");
        reveal_strlit("4");
        reveal_strlit("5");
        reveal_strlit("6");
        reveal_strlit("7");
        reveal_strlit("8");
        reveal_strlit("9");
    }
    if d == 0 {
        "0"
    } else if d == 1 {
        "1"
    } else if d == 2 {
        "2"
    } else if d == 3 {
        "3"
    } else if d == 4 {
        "4"
    } else if d == 5 {
        "5"
    } else if d == 6 {
        "6"
    } else if d == 7 {
        "7"
    } else if d == 8 {
        "8"
    } else {
        "9"
    }
}

/// Writes `n` in decimal.
pub fn u32_string(n: u32) -> (s: String)
    ensures
        s@ == dec_chars(n as nat),
    decreases n,
{
    if n < 10 {
        digit_str(n).to_owned()
    } else {
        let mut s = u32_string(n / 10);
        s.append(digit_str(n % 10));
        s
    }
}

/// Writes `v` in decimal, with a minus sign when it is negative.
pub fn i32_string(v: i32) -> (s: String)
    ensures
        s@ == int_chars(v as int),
{
    if v >= 0 {
        u32_string(v as u32)
    } else {
        let magnitude: u32 = (-(v as i64)) as u32;
        let mut s = "-".to_owned();
        proof {
            reveal_strlit("-");
            assert("-"@ =~= seq!['-']);
        }
        let digits = u32_string(magnitude);
        s.append(digits.as_str());
        proof {
            assert(s@ =~= int_chars(v as int));
        }
        s
    }
}

/// Writes up to `limit` leading elements of the vector as a
/// space-separated, bracket-delimited string; a vector with fewer
/// elements is written whole, and an empty one as a bare pair of
/// brackets.
pub fn preview(vec: &Vec<i32>, limit: usize) -> (s: String)
    ensures
        s@ == preview_chars(vec@, limit as int),
{
    let max: usize = if vec.len() < limit {
        vec.len()
    } else {
        limit
    };
    let mut s = "[".to_owned();
    proof {
        reveal_strlit("[");
        reveal_strlit("]");
        reveal_strlit(" ");
        assert("["@ =~= seq!['[']);
        assert("]"@ =~= seq![']']);
        assert(" "@ =~= seq![' ']);
    }
    if not_empty(vec) && max > 0 {
        let first = i32_string(vec[0]);
        s.append(first.as_str());
        proof {
            assert(vec@.take(1)[0] == vec@[0]);
            assert(s@ =~= seq!['['] + joined_chars(vec@.take(1)));
        }
        for i in 1..max
            invariant
                max <= vec@.len(),
                s@ == seq!['['] + joined_chars(vec@.take(i as int)),
        {
            s.append(" ");
            let next = i32_string(vec[i]);
            s.append(next.as_str());
            proof {
                reveal_strlit(" ");
                assert(" "@ =~= seq![' ']);
                let t = vec@;
                let prev = t.take(i as int);
                let cur = t.take(i as int + 1);
                assert(cur.drop_last() =~= prev);
                assert(cur.last() == t[i as int]);
                assert(joined_chars(cur) == joined_chars(prev) + seq![' '] + int_chars(t[i as int] as int));
                assert(s@ =~= seq!['['] + joined_chars(cur));
            }
        }
    }
    s.append("]");
    proof {
        let t = vec@;
        let shown = if t.len() <= limit as int {
            t
        } else {
            t.take(limit as int)
        };
        if max == 0 {
            assert(shown =~= t.take(0));
            assert(joined_chars(shown) =~= Seq::<char>::empty());
        } else {
            assert(shown =~= t.take(max as int));
        }
        assert(s@ =~= preview_chars(t, limit as int));
    }
    s
}

} // verus!
