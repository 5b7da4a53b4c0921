//! Shortening numbers printed with two decimals: trailing zeros of the
//! fraction are dropped, and so is a dot that is left alone.
use vstd::prelude::*;
use crate::text::{chars_of, is_digit_char, string_from_chars};

verus! {

/// `s` without the copies of `c` at its end (`str::trim_end_matches`).
pub open spec fn trim_end(s: Seq<char>, c: char) -> Seq<char>
    decreases s.len(),
{
    if s.len() > 0 && s.last() == c {
        trim_end(s.drop_last(), c)
    } else {
        s
    }
}

/// A number printed with two decimals, shortened: trailing zeros removed,
/// then trailing dots.
pub open spec fn trimmed_number(s: Seq<char>) -> Seq<char> {
    trim_end(trim_end(s, '0'), '.')
}

fn trim_end_chars(v: &mut Vec<char>, c: char)
    ensures
        final(v)@ == trim_end(old(v)@, c),
{
    while v.len() > 0 && v[v.len() - 1] == c
        invariant
            trim_end(v@, c) == trim_end(old(v)@, c),
        decreases v.len(),
    {
        let ghost before = v@;
        v.pop();
        assert(v@ =~= before.drop_last());
    }
}

/// Shortens a number printed with two decimals (`format!("{:.2}", x)`):
/// `"12.50"` becomes `"12.5"` and `"3.00"` becomes `"3"`.
pub fn trim_decimal_zeros(formatted: &str) -> (r: String)
    ensures
        r@ == trimmed_number(formatted@),
{
    let mut v = chars_of(formatted);
    trim_end_chars(&mut v, '0');
    trim_end_chars(&mut v, '.');
    string_from_chars(&v)
}

/// What shortening does to a number printed with two decimals, an integer
/// part `int_part` (digits after an optional sign) and fraction digits
/// `d1 d2`: the fraction goes when it is zero, its last digit goes when
/// that one is zero, and the number is otherwise kept whole.
pub proof fn law_trim_two_decimals(int_part: Seq<char>, d1: char, d2: char)
    requires
        int_part.len() > 0,
        is_digit_char(int_part.last()),
        is_digit_char(d1),
        is_digit_char(d2),
    ensures
        trimmed_number(int_part + seq!['.', d1, d2]) == (if d1 == '0' && d2 == '0' {
            int_part
        } else if d2 == '0' {
            int_part + seq!['.', d1]
        } else {
            int_part + seq!['.', d1, d2]
        }),
{
    let s = int_part + seq!['.', d1, d2];
    let t = int_part + seq!['.', d1];
    let with_dot = int_part + seq!['.'];
    assert(s.last() == d2);
    assert(t.last() == d1);
    assert(with_dot.last() == '.');
    assert(s.drop_last() =~= t);
    assert(t.drop_last() =~= with_dot);
    assert(with_dot.drop_last() =~= int_part);
    assert(trim_end(with_dot, '0') == with_dot);
    assert(trim_end(int_part, '.') == int_part);
    assert(trim_end(with_dot, '.') == int_part);
    if d2 == '0' {
        assert(trim_end(s, '0') == trim_end(t, '0'));
        if d1 == '0' {
            assert(trim_end(t, '0') == with_dot);
        } else {
            assert(trim_end(t, '0') == t);
            assert(trim_end(t, '.') == t);
        }
    } else {
        assert(trim_end(s, '0') == s);
        assert(trim_end(s, '.') == s);
    }
}

} // verus!
