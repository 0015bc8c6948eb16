//! Signed decimal numerals: the strings accepted as millisecond timestamps.
//!
//! The grammar is the one Rust's own `i64` parser uses: an optional `+` or
//! `-` sign, then one or more ASCII digits, and the signed value must lie in
//! the `i64` range.

use vstd::prelude::*;

verus! {

pub open spec fn is_digit(c: char) -> bool {
    48 <= c as u32 <= 57
}

pub open spec fn digit_val(c: char) -> int {
    c as u32 - 48
}

pub open spec fn all_digits(s: Seq<char>) -> bool {
    forall|i: int| 0 <= i < s.len() ==> is_digit(#[trigger] s[i])
}

/// Value of a string of decimal digits, most significant first.
pub open spec fn digits_val(s: Seq<char>) -> int
    decreases s.len(),
{
    if s.len() == 0 {
        0
    } else {
        10 * digits_val(s.drop_last()) + digit_val(s.last())
    }
}

/// The digits of a numeral: everything after a leading sign, if any.
pub open spec fn int_body(s: Seq<char>) -> Seq<char> {
    if s.len() > 0 && (s[0] == '+' || s[0] == '-') {
        s.subrange(1, s.len() as int)
    } else {
        s
    }
}

pub open spec fn int_sign(s: Seq<char>) -> int {
    if s.len() > 0 && s[0] == '-' {
        -1
    } else {
        1
    }
}

pub open spec fn int_string_value(s: Seq<char>) -> int {
    int_sign(s) * digits_val(int_body(s))
}

pub open spec fn is_int_string(s: Seq<char>) -> bool {
    &&& int_body(s).len() > 0
    &&& all_digits(int_body(s))
    &&& -0x8000_0000_0000_0000 <= int_string_value(s) <= 0x7fff_ffff_ffff_ffff
}

pub proof fn lemma_digits_val_nonneg(s: Seq<char>)
    requires
        all_digits(s),
    ensures
        digits_val(s) >= 0,
    decreases s.len(),
{
    if s.len() > 0 {
        assert(all_digits(s.drop_last())) by {
            assert(forall|i: int|
                0 <= i < s.len() - 1 ==> #[trigger] s.drop_last()[i] == s[i]);
        }
        lemma_digits_val_nonneg(s.drop_last());
        assert(is_digit(s.last()));
    }
}

/// Extending a digit prefix by one digit multiplies its value by ten and
/// adds the digit.
pub proof fn lemma_digits_val_extend(s: Seq<char>, i: int)
    requires
        0 <= i < s.len(),
    ensures
        digits_val(s.subrange(0, i + 1)) == 10 * digits_val(s.subrange(0, i)) + digit_val(s[i]),
{
    let t = s.subrange(0, i + 1);
    assert(t.drop_last() =~= s.subrange(0, i));
    assert(t.last() == s[i]);
}

/// A digit prefix never has a larger value than a longer prefix.
pub proof fn lemma_digits_val_prefix_le(s: Seq<char>, i: int, j: int)
    requires
        all_digits(s),
        0 <= i <= j <= s.len(),
    ensures
        digits_val(s.subrange(0, i)) <= digits_val(s.subrange(0, j)),
    decreases j - i,
{
    if i < j {
        lemma_digits_val_prefix_le(s, i, j - 1);
        lemma_digits_val_extend(s, j - 1);
        assert(all_digits(s.subrange(0, j - 1))) by {
            assert(forall|k: int|
                0 <= k < j - 1 ==> #[trigger] s.subrange(0, j - 1)[k] == s[k]);
        }
        lemma_digits_val_nonneg(s.subrange(0, j - 1));
        assert(is_digit(s[j - 1]));
    }
}

/// Parses a signed decimal numeral, exactly as the `i64` grammar above
/// states it; `None` on any other string.
pub fn parse_i64(v: &Vec<char>) -> (r: Option<i64>)
    ensures
        (r is Some) <==> is_int_string(v@),
        r matches Some(n) ==> n as int == int_string_value(v@),
{
    let ghost s = v@;
    let n = v.len();
    if n == 0 {
        return None;
    }
    let mut start: usize = 0;
    let c0 = v[0];
    if c0 == '+' || c0 == '-' {
        start = 1;
    }
    let ghost body = int_body(s);
    proof {
        assert(body =~= s.subrange(start as int, s.len() as int));
    }
    if start == n {
        return None;
    }
    let mut acc: i128 = 0;
    let mut j: usize = start;
    while j < n
        invariant
            start <= j <= n,
            n == s.len(),
            v@ == s,
            body == int_body(s),
            body =~= s.subrange(start as int, s.len() as int),
            acc == digits_val(body.subrange(0, j - start)),
            forall|k: int| 0 <= k < j - start ==> is_digit(#[trigger] body[k]),
            0 <= acc <= 0x8000_0000_0000_0000,
        decreases n - j,
    {
        let c = v[j];
        let u = c as u32;
        if u < 48 || u > 57 {
            proof {
                assert(body[j - start] == s[j as int]);
                assert(!is_digit(s[j as int]));
                assert(!all_digits(body));
            }
            return None;
        }
        proof {
            assert(body[j - start] == s[j as int]);
            lemma_digits_val_extend(body, j - start);
            assert(is_digit(body[j - start]));
        }
        acc = acc * 10 + ((u - 48) as i128);
        j = j + 1;
        if acc > 0x8000_0000_0000_0000i128 {
            proof {
                if all_digits(body) {
                    lemma_digits_val_prefix_le(body, j - start, body.len() as int);
                    assert(body.subrange(0, body.len() as int) =~= body);
                    assert(digits_val(int_body(s)) > 0x8000_0000_0000_0000);
                }
                assert(!is_int_string(s));
            }
            return None;
        }
    }
    proof {
        assert(body.subrange(0, (n - start) as int) =~= body);
        assert(all_digits(body));
    }
    if start == 1 && c0 == '-' {
        Some((-acc) as i64)
    } else {
        if acc >= 0x8000_0000_0000_0000i128 {
            return None;
        }
        Some(acc as i64)
    }
}

} // verus!
