//! Laws of the normalizer, stated and proved once for all inputs.

use crate::calendar::{epoch_days, lemma_epoch_days_injective, valid_ymd, weekday_of_day};
use crate::normalize::{div_trunc, normalize_millis, NormalizedDate};
use crate::numeral::{
    all_digits, digit_val, digits_val, int_body, int_sign, int_string_value, is_digit,
    is_int_string,
};
use crate::patterns::{first_match, first_match_from, pattern_date};
use crate::render::{date_of_epoch_day, dec_str, digit_char, render_parts, render_utc};
use vstd::arithmetic::div_mod::{lemma_div_multiples_vanish, lemma_mod_multiples_basic};
use vstd::arithmetic::mul::lemma_mul_is_associative;
use vstd::prelude::*;

verus! {

/// Decimal string of an integer: a minus sign for negatives, then digits.
pub open spec fn int_to_string(n: int) -> Seq<char> {
    if n < 0 {
        "-"@ + dec_str(-n)
    } else {
        dec_str(n)
    }
}

proof fn lemma_dec_str_digits(n: int)
    requires
        n >= 0,
    ensures
        all_digits(dec_str(n)),
        digits_val(dec_str(n)) == n,
        dec_str(n).len() >= 1,
    decreases n,
{
    if n <= 9 {
        assert(dec_str(n) =~= seq![digit_char(n)]);
        assert(dec_str(n).drop_last() =~= Seq::<char>::empty());
        assert(digits_val(Seq::<char>::empty()) == 0);
        assert(dec_str(n).last() == digit_char(n));
        assert(digits_val(dec_str(n)) == 10 * digits_val(Seq::<char>::empty()) + digit_val(
            digit_char(n),
        ));
    } else {
        lemma_dec_str_digits(n / 10);
        let hd = dec_str(n / 10);
        let s = dec_str(n);
        assert(s == hd + seq![digit_char(n % 10)]);
        assert(s.drop_last() =~= hd);
        assert(s.last() == digit_char(n % 10));
        assert(digits_val(s) == 10 * (n / 10) + digit_val(digit_char(n % 10)));
        assert(forall|i: int| 0 <= i < hd.len() ==> s[i] == #[trigger] hd[i]);
        assert(forall|i: int| 0 <= i < s.len() ==> is_digit(#[trigger] s[i]));
    }
}

/// Every 64-bit integer's decimal string is accepted as a numeral, with the
/// integer itself as its value.
pub proof fn lemma_int_string_roundtrip(n: i64)
    ensures
        is_int_string(int_to_string(n as int)),
        int_string_value(int_to_string(n as int)) == n as int,
{
    if n >= 0 {
        lemma_dec_str_digits(n as int);
        let s = int_to_string(n as int);
        assert(is_digit(s[0]));
        assert(int_body(s) == s);
        assert(int_sign(s) == 1);
    } else {
        lemma_dec_str_digits(-(n as int));
        let s = int_to_string(n as int);
        reveal_strlit("-");
        assert(s[0] == '-');
        assert(int_body(s) =~= dec_str(-(n as int)));
        assert(int_sign(s) == -1);
    }
}

/// For every 64-bit integer `n`, normalizing the decimal string of `n`
/// succeeds, with `n` itself as the millisecond count. (`normalize`'s own
/// contract then renders it at `n` truncated to whole seconds.)
pub proof fn lemma_normalize_integer(n: i64)
    ensures
        normalize_millis(int_to_string(n as int)) == Some(n as int),
{
    lemma_int_string_roundtrip(n);
}

/// For every string of the `YYYY-MM-DD` shape holding a valid calendar
/// date, normalization succeeds with midnight UTC of that date.
pub proof fn lemma_normalize_date_only(s: Seq<char>)
    requires
        pattern_date(1, s) is Some,
    ensures
        normalize_millis(s) matches Some(ms) && ({
            let t = pattern_date(1, s)->0;
            ms == 86_400_000 * epoch_days(t.0, t.1, t.2)
        }),
{
    assert(!is_int_string(s)) by {
        if is_int_string(s) {
            let b = int_body(s);
            if s.len() > 0 && (s[0] == '+' || s[0] == '-') {
                assert(b[3] == s[4]);
                assert(is_digit(b[3]));
            } else {
                assert(b[4] == s[4]);
                assert(is_digit(b[4]));
            }
            assert(false);
        }
    }
    assert(first_match(s) == first_match_from(s, 1));
}

/// Patterns are tried strictly in order: when pattern `i` matches, the
/// normalizer goes by a pattern with index at most `i` — so an earlier
/// matching pattern always beats a later one.
pub proof fn lemma_pattern_precedence(s: Seq<char>, i: int)
    requires
        1 <= i <= 10,
        pattern_date(i, s) is Some,
    ensures
        first_match(s) matches Some(r) && 1 <= r.0 <= i && pattern_date(r.0, s) == Some(r.1),
{
    lemma_first_match_found(s, 1, i);
}

proof fn lemma_first_match_found(s: Seq<char>, k: int, i: int)
    requires
        1 <= k <= i <= 10,
        pattern_date(i, s) is Some,
    ensures
        first_match_from(s, k) matches Some(r) && k <= r.0 <= i && pattern_date(r.0, s) == Some(
            r.1,
        ),
    decreases i - k,
{
    if pattern_date(k, s) is None {
        lemma_first_match_found(s, k + 1, i);
    }
}

/// A date-only result renders with time-of-day `00:00:00`: midnight of the
/// parsed calendar date renders as that date's parts with zero hours,
/// minutes and seconds.
pub proof fn lemma_render_midnight(y: int, m: int, d: int)
    requires
        valid_ymd(y, m, d),
    ensures
        ({
            let ms = 86_400_000 * epoch_days(y, m, d);
            render_utc(div_trunc(ms, 1000)) == render_parts(
                y,
                m,
                d,
                weekday_of_day(epoch_days(y, m, d)),
                0,
                0,
                0,
            )
        }),
{
    let z = epoch_days(y, m, d);
    let ms = 86_400_000 * z;
    assert(ms == 1000 * (86400 * z)) by {
        lemma_mul_is_associative(1000, 86400, z);
    }
    assert(div_trunc(ms, 1000) == 86400 * z) by {
        if ms >= 0 {
            lemma_div_multiples_vanish(86400 * z, 1000);
        } else {
            assert(-ms == 1000 * (86400 * (-z))) by {
                lemma_mul_is_associative(1000, 86400, -z);
            }
            lemma_div_multiples_vanish(86400 * (-z), 1000);
        }
    }
    let secs = 86400 * z;
    assert(secs / 86400 == z) by {
        lemma_div_multiples_vanish(z, 86400);
        assert(secs == 86400 * z);
    }
    assert(secs % 86400 == 0) by {
        lemma_mod_multiples_basic(z, 86400);
    }
    assert(date_of_epoch_day(z) == (y, m, d)) by {
        let w = (y, m, d);
        assert(exists|t: (int, int, int)|
            valid_ymd(t.0, t.1, t.2) && epoch_days(t.0, t.1, t.2) == z) by {
            assert(valid_ymd(w.0, w.1, w.2) && epoch_days(w.0, w.1, w.2) == z);
        }
        let tc = date_of_epoch_day(z);
        assert(valid_ymd(tc.0, tc.1, tc.2) && epoch_days(tc.0, tc.1, tc.2) == z);
        lemma_epoch_days_injective(y, m, d, tc.0, tc.1, tc.2);
    }
}

/// Round trip: `utc` is determined by `unix` — re-rendering the emitted
/// milliseconds through the fixed-format renderer reproduces the emitted
/// string exactly, for any two well-formed normalized instants.
pub proof fn lemma_round_trip(a: &NormalizedDate, b: &NormalizedDate)
    requires
        a.well_formed(),
        b.well_formed(),
        a.unix == b.unix,
    ensures
        a.utc@ == b.utc@,
{
}

} // verus!
