//! The fixed-format UTC rendering `"Dow, DD Mon YYYY HH:MM:SS GMT"`,
//! for example `"Wed, 21 Oct 2015 07:28:00 GMT"`.
//!
//! Years from 0 to 9999 render as four zero-padded digits; years outside
//! that range carry an explicit sign before the digits.

use crate::calendar::{
    days_to_civil, epoch_days, fdiv, umod, valid_ymd, weekday_number, weekday_of_day, DAY_HI, DAY_LO,
    YEAR_HI, YEAR_LO,
};
use vstd::prelude::*;

verus! {

/// Least instant (in seconds) this library renders: covers every `i64`
/// millisecond timestamp truncated to seconds.
pub const SECS_LO: i64 = -9_223_372_036_854_776;

/// See [`SECS_LO`].
pub const SECS_HI: i64 = 9_223_372_036_854_776;

pub open spec fn digit_char(k: int) -> char {
    if k == 0 {
        '0'
    } else if k == 1 {
        '1'
    } else if k == 2 {
        '2'
    } else if k == 3 {
        '3'
    } else if k == 4 {
        '4'
    } else if k == 5 {
        '5'
    } else if k == 6 {
        '6'
    } else if k == 7 {
        '7'
    } else if k == 8 {
        '8'
    } else {
        '9'
    }
}

/// Decimal digits of a nonnegative integer, most significant first.
pub open spec fn dec_str(n: int) -> Seq<char>
    decreases n,
{
    if n <= 9 {
        seq![digit_char(n)]
    } else {
        dec_str(n / 10) + seq![digit_char(n % 10)]
    }
}

/// Two zero-padded decimal digits (for values 0 to 99).
pub open spec fn two_digits(n: int) -> Seq<char> {
    seq![digit_char(n / 10), digit_char(n % 10)]
}

/// Four zero-padded decimal digits (for values 0 to 9999).
pub open spec fn pad4(n: int) -> Seq<char> {
    seq![
        digit_char(n / 1000),
        digit_char((n / 100) % 10),
        digit_char((n / 10) % 10),
        digit_char(n % 10),
    ]
}

/// Rendering of the year field.
pub open spec fn year_str(y: int) -> Seq<char> {
    if y > 9999 {
        "+"@ + dec_str(y)
    } else if y >= 0 {
        pad4(y)
    } else if y >= -9999 {
        "-"@ + pad4(-y)
    } else {
        "-"@ + dec_str(-y)
    }
}

/// Day-of-week name: 0 = Sunday, ..., 6 = Saturday.
pub open spec fn dow_name(w: int) -> Seq<char> {
    if w == 0 {
        "Sun"@
    } else if w == 1 {
        "Mon"@
    } else if w == 2 {
        "Tue"@
    } else if w == 3 {
        "Wed"@
    } else if w == 4 {
        "Thu"@
    } else if w == 5 {
        "Fri"@
    } else {
        "Sat"@
    }
}

pub open spec fn month_abbr(m: int) -> Seq<char> {
    if m == 1 {
        "Jan"@
    } else if m == 2 {
        "Feb"@
    } else if m == 3 {
        "Mar"@
    } else if m == 4 {
        "Apr"@
    } else if m == 5 {
        "May"@
    } else if m == 6 {
        "Jun"@
    } else if m == 7 {
        "Jul"@
    } else if m == 8 {
        "Aug"@
    } else if m == 9 {
        "Sep"@
    } else if m == 10 {
        "Oct"@
    } else if m == 11 {
        "Nov"@
    } else {
        "Dec"@
    }
}

/// The rendered string, from its seven fields.
pub open spec fn render_parts(y: int, mo: int, d: int, w: int, hh: int, mi: int, ss: int) -> Seq<
    char,
> {
    dow_name(w) + ", "@ + two_digits(d) + " "@ + month_abbr(mo) + " "@ + year_str(y) + " "@
        + two_digits(hh) + ":"@ + two_digits(mi) + ":"@ + two_digits(ss) + " GMT"@
}

/// The calendar date of epoch day `z`: the unique valid triple with that day
/// number (unique by `lemma_epoch_days_injective`).
pub open spec fn date_of_epoch_day(z: int) -> (int, int, int) {
    choose|t: (int, int, int)| valid_ymd(t.0, t.1, t.2) && epoch_days(t.0, t.1, t.2) == z
}

/// The fixed-format UTC rendering of the instant `secs` seconds after the
/// epoch (`/` and `%` are Euclidean, so this floors for instants before it).
pub open spec fn render_utc(secs: int) -> Seq<char> {
    let z = secs / 86400;
    let sod = secs % 86400;
    let t = date_of_epoch_day(z);
    render_parts(t.0, t.1, t.2, weekday_of_day(z), sod / 3600, (sod / 60) % 60, sod % 60)
}

fn push_digit(s: &mut String, k: i64)
    requires
        0 <= k <= 9,
    ensures
        final(s)@ == old(s)@ + seq![digit_char(k as int)],
{
    if k == 0 {
        s.append("0");
        proof {
            reveal_strlit("0");
            assert("0"@ =~= seq![digit_char(0)]);
        }
    } else if k == 1 {
        s.append("1");
        proof {
            reveal_strlit("1");
            assert("1"@ =~= seq![digit_char(1)]);
        }
    } else if k == 2 {
        s.append("2");
        proof {
            reveal_strlit("2");
            assert("2"@ =~= seq![digit_char(2)]);
        }
    } else if k == 3 {
        s.append("3");
        proof {
            reveal_strlit("3");
            assert("3"@ =~= seq![digit_char(3)]);
        }
    } else if k == 4 {
        s.append("4");
        proof {
            reveal_strlit("4");
            assert("4"@ =~= seq![digit_char(4)]);
        }
    } else if k == 5 {
        s.append("5");
        proof {
            reveal_strlit("5");
            assert("5"@ =~= seq![digit_char(5)]);
        }
    } else if k == 6 {
        s.append("6");
        proof {
            reveal_strlit("6");
            assert("6"@ =~= seq![digit_char(6)]);
        }
    } else if k == 7 {
        s.append("7");
        proof {
            reveal_strlit("7");
            assert("7"@ =~= seq![digit_char(7)]);
        }
    } else if k == 8 {
        s.append("8");
        proof {
            reveal_strlit("8");
            assert("8"@ =~= seq![digit_char(8)]);
        }
    } else {
        s.append("9");
        proof {
            reveal_strlit("9");
            assert("9"@ =~= seq![digit_char(9)]);
        }
    }
}

fn push_two(s: &mut String, n: i64)
    requires
        0 <= n <= 99,
    ensures
        final(s)@ == old(s)@ + two_digits(n as int),
{
    push_digit(s, fdiv(n, 10));
    push_digit(s, umod(n, 10));
    assert(s@ =~= old(s)@ + two_digits(n as int));
}

fn push_pad4(s: &mut String, n: i64)
    requires
        0 <= n <= 9999,
    ensures
        final(s)@ == old(s)@ + pad4(n as int),
{
    push_digit(s, fdiv(n, 1000));
    push_digit(s, umod(fdiv(n, 100), 10));
    push_digit(s, umod(fdiv(n, 10), 10));
    push_digit(s, umod(n, 10));
    assert(s@ =~= old(s)@ + pad4(n as int));
}

fn push_dec(s: &mut String, n: i64)
    requires
        0 <= n,
    ensures
        final(s)@ == old(s)@ + dec_str(n as int),
    decreases n,
{
    if n <= 9 {
        push_digit(s, n);
    } else {
        push_dec(s, fdiv(n, 10));
        push_digit(s, umod(n, 10));
        assert(s@ =~= old(s)@ + dec_str(n as int));
    }
}

fn push_year(s: &mut String, y: i64)
    requires
        YEAR_LO <= y <= YEAR_HI,
    ensures
        final(s)@ == old(s)@ + year_str(y as int),
{
    if y > 9999 {
        s.append("+");
        push_dec(s, y);
        assert(s@ =~= old(s)@ + year_str(y as int));
    } else if y >= 0 {
        push_pad4(s, y);
    } else if y >= -9999 {
        s.append("-");
        push_pad4(s, -y);
        assert(s@ =~= old(s)@ + year_str(y as int));
    } else {
        s.append("-");
        push_dec(s, -y);
        assert(s@ =~= old(s)@ + year_str(y as int));
    }
}

fn push_dow(s: &mut String, w: i64)
    requires
        0 <= w <= 6,
    ensures
        final(s)@ == old(s)@ + dow_name(w as int),
{
    if w == 0 {
        s.append("Sun");
    } else if w == 1 {
        s.append("Mon");
    } else if w == 2 {
        s.append("Tue");
    } else if w == 3 {
        s.append("Wed");
    } else if w == 4 {
        s.append("Thu");
    } else if w == 5 {
        s.append("Fri");
    } else {
        s.append("Sat");
    }
}

fn push_month(s: &mut String, m: i64)
    requires
        1 <= m <= 12,
    ensures
        final(s)@ == old(s)@ + month_abbr(m as int),
{
    if m == 1 {
        s.append("Jan");
    } else if m == 2 {
        s.append("Feb");
    } else if m == 3 {
        s.append("Mar");
    } else if m == 4 {
        s.append("Apr");
    } else if m == 5 {
        s.append("May");
    } else if m == 6 {
        s.append("Jun");
    } else if m == 7 {
        s.append("Jul");
    } else if m == 8 {
        s.append("Aug");
    } else if m == 9 {
        s.append("Sep");
    } else if m == 10 {
        s.append("Oct");
    } else if m == 11 {
        s.append("Nov");
    } else {
        s.append("Dec");
    }
}

/// Renders the instant `secs` seconds after the epoch in the fixed UTC
/// format.
pub fn utc_string(secs: i64) -> (r: String)
    requires
        SECS_LO <= secs <= SECS_HI,
    ensures
        r@ == render_utc(secs as int),
{
    let z = fdiv(secs, 86400);
    let sod = umod(secs, 86400);
    assert(DAY_LO <= z <= DAY_HI);
    let (y, mo, d) = days_to_civil(z);
    proof {
        assert(exists|t: (int, int, int)|
            valid_ymd(t.0, t.1, t.2) && epoch_days(t.0, t.1, t.2) == z as int) by {
            assert(valid_ymd(y as int, mo as int, d as int) && epoch_days(
                y as int,
                mo as int,
                d as int,
            ) == z as int);
        }
        let tc = date_of_epoch_day(z as int);
        assert(valid_ymd(tc.0, tc.1, tc.2) && epoch_days(tc.0, tc.1, tc.2) == z as int);
        crate::calendar::lemma_epoch_days_injective(
            y as int,
            mo as int,
            d as int,
            tc.0,
            tc.1,
            tc.2,
        );
    }
    let w = weekday_number(z);
    let mut out = String::new();
    push_dow(&mut out, w);
    out.append(", ");
    push_two(&mut out, d);
    out.append(" ");
    push_month(&mut out, mo);
    out.append(" ");
    push_year(&mut out, y);
    out.append(" ");
    push_two(&mut out, fdiv(sod, 3600));
    out.append(":");
    push_two(&mut out, umod(fdiv(sod, 60), 60));
    out.append(":");
    push_two(&mut out, umod(sod, 60));
    out.append(" GMT");
    assert(out@ =~= render_utc(secs as int));
    out
}

} // verus!
