//! The ordered list of calendar-date patterns.
//!
//! Each pattern parses a calendar date; any time-of-day, offset or
//! timezone-name component is matched syntactically and then discarded, so a
//! matching input always denotes midnight UTC of its calendar date. The
//! patterns, tried strictly in this order (first match wins):
//!
//!  1. `YYYY-MM-DD`
//!  2. `YYYY-MM-DDTHH:MM:SS`
//!  3. `YYYY-MM-DDTHH:MM:SS.f...`
//!  4. `YYYY-MM-DDTHH:MM:SS.f...Z`
//!  5. `YYYY-MM-DDTHH:MM:SS.f...±HH:MM`
//!  6. `DD Month YYYY, TZ-name`
//!  7. `Dow Mon DD YYYY HH:MM:SS GMT±HHMM`
//!  8. `Dow Mon DD YYYY HH:MM:SS ±HHMM`
//!  9. `Dow Mon DD YYYY HH:MM:SS GMT±HH:MM (TZ-name)`
//! 10. `Dow Mon DD YYYY HH:MM:SS ±HH:MM (TZ-name)`
//!
//! Years are four digits, the other numeric fields two; a fraction is one or
//! more digits; a timezone name is one or more characters without a space
//! (and, inside parentheses, without a closing parenthesis). In the `Dow`
//! patterns the named day of the week must agree with the calendar date.

use crate::calendar::{
    civil_to_days, epoch_days, lemma_days_before_month_full, lemma_days_before_month_mono,
    lemma_days_before_year_mono, month_length, valid_ymd, weekday_number, weekday_of_day,
};
use crate::numeral::{digit_val, is_digit};
use crate::render::{dow_name, month_abbr};
use vstd::prelude::*;

verus! {

/// Full English month name, capitalized.
pub open spec fn month_name(m: int) -> Seq<char> {
    if m == 1 {
        "January"@
    } else if m == 2 {
        "February"@
    } else if m == 3 {
        "March"@
    } else if m == 4 {
        "April"@
    } else if m == 5 {
        "May"@
    } else if m == 6 {
        "June"@
    } else if m == 7 {
        "July"@
    } else if m == 8 {
        "August"@
    } else if m == 9 {
        "September"@
    } else if m == 10 {
        "October"@
    } else if m == 11 {
        "November"@
    } else {
        "December"@
    }
}

pub open spec fn matches_at(s: Seq<char>, i: int, pat: Seq<char>) -> bool {
    &&& 0 <= i
    &&& i + pat.len() <= s.len()
    &&& forall|j: int| 0 <= j < pat.len() ==> s[i + j] == #[trigger] pat[j]
}

pub open spec fn d2_at(s: Seq<char>, i: int) -> bool {
    0 <= i && i + 2 <= s.len() && is_digit(s[i]) && is_digit(s[i + 1])
}

pub open spec fn d2_val(s: Seq<char>, i: int) -> int {
    10 * digit_val(s[i]) + digit_val(s[i + 1])
}

pub open spec fn d4_at(s: Seq<char>, i: int) -> bool {
    &&& 0 <= i
    &&& i + 4 <= s.len()
    &&& is_digit(s[i])
    &&& is_digit(s[i + 1])
    &&& is_digit(s[i + 2])
    &&& is_digit(s[i + 3])
}

pub open spec fn d4_val(s: Seq<char>, i: int) -> int {
    1000 * digit_val(s[i]) + 100 * digit_val(s[i + 1]) + 10 * digit_val(s[i + 2]) + digit_val(
        s[i + 3],
    )
}

/// `HH:MM:SS`, with hours below 24 and minutes and seconds below 60.
pub open spec fn time_at(s: Seq<char>, i: int) -> bool {
    &&& 0 <= i
    &&& i + 8 <= s.len()
    &&& d2_at(s, i)
    &&& s[i + 2] == ':'
    &&& d2_at(s, i + 3)
    &&& s[i + 5] == ':'
    &&& d2_at(s, i + 6)
    &&& d2_val(s, i) < 24
    &&& d2_val(s, i + 3) < 60
    &&& d2_val(s, i + 6) < 60
}

/// `±HH:MM` (matched syntactically, discarded).
pub open spec fn offset_colon_at(s: Seq<char>, i: int) -> bool {
    &&& 0 <= i
    &&& i + 6 <= s.len()
    &&& (s[i] == '+' || s[i] == '-')
    &&& d2_at(s, i + 1)
    &&& s[i + 3] == ':'
    &&& d2_at(s, i + 4)
}

/// `±HHMM` (matched syntactically, discarded).
pub open spec fn offset_plain_at(s: Seq<char>, i: int) -> bool {
    &&& 0 <= i
    &&& i + 5 <= s.len()
    &&& (s[i] == '+' || s[i] == '-')
    &&& is_digit(s[i + 1])
    &&& is_digit(s[i + 2])
    &&& is_digit(s[i + 3])
    &&& is_digit(s[i + 4])
}

pub open spec fn digits_range(s: Seq<char>, a: int, b: int) -> bool {
    forall|j: int| a <= j < b ==> is_digit(#[trigger] s[j])
}

/// A timezone name: one or more characters, none a space.
pub open spec fn tz_name_range(s: Seq<char>, a: int, b: int) -> bool {
    0 <= a < b <= s.len() && (forall|j: int| a <= j < b ==> (#[trigger] s[j]) != ' ')
}

/// A parenthesised timezone name: no space, no closing parenthesis.
pub open spec fn tz_paren_range(s: Seq<char>, a: int, b: int) -> bool {
    &&& 0 <= a < b <= s.len()
    &&& forall|j: int| a <= j < b ==> (#[trigger] s[j]) != ' ' && s[j] != ')'
}

/// `YYYY-MM-DD` at the start of the string.
pub open spec fn iso_prefix(s: Seq<char>) -> bool {
    &&& s.len() >= 10
    &&& d4_at(s, 0)
    &&& s[4] == '-'
    &&& d2_at(s, 5)
    &&& s[7] == '-'
    &&& d2_at(s, 8)
}

/// The date fields of an ISO-style pattern, when the prefix shape holds and
/// the fields form a valid calendar date.
pub open spec fn iso_date(s: Seq<char>) -> Option<(int, int, int)> {
    if iso_prefix(s) && valid_ymd(d4_val(s, 0), d2_val(s, 5), d2_val(s, 8)) {
        Some((d4_val(s, 0), d2_val(s, 5), d2_val(s, 8)))
    } else {
        None
    }
}

/// Pattern 6, `DD Month YYYY, TZ-name`.
pub open spec fn pattern_long(s: Seq<char>) -> Option<(int, int, int)> {
    match month_at(s, 3) {
        Some(m) => {
            let l = month_name(m).len() as int;
            let y = d4_val(s, 4 + l);
            let d = d2_val(s, 0);
            if d2_at(s, 0) && s.len() >= 11 + l && s[2] == ' ' && s[3 + l] == ' ' && d4_at(s, 4 + l)
                && s[8 + l] == ',' && s[9 + l] == ' ' && tz_name_range(s, 10 + l, s.len() as int)
                && valid_ymd(y, m, d) {
                Some((y, m, d))
            } else {
                None
            }
        },
        None => None,
    }
}

/// The full month name standing at position `i`, if any.
pub open spec fn month_at(s: Seq<char>, i: int) -> Option<int> {
    if matches_at(s, i, month_name(1)) {
        Some(1)
    } else if matches_at(s, i, month_name(2)) {
        Some(2)
    } else if matches_at(s, i, month_name(3)) {
        Some(3)
    } else if matches_at(s, i, month_name(4)) {
        Some(4)
    } else if matches_at(s, i, month_name(5)) {
        Some(5)
    } else if matches_at(s, i, month_name(6)) {
        Some(6)
    } else if matches_at(s, i, month_name(7)) {
        Some(7)
    } else if matches_at(s, i, month_name(8)) {
        Some(8)
    } else if matches_at(s, i, month_name(9)) {
        Some(9)
    } else if matches_at(s, i, month_name(10)) {
        Some(10)
    } else if matches_at(s, i, month_name(11)) {
        Some(11)
    } else if matches_at(s, i, month_name(12)) {
        Some(12)
    } else {
        None
    }
}

/// The month abbreviation standing at position `i`, if any.
pub open spec fn month_abbr_at(s: Seq<char>, i: int) -> Option<int> {
    if matches_at(s, i, month_abbr(1)) {
        Some(1)
    } else if matches_at(s, i, month_abbr(2)) {
        Some(2)
    } else if matches_at(s, i, month_abbr(3)) {
        Some(3)
    } else if matches_at(s, i, month_abbr(4)) {
        Some(4)
    } else if matches_at(s, i, month_abbr(5)) {
        Some(5)
    } else if matches_at(s, i, month_abbr(6)) {
        Some(6)
    } else if matches_at(s, i, month_abbr(7)) {
        Some(7)
    } else if matches_at(s, i, month_abbr(8)) {
        Some(8)
    } else if matches_at(s, i, month_abbr(9)) {
        Some(9)
    } else if matches_at(s, i, month_abbr(10)) {
        Some(10)
    } else if matches_at(s, i, month_abbr(11)) {
        Some(11)
    } else if matches_at(s, i, month_abbr(12)) {
        Some(12)
    } else {
        None
    }
}

/// The day-of-week abbreviation standing at position `i`, if any.
pub open spec fn dow_at(s: Seq<char>, i: int) -> Option<int> {
    if matches_at(s, i, dow_name(0)) {
        Some(0)
    } else if matches_at(s, i, dow_name(1)) {
        Some(1)
    } else if matches_at(s, i, dow_name(2)) {
        Some(2)
    } else if matches_at(s, i, dow_name(3)) {
        Some(3)
    } else if matches_at(s, i, dow_name(4)) {
        Some(4)
    } else if matches_at(s, i, dow_name(5)) {
        Some(5)
    } else if matches_at(s, i, dow_name(6)) {
        Some(6)
    } else {
        None
    }
}

/// The shared prefix of patterns 7 to 10: `Dow Mon DD YYYY HH:MM:SS`, where
/// the named day of the week must agree with the calendar date.
pub open spec fn dow_prefix(s: Seq<char>) -> Option<(int, int, int, int)> {
    match dow_at(s, 0) {
        Some(w) => match month_abbr_at(s, 4) {
            Some(m) => {
                let d = d2_val(s, 8);
                let y = d4_val(s, 11);
                if s.len() >= 24 && s[3] == ' ' && s[7] == ' ' && d2_at(s, 8) && s[10] == ' '
                    && d4_at(s, 11) && s[15] == ' ' && time_at(s, 16) && valid_ymd(y, m, d) && w
                    == weekday_of_day(epoch_days(y, m, d)) {
                    Some((w, y, m, d))
                } else {
                    None
                }
            },
            None => None,
        },
        None => None,
    }
}

/// The date parsed by pattern `k` (1-based, in the order of the module doc),
/// or `None` when pattern `k` does not match.
pub open spec fn pattern_date(k: int, s: Seq<char>) -> Option<(int, int, int)> {
    if k == 1 {
        if s.len() == 10 {
            iso_date(s)
        } else {
            None
        }
    } else if k == 2 {
        if s.len() == 19 && s[10] == 'T' && time_at(s, 11) {
            iso_date(s)
        } else {
            None
        }
    } else if k == 3 {
        if s.len() >= 21 && s[10] == 'T' && time_at(s, 11) && s[19] == '.' && digits_range(
            s,
            20,
            s.len() as int,
        ) {
            iso_date(s)
        } else {
            None
        }
    } else if k == 4 {
        if s.len() >= 22 && s[10] == 'T' && time_at(s, 11) && s[19] == '.' && digits_range(
            s,
            20,
            s.len() - 1,
        ) && s[s.len() - 1] == 'Z' {
            iso_date(s)
        } else {
            None
        }
    } else if k == 5 {
        if s.len() >= 27 && s[10] == 'T' && time_at(s, 11) && s[19] == '.' && digits_range(
            s,
            20,
            s.len() - 6,
        ) && offset_colon_at(s, s.len() - 6) {
            iso_date(s)
        } else {
            None
        }
    } else if k == 6 {
        pattern_long(s)
    } else if k == 7 {
        match dow_prefix(s) {
            Some(t) => if s.len() == 33 && matches_at(s, 24, " GMT"@) && offset_plain_at(s, 28) {
                Some((t.1, t.2, t.3))
            } else {
                None
            },
            None => None,
        }
    } else if k == 8 {
        match dow_prefix(s) {
            Some(t) => if s.len() == 30 && s[24] == ' ' && offset_plain_at(s, 25) {
                Some((t.1, t.2, t.3))
            } else {
                None
            },
            None => None,
        }
    } else if k == 9 {
        match dow_prefix(s) {
            Some(t) => if s.len() >= 38 && matches_at(s, 24, " GMT"@) && offset_colon_at(s, 28)
                && s[34] == ' ' && s[35] == '(' && tz_paren_range(s, 36, s.len() - 1) && s[s.len()
                - 1] == ')' {
                Some((t.1, t.2, t.3))
            } else {
                None
            },
            None => None,
        }
    } else if k == 10 {
        match dow_prefix(s) {
            Some(t) => if s.len() >= 35 && s[24] == ' ' && offset_colon_at(s, 25) && s[31] == ' '
                && s[32] == '(' && tz_paren_range(s, 33, s.len() - 1) && s[s.len() - 1] == ')' {
                Some((t.1, t.2, t.3))
            } else {
                None
            },
            None => None,
        }
    } else {
        None
    }
}

/// First pattern at or after `k` that matches, with its date.
pub open spec fn first_match_from(s: Seq<char>, k: int) -> Option<(int, (int, int, int))>
    decreases 11 - k,
{
    if k < 1 || k > 10 {
        None
    } else {
        match pattern_date(k, s) {
            Some(t) => Some((k, t)),
            None => first_match_from(s, k + 1),
        }
    }
}

/// First pattern of the ordered list that matches, with its date.
pub open spec fn first_match(s: Seq<char>) -> Option<(int, (int, int, int))> {
    first_match_from(s, 1)
}

fn is_digit_c(c: char) -> (b: bool)
    ensures
        b == is_digit(c),
{
    let u = c as u32;
    48 <= u && u <= 57
}

fn digit_value(c: char) -> (d: i64)
    requires
        is_digit(c),
    ensures
        d == digit_val(c),
        0 <= d <= 9,
{
    ((c as u32) - 48) as i64
}

fn check_d2(v: &Vec<char>, i: usize) -> (b: bool)
    ensures
        b == d2_at(v@, i as int),
{
    if i > v.len() || v.len() - i < 2 {
        return false;
    }
    is_digit_c(v[i]) && is_digit_c(v[i + 1])
}

fn read_d2(v: &Vec<char>, i: usize) -> (r: i64)
    requires
        d2_at(v@, i as int),
    ensures
        r == d2_val(v@, i as int),
        0 <= r <= 99,
{
    let n = v.len();
    assert(i + 2 <= n);
    10 * digit_value(v[i]) + digit_value(v[i + 1])
}

fn check_d4(v: &Vec<char>, i: usize) -> (b: bool)
    ensures
        b == d4_at(v@, i as int),
{
    if i > v.len() || v.len() - i < 4 {
        return false;
    }
    is_digit_c(v[i]) && is_digit_c(v[i + 1]) && is_digit_c(v[i + 2]) && is_digit_c(v[i + 3])
}

fn read_d4(v: &Vec<char>, i: usize) -> (r: i64)
    requires
        d4_at(v@, i as int),
    ensures
        r == d4_val(v@, i as int),
        0 <= r <= 9999,
{
    let n = v.len();
    assert(i + 4 <= n);
    1000 * digit_value(v[i]) + 100 * digit_value(v[i + 1]) + 10 * digit_value(v[i + 2])
        + digit_value(v[i + 3])
}

fn check_time(v: &Vec<char>, i: usize) -> (b: bool)
    ensures
        b == time_at(v@, i as int),
{
    if i > v.len() || v.len() - i < 8 {
        return false;
    }
    if !(check_d2(v, i) && v[i + 2] == ':' && check_d2(v, i + 3) && v[i + 5] == ':' && check_d2(
        v,
        i + 6,
    )) {
        return false;
    }
    let hh = read_d2(v, i);
    let mi = read_d2(v, i + 3);
    let ss = read_d2(v, i + 6);
    hh < 24 && mi < 60 && ss < 60
}

fn check_offset_colon(v: &Vec<char>, i: usize) -> (b: bool)
    ensures
        b == offset_colon_at(v@, i as int),
{
    if i > v.len() || v.len() - i < 6 {
        return false;
    }
    let c = v[i];
    (c == '+' || c == '-') && check_d2(v, i + 1) && v[i + 3] == ':' && check_d2(v, i + 4)
}

fn check_offset_plain(v: &Vec<char>, i: usize) -> (b: bool)
    ensures
        b == offset_plain_at(v@, i as int),
{
    if i > v.len() || v.len() - i < 5 {
        return false;
    }
    let c = v[i];
    (c == '+' || c == '-') && is_digit_c(v[i + 1]) && is_digit_c(v[i + 2]) && is_digit_c(v[i + 3])
        && is_digit_c(v[i + 4])
}

fn scan_digits(v: &Vec<char>, a: usize, b: usize) -> (ok: bool)
    requires
        a <= b <= v@.len(),
    ensures
        ok == digits_range(v@, a as int, b as int),
{
    let mut j: usize = a;
    while j < b
        invariant
            a <= j <= b <= v@.len(),
            forall|k: int| a <= k < j ==> is_digit(#[trigger] v@[k]),
        decreases b - j,
    {
        if !is_digit_c(v[j]) {
            return false;
        }
        j = j + 1;
    }
    true
}

fn scan_no_space(v: &Vec<char>, a: usize, b: usize) -> (ok: bool)
    requires
        a <= b <= v@.len(),
    ensures
        ok == (forall|j: int| a <= j < b ==> (#[trigger] v@[j]) != ' '),
{
    let mut j: usize = a;
    while j < b
        invariant
            a <= j <= b <= v@.len(),
            forall|k: int| a <= k < j ==> (#[trigger] v@[k]) != ' ',
        decreases b - j,
    {
        if v[j] == ' ' {
            return false;
        }
        j = j + 1;
    }
    true
}

fn scan_tz_paren(v: &Vec<char>, a: usize, b: usize) -> (ok: bool)
    requires
        a <= b <= v@.len(),
    ensures
        ok == (forall|j: int| a <= j < b ==> (#[trigger] v@[j]) != ' ' && v@[j] != ')'),
{
    let mut j: usize = a;
    while j < b
        invariant
            a <= j <= b <= v@.len(),
            forall|k: int| a <= k < j ==> (#[trigger] v@[k]) != ' ' && v@[k] != ')',
        decreases b - j,
    {
        let c = v[j];
        if c == ' ' || c == ')' {
            return false;
        }
        j = j + 1;
    }
    true
}

fn match_lit(v: &Vec<char>, i: usize, pat: &str) -> (b: bool)
    ensures
        b == matches_at(v@, i as int, pat@),
{
    let n = pat.unicode_len();
    if i > v.len() || n > v.len() - i {
        return false;
    }
    let mut j: usize = 0;
    while j < n
        invariant
            j <= n,
            n == pat@.len(),
            i + n <= v@.len(),
            i + n <= usize::MAX,
            forall|k: int| 0 <= k < j ==> v@[i + k] == #[trigger] pat@[k],
        decreases n - j,
    {
        if v[i + j] != pat.get_char(j) {
            return false;
        }
        j = j + 1;
    }
    true
}

fn month_full_at(v: &Vec<char>, i: usize) -> (r: Option<i64>)
    ensures
        match r {
            Some(m) => 1 <= m <= 12 && month_at(v@, i as int) == Some(m as int),
            None => month_at(v@, i as int) is None,
        },
{
    if match_lit(v, i, "January") {
        Some(1)
    } else if match_lit(v, i, "February") {
        Some(2)
    } else if match_lit(v, i, "March") {
        Some(3)
    } else if match_lit(v, i, "April") {
        Some(4)
    } else if match_lit(v, i, "May") {
        Some(5)
    } else if match_lit(v, i, "June") {
        Some(6)
    } else if match_lit(v, i, "July") {
        Some(7)
    } else if match_lit(v, i, "August") {
        Some(8)
    } else if match_lit(v, i, "September") {
        Some(9)
    } else if match_lit(v, i, "October") {
        Some(10)
    } else if match_lit(v, i, "November") {
        Some(11)
    } else if match_lit(v, i, "December") {
        Some(12)
    } else {
        None
    }
}

fn month_short_at(v: &Vec<char>, i: usize) -> (r: Option<i64>)
    ensures
        match r {
            Some(m) => 1 <= m <= 12 && month_abbr_at(v@, i as int) == Some(m as int),
            None => month_abbr_at(v@, i as int) is None,
        },
{
    if match_lit(v, i, "Jan") {
        Some(1)
    } else if match_lit(v, i, "Feb") {
        Some(2)
    } else if match_lit(v, i, "Mar") {
        Some(3)
    } else if match_lit(v, i, "Apr") {
        Some(4)
    } else if match_lit(v, i, "May") {
        Some(5)
    } else if match_lit(v, i, "Jun") {
        Some(6)
    } else if match_lit(v, i, "Jul") {
        Some(7)
    } else if match_lit(v, i, "Aug") {
        Some(8)
    } else if match_lit(v, i, "Sep") {
        Some(9)
    } else if match_lit(v, i, "Oct") {
        Some(10)
    } else if match_lit(v, i, "Nov") {
        Some(11)
    } else if match_lit(v, i, "Dec") {
        Some(12)
    } else {
        None
    }
}

fn dow_abbr_at(v: &Vec<char>, i: usize) -> (r: Option<i64>)
    ensures
        match r {
            Some(w) => 0 <= w <= 6 && dow_at(v@, i as int) == Some(w as int),
            None => dow_at(v@, i as int) is None,
        },
{
    if match_lit(v, i, "Sun") {
        Some(0)
    } else if match_lit(v, i, "Mon") {
        Some(1)
    } else if match_lit(v, i, "Tue") {
        Some(2)
    } else if match_lit(v, i, "Wed") {
        Some(3)
    } else if match_lit(v, i, "Thu") {
        Some(4)
    } else if match_lit(v, i, "Fri") {
        Some(5)
    } else {
        if match_lit(v, i, "Sat") {
            Some(6)
        } else {
            None
        }
    }
}

fn month_name_len(m: i64) -> (l: usize)
    requires
        1 <= m <= 12,
    ensures
        l as int == month_name(m as int).len(),
        3 <= l <= 9,
{
    proof {
        reveal_strlit("January");
        reveal_strlit("February");
        reveal_strlit("March");
        reveal_strlit("April");
        reveal_strlit("May");
        reveal_strlit("June");
        reveal_strlit("July");
        reveal_strlit("August");
        reveal_strlit("September");
        reveal_strlit("October");
        reveal_strlit("November");
        reveal_strlit("December");
    }
    if m == 1 {
        7
    } else if m == 2 {
        8
    } else if m == 3 {
        5
    } else if m == 4 {
        5
    } else if m == 5 {
        3
    } else if m == 6 {
        4
    } else if m == 7 {
        4
    } else if m == 8 {
        6
    } else if m == 9 {
        9
    } else if m == 10 {
        7
    } else if m == 11 {
        8
    } else {
        8
    }
}

/// Reads the leading `YYYY-MM-DD` fields when they form a valid date.
fn read_iso_date(v: &Vec<char>) -> (r: Option<(i64, i64, i64)>)
    ensures
        match r {
            Some(t) => iso_date(v@) == Some((t.0 as int, t.1 as int, t.2 as int)) && 0 <= t.0
                <= 9999 && 1 <= t.1 <= 12 && 1 <= t.2 <= 31,
            None => iso_date(v@) is None,
        },
{
    if v.len() < 10 {
        return None;
    }
    if !check_d4(v, 0) {
        return None;
    }
    if v[4] != '-' || !check_d2(v, 5) || v[7] != '-' || !check_d2(v, 8) {
        return None;
    }
    let y = read_d4(v, 0);
    let m = read_d2(v, 5);
    let d = read_d2(v, 8);
    if m < 1 || m > 12 {
        return None;
    }
    if d < 1 || d > month_length(y, m) {
        return None;
    }
    Some((y, m, d))
}

/// Matches pattern `k` of the ordered list, for `k` from 1 to 10.
pub fn match_pattern(v: &Vec<char>, k: u8) -> (r: Option<(i64, i64, i64)>)
    requires
        1 <= k <= 10,
    ensures
        match r {
            Some(t) => pattern_date(k as int, v@) == Some((t.0 as int, t.1 as int, t.2 as int))
                && 0 <= t.0 <= 9999 && 1 <= t.1 <= 12 && 1 <= t.2 <= 31,
            None => pattern_date(k as int, v@) is None,
        },
{
    if k == 1 {
        if v.len() != 10 {
            return None;
        }
        read_iso_date(v)
    } else if k == 2 {
        if v.len() != 19 || v[10] != 'T' || !check_time(v, 11) {
            return None;
        }
        read_iso_date(v)
    } else if k == 3 {
        if v.len() < 21 || v[10] != 'T' || !check_time(v, 11) || v[19] != '.' {
            return None;
        }
        if !scan_digits(v, 20, v.len()) {
            return None;
        }
        read_iso_date(v)
    } else if k == 4 {
        if v.len() < 22 || v[10] != 'T' || !check_time(v, 11) || v[19] != '.' {
            return None;
        }
        if v[v.len() - 1] != 'Z' || !scan_digits(v, 20, v.len() - 1) {
            return None;
        }
        read_iso_date(v)
    } else if k == 5 {
        if v.len() < 27 || v[10] != 'T' || !check_time(v, 11) || v[19] != '.' {
            return None;
        }
        if !check_offset_colon(v, v.len() - 6) || !scan_digits(v, 20, v.len() - 6) {
            return None;
        }
        read_iso_date(v)
    } else if k == 6 {
        match_long(v)
    } else if k == 7 {
        let t = match match_dow_prefix(v) {
            Some(t) => t,
            None => {
                return None;
            },
        };
        if v.len() != 33 || !match_lit(v, 24, " GMT") || !check_offset_plain(v, 28) {
            return None;
        }
        Some((t.1, t.2, t.3))
    } else if k == 8 {
        let t = match match_dow_prefix(v) {
            Some(t) => t,
            None => {
                return None;
            },
        };
        if v.len() != 30 || v[24] != ' ' || !check_offset_plain(v, 25) {
            return None;
        }
        Some((t.1, t.2, t.3))
    } else if k == 9 {
        let t = match match_dow_prefix(v) {
            Some(t) => t,
            None => {
                return None;
            },
        };
        if v.len() < 38 || !match_lit(v, 24, " GMT") || !check_offset_colon(v, 28) {
            return None;
        }
        if v[34] != ' ' || v[35] != '(' || v[v.len() - 1] != ')' {
            return None;
        }
        if !scan_tz_paren(v, 36, v.len() - 1) {
            return None;
        }
        Some((t.1, t.2, t.3))
    } else {
        let t = match match_dow_prefix(v) {
            Some(t) => t,
            None => {
                return None;
            },
        };
        if v.len() < 35 || v[24] != ' ' || !check_offset_colon(v, 25) {
            return None;
        }
        if v[31] != ' ' || v[32] != '(' || v[v.len() - 1] != ')' {
            return None;
        }
        if !scan_tz_paren(v, 33, v.len() - 1) {
            return None;
        }
        Some((t.1, t.2, t.3))
    }
}

fn match_long(v: &Vec<char>) -> (r: Option<(i64, i64, i64)>)
    ensures
        match r {
            Some(t) => pattern_long(v@) == Some((t.0 as int, t.1 as int, t.2 as int)) && 0 <= t.0
                <= 9999 && 1 <= t.1 <= 12 && 1 <= t.2 <= 31,
            None => pattern_long(v@) is None,
        },
{
    let m = match month_full_at(v, 3) {
        Some(m) => m,
        None => {
            return None;
        },
    };
    let l = month_name_len(m);
    if !check_d2(v, 0) || v.len() < 11 + l {
        return None;
    }
    if v[2] != ' ' || v[3 + l] != ' ' || !check_d4(v, 4 + l) || v[8 + l] != ',' || v[9 + l] != ' ' {
        return None;
    }
    if !scan_no_space(v, 10 + l, v.len()) {
        return None;
    }
    let y = read_d4(v, 4 + l);
    let d = read_d2(v, 0);
    if d < 1 || d > month_length(y, m) {
        return None;
    }
    Some((y, m, d))
}

/// Day numbers of the four-digit years stay far inside the convertible
/// range.
pub proof fn lemma_small_epoch_days(y: int, m: int, d: int)
    requires
        0 <= y <= 9999,
        valid_ymd(y, m, d),
    ensures
        -800_000 <= epoch_days(y, m, d) <= 3_000_000,
{
    lemma_days_before_year_mono(0, y);
    lemma_days_before_month_mono(y, 1, m);
    lemma_days_before_month_mono(y, m, 13);
    lemma_days_before_month_full(y);
}

fn match_dow_prefix(v: &Vec<char>) -> (r: Option<(i64, i64, i64, i64)>)
    ensures
        match r {
            Some(t) => dow_prefix(v@) == Some(
                (t.0 as int, t.1 as int, t.2 as int, t.3 as int),
            ) && 0 <= t.1 <= 9999 && 1 <= t.2 <= 12 && 1 <= t.3 <= 31,
            None => dow_prefix(v@) is None,
        },
{
    let w = match dow_abbr_at(v, 0) {
        Some(w) => w,
        None => {
            return None;
        },
    };
    let m = match month_short_at(v, 4) {
        Some(m) => m,
        None => {
            return None;
        },
    };
    if v.len() < 24 {
        return None;
    }
    if v[3] != ' ' || v[7] != ' ' || !check_d2(v, 8) || v[10] != ' ' || !check_d4(v, 11) || v[15]
        != ' ' || !check_time(v, 16) {
        return None;
    }
    let d = read_d2(v, 8);
    let y = read_d4(v, 11);
    if d < 1 || d > month_length(y, m) {
        return None;
    }
    proof {
        lemma_small_epoch_days(y as int, m as int, d as int);
    }
    let z = civil_to_days(y, m, d);
    let wd = weekday_number(z);
    if wd != w {
        return None;
    }
    Some((w, y, m, d))
}

} // verus!
