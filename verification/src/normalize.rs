//! The normalizer: a timestamp-or-date string becomes a canonical pair of
//! epoch milliseconds and a fixed-format UTC string.
//!
//! A signed decimal numeral is taken directly as epoch milliseconds; any
//! other input is tried against the ordered date-pattern list and collapses
//! to midnight UTC of its calendar date; everything else is an error.

use crate::calendar::{civil_to_days, epoch_days};
use crate::numeral::{int_string_value, is_int_string, parse_i64};
use crate::patterns::{first_match, first_match_from, lemma_small_epoch_days, match_pattern, pattern_date};
use crate::render::{render_utc, utc_string, SECS_HI, SECS_LO};
use vstd::prelude::*;

verus! {

/// Truncating division (toward zero) by a positive divisor.
pub open spec fn div_trunc(a: int, b: int) -> int {
    if a >= 0 {
        a / b
    } else {
        -((-a) / b)
    }
}

/// A normalized instant: epoch milliseconds and its fixed-format UTC
/// rendering.
#[derive(Debug)]
pub struct NormalizedDate {
    pub unix: i64,
    pub utc: String,
}

impl NormalizedDate {
    /// The invariant of the pair: both fields describe the same instant;
    /// `utc` renders `unix` truncated to whole seconds.
    pub open spec fn well_formed(&self) -> bool {
        self.utc@ == render_utc(div_trunc(self.unix as int, 1000))
    }
}

/// The single error of the library: the input is neither a valid integer
/// nor matches any recognized date pattern.
#[derive(Clone, Copy, PartialEq, Eq, Debug)]
pub enum DateError {
    InvalidDate,
}

impl DateError {
    /// The fixed error text.
    pub fn message(&self) -> (r: String)
        ensures
            r@ == "Invalid Date"@,
    {
        String::from_str("Invalid Date")
    }
}

/// Millisecond value of an input string under the normalization rules: a
/// numeral is itself the millisecond count; otherwise the first matching
/// date pattern gives midnight UTC of its calendar date; `None` when
/// neither applies.
pub open spec fn normalize_millis(s: Seq<char>) -> Option<int> {
    if is_int_string(s) {
        Some(int_string_value(s))
    } else {
        match first_match(s) {
            Some(t) => Some(86_400_000 * epoch_days(t.1.0, t.1.1, t.1.2)),
            None => None,
        }
    }
}

/// Once the patterns below `k` have failed, the first match overall is the
/// first match at or after `k`.
proof fn lemma_first_match_skip(s: Seq<char>, k: int)
    requires
        1 <= k <= 11,
        forall|j: int| 1 <= j < k ==> pattern_date(j, s) is None,
    ensures
        first_match(s) == first_match_from(s, k),
    decreases k,
{
    if k > 1 {
        lemma_first_match_skip(s, k - 1);
        assert(pattern_date(k - 1, s) is None);
    }
}

fn str_to_chars(s: &str) -> (v: Vec<char>)
    ensures
        v@ == s@,
{
    let n = s.unicode_len();
    let mut v: Vec<char> = Vec::new();
    let mut i: usize = 0;
    while i < n
        invariant
            i <= n,
            n == s@.len(),
            v@ == s@.subrange(0, i as int),
        decreases n - i,
    {
        let c = s.get_char(i);
        v.push(c);
        assert(v@ =~= s@.subrange(0, i as int + 1));
        i = i + 1;
    }
    assert(v@ =~= s@);
    v
}

/// Seconds of the instant `ms` milliseconds after the epoch, truncated
/// toward zero (the sub-second remainder is discarded).
fn millis_to_secs(ms: i64) -> (s: i64)
    ensures
        s as int == div_trunc(ms as int, 1000),
        SECS_LO <= s <= SECS_HI,
{
    ms.checked_div(1000).unwrap()
}

/// Normalizes an input string.
///
/// A signed decimal numeral (in `i64` range) is returned unchanged as epoch
/// milliseconds. Otherwise the ordered date-pattern list is tried, and the
/// first matching pattern's calendar date gives midnight UTC. Any other
/// input, the empty string included, is an `InvalidDate` error — exactly
/// when `normalize_millis` has no value for it.
pub fn normalize(input: &str) -> (r: Result<NormalizedDate, DateError>)
    ensures
        (r is Ok) <==> (normalize_millis(input@) is Some),
        r matches Ok(nd) ==> Some(nd.unix as int) == normalize_millis(input@) && nd.well_formed(),
        r matches Err(e) ==> e == DateError::InvalidDate,
{
    let v = str_to_chars(input);
    match parse_i64(&v) {
        Some(n) => {
            let secs = millis_to_secs(n);
            let utc = utc_string(secs);
            Ok(NormalizedDate { unix: n, utc })
        },
        None => {
            let mut k: u8 = 1;
            while k <= 10
                invariant
                    1 <= k <= 11,
                    v@ == input@,
                    !is_int_string(input@),
                    forall|j: int| 1 <= j < k ==> pattern_date(j, input@) is None,
                decreases 11 - k,
            {
                match match_pattern(&v, k) {
                    Some(t) => {
                        let (y, mo, d) = t;
                        proof {
                            lemma_first_match_skip(input@, k as int);
                            lemma_small_epoch_days(y as int, mo as int, d as int);
                        }
                        let z = civil_to_days(y, mo, d);
                        let ms = 86_400_000 * z;
                        let secs = millis_to_secs(ms);
                        let utc = utc_string(secs);
                        return Ok(NormalizedDate { unix: ms, utc });
                    },
                    None => {
                        k = k + 1;
                    },
                }
            }
            proof {
                lemma_first_match_skip(input@, 11);
            }
            Err(DateError::InvalidDate)
        },
    }
}

/// The normalized form of the instant `ms` milliseconds after the epoch.
/// The current-time flow renders the wall clock through this function; it
/// keeps the time-of-day.
pub fn from_unix_millis(ms: i64) -> (r: NormalizedDate)
    ensures
        r.unix == ms,
        r.well_formed(),
{
    let secs = millis_to_secs(ms);
    let utc = utc_string(secs);
    NormalizedDate { unix: ms, utc }
}

} // verus!
