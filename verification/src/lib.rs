//! A verified date/timestamp normalizer.
//!
//! The library turns an input string that is either a Unix millisecond
//! timestamp or one of several human-readable date formats into a canonical
//! pair of epoch milliseconds and a fixed-format UTC string
//! (`"Wed, 21 Oct 2015 07:28:00 GMT"`). Date-format inputs collapse to
//! midnight UTC of the parsed calendar date.

pub mod calendar;
pub mod laws;
pub mod normalize;
pub mod numeral;
pub mod patterns;
pub mod render;

pub use calendar::epoch_days;
pub use calendar::is_leap_year;
pub use calendar::valid_ymd;
pub use normalize::from_unix_millis;
pub use normalize::normalize;
pub use normalize::DateError;
pub use normalize::NormalizedDate;
