use date_normalizer::normalize::{from_unix_millis, normalize, DateError};

#[test]
fn zero_timestamp() {
    let nd = normalize("0").unwrap();
    assert_eq!(nd.unix, 0);
    assert_eq!(nd.utc, "Thu, 01 Jan 1970 00:00:00 GMT");
}

#[test]
fn millisecond_timestamp() {
    let nd = normalize("1445412480000").unwrap();
    assert_eq!(nd.unix, 1445412480000);
    assert_eq!(nd.utc, "Wed, 21 Oct 2015 07:28:00 GMT");
}

#[test]
fn date_only() {
    let nd = normalize("2015-10-21").unwrap();
    assert_eq!(nd.unix, 1445385600000);
    assert_eq!(nd.utc, "Wed, 21 Oct 2015 00:00:00 GMT");
}

#[test]
fn not_a_date() {
    assert!(matches!(normalize("this is not a date"), Err(DateError::InvalidDate)));
    assert!(matches!(normalize("not-a-date"), Err(DateError::InvalidDate)));
}

#[test]
fn empty_string() {
    assert!(matches!(normalize(""), Err(DateError::InvalidDate)));
}

#[test]
fn error_message_text() {
    let e = normalize("garbage").unwrap_err();
    assert_eq!(e.message(), "Invalid Date");
}

#[test]
fn negative_timestamp_truncates_toward_zero() {
    // -1000 ms is a full second before the epoch.
    let nd = normalize("-1000").unwrap();
    assert_eq!(nd.unix, -1000);
    assert_eq!(nd.utc, "Wed, 31 Dec 1969 23:59:59 GMT");
    // -999 ms truncates to second 0, the epoch itself.
    let nd = normalize("-999").unwrap();
    assert_eq!(nd.unix, -999);
    assert_eq!(nd.utc, "Thu, 01 Jan 1970 00:00:00 GMT");
}

#[test]
fn explicit_plus_sign() {
    let nd = normalize("+123").unwrap();
    assert_eq!(nd.unix, 123);
    assert_eq!(nd.utc, "Thu, 01 Jan 1970 00:00:00 GMT");
}

#[test]
fn leading_zeros() {
    let nd = normalize("007").unwrap();
    assert_eq!(nd.unix, 7);
}

#[test]
fn i64_range_boundaries() {
    let nd = normalize("9223372036854775807").unwrap();
    assert_eq!(nd.unix, i64::MAX);
    assert!(nd.utc.ends_with(" GMT"));
    let nd = normalize("-9223372036854775808").unwrap();
    assert_eq!(nd.unix, i64::MIN);
    assert!(nd.utc.ends_with(" GMT"));
    // One past either end is no longer a numeral, and no date pattern fits.
    assert!(normalize("9223372036854775808").is_err());
    assert!(normalize("-9223372036854775809").is_err());
}

#[test]
fn leap_day() {
    let nd = normalize("2016-02-29").unwrap();
    assert_eq!(nd.unix, 1456704000000);
    assert_eq!(nd.utc, "Mon, 29 Feb 2016 00:00:00 GMT");
    assert!(normalize("2015-02-29").is_err());
}

#[test]
fn century_leap_rule() {
    // 1900 is not a leap year; 2000 is.
    assert!(normalize("1900-02-29").is_err());
    assert!(normalize("2000-02-29").is_ok());
}

#[test]
fn invalid_calendar_fields() {
    assert!(normalize("2015-13-01").is_err());
    assert!(normalize("2015-00-01").is_err());
    assert!(normalize("2015-01-00").is_err());
    assert!(normalize("2015-01-32").is_err());
    // Fields must be fully zero-padded.
    assert!(normalize("2015-1-3").is_err());
}

#[test]
fn time_of_day_collapses_to_midnight() {
    let nd = normalize("2015-10-21T07:28:00").unwrap();
    assert_eq!(nd.unix, 1445385600000);
    assert_eq!(nd.utc, "Wed, 21 Oct 2015 00:00:00 GMT");
}

#[test]
fn fractional_seconds_collapse_to_midnight() {
    let nd = normalize("2015-10-21T07:28:00.5").unwrap();
    assert_eq!(nd.unix, 1445385600000);
    let nd = normalize("2015-10-21T07:28:00.123456Z").unwrap();
    assert_eq!(nd.unix, 1445385600000);
    let nd = normalize("2015-10-21T07:28:00.123456+05:30").unwrap();
    assert_eq!(nd.unix, 1445385600000);
}

#[test]
fn iso_time_out_of_range_rejected() {
    assert!(normalize("2015-10-21T24:00:00").is_err());
    assert!(normalize("2015-10-21T07:60:00").is_err());
    assert!(normalize("2015-10-21T07:28:60").is_err());
}

#[test]
fn zulu_without_fraction_is_not_listed() {
    // The pattern list has `...SS`, `...SS.f`, `...SS.fZ`, but no `...SSZ`.
    assert!(normalize("2015-10-21T07:28:00Z").is_err());
}

#[test]
fn long_month_name_with_timezone() {
    let nd = normalize("21 October 2015, UTC").unwrap();
    assert_eq!(nd.unix, 1445385600000);
    assert_eq!(nd.utc, "Wed, 21 Oct 2015 00:00:00 GMT");
    assert!(normalize("21 October 2015").is_err());
    assert!(normalize("21 October 2015, ").is_err());
}

#[test]
fn weekday_patterns_collapse_to_midnight() {
    for s in [
        "Wed Oct 21 2015 07:28:00 GMT+0530",
        "Wed Oct 21 2015 07:28:00 +0530",
        "Wed Oct 21 2015 07:28:00 GMT+05:30 (IST)",
        "Wed Oct 21 2015 07:28:00 +05:30 (IST)",
        "Wed Oct 21 2015 07:28:00 GMT-0000",
        "Wed Oct 21 2015 07:28:00 -07:00 (PDT)",
    ] {
        let nd = normalize(s).unwrap();
        assert_eq!(nd.unix, 1445385600000, "{s}");
        assert_eq!(nd.utc, "Wed, 21 Oct 2015 00:00:00 GMT", "{s}");
    }
}

#[test]
fn weekday_must_agree_with_date() {
    // 2015-10-21 was a Wednesday.
    assert!(normalize("Mon Oct 21 2015 07:28:00 +0000").is_err());
    assert!(normalize("Tue Oct 21 2015 07:28:00 GMT+0000").is_err());
}

#[test]
fn pattern_order_first_match_wins() {
    // Every listed shape of the same calendar date collapses to the same
    // instant, whichever pattern in the ordered list matches first.
    let expect = normalize("2015-10-21").unwrap().unix;
    for s in [
        "2015-10-21T00:00:00",
        "2015-10-21T23:59:59.999999",
        "2015-10-21T12:00:00.0Z",
        "2015-10-21T12:00:00.0-11:30",
        "21 October 2015, GMT",
        "Wed Oct 21 2015 23:59:59 GMT+1400",
        "Wed Oct 21 2015 00:00:00 +0000",
        "Wed Oct 21 2015 12:00:00 GMT+05:45 (NPT)",
        "Wed Oct 21 2015 12:00:00 -03:30 (NST)",
    ] {
        assert_eq!(normalize(s).unwrap().unix, expect, "{s}");
    }
}

#[test]
fn current_time_rendering() {
    let nd = from_unix_millis(0);
    assert_eq!(nd.unix, 0);
    assert_eq!(nd.utc, "Thu, 01 Jan 1970 00:00:00 GMT");
    let nd = from_unix_millis(1445412480000);
    assert_eq!(nd.utc, "Wed, 21 Oct 2015 07:28:00 GMT");
    // Sub-second parts are discarded, toward zero.
    let nd = from_unix_millis(1445412480999);
    assert_eq!(nd.utc, "Wed, 21 Oct 2015 07:28:00 GMT");
}

#[test]
fn round_trip_date_only() {
    // Re-rendering the emitted milliseconds reproduces the emitted string.
    for s in ["2015-10-21", "1969-07-20", "0001-01-01", "9999-12-31", "2016-02-29"] {
        let nd = normalize(s).unwrap();
        assert_eq!(from_unix_millis(nd.unix).utc, nd.utc, "{s}");
    }
}

#[test]
fn year_zero_and_wide_years() {
    // Year 0 (proleptic Gregorian) began on a Saturday.
    let nd = normalize("0000-01-01").unwrap();
    assert_eq!(nd.unix, -62167219200000);
    assert_eq!(nd.utc, "Sat, 01 Jan 0000 00:00:00 GMT");
    // Years before 0 render with an explicit sign and keep the padding.
    let nd = from_unix_millis(-62167219200000 - 86400000);
    assert_eq!(nd.utc, "Fri, 31 Dec -0001 00:00:00 GMT");
}
