//! Cross-checks the library's calendar arithmetic and rendering against
//! chrono over a spread of instants, using the same format string the
//! service emits.

use chrono::{DateTime, FixedOffset, NaiveDate, Utc};
use date_normalizer::normalize::{from_unix_millis, normalize};

fn chrono_render(secs: i64) -> String {
    DateTime::<Utc>::from_timestamp(secs, 0)
        .unwrap()
        .with_timezone(&FixedOffset::east_opt(0).unwrap())
        .format("%a, %d %b %Y %H:%M:%S GMT")
        .to_string()
}

#[test]
fn rendering_matches_chrono() {
    let samples: [i64; 16] = [
        0,
        1,
        -1,
        999,
        -999,
        1000,
        -1000,
        1445412480000,
        1456704000000,
        -2208988800000,
        86399999,
        86400000,
        -86400000,
        32503680000000,
        253402300799000,
        -62167219200000,
    ];
    for ms in samples {
        let nd = from_unix_millis(ms);
        assert_eq!(nd.unix, ms);
        assert_eq!(nd.utc, chrono_render(ms / 1000), "ms = {ms}");
    }
}

#[test]
fn current_instant() {
    // The no-argument flow of the service: the wall clock, rendered with
    // time-of-day kept.
    let ms = chrono::Utc::now().timestamp_millis();
    let nd = from_unix_millis(ms);
    assert_eq!(nd.unix, ms);
    assert_eq!(nd.utc, chrono_render(ms / 1000));
}

#[test]
fn date_arithmetic_matches_chrono() {
    let dates = [
        (1970, 1, 1),
        (1969, 12, 31),
        (2015, 10, 21),
        (2016, 2, 29),
        (2000, 2, 29),
        (1900, 2, 28),
        (1, 1, 1),
        (9999, 12, 31),
        (1600, 3, 1),
        (2038, 1, 19),
    ];
    for (y, m, d) in dates {
        let input = format!("{y:04}-{m:02}-{d:02}");
        let nd = normalize(&input).unwrap();
        let expect = NaiveDate::from_ymd_opt(y, m as u32, d as u32)
            .unwrap()
            .and_hms_opt(0, 0, 0)
            .unwrap()
            .and_utc()
            .timestamp_millis();
        assert_eq!(nd.unix, expect, "{input}");
        assert_eq!(nd.utc, chrono_render(expect / 1000), "{input}");
    }
}
