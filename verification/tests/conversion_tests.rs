use bi::timeconv::{rfc3339_text, unix_to_timestamptz, UtcTimestamp};
use bi::units::{capacity_text, sats_to_btc_text};

#[test]
fn btc_text_zero() {
    assert_eq!(sats_to_btc_text(0), "0");
}

#[test]
fn btc_text_one_btc() {
    assert_eq!(sats_to_btc_text(100_000_000), "1");
}

#[test]
fn btc_text_small_fraction() {
    assert_eq!(sats_to_btc_text(100), "0.000001");
}

#[test]
fn btc_text_mixed() {
    assert_eq!(sats_to_btc_text(995_841_213), "9.95841213");
    assert_eq!(sats_to_btc_text(150_000_000), "1.5");
    assert_eq!(sats_to_btc_text(1), "0.00000001");
    assert_eq!(sats_to_btc_text(99_999_999), "0.99999999");
    assert_eq!(sats_to_btc_text(200_000_001), "2.00000001");
}

#[test]
fn btc_text_order_on_samples() {
    let sats = [0u64, 1, 99, 100, 99_999_999, 100_000_000, 995_841_213];
    for pair in sats.windows(2) {
        let a = sats_to_btc_text(pair[0]);
        let b = sats_to_btc_text(pair[1]);
        let parse = |t: &str| -> f64 { t.parse::<f64>().unwrap() };
        assert!(parse(&a) < parse(&b));
    }
}

#[test]
fn capacity_text_absent() {
    assert_eq!(capacity_text(None), None);
    assert_eq!(capacity_text(Some(100)), Some("0.000001".to_string()));
}

#[test]
fn epoch_to_timestamp_midyear() {
    let ts = unix_to_timestamptz(1_625_097_600);
    assert_eq!(
        ts,
        UtcTimestamp { year: 2021, month: 7, day: 1, hour: 0, minute: 0, second: 0 }
    );
    assert_eq!(rfc3339_text(&ts), "2021-07-01T00:00:00Z");
}

#[test]
fn epoch_to_timestamp_origin() {
    let ts = unix_to_timestamptz(0);
    assert_eq!(
        ts,
        UtcTimestamp { year: 1970, month: 1, day: 1, hour: 0, minute: 0, second: 0 }
    );
    assert_eq!(rfc3339_text(&ts), "1970-01-01T00:00:00Z");
}

#[test]
fn epoch_to_timestamp_leap_day() {
    let ts = unix_to_timestamptz(1_582_979_696);
    assert_eq!(
        ts,
        UtcTimestamp { year: 2020, month: 2, day: 29, hour: 12, minute: 34, second: 56 }
    );
    assert_eq!(rfc3339_text(&ts), "2020-02-29T12:34:56Z");
}

#[test]
fn epoch_to_timestamp_year_end() {
    let ts = unix_to_timestamptz(946_684_799);
    assert_eq!(
        ts,
        UtcTimestamp { year: 1999, month: 12, day: 31, hour: 23, minute: 59, second: 59 }
    );
    assert_eq!(rfc3339_text(&ts), "1999-12-31T23:59:59Z");
}

#[test]
fn epoch_to_timestamp_largest_rendered() {
    let ts = unix_to_timestamptz(253_402_300_799);
    assert_eq!(
        ts,
        UtcTimestamp { year: 9999, month: 12, day: 31, hour: 23, minute: 59, second: 59 }
    );
    assert_eq!(rfc3339_text(&ts), "9999-12-31T23:59:59Z");
}

#[test]
fn epoch_to_timestamp_recent() {
    let ts = unix_to_timestamptz(1_704_435_532);
    assert_eq!(
        ts,
        UtcTimestamp { year: 2024, month: 1, day: 5, hour: 6, minute: 18, second: 52 }
    );
    assert_eq!(rfc3339_text(&ts), "2024-01-05T06:18:52Z");
}
