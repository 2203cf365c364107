use soniq::utils::format_datetime_iso;
use soniq::utils::format_duration_human;
use soniq::utils::format_number;
use soniq::utils::mask_api_key;
use soniq::utils::timestamp_now;
use soniq::utils::timestamp_of;
use soniq::utils::timestamp_to_datetime;
use soniq::utils::UtcDateTime;

#[test]
fn mask_api_key_keeps_the_first_three_characters() {
    assert_eq!(mask_api_key("abcdef"), "abc***");
    assert_eq!(mask_api_key("0123456789abcdef0123456789abcdef"), format!("012{}", "*".repeat(29)));
    assert_eq!(mask_api_key("abcd"), "abc*");
}

#[test]
fn mask_api_key_leaves_short_keys_as_they_are() {
    assert_eq!(mask_api_key(""), "");
    assert_eq!(mask_api_key("a"), "a");
    assert_eq!(mask_api_key("ab"), "ab");
    assert_eq!(mask_api_key("abc"), "abc");
}

#[test]
fn mask_api_key_counts_characters_not_bytes() {
    assert_eq!(mask_api_key("é♫ü-key"), "é♫ü****");
    assert_eq!(mask_api_key("♫♫♫♫"), "♫♫♫*");
    assert_eq!(mask_api_key("ab♫"), "ab♫");
}

#[test]
fn timestamp_of_is_the_seconds_or_zero() {
    assert_eq!(timestamp_of(None), 0);
    assert_eq!(timestamp_of(Some(0)), 0);
    assert_eq!(timestamp_of(Some(1_431_648_000)), 1_431_648_000);
    assert_eq!(timestamp_of(Some(i64::MAX as u64)), i64::MAX);
    assert_eq!(timestamp_of(Some(i64::MAX as u64 + 1)), i64::MIN);
    assert_eq!(timestamp_of(Some(u64::MAX)), -1);
}

#[test]
fn timestamp_now_is_the_time_of_the_clock() {
    let before = std::time::SystemTime::now()
        .duration_since(std::time::UNIX_EPOCH)
        .unwrap()
        .as_secs() as i64;
    let now = timestamp_now();
    let after = std::time::SystemTime::now()
        .duration_since(std::time::UNIX_EPOCH)
        .unwrap()
        .as_secs() as i64;
    assert!(before <= now && now <= after, "{} <= {} <= {}", before, now, after);
    assert!(now > 1_600_000_000);
}

#[test]
fn timestamp_to_datetime_keeps_a_timestamp_in_range() {
    for secs in [0i64, 1, -1, 1_431_648_000, -86_400, 253_402_300_799, 8_210_266_876_799] {
        let dt = timestamp_to_datetime(secs);
        assert_eq!(dt.timestamp(), secs);
        assert_eq!(dt.timestamp_subsec_nanos(), 0);
        assert_eq!(Some(dt), UtcDateTime::from_timestamp(secs, 0));
    }
}

#[test]
fn timestamp_to_datetime_falls_back_to_the_epoch() {
    for secs in [i64::MAX, i64::MIN, 9_000_000_000_000, -9_000_000_000_000] {
        let dt = timestamp_to_datetime(secs);
        assert_eq!(dt.timestamp(), 0);
        assert_eq!(dt.timestamp_subsec_nanos(), 0);
        assert_eq!(dt, UtcDateTime::epoch());
        assert_eq!(UtcDateTime::from_timestamp(secs, 0), None);
    }
}

#[test]
fn from_timestamp_agrees_with_chrono() {
    let cases = [
        (0i64, 0u32),
        (1_431_648_000, 999_999_999),
        (59, 1_500_000_000),
        (58, 1_500_000_000),
        (0, 2_000_000_000),
        (8_210_266_876_799, 0),
        (8_210_266_876_800, 0),
        (-8_334_601_228_800, 0),
        (-8_334_601_228_801, 0),
        (i64::MAX, 0),
        (i64::MIN, 0),
    ];
    for (secs, nanos) in cases {
        let theirs = chrono::DateTime::from_timestamp(secs, nanos);
        let ours = UtcDateTime::from_timestamp(secs, nanos);
        assert_eq!(ours.is_some(), theirs.is_some(), "{} {}", secs, nanos);
        if let (Some(ours), Some(theirs)) = (ours, theirs) {
            assert_eq!(ours.timestamp(), secs);
            assert_eq!(ours.timestamp_subsec_nanos(), nanos);
            assert_eq!(format_datetime_iso(ours), theirs.to_rfc3339());
        }
    }
}

#[test]
fn format_datetime_iso_writes_rfc_3339() {
    assert_eq!(format_datetime_iso(timestamp_to_datetime(0)), "1970-01-01T00:00:00+00:00");
    assert_eq!(format_datetime_iso(UtcDateTime::epoch()), "1970-01-01T00:00:00+00:00");
    assert_eq!(
        format_datetime_iso(timestamp_to_datetime(1_431_648_000)),
        "2015-05-15T00:00:00+00:00"
    );
    assert_eq!(format_datetime_iso(timestamp_to_datetime(-1)), "1969-12-31T23:59:59+00:00");
    assert_eq!(
        format_datetime_iso(UtcDateTime::from_timestamp(1_431_648_000, 500_000_000).unwrap()),
        "2015-05-15T00:00:00.500+00:00"
    );
    assert_eq!(format_datetime_iso(timestamp_to_datetime(i64::MAX)), "1970-01-01T00:00:00+00:00");
}

#[test]
fn format_duration_human_writes_the_parts_that_are_not_zero() {
    assert_eq!(format_duration_human(5025), "1h 23m 45s");
    assert_eq!(format_duration_human(3661), "1h 1m 1s");
    assert_eq!(format_duration_human(59), "59s");
    assert_eq!(format_duration_human(1), "1s");
    assert_eq!(format_duration_human(60), "1m");
    assert_eq!(format_duration_human(61), "1m 1s");
    assert_eq!(format_duration_human(3599), "59m 59s");
    assert_eq!(format_duration_human(3600), "1h");
    assert_eq!(format_duration_human(3601), "1h 1s");
    assert_eq!(format_duration_human(3660), "1h 1m");
    assert_eq!(format_duration_human(7200), "2h");
    assert_eq!(format_duration_human(86_400), "24h");
    assert_eq!(format_duration_human(360_000), "100h");
}

#[test]
fn format_duration_human_of_zero_is_zero_seconds() {
    assert_eq!(format_duration_human(0), "0s");
}

#[test]
fn format_duration_human_of_the_largest_duration() {
    assert_eq!(format_duration_human(u64::MAX), "5124095576030431h 15s");
    assert_eq!(format_duration_human(u64::MAX - 15), "5124095576030431h");
}

#[test]
fn format_number_groups_digits_in_threes() {
    assert_eq!(format_number(0), "0");
    assert_eq!(format_number(7), "7");
    assert_eq!(format_number(12), "12");
    assert_eq!(format_number(999), "999");
    assert_eq!(format_number(1000), "1,000");
    assert_eq!(format_number(12_345), "12,345");
    assert_eq!(format_number(123_456), "123,456");
    assert_eq!(format_number(1_234_567), "1,234,567");
    assert_eq!(format_number(1_000_000), "1,000,000");
    assert_eq!(format_number(i64::MAX), "9,223,372,036,854,775,807");
}

#[test]
fn format_number_counts_the_sign_as_a_character() {
    assert_eq!(format_number(-1), "-1");
    assert_eq!(format_number(-12), "-12");
    assert_eq!(format_number(-123), "-,123");
    assert_eq!(format_number(-1234), "-1,234");
    assert_eq!(format_number(-12_345), "-12,345");
    assert_eq!(format_number(-123_456), "-,123,456");
    assert_eq!(format_number(-1_234_567), "-1,234,567");
    assert_eq!(format_number(i64::MIN), "-9,223,372,036,854,775,808");
}

#[test]
fn format_number_agrees_with_grouping_the_decimal_text() {
    let group = |num: i64| -> String {
        let text = num.to_string();
        let mut reversed = String::new();
        for (count, c) in text.chars().rev().enumerate() {
            if count > 0 && count % 3 == 0 {
                reversed.push(',');
            }
            reversed.push(c);
        }
        reversed.chars().rev().collect()
    };
    let mut num: i64 = 1;
    for _ in 0..62 {
        for n in [num, num - 1, num + 1, -num, -num - 1, -num + 1] {
            assert_eq!(format_number(n), group(n), "{}", n);
        }
        num *= 2;
    }
    for n in [9, 10, 99, 100, 999, 1000, 9999, 10_000, 99_999, 100_000, 999_999, 1_000_000] {
        assert_eq!(format_number(n), group(n));
        assert_eq!(format_number(-n), group(-n));
    }
}
