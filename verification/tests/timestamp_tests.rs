use automark::timestamp::Timestamp;

#[test]
fn test_rfc3339_text_of_known_instants() {
    let t = Timestamp { secs: 1673740800, nanos: 0 };
    assert_eq!(t.to_rfc3339(), Some("2023-01-15T00:00:00+00:00".to_string()));
    let t = Timestamp { secs: 0, nanos: 500_000_000 };
    assert_eq!(t.to_rfc3339(), Some("1970-01-01T00:00:00.500+00:00".to_string()));
    let t = Timestamp { secs: -1, nanos: 1 };
    assert_eq!(t.to_rfc3339(), Some("1969-12-31T23:59:59.000000001+00:00".to_string()));
}

#[test]
fn test_rfc3339_parse_known_texts() {
    assert_eq!(
        Timestamp::parse_rfc3339("2023-01-15T00:00:00+00:00"),
        Some(Timestamp { secs: 1673740800, nanos: 0 })
    );
    assert_eq!(
        Timestamp::parse_rfc3339("2023-01-15T01:00:00+01:00"),
        Some(Timestamp { secs: 1673740800, nanos: 0 })
    );
    assert_eq!(
        Timestamp::parse_rfc3339("1970-01-01T00:00:00.25Z"),
        Some(Timestamp { secs: 0, nanos: 250_000_000 })
    );
    assert_eq!(Timestamp::parse_rfc3339("yesterday"), None);
    assert_eq!(Timestamp::parse_rfc3339(""), None);
}

#[test]
fn test_rfc3339_round_trip_in_the_common_era() {
    let cases = vec![
        Timestamp { secs: -62167219200, nanos: 0 },
        Timestamp { secs: 253402300799, nanos: 999_999_999 },
        Timestamp { secs: 0, nanos: 0 },
        Timestamp { secs: 1_700_000_000, nanos: 123_456_789 },
        Timestamp { secs: 1_700_000_000, nanos: 123_000_000 },
        Timestamp { secs: -86_401, nanos: 1_000 },
        Timestamp { secs: 951_782_400, nanos: 0 },
    ];
    for t in cases {
        let text = t.to_rfc3339().unwrap();
        assert_eq!(Timestamp::parse_rfc3339(&text), Some(t), "{}", text);
    }
}

#[test]
fn test_rfc3339_out_of_range() {
    assert_eq!(Timestamp { secs: i64::MAX, nanos: 0 }.to_rfc3339(), None);
    assert_eq!(Timestamp { secs: i64::MIN, nanos: 0 }.to_rfc3339(), None);
    assert_eq!(Timestamp { secs: 0, nanos: 2_000_000_000 }.to_rfc3339(), None);
}

#[test]
fn test_calendar_date() {
    assert_eq!(
        Timestamp::parse_calendar_date("01-15-2023"),
        Some(Timestamp { secs: 1673740800, nanos: 0 })
    );
    assert_eq!(
        Timestamp::parse_calendar_date("12-31-1969"),
        Some(Timestamp { secs: -86400, nanos: 0 })
    );
    assert_eq!(Timestamp::parse_calendar_date("2023-01-01"), None);
    assert_eq!(Timestamp::parse_calendar_date("13-01-2023"), None);
    assert_eq!(Timestamp::parse_calendar_date("02-30-2023"), None);
}

#[test]
fn test_order_of_instants() {
    let a = Timestamp { secs: 10, nanos: 5 };
    let b = Timestamp { secs: 10, nanos: 6 };
    let c = Timestamp { secs: 11, nanos: 0 };
    assert!(a.is_before(&b));
    assert!(b.is_before(&c));
    assert!(a.is_before(&c));
    assert!(!b.is_before(&a));
    assert!(!a.is_before(&a));
    assert!(a.is_not_after(&a));
    assert!(a.is_not_after(&b));
    assert!(!c.is_not_after(&b));
    assert!(Timestamp { secs: -5, nanos: 999 }.is_before(&Timestamp { secs: -4, nanos: 0 }));
}

#[test]
fn test_now_is_after_2020() {
    let now = Timestamp::now();
    assert!(now.secs > 1_577_836_800);
    assert!(now.nanos < 2_000_000_000);
}

#[test]
fn test_now_is_no_leap_second() {
    for _ in 0..100 {
        let now = Timestamp::now();
        assert!(now.nanos < 1_000_000_000);
        assert!(now.to_rfc3339().is_some());
    }
}

#[test]
fn test_leap_seconds_read_back() {
    for t in [
        Timestamp { secs: 1483228799, nanos: 1_000_000_000 },
        Timestamp { secs: 1483228799, nanos: 1_500_000_000 },
        Timestamp { secs: 1483228799, nanos: 1_999_999_999 },
        Timestamp { secs: 59, nanos: 1_250_000_000 },
        Timestamp { secs: -1, nanos: 1_000_000_001 },
        Timestamp { secs: 253402300799, nanos: 1_999_999_999 },
        Timestamp { secs: -62167219200 + 59, nanos: 1_000_000_000 },
    ] {
        let text = t.to_rfc3339().expect("a leap second can be written");
        assert_eq!(Timestamp::parse_rfc3339(&text), Some(t), "{}", text);
    }
    // a leap second elsewhere in a minute is no instant
    assert_eq!(Timestamp { secs: 1483228798, nanos: 1_000_000_000 }.to_rfc3339(), None);
    assert_eq!(Timestamp { secs: 0, nanos: 2_000_000_000 }.to_rfc3339(), None);
}
