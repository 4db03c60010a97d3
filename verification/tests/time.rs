use chrono::{DateTime, Utc};
use sumo::search::search_window_at;
use sumo::time::{classify_time, format_epoch_ms, parse_time, parse_time_at, request_time_text, TimeSpec, Timestamp};

fn seconds_since(t: &Timestamp) -> i64 {
    Utc::now().timestamp() - t.secs
}

#[test]
fn test_parse_now() {
    let t = parse_time("now").unwrap();
    let diff = seconds_since(&t).abs();
    assert!(diff < 2);
}

#[test]
fn test_parse_relative_minutes() {
    let t = parse_time("-15m").unwrap();
    let diff = seconds_since(&t) / 60;
    assert!((14..=16).contains(&diff));
}

#[test]
fn test_parse_relative_hours() {
    let t = parse_time("-24h").unwrap();
    let diff = seconds_since(&t) / 3600;
    assert!((23..=25).contains(&diff));
}

#[test]
fn test_parse_relative_weeks() {
    let t = parse_time("-2w").unwrap();
    let diff = seconds_since(&t) / 86400;
    assert!((13..=15).contains(&diff));
}

#[test]
fn test_parse_invalid() {
    assert!(parse_time("garbage").is_err());
}

#[test]
fn test_parse_unknown_unit() {
    assert!(parse_time("-5x").is_err());
}

#[test]
fn relative_times_and_their_errors() {
    assert!(matches!(classify_time("now"), Ok(TimeSpec::Now)));
    assert!(matches!(classify_time("-30s"), Ok(TimeSpec::SecondsAgo(30))));
    assert!(matches!(classify_time("-7d"), Ok(TimeSpec::SecondsAgo(604800))));
    assert!(matches!(classify_time("-2w"), Ok(TimeSpec::SecondsAgo(1209600))));
    assert!(matches!(classify_time("--5m"), Ok(TimeSpec::SecondsAgo(-300))));
    assert!(matches!(classify_time("2026-03-17T14:00:00Z"), Ok(TimeSpec::Absolute)));
    assert!(matches!(classify_time("-h"), Ok(TimeSpec::Absolute)));
    match classify_time("-5x") {
        Err(e) => assert_eq!(e, "Unknown time unit 'x' in '-5x'. Use s, m, h, d, or w."),
        _ => panic!("expected an error"),
    }
    match classify_time("-15min") {
        Err(e) => assert_eq!(e, "Unknown time unit 'min' in '-15min'. Use s, m, h, d, or w."),
        _ => panic!("expected an error"),
    }
    match classify_time("-1.5h") {
        Err(e) => assert_eq!(e, "Invalid relative time: -1.5h"),
        _ => panic!("expected an error"),
    }
}

#[test]
fn absolute_times() {
    let t = parse_time("2026-03-17T14:00:00Z").unwrap();
    assert_eq!(t.secs, 1773756000);
    assert_eq!(t.nanos, 0);
    assert_eq!(request_time_text(&t), Some("2026-03-17T14:00:00".to_string()));
    match parse_time("garbage") {
        Err(e) => assert!(e.starts_with("Cannot parse time 'garbage': ")),
        _ => panic!("expected an error"),
    }
}

#[test]
fn message_times() {
    assert_eq!(format_epoch_ms("1773756000000"), "2026-03-17 14:00:00 UTC");
    assert_eq!(format_epoch_ms("1773756000123"), "2026-03-17 14:00:00 UTC");
    assert_eq!(format_epoch_ms("-1000"), "1969-12-31 23:59:59 UTC");
    assert_eq!(format_epoch_ms("-1500"), "-1500");
    assert_eq!(format_epoch_ms("2026-03-17T14:57:25Z"), "2026-03-17T14:57:25Z");
    assert_eq!(format_epoch_ms(""), "");
}

#[test]
fn relative_times_count_back_from_the_reading() {
    let now = Timestamp { secs: 1773756000, nanos: 5 };
    let t = parse_time_at("-7d", &now).unwrap();
    assert_eq!((t.secs, t.nanos), (1773756000 - 604800, 5));
    let t = parse_time_at("-30s", &now).unwrap();
    assert_eq!(t.secs, 1773755970);
    let t = parse_time_at("now", &now).unwrap();
    assert_eq!((t.secs, t.nanos), (1773756000, 5));
    let t = parse_time_at("2026-03-17T15:00:00Z", &now).unwrap();
    assert_eq!(t.secs, 1773759600);
}

#[test]
fn out_of_range_relative_times_are_errors() {
    let now = Timestamp { secs: 1773756000, nanos: 0 };
    let overflow = Err("`DateTime - TimeDelta` overflowed".to_string());
    assert_eq!(parse_time_at("-1000000000d", &now).map(|t| t.secs), overflow);
    assert_eq!(parse_time_at("-9223372036854775807w", &now).map(|t| t.secs), overflow);
    assert_eq!(parse_time_at("--9223372036854775807s", &now).map(|t| t.secs), overflow);
    assert!(parse_time("-9223372036854775807w").is_err());
}

#[test]
fn chrono_date_range_bounds() {
    assert!(DateTime::from_timestamp(-8_334_601_228_800, 0).is_some());
    assert!(DateTime::from_timestamp(-8_334_601_228_801, 0).is_none());
    assert!(DateTime::from_timestamp(8_210_266_876_799, 999_999_999).is_some());
    assert!(DateTime::from_timestamp(8_210_266_876_800, 0).is_none());
}

#[test]
fn request_windows() {
    let now = Timestamp { secs: 1773756000, nanos: 0 };
    assert_eq!(
        search_window_at("-1h", "now", &now),
        Ok(("2026-03-17T13:00:00".to_string(), "2026-03-17T14:00:00".to_string()))
    );
    match search_window_at("garbage", "-5x", &now) {
        Err(e) => assert!(e.starts_with("Cannot parse time 'garbage': ")),
        Ok(_) => panic!("the start is read first"),
    }
    assert_eq!(
        search_window_at("now", "-5x", &now),
        Err("Unknown time unit 'x' in '-5x'. Use s, m, h, d, or w.".to_string())
    );
}
