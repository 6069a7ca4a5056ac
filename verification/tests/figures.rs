use std::time::{Duration, Instant, SystemTime};

use ferroedge::clock::{millis_since, nanos_since, subsecond_nanos, subsecond_part, whole_millis};
use ferroedge::load_tester::{duration_text, load_report, percentile, progress_percentiles, submit_url};
use ferroedge::telemetry::{otlp_endpoint, TracingMode};
use ferroedge::text::{contains_text, decimal, is_before, parse_decimal, same_text, signed_decimal};

#[test]
fn decimals_round_trip() {
    for n in [0, 7, 10, 99, 100, 65_535, 1_000_000_007, u64::MAX] {
        assert_eq!(decimal(n), n.to_string());
        assert_eq!(parse_decimal(&decimal(n), u64::MAX), Some(n));
    }
    assert_eq!(signed_decimal(-5), "-5");
    assert_eq!(signed_decimal(i32::MIN), "-2147483648");
    assert_eq!(signed_decimal(12), "12");
}

#[test]
fn numbers_that_are_read() {
    assert_eq!(parse_decimal("+5", 10), Some(5));
    assert_eq!(parse_decimal("0010", 10), Some(10));
    assert_eq!(parse_decimal("11", 10), None);
    for text in ["", "+", "-1", "++1", " 1", "1 ", "1_000", "٣", "0x1", "18446744073709551616"] {
        assert_eq!(parse_decimal(text, u64::MAX), None, "{text}");
        assert!(text.parse::<u64>().is_err());
    }
}

#[test]
fn texts_compare_as_strings_do() {
    for a in ["", "a", "ab", "b", "ß", "z", "\u{10000}", "\u{ffff}"] {
        for b in ["", "a", "ab", "b", "ß", "z", "\u{10000}", "\u{ffff}"] {
            assert_eq!(is_before(a, b), a < b);
            assert_eq!(same_text(a, b), a == b);
        }
    }
}

#[test]
fn texts_within_texts() {
    assert!(contains_text("an interrupt came", "interrupt"));
    assert!(!contains_text("interrup", "interrupt"));
    assert!(contains_text("aab", "ab"));
    assert!(contains_text("x", ""));
    assert!(contains_text("", ""));
}

#[test]
fn percentiles() {
    let sorted: Vec<u64> = (1..=100).collect();
    assert_eq!(percentile(&sorted, 0), 1);
    assert_eq!(percentile(&sorted, 50), 51);
    assert_eq!(percentile(&sorted, 95), 96);
    assert_eq!(percentile(&sorted, 99), 100);
    assert_eq!(percentile(&sorted, 100), 100);
    assert_eq!(percentile(&[7], 99), 7);
    assert_eq!(percentile(&[], 50), 0);
    assert_eq!(percentile(&[1, 2, 3], 50), 2);
}

#[test]
fn load_reports() {
    let report = load_report(5, 2, vec![30, 10, 50, 20, 40]);
    assert_eq!((report.total, report.success, report.failed), (5, 3, 2));
    assert_eq!((report.p50, report.p95, report.p99, report.max), (30, 50, 50, 50));
    let empty = load_report(0, 1, Vec::new());
    assert_eq!((empty.success, empty.p50, empty.max), (0, 0, 0));
    assert_eq!(progress_percentiles(vec![3, 1, 2]), (2, 3));
}

#[test]
fn load_test_texts() {
    assert_eq!(duration_text(0), "unlimited");
    assert_eq!(duration_text(60), "60s");
    assert_eq!(submit_url("http://127.0.0.1:8080"), "http://127.0.0.1:8080/tasks");
}

#[test]
fn tracing_modes() {
    assert_eq!(TracingMode::from_setting(None), TracingMode::Console);
    assert_eq!(TracingMode::from_setting(Some("OtLp")), TracingMode::Otlp);
    assert_eq!(TracingMode::from_setting(Some("otlp ")), TracingMode::Console);
    assert_eq!(TracingMode::from_lowercase("otlp"), TracingMode::Otlp);
    assert_eq!(TracingMode::from_lowercase("OTLP"), TracingMode::Console);
    assert!(TracingMode::Otlp.exports_spans(true));
    assert!(!TracingMode::Otlp.exports_spans(false));
    assert!(!TracingMode::Console.exports_spans(true));
    assert_eq!(otlp_endpoint(None), "http://localhost:4317");
    assert_eq!(otlp_endpoint(Some("http://collector".to_string())), "http://collector");
}

#[test]
fn durations_in_whole_units() {
    assert_eq!(whole_millis(Duration::from_nanos(1_999_999)), 1);
    assert_eq!(whole_millis(Duration::from_secs(3)), 3_000);
    assert_eq!(whole_millis(Duration::from_secs(u64::MAX)), u64::MAX.wrapping_mul(1_000));
    assert_eq!(subsecond_part(Ok(Duration::new(7, 999_999_999))), 999_999_999);
    let before = SystemTime::UNIX_EPOCH.duration_since(SystemTime::now());
    assert!(before.is_err());
    assert_eq!(subsecond_part(before), 0);
    assert!(subsecond_nanos() < 1_000_000_000);
}

#[test]
fn elapsed_time_moves_on() {
    let start = Instant::now();
    let (first, second) = (nanos_since(&start), nanos_since(&start));
    assert!(first <= second);
    assert!(u128::from(millis_since(&start)) * 1_000_000 <= nanos_since(&start));
}
