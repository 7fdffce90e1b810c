use dwd_decode::elements::element_key;
use dwd_decode::numbers::float_token;
use dwd_decode::numbers::parse_i64;
use dwd_decode::timestamp::parse_report_ms;
use dwd_decode::timestamp::parse_rfc3339_ms;

fn chars(s: &str) -> Vec<char> {
    s.chars().collect()
}

#[test]
fn element_table_maps_codes_to_canonical_keys() {
    assert_eq!(element_key(&chars("TTT")), Some("temp".to_string()));
    assert_eq!(element_key(&chars("FF")), Some("wind_speed".to_string()));
    assert_eq!(element_key(&chars("Rad1h")), Some("global_irradiance".to_string()));
    assert_eq!(element_key(&chars("SnCv")), Some("snow_depth".to_string()));
    assert_eq!(element_key(&chars("ttt")), None);
    assert_eq!(element_key(&chars("NOPE")), None);
    assert_eq!(element_key(&chars("")), None);
}

#[test]
fn integer_tokens_parse_exactly() {
    assert_eq!(parse_i64(&chars("0")), Some(0));
    assert_eq!(parse_i64(&chars("-35")), Some(-35));
    assert_eq!(parse_i64(&chars("+35")), Some(35));
    assert_eq!(parse_i64(&chars("007")), Some(7));
    assert_eq!(parse_i64(&chars("9223372036854775807")), Some(i64::MAX));
    assert_eq!(parse_i64(&chars("-9223372036854775808")), Some(i64::MIN));
    assert_eq!(parse_i64(&chars("9223372036854775808")), None);
    assert_eq!(parse_i64(&chars("-9223372036854775809")), None);
    assert_eq!(parse_i64(&chars("")), None);
    assert_eq!(parse_i64(&chars("-")), None);
    assert_eq!(parse_i64(&chars("1.5")), None);
    assert_eq!(parse_i64(&chars(" 1")), None);
}

#[test]
fn float_tokens_follow_the_standard_grammar() {
    assert!(float_token(&chars("12.5")));
    assert!(float_token(&chars("-0.5")));
    assert!(float_token(&chars(".5")));
    assert!(float_token(&chars("5.")));
    assert!(float_token(&chars("1e5")));
    assert!(float_token(&chars("2.5E-3")));
    assert!(float_token(&chars("inf")));
    assert!(float_token(&chars("-Infinity")));
    assert!(float_token(&chars("NaN")));
    assert!(!float_token(&chars("")));
    assert!(!float_token(&chars(".")));
    assert!(!float_token(&chars("--")));
    assert!(!float_token(&chars("1e")));
    assert!(!float_token(&chars("1.5.2")));
    assert!(!float_token(&chars("12,5")));
}

#[test]
fn rfc3339_timestamps_convert_to_epoch_milliseconds() {
    assert_eq!(parse_rfc3339_ms(&chars("1970-01-01T00:00:00Z")), Some(0));
    assert_eq!(parse_rfc3339_ms(&chars("1969-12-31T23:59:00Z")), Some(-60000));
    assert_eq!(parse_rfc3339_ms(&chars("2023-01-01T00:00Z")), Some(1672531200000));
    assert_eq!(parse_rfc3339_ms(&chars("2023-01-01T06:00:00.000Z")), Some(1672552800000));
    assert_eq!(parse_rfc3339_ms(&chars("2023-01-01T00:00:00.5Z")), Some(1672531200500));
    // An offset shifts the instant back to UTC.
    assert_eq!(parse_rfc3339_ms(&chars("2023-01-01T01:00+01:00")), Some(1672531200000));
    assert_eq!(parse_rfc3339_ms(&chars("2022-12-31T23:00-01:00")), Some(1672531200000));
    // A leap year has its 29th of February; other years do not.
    assert_eq!(parse_rfc3339_ms(&chars("2024-02-29T00:00Z")), Some(1709164800000));
    assert_eq!(parse_rfc3339_ms(&chars("2023-02-29T00:00Z")), None);
    assert_eq!(parse_rfc3339_ms(&chars("2023-13-01T00:00Z")), None);
    assert_eq!(parse_rfc3339_ms(&chars("2023-01-01T24:00Z")), None);
    assert_eq!(parse_rfc3339_ms(&chars("2023-01-01T00:00")), None);
    assert_eq!(parse_rfc3339_ms(&chars("2023-01-01")), None);
    assert_eq!(parse_rfc3339_ms(&chars("")), None);
}

#[test]
fn report_timestamps_convert_to_epoch_milliseconds() {
    assert_eq!(parse_report_ms(&chars("01.01.23"), &chars("00:00")), Some(1672531200000));
    assert_eq!(parse_report_ms(&chars("01.01.70"), &chars("00:00")), Some(0));
    assert_eq!(
        parse_report_ms(&chars("29.02.24"), &chars("12:30")),
        Some(1709164800000 + 12 * 3600_000 + 30 * 60_000)
    );
    assert_eq!(parse_report_ms(&chars("29.02.23"), &chars("00:00")), None);
    assert_eq!(parse_report_ms(&chars("32.01.23"), &chars("00:00")), None);
    assert_eq!(parse_report_ms(&chars("01.01.23"), &chars("25:00")), None);
    assert_eq!(parse_report_ms(&chars("1.1.23"), &chars("0:00")), None);
}
