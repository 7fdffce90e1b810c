use dwd_decode::errors::DwdError;
use dwd_decode::weather_report::pad_station_id;
use dwd_decode::weather_report::parse_weather_report;
use dwd_decode::weather_report::ReportValue;

#[test]
fn report_with_comma_decimal_and_timestamp() {
    // Properties "TTT" and "" (the trailing semicolon opens one more,
    // empty column); the data row reports only the first.
    let text = "Date;Time;TTT;\n;;C;\nsome commentary\n01.01.23;00:00;12,5\n";
    let rep = parse_weather_report(text).unwrap();
    assert_eq!(rep.units.len(), 2);
    assert_eq!(rep.units[0], ("TTT".to_string(), "C".to_string()));
    assert_eq!(rep.units[1], ("".to_string(), "".to_string()));
    assert_eq!(rep.data.len(), 1);
    let row = &rep.data[0];
    assert_eq!(row.timestamp, 1672531200000);
    assert_eq!(row.values.len(), 1);
    assert_eq!(row.values[0].0, "TTT");
    assert_eq!(row.values[0].1, ReportValue::Num("12.5".to_string()));
}

#[test]
fn sentinel_cell_is_omitted_from_the_row() {
    let text = "Date;Time;TTT;PPPP\n;;C;hPa\nx\n01.01.23;00:00;----;1013,2\n";
    let rep = parse_weather_report(text).unwrap();
    assert_eq!(rep.data.len(), 1);
    let row = &rep.data[0];
    assert_eq!(row.values.len(), 1);
    assert_eq!(row.values[0].0, "PPPP");
    assert!(row.values.iter().all(|(p, _)| p != "TTT"));
}

#[test]
fn non_numeric_cell_is_kept_as_text() {
    let text = "Date;Time;WW\n;;code\nx\n01.01.23;06:30;light rain\n";
    let rep = parse_weather_report(text).unwrap();
    let row = &rep.data[0];
    assert_eq!(row.values[0].1, ReportValue::Text("light rain".to_string()));
    assert_eq!(row.timestamp, 1672531200000 + 6 * 3600_000 + 30 * 60_000);
}

#[test]
fn missing_header_row_fails() {
    assert_eq!(parse_weather_report(""), Err(DwdError::NoHeaderRow));
}

#[test]
fn missing_unit_row_fails_with_its_own_error() {
    assert_eq!(parse_weather_report("Date;Time;TTT\n"), Err(DwdError::NoUnitRow));
    assert_eq!(parse_weather_report("Date;Time;TTT"), Err(DwdError::NoUnitRow));
}

#[test]
fn unit_count_mismatch_fails() {
    let text = "Date;Time;TTT\n;;C;D\n";
    assert_eq!(parse_weather_report(text), Err(DwdError::UnitMismatch));
}

#[test]
fn repeated_property_fails_as_unit_mismatch() {
    let text = "Date;Time;TTT;TTT\n;;C;C\n";
    assert_eq!(parse_weather_report(text), Err(DwdError::UnitMismatch));
}

#[test]
fn malformed_data_rows_are_dropped_not_fatal() {
    // One row with an impossible date, one with unparseable time, one
    // with more cells than properties, and one well-formed row.
    let text = "Date;Time;TTT\n\
                ;;C\n\
                commentary\n\
                99.99.99;00:00;1\n\
                01.01.23;7 am;2\n\
                01.01.23;00:00;3;4\n\
                02.01.23;00:00;4\n";
    let rep = parse_weather_report(text).unwrap();
    assert_eq!(rep.data.len(), 1);
    assert_eq!(rep.data[0].timestamp, 1672531200000 + 24 * 3600_000);
    assert_eq!(rep.data[0].values[0].1, ReportValue::Num("4".to_string()));
}

#[test]
fn short_data_row_leaves_trailing_properties_unreported() {
    let text = "Date;Time;TTT;PPPP\n;;C;hPa\nx\n01.01.23;00:00;1,0\n";
    let rep = parse_weather_report(text).unwrap();
    assert_eq!(rep.data.len(), 1);
    assert_eq!(rep.data[0].values.len(), 1);
    assert_eq!(rep.data[0].values[0].0, "TTT");
}

#[test]
fn two_digit_years_split_at_sixty_eight() {
    let text = "Date;Time;TTT\n;;C\nx\n01.01.69;00:00;1\n";
    let rep = parse_weather_report(text).unwrap();
    // 1969-01-01 lies before the epoch.
    assert!(rep.data[0].timestamp < 0);
}

#[test]
fn report_decoding_is_idempotent() {
    let text = "Date;Time;TTT\n;;C\nx\n01.01.23;00:00;12,5\n";
    let a = parse_weather_report(text);
    let b = parse_weather_report(text);
    assert_eq!(a, b);
}

#[test]
fn station_ids_pad_to_five_characters() {
    assert_eq!(pad_station_id("123"), "123__");
    assert_eq!(pad_station_id("12345"), "12345");
    assert_eq!(pad_station_id("123456"), "123456");
    assert_eq!(pad_station_id(""), "_____");
}
