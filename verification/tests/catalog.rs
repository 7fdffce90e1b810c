use dwd_decode::mosmix_cfg::parse_mosmix_cfg;

#[test]
fn ws_table_one_record_per_valid_line() {
    let text = "TABLE\nID ICAO NAME LAT LON ELEV\n10001 EDDB Berlin 52.5 13.4 35\n";
    let stations = parse_mosmix_cfg(text);
    assert_eq!(stations.len(), 1);
    let st = &stations[0];
    assert_eq!(st.id, "10001");
    assert_eq!(st.icao.as_deref(), Some("EDDB"));
    assert_eq!(st.name, "Berlin");
    assert_eq!(st.latitude, "52.5");
    assert_eq!(st.longitude, "13.4");
    assert_eq!(st.elevation, 35);
    assert_eq!(st.cluster_id, 0);
    assert_eq!(st.coefficient, None);
    assert_eq!(st.model_height, None);
    assert_eq!(st.station_type, "");
}

#[test]
fn ws_five_token_line_yields_nothing() {
    // A line whose shape does not match the six-token rule contributes
    // zero records.
    let text = "TABLE\nID ICAO NAME LAT LON ELEV\n10001 EDDB Berlin 52.5 13.4\n";
    let stations = parse_mosmix_cfg(text);
    assert_eq!(stations.len(), 0);
}

#[test]
fn ws_sentinel_icao_is_absent() {
    let text = "T\nh h h h h h\n10001 ---- Berlin 52.5 13.4 35\n";
    let stations = parse_mosmix_cfg(text);
    assert_eq!(stations.len(), 1);
    assert_eq!(stations[0].icao, None);
}

#[test]
fn ws_bad_numbers_default_to_zero() {
    let text = "T\nh h h h h h\n10001 EDDB Berlin north 13.4 high\n";
    let stations = parse_mosmix_cfg(text);
    assert_eq!(stations.len(), 1);
    assert_eq!(stations[0].latitude, "0");
    assert_eq!(stations[0].longitude, "13.4");
    assert_eq!(stations[0].elevation, 0);
}

fn fixed_table(data_lines: &[&str]) -> String {
    let mut text = String::from("TABLE\nHEADING LINE\n--- ---- ----- ---- ------ ----- ----- ---- ---- ----\n");
    for l in data_lines {
        text.push_str(l);
        text.push('\n');
    }
    text
}

#[test]
fn fixed_table_decodes_ten_columns() {
    // Widths 3 4 5 4 6 5 5 4 4 4, one separating column after each.
    let text = fixed_table(&["  1 ---- 10001 EDDB Berlin  52.5  13.4   35    5 SYNO"]);
    let stations = parse_mosmix_cfg(&text);
    assert_eq!(stations.len(), 1);
    let st = &stations[0];
    assert_eq!(st.cluster_id, 1);
    assert_eq!(st.coefficient, None);
    assert_eq!(st.id, "10001");
    assert_eq!(st.icao.as_deref(), Some("EDDB"));
    assert_eq!(st.name, "Berlin");
    assert_eq!(st.latitude, "52.5");
    assert_eq!(st.longitude, "13.4");
    assert_eq!(st.elevation, 35);
    assert_eq!(st.model_height, Some(5));
    assert_eq!(st.station_type, "SYNO");
}

#[test]
fn fixed_short_line_is_dropped() {
    let text = fixed_table(&[
        "  1 ---- 10001 EDDB Berlin  52.5  13.4   35    5 SYNO",
        "  2 ---- 10002 EDDT Tegel",
    ]);
    let stations = parse_mosmix_cfg(&text);
    assert_eq!(stations.len(), 1);
    assert_eq!(stations[0].id, "10001");
}

#[test]
fn rule_line_with_wrong_segment_count_skips_table() {
    let text = "TABLE\nHEADING\n--- ---- -----\n  1 ---- 10001\n";
    let stations = parse_mosmix_cfg(text);
    assert_eq!(stations.len(), 0);
}

#[test]
fn records_keep_source_order_across_tables() {
    let ws = "T\nh h h h h h\n10001 EDDB Berlin 52.5 13.4 35\n";
    let fixed = fixed_table(&["  1 ---- 10002 EDDT Tegel   52.6  13.3   37    5 SYNO"]);
    let text = format!("{}\n{}", ws, fixed);
    let stations = parse_mosmix_cfg(&text);
    assert_eq!(stations.len(), 2);
    assert_eq!(stations[0].id, "10001");
    assert_eq!(stations[1].id, "10002");
}

#[test]
fn unparseable_input_yields_empty_sequence() {
    assert_eq!(parse_mosmix_cfg("").len(), 0);
    assert_eq!(parse_mosmix_cfg("\n\n\n").len(), 0);
    assert_eq!(parse_mosmix_cfg("just one line").len(), 0);
}

#[test]
fn catalog_decoding_is_idempotent() {
    let text = "T\nh h h h h h\n10001 EDDB Berlin 52.5 13.4 35\n";
    let a = parse_mosmix_cfg(text);
    let b = parse_mosmix_cfg(text);
    assert_eq!(a, b);
}
