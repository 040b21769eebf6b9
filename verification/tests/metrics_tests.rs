use lint_apptester::metrics::{
    check_output_is_new, csv_header, csv_row, first_session, join_vals, output_path, parse_input,
    performance_request, performance_url, record_row, sessions_url, sorted_val_vec_from_val_map,
    string_less, vals_from_arrays, vals_from_sorted_val_vec, MetricsError, Reply, Sample, ValMap,
};

fn texts(items: &[&str]) -> Vec<String> {
    items.iter().map(|item| item.to_string()).collect()
}

fn sample(feature: &str, stage: &str) -> Sample {
    Sample { feature: feature.to_string(), stage: stage.to_string() }
}

#[test]
fn the_output_path_is_the_first_argument() {
    assert_eq!(output_path(&texts(&["prog", "out.csv", "more"])), Ok("out.csv".to_string()));
    assert_eq!(output_path(&texts(&["prog"])), Err(MetricsError::MissingOutputPath));
    assert_eq!(output_path(&texts(&[])), Err(MetricsError::MissingOutputPath));
    assert_eq!(MetricsError::MissingOutputPath.message(), "Argument for output file path required");
}

#[test]
fn a_recording_replaces_no_file() {
    assert_eq!(check_output_is_new(false), Ok(()));
    assert_eq!(check_output_is_new(true), Err(MetricsError::OutputExists));
    assert_eq!(MetricsError::OutputExists.message(), "File already exists");
}

#[test]
fn the_first_session_is_measured() {
    assert_eq!(first_session(&texts(&["abc", "def"])), Ok("abc".to_string()));
    assert_eq!(first_session(&texts(&[])), Err(MetricsError::SessionNotStarted));
    assert_eq!(MetricsError::SessionNotStarted.message(), "Session not started");
}

#[test]
fn addresses_and_request() {
    assert_eq!(sessions_url("http://h:4723"), "http://h:4723/sessions");
    assert_eq!(
        performance_url("http://h:4723", "s-1"),
        "http://h:4723/session/s-1/appium/getPerformanceData"
    );
    assert_eq!(
        performance_request("com.app"),
        "{\"packageName\":\"com.app\",\"dataType\":\"memoryinfo\"}"
    );
}

#[test]
fn a_line_holds_a_feature_and_a_stage() {
    let parsed = parse_input("login start").unwrap();
    assert_eq!(parsed.feature, "login");
    assert_eq!(parsed.stage, "start");
    let parsed = parse_input("login stop").unwrap();
    assert_eq!(parsed.feature, "login");
    assert_eq!(parsed.stage, "stop");
    let parsed = parse_input(" stop").unwrap();
    assert_eq!(parsed.feature, "");
    assert_eq!(parsed.stage, "stop");
}

#[test]
fn a_line_without_a_space_is_refused() {
    assert_eq!(parse_input("login").unwrap_err(), MetricsError::MissingSeparator);
    assert_eq!(parse_input("").unwrap_err(), MetricsError::MissingSeparator);
    assert_eq!(parse_input("start").unwrap_err(), MetricsError::MissingSeparator);
    assert_eq!(
        MetricsError::MissingSeparator.message(),
        "Cannot split input into feature and stage"
    );
}

#[test]
fn a_line_with_more_spaces_is_refused() {
    assert_eq!(parse_input("log in start").unwrap_err(), MetricsError::ExtraSeparator);
    assert_eq!(parse_input("login start ").unwrap_err(), MetricsError::ExtraSeparator);
    assert_eq!(parse_input("login  start").unwrap_err(), MetricsError::ExtraSeparator);
    assert_eq!(parse_input("  ").unwrap_err(), MetricsError::ExtraSeparator);
    assert_eq!(
        MetricsError::ExtraSeparator.message(),
        "Input must be of the format FEATURE STAGE"
    );
}

#[test]
fn an_unknown_stage_is_refused() {
    assert_eq!(parse_input("login begin").unwrap_err(), MetricsError::UnknownStage);
    assert_eq!(parse_input("login Start").unwrap_err(), MetricsError::UnknownStage);
    assert_eq!(parse_input("login ").unwrap_err(), MetricsError::UnknownStage);
    assert_eq!(parse_input("login\tstart stop\n").unwrap_err(), MetricsError::UnknownStage);
    assert_eq!(MetricsError::UnknownStage.message(), "Stage must be either 'start' or 'stop'");
}

#[test]
fn strings_are_ordered_as_std_orders_them() {
    let samples = ["", "a", "ab", "b", "B", "a\u{e9}", "a\u{10000}", "z", "\u{ff}", "totalPss"];
    for a in samples {
        for b in samples {
            assert_eq!(string_less(a, b), a < b, "{:?} < {:?}", a, b);
        }
    }
}

#[test]
fn a_map_lists_its_names_in_order() {
    let mut map = ValMap::new();
    map.insert("nativePss".to_string(), "3".to_string());
    map.insert("dalvikPss".to_string(), "1".to_string());
    map.insert("totalPss".to_string(), "4".to_string());
    map.insert("eglPss".to_string(), "2".to_string());
    map.insert("dalvikPss".to_string(), "9".to_string());
    assert_eq!(
        sorted_val_vec_from_val_map(map),
        vec![
            ("dalvikPss".to_string(), "9".to_string()),
            ("eglPss".to_string(), "2".to_string()),
            ("nativePss".to_string(), "3".to_string()),
            ("totalPss".to_string(), "4".to_string()),
        ]
    );
    assert_eq!(sorted_val_vec_from_val_map(ValMap::new()), Vec::new());
}

#[test]
fn values_are_taken_from_a_listing() {
    let listing = vec![
        ("a".to_string(), "1".to_string()),
        ("b".to_string(), "".to_string()),
        ("c".to_string(), "3".to_string()),
    ];
    assert_eq!(vals_from_sorted_val_vec(listing), texts(&["1", "", "3"]));
    assert_eq!(vals_from_sorted_val_vec(Vec::new()), Vec::<String>::new());
}

#[test]
fn values_come_out_in_the_order_of_their_names() {
    let names = texts(&["totalPss", "dalvikPss", "nativePss", "eglPss"]);
    let values =
        vec![Some("40".to_string()), Some("10".to_string()), None, Some("20".to_string())];
    assert_eq!(vals_from_arrays(&names, &values), texts(&["10", "20", "", "40"]));
}

#[test]
fn unpaired_names_and_values_are_left_out() {
    let names = texts(&["b", "a", "c"]);
    let values = vec![Some("2".to_string()), Some("1".to_string())];
    assert_eq!(vals_from_arrays(&names, &values), texts(&["1", "2"]));
    let names = texts(&["b"]);
    let values = vec![Some("2".to_string()), Some("1".to_string())];
    assert_eq!(vals_from_arrays(&names, &values), texts(&["2"]));
    assert_eq!(vals_from_arrays(&Vec::new(), &values), Vec::<String>::new());
}

#[test]
fn a_repeated_name_keeps_its_last_value() {
    let names = texts(&["b", "a", "b"]);
    let values = vec![Some("first".to_string()), Some("x".to_string()), Some("last".to_string())];
    assert_eq!(vals_from_arrays(&names, &values), texts(&["x", "last"]));
}

#[test]
fn values_are_joined_by_commas() {
    assert_eq!(join_vals(&texts(&["1", "2", "3"])), "1,2,3");
    assert_eq!(join_vals(&texts(&["1"])), "1");
    assert_eq!(join_vals(&texts(&[])), "");
    assert_eq!(join_vals(&texts(&["", ""])), ",");
    assert_eq!(join_vals(&texts(&["", "x", ""])), ",x,");
}

#[test]
fn a_row_ends_with_a_line_feed() {
    assert_eq!(csv_row(&sample("login", "start"), &texts(&["1", "2"])), "login,start,1,2\n");
    assert_eq!(csv_row(&sample("login", "stop"), &texts(&[])), "login,stop,\n");
}

#[test]
fn the_header_names_seventeen_columns() {
    let header = csv_header();
    assert!(header.starts_with("feature,stage,dalvikPrivateDirty,"));
    assert!(header.ends_with(",totalPss,totalRss\n"));
    assert_eq!(header.trim_end().split(',').count(), 17);
}

#[test]
fn a_reply_with_values_is_recorded_in_order() {
    let reply = Reply::Values(
        texts(&["totalPss", "dalvikPss"]),
        vec![Some("7".to_string()), Some("5".to_string())],
    );
    assert_eq!(record_row(&sample("login", "start"), &reply), Ok("login,start,5,7\n".to_string()));
}

#[test]
fn a_reply_with_an_error_records_nothing() {
    let reply = Reply::Failed("no such session".to_string());
    assert_eq!(record_row(&sample("login", "start"), &reply), Err("no such session".to_string()));
}

#[test]
fn any_other_reply_records_a_row_without_values() {
    assert_eq!(
        record_row(&sample("login", "stop"), &Reply::Other),
        Ok("login,stop,\n".to_string())
    );
}
