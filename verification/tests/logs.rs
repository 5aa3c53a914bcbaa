use cx_cli::logs::{map_severity, merge, LogsResponse};
use serde_json::Value;

fn make_raw_row(msg: &str) -> Value {
    let text = format!(
        r#"{{"metadata": {{"severity": "3", "timestamp": "2024-01-01T00:00:00Z"}}, "labels": {{}}, "userData": {{"message": "{msg}"}}}}"#
    );
    serde_json::from_str(&text).unwrap()
}

fn make_response(rows: Vec<Value>, is_aggregate: bool) -> LogsResponse {
    LogsResponse {
        raw_results: rows,
        warnings: vec![],
        is_aggregate,
    }
}

fn text(s: &str) -> Value {
    Value::String(s.to_string())
}

#[test]
fn merge_single_profile_omits_profile_field_when_disabled() {
    let rows = vec![make_raw_row("hello"), make_raw_row("world")];
    let per_profile = vec![("prod".to_string(), Ok(make_response(rows, false)))];
    let merged = merge(per_profile, false);

    assert_eq!(merged.rows.len(), 2);
    assert!(!merged.include_profile);
    for row in &merged.rows {
        assert!(row.get("profile").is_none());
    }
}

#[test]
fn merge_single_profile_includes_profile_when_enabled() {
    let rows = vec![make_raw_row("hello")];
    let per_profile = vec![("prod".to_string(), Ok(make_response(rows, false)))];
    let merged = merge(per_profile, true);

    assert_eq!(merged.rows.len(), 1);
    assert!(merged.include_profile);
    assert_eq!(merged.rows[0]["profile"], text("prod"));
}

#[test]
fn merge_multiple_profiles_labels_each_row_with_source_profile() {
    let per_profile = vec![
        (
            "prod".to_string(),
            Ok(make_response(vec![make_raw_row("prod-log")], false)),
        ),
        (
            "staging".to_string(),
            Ok(make_response(vec![make_raw_row("staging-log")], false)),
        ),
    ];
    let merged = merge(per_profile, true);

    assert_eq!(merged.rows.len(), 2);
    assert_eq!(merged.rows[0]["profile"], text("prod"));
    assert_eq!(merged.rows[1]["profile"], text("staging"));
}

#[test]
fn merge_skips_errored_profiles_and_keeps_successful_ones() {
    let per_profile: Vec<(String, Result<LogsResponse, String>)> = vec![
        (
            "good".to_string(),
            Ok(make_response(vec![make_raw_row("ok")], false)),
        ),
        ("bad".to_string(), Err("network error".to_string())),
    ];
    let merged = merge(per_profile, true);

    assert_eq!(merged.rows.len(), 1);
    assert_eq!(merged.rows[0]["profile"], text("good"));
    assert_eq!(
        merged.errors,
        vec!["error from profile 'bad': network error".to_string()]
    );
}

#[test]
fn merge_collects_warnings_prefixed_with_profile() {
    let mut resp = make_response(vec![], false);
    resp.warnings = vec!["too many results".to_string()];
    let per_profile = vec![("prod".to_string(), Ok(resp))];
    let merged = merge(per_profile, true);

    assert_eq!(merged.warnings.len(), 1);
    assert!(merged.warnings[0].contains("[prod]"));
    assert_eq!(merged.warnings[0], "[prod] too many results");
}

#[test]
fn merge_is_aggregate_from_first_successful_profile() {
    let per_profile = vec![
        ("p1".to_string(), Ok(make_response(vec![], true))),
        ("p2".to_string(), Ok(make_response(vec![], true))),
    ];
    let merged = merge(per_profile, true);
    assert!(merged.is_aggregate);
}

#[test]
fn merge_aggregate_skips_failed_profiles_and_defaults_to_false() {
    let per_profile: Vec<(String, Result<LogsResponse, String>)> = vec![
        ("down".to_string(), Err("timeout".to_string())),
        ("p1".to_string(), Ok(make_response(vec![], true))),
        ("p2".to_string(), Ok(make_response(vec![], false))),
    ];
    assert!(merge(per_profile, false).is_aggregate);
    let none: Vec<(String, Result<LogsResponse, String>)> =
        vec![("down".to_string(), Err("timeout".to_string()))];
    let merged = merge(none, false);
    assert!(!merged.is_aggregate);
    assert!(merged.rows.is_empty());
}

#[test]
fn merge_keeps_rows_unchanged_without_profiles() {
    let row = make_raw_row("same");
    let per_profile = vec![("prod".to_string(), Ok(make_response(vec![row.clone()], false)))];
    let merged = merge(per_profile, false);
    assert_eq!(merged.rows, vec![row]);
}

#[test]
fn merge_tags_object_rows_and_keeps_other_rows() {
    let per_profile = vec![(
        "prod".to_string(),
        Ok(make_response(vec![text("plain"), make_raw_row("x")], false)),
    )];
    let merged = merge(per_profile, true);
    assert_eq!(merged.rows[0], text("plain"));
    assert_eq!(merged.rows[1]["profile"], text("prod"));
    assert_eq!(merged.rows[1]["userData"]["message"], text("x"));
}

#[test]
fn map_severity_names_codes_and_uppercases_the_rest() {
    assert_eq!(map_severity("1"), "DEBUG");
    assert_eq!(map_severity("5"), "ERROR");
    assert_eq!(map_severity("6"), "CRITICAL");
    assert_eq!(map_severity("warn"), "WARN");
}

fn parse(text: &str) -> Value {
    serde_json::from_str(text).unwrap()
}

#[test]
fn a_log_line_reads_time_severity_and_message() {
    let row = parse(
        r#"{"metadata": {"severity": "5", "timestamp": "2024-01-01T00:00:00Z"}, "userData": {"message": "disk full"}, "profile": "prod"}"#,
    );
    let line = cx_cli::logs::log_line(&row, true);
    assert_eq!(line.prefix, "[prod] ");
    assert_eq!(line.timestamp, "2024-01-01T00:00:00Z");
    assert_eq!(line.severity, "ERROR");
    assert_eq!(line.tone, cx_cli::logs::Tone::Alarm);
    assert_eq!(line.text, "disk full");
    let plain = cx_cli::logs::log_line(&row, false);
    assert_eq!(plain.prefix, "");
}

#[test]
fn a_log_line_falls_back_through_its_sources() {
    let row = parse(r#"{"userData": {"@timestamp": "t4", "msg": "short"}}"#);
    let line = cx_cli::logs::log_line(&row, true);
    assert_eq!(line.prefix, "");
    assert_eq!(line.timestamp, "t4");
    assert_eq!(line.severity, "INFO");
    assert_eq!(line.tone, cx_cli::logs::Tone::Plain);
    assert_eq!(line.text, "short");

    let nested = parse(r#"{"userData": {"coralogix": {"timestamp": "t2"}, "timestamp": "t3", "other": 1}}"#);
    let line = cx_cli::logs::log_line(&nested, false);
    assert_eq!(line.timestamp, "t2");
    assert_eq!(line.text, r#"{"coralogix":{"timestamp":"t2"},"timestamp":"t3","other":1}"#);
}

#[test]
fn a_timestamp_that_is_no_string_shows_a_dash_and_stops_the_search() {
    let row = parse(r#"{"metadata": {"timestamp": 17, "severity": "warn"}, "userData": {"timestamp": "later"}}"#);
    let line = cx_cli::logs::log_line(&row, false);
    assert_eq!(line.timestamp, "-");
    assert_eq!(line.severity, "WARN");
    assert_eq!(line.tone, cx_cli::logs::Tone::Caution);
    assert_eq!(line.text, r#"{"timestamp":"later"}"#);
}

#[test]
fn a_row_without_user_data_has_empty_text() {
    let row = parse(r#"{"metadata": {"severity": "1"}}"#);
    let line = cx_cli::logs::log_line(&row, false);
    assert_eq!(line.severity, "DEBUG");
    assert_eq!(line.tone, cx_cli::logs::Tone::Quiet);
    assert_eq!(line.text, "");
    assert_eq!(line.timestamp, "-");
}

#[test]
fn log_text_distinguishes_empty_aggregate_and_lines() {
    let empty = merge(vec![], false);
    assert!(matches!(cx_cli::logs::log_text(&empty), cx_cli::logs::LogText::NoResults));
    let agg = merge(vec![("p".to_string(), Ok(make_response(vec![make_raw_row("x")], true)))], false);
    assert!(matches!(cx_cli::logs::log_text(&agg), cx_cli::logs::LogText::Rows));
    let plain = merge(
        vec![("p".to_string(), Ok(make_response(vec![make_raw_row("a"), make_raw_row("b")], false)))],
        true,
    );
    match cx_cli::logs::log_text(&plain) {
        cx_cli::logs::LogText::Lines(lines) => {
            assert_eq!(lines.len(), 2);
            assert_eq!(lines[0].prefix, "[p] ");
            assert_eq!(lines[0].severity, "INFO");
            assert_eq!(lines[1].text, "b");
        }
        _ => panic!("expected lines"),
    }
}
