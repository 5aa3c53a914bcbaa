use cx_cli::metrics::{check_query_status, check_request_status};
use cx_cli::metrics::{metric_search, MetricSearch, MetricsError};
use cx_cli::metrics::{
    format_labels, instant_samples_to_toon_rows, matches_pattern, range_samples_to_toon_rows,
    InstantSample, RangeSample,
};

fn make_range_row(metric: &[(&str, &str)], values: &[(i64, &str)], profile: Option<&str>) -> RangeSample {
    RangeSample {
        metric: metric
            .iter()
            .map(|(k, v)| (k.to_string(), v.to_string()))
            .collect(),
        values: values.iter().map(|(t, v)| (*t, v.to_string())).collect(),
        profile: profile.map(String::from),
    }
}

fn cell<'r>(row: &'r [(String, String)], key: &str) -> Option<&'r str> {
    row.iter().find(|(k, _)| k == key).map(|(_, v)| v.as_str())
}

fn keys(row: &[(String, String)]) -> Vec<&str> {
    row.iter().map(|(k, _)| k.as_str()).collect()
}

#[test]
fn range_empty_input_returns_empty_vec() {
    let rows = range_samples_to_toon_rows(&[], false);
    assert!(rows.is_empty());
}

#[test]
fn range_single_series_single_point() {
    let sample = make_range_row(&[("job", "api")], &[(1_719_014_400, "42")], None);
    let rows = range_samples_to_toon_rows(&[sample], false);

    assert_eq!(rows.len(), 1);
    assert_eq!(cell(&rows[0], "job"), Some("api"));
    assert_eq!(cell(&rows[0], "2024-06-22T00:00:00Z"), Some("42"));
    assert_eq!(cell(&rows[0], "timestamp"), None);
    assert_eq!(cell(&rows[0], "value"), None);
}

#[test]
fn range_single_series_multiple_points() {
    let sample = make_range_row(
        &[("job", "api")],
        &[
            (1_719_014_400, "1"),
            (1_719_014_460, "2"),
            (1_719_014_520, "3"),
        ],
        None,
    );
    let rows = range_samples_to_toon_rows(&[sample], false);

    assert_eq!(rows.len(), 1);
    assert_eq!(cell(&rows[0], "job"), Some("api"));
    assert_eq!(cell(&rows[0], "2024-06-22T00:00:00Z"), Some("1"));
    assert_eq!(cell(&rows[0], "2024-06-22T00:01:00Z"), Some("2"));
    assert_eq!(cell(&rows[0], "2024-06-22T00:02:00Z"), Some("3"));
}

#[test]
fn range_multiple_series_same_timestamps() {
    let samples = vec![
        make_range_row(&[("job", "a")], &[(1_719_014_400, "10"), (1_719_014_460, "20")], None),
        make_range_row(&[("job", "b")], &[(1_719_014_400, "30"), (1_719_014_460, "40")], None),
    ];
    let rows = range_samples_to_toon_rows(&samples, false);

    assert_eq!(rows.len(), 2);
    assert_eq!(cell(&rows[0], "job"), Some("a"));
    assert_eq!(cell(&rows[0], "2024-06-22T00:00:00Z"), Some("10"));
    assert_eq!(cell(&rows[0], "2024-06-22T00:01:00Z"), Some("20"));
    assert_eq!(cell(&rows[1], "job"), Some("b"));
    assert_eq!(cell(&rows[1], "2024-06-22T00:00:00Z"), Some("30"));
    assert_eq!(cell(&rows[1], "2024-06-22T00:01:00Z"), Some("40"));
}

#[test]
fn range_multiple_series_differing_labels_padded() {
    let samples = vec![
        make_range_row(&[("job", "a")], &[(1_719_014_400, "1")], None),
        make_range_row(&[("job", "b"), ("pod", "p1")], &[(1_719_014_400, "2")], None),
    ];
    let rows = range_samples_to_toon_rows(&samples, false);

    assert_eq!(rows.len(), 2);
    assert_eq!(cell(&rows[0], "pod"), Some(""));
    assert_eq!(cell(&rows[1], "pod"), Some("p1"));
}

#[test]
fn range_sparse_timestamps_padded() {
    let samples = vec![
        make_range_row(&[("job", "a")], &[(1_719_014_400, "1"), (1_719_014_460, "2")], None),
        make_range_row(&[("job", "b")], &[(1_719_014_400, "3")], None),
    ];
    let rows = range_samples_to_toon_rows(&samples, false);

    assert_eq!(rows.len(), 2);
    assert_eq!(cell(&rows[1], "2024-06-22T00:01:00Z"), Some(""));
}

#[test]
fn range_label_keys_sorted_alphabetically() {
    let sample = make_range_row(
        &[("zzz", "z"), ("aaa", "a"), ("mmm", "m")],
        &[(1_719_014_400, "0")],
        None,
    );
    let rows = range_samples_to_toon_rows(&[sample], false);
    assert_eq!(keys(&rows[0]), vec!["aaa", "mmm", "zzz", "2024-06-22T00:00:00Z"]);
}

#[test]
fn range_timestamp_is_iso8601() {
    let sample = make_range_row(&[("job", "x")], &[(1_719_014_400, "1")], None);
    let rows = range_samples_to_toon_rows(&[sample], false);
    assert!(keys(&rows[0]).contains(&"2024-06-22T00:00:00Z"));
}

#[test]
fn range_with_profile_column() {
    let sample = make_range_row(&[("job", "api")], &[(1_719_014_400, "1")], Some("prod"));
    let rows = range_samples_to_toon_rows(&[sample], true);
    assert_eq!(cell(&rows[0], "profile"), Some("prod"));
    assert_eq!(keys(&rows[0]), vec!["job", "profile", "2024-06-22T00:00:00Z"]);
}

#[test]
fn range_without_profile_column() {
    let sample = make_range_row(&[("job", "api")], &[(1_719_014_400, "1")], None);
    let rows = range_samples_to_toon_rows(&[sample], false);
    assert_eq!(cell(&rows[0], "profile"), None);
}

#[test]
fn range_column_order() {
    let sample = make_range_row(
        &[("job", "api"), ("instance", "h1")],
        &[(1_719_014_400, "1"), (1_719_014_460, "2")],
        Some("prod"),
    );
    let rows = range_samples_to_toon_rows(&[sample], true);
    assert_eq!(
        keys(&rows[0]),
        vec![
            "instance",
            "job",
            "profile",
            "2024-06-22T00:00:00Z",
            "2024-06-22T00:01:00Z"
        ]
    );
}

#[test]
fn labels_render_in_the_order_given() {
    assert_eq!(format_labels(&[]), "{}");
    assert_eq!(
        format_labels(&[
            ("job".to_string(), "api".to_string()),
            ("pod".to_string(), "p1".to_string())
        ]),
        "{job=\"api\", pod=\"p1\"}"
    );
}

#[test]
fn a_pattern_without_a_star_is_a_substring_search() {
    assert!(matches_pattern("http_requests_total", "requests"));
    assert!(!matches_pattern("http_requests_total", "Requests"));
}

#[test]
fn a_star_matches_any_run_of_characters() {
    assert!(matches_pattern("http_requests_total", "http_*"));
    assert!(matches_pattern("http_requests_total", "*_total"));
    assert!(matches_pattern("http_requests_total", "http_*_total"));
    assert!(matches_pattern("http_requests_total", "*requests*"));
    assert!(matches_pattern("http_requests_total", "*"));
    assert!(!matches_pattern("http_requests_total", "grpc_*"));
    assert!(!matches_pattern("http_requests_total", "*_count"));
    assert!(!matches_pattern("http_requests_total", "http_*_errors_*"));
}

fn make_instant_row(metric: &[(&str, &str)], value: &str, profile: Option<&str>) -> InstantSample {
    InstantSample {
        metric: metric
            .iter()
            .map(|(k, v)| (k.to_string(), v.to_string()))
            .collect(),
        value: value.to_string(),
        profile: profile.map(String::from),
    }
}

#[test]
fn empty_input_returns_empty_vec() {
    let rows = instant_samples_to_toon_rows(&[], true);
    assert!(rows.is_empty());
}

#[test]
fn single_sample_single_label_with_profile() {
    let sample = make_instant_row(&[("job", "prometheus")], "1", Some("default"));
    let rows = instant_samples_to_toon_rows(&[sample], true);

    assert_eq!(rows.len(), 1);
    assert_eq!(cell(&rows[0], "job"), Some("prometheus"));
    assert_eq!(cell(&rows[0], "value"), Some("1"));
    assert_eq!(cell(&rows[0], "profile"), Some("default"));
    assert_eq!(cell(&rows[0], "timestamp"), None);
}

#[test]
fn single_sample_multiple_labels_with_profile() {
    let sample = make_instant_row(
        &[("job", "node"), ("instance", "host:9100")],
        "42",
        Some("p1"),
    );
    let rows = instant_samples_to_toon_rows(&[sample], true);

    assert_eq!(keys(&rows[0]), vec!["instance", "job", "profile", "value"]);
    assert_eq!(cell(&rows[0], "instance"), Some("host:9100"));
    assert_eq!(cell(&rows[0], "job"), Some("node"));
    assert_eq!(cell(&rows[0], "value"), Some("42"));
}

#[test]
fn multiple_samples_same_labels_produce_uniform_rows_with_profile() {
    let samples = vec![
        make_instant_row(&[("job", "a"), ("instance", "h1")], "1", Some("default")),
        make_instant_row(&[("job", "b"), ("instance", "h2")], "2", Some("default")),
    ];
    let rows = instant_samples_to_toon_rows(&samples, true);

    assert_eq!(rows.len(), 2);
    for row in &rows {
        assert_eq!(keys(row).len(), 4);
    }
    assert_eq!(cell(&rows[0], "value"), Some("1"));
    assert_eq!(cell(&rows[1], "value"), Some("2"));
}

#[test]
fn multiple_samples_differing_labels_padded_with_empty_string_with_profile() {
    let samples = vec![
        make_instant_row(&[("job", "a")], "1", Some("default")),
        make_instant_row(&[("job", "b"), ("pod", "p1")], "2", Some("default")),
    ];
    let rows = instant_samples_to_toon_rows(&samples, true);

    assert_eq!(rows.len(), 2);
    assert_eq!(keys(&rows[0]), vec!["job", "pod", "profile", "value"]);
    assert_eq!(keys(&rows[1]), vec!["job", "pod", "profile", "value"]);
    assert_eq!(cell(&rows[0], "pod"), Some(""));
    assert_eq!(cell(&rows[1], "pod"), Some("p1"));
}

#[test]
fn label_keys_are_sorted_alphabetically_before_profile_and_value() {
    let sample = make_instant_row(
        &[("zzz", "z"), ("aaa", "a"), ("mmm", "m")],
        "0",
        Some("default"),
    );
    let rows = instant_samples_to_toon_rows(&[sample], true);
    assert_eq!(keys(&rows[0]), vec!["aaa", "mmm", "zzz", "profile", "value"]);
}

#[test]
fn value_column_is_always_last_with_profile() {
    let sample = make_instant_row(&[("a", "1"), ("z", "2")], "99", Some("default"));
    let rows = instant_samples_to_toon_rows(&[sample], true);
    assert_eq!(keys(&rows[0]).last(), Some(&"value"));
}

#[test]
fn multi_profile_samples_carry_distinct_profile_values() {
    let samples = vec![
        make_instant_row(&[("job", "api")], "1", Some("prod")),
        make_instant_row(&[("job", "api")], "2", Some("staging")),
    ];
    let rows = instant_samples_to_toon_rows(&samples, true);

    assert_eq!(cell(&rows[0], "profile"), Some("prod"));
    assert_eq!(cell(&rows[1], "profile"), Some("staging"));
}

#[test]
fn single_profile_sample_omits_profile_column() {
    let sample = make_instant_row(&[("job", "prometheus")], "1", None);
    let rows = instant_samples_to_toon_rows(&[sample], false);

    assert_eq!(rows.len(), 1);
    assert_eq!(cell(&rows[0], "job"), Some("prometheus"));
    assert_eq!(cell(&rows[0], "value"), Some("1"));
    assert_eq!(cell(&rows[0], "profile"), None);
}

#[test]
fn single_profile_multiple_labels_omits_profile_column() {
    let sample = make_instant_row(&[("job", "node"), ("instance", "host:9100")], "42", None);
    let rows = instant_samples_to_toon_rows(&[sample], false);
    assert_eq!(keys(&rows[0]), vec!["instance", "job", "value"]);
    assert_eq!(cell(&rows[0], "profile"), None);
}

#[test]
fn single_profile_value_column_is_always_last() {
    let sample = make_instant_row(&[("a", "1"), ("z", "2")], "99", None);
    let rows = instant_samples_to_toon_rows(&[sample], false);
    let k = keys(&rows[0]);
    assert_eq!(k.last(), Some(&"value"));
    assert!(!k.contains(&"profile"));
}

#[test]
fn star_patterns_match_every_name_and_plain_names_match_themselves() {
    for name in ["", "http_requests_total", "a*b"] {
        assert!(matches_pattern(name, "*"));
        assert!(matches_pattern(name, "***"));
    }
    assert!(matches_pattern("node_cpu_seconds", "node_cpu_seconds"));
    assert!(!matches_pattern("node_cpu", "node_cpu_seconds"));
}

#[test]
fn name_search_keeps_matching_names_in_order() {
    let names: Vec<String> = ["http_requests_total", "cpu_seconds", "http_errors", "mem"]
        .iter()
        .map(|s| s.to_string())
        .collect();
    assert_eq!(
        cx_cli::metrics::matching_names(&names, "http_*"),
        vec!["http_requests_total".to_string(), "http_errors".to_string()]
    );
    assert_eq!(cx_cli::metrics::matching_names(&names, "*"), names);
    assert_eq!(
        cx_cli::metrics::matching_names(&names, "seconds"),
        vec!["cpu_seconds".to_string()]
    );
    assert!(cx_cli::metrics::matching_names(&names, "disk").is_empty());
}

#[test]
fn name_rows_carry_the_profile_only_when_shown() {
    let matches = vec![("eu".to_string(), "up".to_string())];
    let with = cx_cli::metrics::name_rows(&matches, true);
    assert_eq!(serde_json::to_string(&with).unwrap(), r#"[{"profile":"eu","name":"up"}]"#);
    let without = cx_cli::metrics::name_rows(&matches, false);
    assert_eq!(serde_json::to_string(&without).unwrap(), r#"[{"name":"up"}]"#);
    let values = cx_cli::metrics::name_values(&matches);
    assert_eq!(serde_json::to_string(&values).unwrap(), r#"["up"]"#);
}

#[test]
fn a_star_pattern_globs_its_pieces_in_order() {
    assert!(matches_pattern("axxbyyc", "a*b*c"));
    assert!(matches_pattern("abc", "a*b*c"));
    assert!(!matches_pattern("acb", "a*b*c"));
    assert!(!matches_pattern("ab", "ab*b"));
    assert!(matches_pattern("abb", "ab*b"));
    assert!(matches_pattern("xbbb", "*bb"));
}

#[test]
fn metric_search_prefers_the_description_and_needs_one_of_the_two() {
    assert_eq!(metric_search(Some("http_*"), Some("latency")), Ok(MetricSearch::Description("latency".to_string())));
    assert_eq!(metric_search(Some("http_*"), None), Ok(MetricSearch::Name("http_*".to_string())));
    let err = metric_search(None, None).unwrap_err();
    assert_eq!(err, MetricsError::NothingToSearch);
    assert_eq!(err.message(), "Provide at least one of --name or --description.");
}

#[test]
fn only_a_success_status_is_accepted() {
    assert!(check_query_status("success").is_ok());
    assert_eq!(
        check_query_status("error").unwrap_err().message(),
        "Query returned non-success status: error"
    );
    assert!(check_request_status("success").is_ok());
    assert_eq!(
        check_request_status("Success").unwrap_err().message(),
        "Request returned non-success status: Success"
    );
}
