use cx_cli::infra::api::columns_ordered;
use cx_cli::infra::api::GetRawDataResponse;
use cx_cli::infra::raw_data_inputs;
use cx_cli::infra::rows::raw_data_envelope;
use cx_cli::infra::api::GetResourcesResponse;
use cx_cli::infra::api::{
    encode_resource_id, CategoryType, FilterDescriptor, ResourceChangeData, ResourceTypeMapping,
    BoolFilter, FieldChangeData, FieldMatch, Filter, HealthHistoryEntry, HealthPolicyData, Op,
    ResourceData, ResourceDiffData, ResourceHealthHistory,
};
use cx_cli::infra::filter::{build_filter, parse_matches};
use cx_cli::infra::rows::{
    change_to_json, diff_to_json, filter_to_json, health_entry_to_json, resource_to_json,
    type_mapping_to_json,
};
use cx_cli::json::tag_profile;
use cx_cli::infra::table::{
    diff_table, display_name, flat_map_history, format_health_policies, list_table,
    render_change_value, union_of_columns,
};
use cx_cli::infra::{
    aggregate_total, build_list_envelope, missing_resources_note, change_window, plan_list, display_or_dash, format_count_summary, join_or_dash,
    require_non_empty, require_resource_ids, PageWindow, ProfileCounts, MAX_RESOURCE_IDS,
};
use cx_cli::timestamp::parse_timestamp_nanos;

#[test]
fn require_non_empty_trims_and_accepts_values() {
    assert_eq!(require_non_empty(" Hosts ", "--category").unwrap(), "Hosts");
}

#[test]
fn require_non_empty_rejects_empty_and_whitespace() {
    let err = require_non_empty("", "--category").unwrap_err();
    assert!(err.message().contains("--category must not be empty"));

    let err = require_non_empty("   ", "resource id").unwrap_err();
    assert!(err.message().contains("resource id must not be empty"));
}

#[test]
fn parse_matches_reads_one_attribute_and_one_value() {
    let matches = parse_matches(&["Region=eu-west-1".to_string()], "--match-all").unwrap();
    assert_eq!(
        matches,
        vec![FieldMatch {
            field: "Region".to_string(),
            values: vec!["eu-west-1".to_string()],
        }]
    );
}

#[test]
fn parse_matches_splits_values_on_commas() {
    let matches =
        parse_matches(&["Region=eu-west-1,us-east-1".to_string()], "--match-all").unwrap();
    assert_eq!(matches[0].values, vec!["eu-west-1", "us-east-1"]);
}

#[test]
fn parse_matches_dedupes_repeated_values_in_one_list() {
    let matches = parse_matches(
        &["Region=eu-west-1,us-east-1,eu-west-1".to_string()],
        "--match-all",
    )
    .unwrap();
    assert_eq!(matches[0].values, vec!["eu-west-1", "us-east-1"]);
}

#[test]
fn parse_matches_trims_whitespace_around_both_sides() {
    let matches = parse_matches(
        &[" Region = eu-west-1 , us-east-1 ".to_string()],
        "--match-all",
    )
    .unwrap();
    assert_eq!(matches[0].field, "Region");
    assert_eq!(matches[0].values, vec!["eu-west-1", "us-east-1"]);
}

#[test]
fn parse_matches_keeps_a_value_containing_an_equals() {
    let matches = parse_matches(&["Tag=env=prod".to_string()], "--match-all").unwrap();
    assert_eq!(matches[0].values, vec!["env=prod"]);
}

#[test]
fn parse_matches_rejects_a_missing_equals() {
    let err = parse_matches(&["Region".to_string()], "--match-all").unwrap_err();
    assert!(err.message().contains("expected NAME=VALUE"));
}

#[test]
fn parse_matches_rejects_an_empty_attribute_name() {
    let err = parse_matches(&["=eu-west-1".to_string()], "--match-all").unwrap_err();
    assert!(err.message().contains("must not be empty"));
}

#[test]
fn parse_matches_rejects_an_empty_value() {
    for entry in ["Region=", "Region=,", "Region= , "] {
        let err = parse_matches(&[entry.to_string()], "--match-all").unwrap_err();
        assert!(
            err.message().contains("value must not be empty"),
            "{entry} should be refused"
        );
    }
}

#[test]
fn parse_matches_rejects_a_repeated_attribute() {
    let err = parse_matches(
        &[
            "Region=eu-west-1".to_string(),
            "Region=us-east-1".to_string(),
        ],
        "--match-all",
    )
    .unwrap_err();
    let msg = err.message();
    assert!(msg.contains("'Region' given more than once"), "got: {msg}");
    assert!(msg.contains("--match-all Region=a,b"), "got: {msg}");
}

#[test]
fn parse_matches_detects_a_repeat_whatever_its_case() {
    let err = parse_matches(
        &[
            "Region=eu-west-1".to_string(),
            "region=us-east-1".to_string(),
        ],
        "--match-any",
    )
    .unwrap_err();
    assert!(err.message().contains("given more than once"));
}

#[test]
fn parse_matches_names_the_flag_it_was_given() {
    let err = parse_matches(&["Region".to_string()], "--match-any").unwrap_err();
    assert!(err.message().contains("--match-any"));
}

#[test]
fn parse_matches_empty_input_yields_no_matches() {
    assert!(parse_matches(&[], "--match-all").unwrap().is_empty());
}

#[test]
fn build_filter_is_absent_without_either_flag() {
    assert_eq!(build_filter(&[], &[]).unwrap(), None);
}

#[test]
fn build_filter_collapses_a_single_attribute() {
    let filter = build_filter(&["Health=critical".to_string()], &[])
        .unwrap()
        .unwrap();
    assert_eq!(
        filter,
        Filter::Match(FieldMatch {
            field: "Health".to_string(),
            values: vec!["critical".to_string()],
        })
    );
}

#[test]
fn build_filter_collapses_a_single_match_any() {
    let filter = build_filter(&[], &["Health=critical".to_string()])
        .unwrap()
        .unwrap();
    assert!(matches!(filter, Filter::Match(_)), "{filter:?}");
}

#[test]
fn build_filter_ands_every_match_all() {
    let filter = build_filter(
        &[
            "Region=eu-west-1".to_string(),
            "Health=critical".to_string(),
        ],
        &[],
    )
    .unwrap()
    .unwrap();
    let Filter::Bool(BoolFilter { op, operands }) = filter else {
        panic!("expected a bool");
    };
    assert_eq!(op, Op::And);
    assert_eq!(operands.len(), 2);
    assert!(operands.iter().all(|o| matches!(o, Filter::Match(_))));
}

#[test]
fn build_filter_ors_every_match_any() {
    let filter = build_filter(
        &[],
        &[
            "Name=coredns".to_string(),
            "Namespace=kube-system".to_string(),
        ],
    )
    .unwrap()
    .unwrap();
    let Filter::Bool(BoolFilter { op, operands }) = filter else {
        panic!("expected a bool");
    };
    assert_eq!(op, Op::Or);
    assert_eq!(operands.len(), 2);
}

#[test]
fn build_filter_nests_the_or_group_inside_the_and() {
    let filter = build_filter(
        &["OS=Linux".to_string()],
        &[
            "Health=critical".to_string(),
            "Region=eu-west-1".to_string(),
        ],
    )
    .unwrap()
    .unwrap();

    let Filter::Bool(BoolFilter { op, operands }) = filter else {
        panic!("expected a bool");
    };
    assert_eq!(op, Op::And);
    assert_eq!(operands.len(), 2);

    assert_eq!(
        operands[0],
        Filter::Match(FieldMatch {
            field: "OS".to_string(),
            values: vec!["Linux".to_string()],
        })
    );
    let Filter::Bool(BoolFilter {
        op: inner_op,
        operands: inner,
    }) = &operands[1]
    else {
        panic!("expected the second operand to be the OR group");
    };
    assert_eq!(*inner_op, Op::Or);
    assert_eq!(inner.len(), 2);
}

#[test]
fn build_filter_refuses_one_attribute_in_both_groups() {
    let err = build_filter(
        &["Region=eu-west-1".to_string()],
        &["Region=us-east-1".to_string()],
    )
    .unwrap_err();
    let msg = err.message();
    assert!(msg.contains("'Region' appears in both"), "got: {msg}");
    assert!(
        msg.contains("--match-all") && msg.contains("--match-any"),
        "got: {msg}"
    );
}

#[test]
fn build_filter_detects_a_cross_group_repeat_whatever_its_case() {
    let err = build_filter(
        &["Region=eu-west-1".to_string()],
        &["region=us-east-1".to_string()],
    )
    .unwrap_err();
    assert!(err.message().contains("appears in both"));
}

#[test]
fn build_filter_ands_the_values_of_one_match_all() {
    let filter = build_filter(&["Tag=a,b".to_string()], &[])
        .unwrap()
        .unwrap();
    let Filter::Bool(BoolFilter { op, operands }) = filter else {
        panic!("expected a bool");
    };
    assert_eq!(op, Op::And);
    assert_eq!(
        operands,
        vec![
            Filter::Match(FieldMatch {
                field: "Tag".to_string(),
                values: vec!["a".to_string()],
            }),
            Filter::Match(FieldMatch {
                field: "Tag".to_string(),
                values: vec!["b".to_string()],
            }),
        ]
    );
}

#[test]
fn build_filter_ors_the_values_of_one_match_any() {
    let filter = build_filter(&[], &["Tag=a,b".to_string()])
        .unwrap()
        .unwrap();
    assert_eq!(
        filter,
        Filter::Match(FieldMatch {
            field: "Tag".to_string(),
            values: vec!["a".to_string(), "b".to_string()],
        })
    );
}

#[test]
fn build_filter_expands_each_match_all_attribute_independently() {
    let filter = build_filter(&["Tag=a,b".to_string(), "OS=linux".to_string()], &[])
        .unwrap()
        .unwrap();
    let Filter::Bool(BoolFilter { op, operands }) = filter else {
        panic!("expected a bool");
    };
    assert_eq!(op, Op::And);
    assert_eq!(operands.len(), 3);
    assert!(operands.iter().all(|o| matches!(o, Filter::Match(_))));
}

#[test]
fn build_filter_keeps_the_groups_distinct() {
    let filter = build_filter(&["Tag=a,b".to_string()], &["Region=eu,us".to_string()])
        .unwrap()
        .unwrap();
    let Filter::Bool(BoolFilter { op, operands }) = filter else {
        panic!("expected a bool");
    };
    assert_eq!(op, Op::And);
    assert_eq!(
        operands,
        vec![
            Filter::Match(FieldMatch {
                field: "Tag".to_string(),
                values: vec!["a".to_string()],
            }),
            Filter::Match(FieldMatch {
                field: "Tag".to_string(),
                values: vec!["b".to_string()],
            }),
            Filter::Match(FieldMatch {
                field: "Region".to_string(),
                values: vec!["eu".to_string(), "us".to_string()],
            }),
        ]
    );
}

#[test]
fn build_filter_propagates_a_parse_error() {
    assert!(build_filter(&["Region".to_string()], &[]).is_err());
    assert!(build_filter(&[], &["Region".to_string()]).is_err());
}

#[test]
fn page_window_accepts_an_ascending_window_and_open_ends() {
    for (start_row, end_row) in [
        (None, None),
        (Some(0), Some(100)),
        (Some(100), Some(200)),
        (Some(100), None),
        (None, Some(50)),
        (Some(0), Some(1)),
    ] {
        assert!(PageWindow { start_row, end_row }.validate().is_ok());
    }
}

#[test]
fn page_window_rejects_a_negative_start_row() {
    let err = PageWindow {
        start_row: Some(-5),
        end_row: None,
    }
    .validate()
    .unwrap_err();
    let msg = err.message();
    assert!(msg.contains("--start-row must not be negative"), "got: {msg}");
    assert!(msg.contains("-5"), "got: {msg}");
}

#[test]
fn page_window_rejects_a_negative_end_row() {
    let err = PageWindow {
        start_row: None,
        end_row: Some(-1),
    }
    .validate()
    .unwrap_err();
    assert!(err.message().contains("--end-row must not be negative"));
}

#[test]
fn page_window_rejects_an_inverted_window() {
    let err = PageWindow {
        start_row: Some(200),
        end_row: Some(100),
    }
    .validate()
    .unwrap_err();
    let msg = err.message();
    assert!(msg.contains("must be greater than"), "got: {msg}");
    assert!(msg.contains("100") && msg.contains("200"), "got: {msg}");
}

#[test]
fn page_window_rejects_an_empty_window() {
    let err = PageWindow {
        start_row: Some(100),
        end_row: Some(100),
    }
    .validate()
    .unwrap_err();
    assert!(err.message().contains("selects no rows"));
}

fn counts(entries: &[(&str, i64, usize)]) -> Vec<ProfileCounts> {
    entries
        .iter()
        .map(|(profile, total_count, returned_count)| ProfileCounts {
            profile: profile.to_string(),
            total_count: *total_count,
            returned_count: *returned_count,
        })
        .collect()
}

#[test]
fn aggregate_total_sums_profile_totals() {
    let counts = counts(&[("prod", 150, 100), ("staging", 90, 90)]);
    assert_eq!(aggregate_total(&counts), 240);
}

#[test]
fn aggregate_total_of_no_profiles_is_zero() {
    assert_eq!(aggregate_total(&[]), 0);
}

#[test]
fn aggregate_total_saturates_instead_of_overflowing() {
    let counts = counts(&[("a", i64::MAX, 1), ("b", 1, 1)]);
    assert_eq!(aggregate_total(&counts), i64::MAX);
}

#[test]
fn count_summary_reports_the_total() {
    let counts = counts(&[("prod", 512_000, 100)]);
    assert_eq!(
        format_count_summary(100, 512_000, &counts, false),
        "Showing 100 of 512000 total resources"
    );
}

#[test]
fn count_summary_breaks_down_per_profile_when_fanning_out() {
    let counts = counts(&[("prod", 150, 100), ("staging", 90, 90)]);
    assert_eq!(
        format_count_summary(190, 240, &counts, true),
        "Showing 190 of 240 total resources\n  prod: 100 of 150\n  staging: 90 of 90"
    );
}

#[test]
fn mod_display_or_dash_falls_back_on_none_and_empty() {
    assert_eq!(display_or_dash(Some("value")), "value");
    assert_eq!(display_or_dash(Some("")), "-");
    assert_eq!(display_or_dash(None), "-");
}

fn resource(name: Option<&str>, columns: &[(&str, &str)]) -> ResourceData {
    let mut columns: Vec<(String, String)> = columns
        .iter()
        .map(|(k, v)| (k.to_string(), v.to_string()))
        .collect();
    columns.sort();
    ResourceData {
        resource_id: Some("4013226:host_id=i-077a1626590913a16".to_string()),
        name: name.map(String::from),
        columns,
        category: Some("Hosts".to_string()),
        resource_type: Some("EC2_Instances".to_string()),
        health_policies: Vec::new(),
    }
}

#[test]
fn display_name_prefers_the_name_column() {
    let r = resource(
        Some("i-077a1626590913a16"),
        &[("Name", "ip-10-109-46-236.eu-west-1.compute.internal")],
    );
    assert_eq!(
        display_name(&r),
        Some("ip-10-109-46-236.eu-west-1.compute.internal")
    );
}

#[test]
fn display_name_matches_the_column_key_case_insensitively() {
    let r = resource(Some("i-abc123"), &[("name", "web-server-1")]);
    assert_eq!(display_name(&r), Some("web-server-1"));
}

#[test]
fn display_name_falls_back_to_the_name_field() {
    let missing = resource(Some("i-abc123"), &[("region", "eu-west-1")]);
    assert_eq!(display_name(&missing), Some("i-abc123"));

    let empty = resource(Some("i-abc123"), &[("Name", "")]);
    assert_eq!(display_name(&empty), Some("i-abc123"));

    let neither = resource(None, &[]);
    assert_eq!(display_name(&neither), None);
}

fn typed_resource(category: &str, resource_type: &str, columns: &[(&str, &str)]) -> ResourceData {
    let mut r = resource(Some("name"), columns);
    r.category = Some(category.to_string());
    r.resource_type = Some(resource_type.to_string());
    r
}

#[test]
fn union_of_columns_sorts_each_row_then_appends_new_names() {
    let a = typed_resource(
        "Hosts",
        "EC2_Instances",
        &[("Region", "eu"), ("OS", "Linux")],
    );
    let b = typed_resource("Kubernetes", "Pods", &[("Namespace", "kube-system")]);
    assert_eq!(
        union_of_columns(&[&a, &b]),
        vec![
            "OS".to_string(),
            "Region".to_string(),
            "Namespace".to_string()
        ]
    );
}

#[test]
fn union_of_columns_leaves_name_to_its_own_column() {
    let r = typed_resource(
        "Hosts",
        "EC2_Instances",
        &[("Name", "web-01"), ("Region", "eu")],
    );
    assert_eq!(union_of_columns(&[&r]), vec!["Region".to_string()]);
}

#[test]
fn union_of_columns_does_not_repeat_a_shared_column() {
    let a = typed_resource("Hosts", "EC2_Instances", &[("Region", "eu")]);
    let b = typed_resource("Hosts", "Azure_VMs", &[("Region", "westeu")]);
    assert_eq!(union_of_columns(&[&a, &b]), vec!["Region".to_string()]);
}

#[test]
fn union_of_columns_is_empty_without_rows() {
    assert!(union_of_columns(&[]).is_empty());
}

fn merged_row(category: &str, resource_type: &str, columns: &[(&str, &str)]) -> (String, ResourceData) {
    ("p".to_string(), typed_resource(category, resource_type, columns))
}

#[test]
fn list_table_always_carries_the_classification_columns() {
    let (headers, rows) = list_table(&[merged_row(
        "Hosts",
        "EC2_Instances",
        &[("Region", "eu-west-1")],
    )]);
    assert_eq!(
        headers[..5],
        ["Resource ID", "Name", "Category", "Type", "Policies"]
    );
    assert_eq!(rows[0][3], "Hosts");
    assert_eq!(rows[0][4], "EC2_Instances");
}

#[test]
fn list_table_has_one_shape_whatever_the_row_mix() {
    let one_type = list_table(&[merged_row("Hosts", "EC2_Instances", &[("Region", "eu")])]).0;
    let mixed = list_table(&[
        merged_row("Hosts", "EC2_Instances", &[("Region", "eu")]),
        merged_row("Hosts", "Azure_VMs", &[("Region", "westeu")]),
    ])
    .0;
    assert_eq!(one_type, mixed);
}

#[test]
fn list_table_leaves_a_missing_column_blank() {
    let (headers, rows) = list_table(&[
        merged_row("Hosts", "EC2_Instances", &[("Region", "eu-west-1")]),
        merged_row("Kubernetes", "Pods", &[("Namespace", "kube-system")]),
    ]);
    assert_eq!(headers[5..], ["Region", "Namespace"]);
    assert_eq!(rows[0][6], "eu-west-1");
    assert_eq!(rows[0][7], "");
    assert_eq!(rows[1][6], "");
    assert_eq!(rows[1][7], "kube-system");
}

#[test]
fn list_table_dashes_a_missing_fixed_column() {
    let mut row = typed_resource("Hosts", "EC2_Instances", &[("Region", "eu")]);
    row.category = None;
    let (_, rows) = list_table(&[("p".to_string(), row)]);
    assert_eq!(rows[0][3], "-");
    assert_eq!(rows[0][6], "eu");
}

#[test]
fn a_version_timestamp_survives_being_fed_back() {
    let from_the_api = "2026-09-03T13:26:58.137128537Z";
    assert_eq!(parse_timestamp_nanos(from_the_api).unwrap(), from_the_api);
}

#[test]
fn timestamp_forms_the_cli_refuses() {
    for input in ["now+1d", "1788442018137128537", "yesterday", "7d ago", ""] {
        assert!(
            parse_timestamp_nanos(input).is_err(),
            "{input} should be refused"
        );
    }
}

fn ids(values: &[&str]) -> Vec<String> {
    values.iter().map(|v| v.to_string()).collect()
}

#[test]
fn require_resource_ids_trims_every_id() {
    assert_eq!(
        require_resource_ids(&ids(&[" id-1 ", "id-2"])).unwrap(),
        vec!["id-1", "id-2"]
    );
}

#[test]
fn require_resource_ids_rejects_an_empty_list() {
    let err = require_resource_ids(&[]).unwrap_err();
    assert!(err.message().contains("at least one resource id"));
}

#[test]
fn require_resource_ids_rejects_a_blank_id() {
    let err = require_resource_ids(&ids(&["id-1", "   "])).unwrap_err();
    assert!(err.message().contains("resource id must not be empty"));
}

#[test]
fn require_resource_ids_rejects_more_than_the_api_reads() {
    let at_cap: Vec<String> = (0..MAX_RESOURCE_IDS).map(|i| format!("id-{i}")).collect();
    assert_eq!(require_resource_ids(&at_cap).unwrap().len(), MAX_RESOURCE_IDS);

    let over_cap: Vec<String> = (0..MAX_RESOURCE_IDS + 1)
        .map(|i| format!("id-{i}"))
        .collect();
    let err = require_resource_ids(&over_cap).unwrap_err();
    assert!(err.message().contains("at most 100"), "got: {}", err.message());
}

fn history(resource_id: Option<&str>, samples: &[(&str, &str)]) -> ResourceHealthHistory {
    ResourceHealthHistory {
        resource_id: resource_id.map(String::from),
        health_history: samples
            .iter()
            .map(|(timestamp, status)| HealthHistoryEntry {
                timestamp: Some(timestamp.to_string()),
                status: Some(status.to_string()),
            })
            .collect(),
    }
}

#[test]
fn history_flattens_to_one_row_per_sample_naming_its_resource() {
    let results = [
        history(Some("id-1"), &[("2026-07-01T00:00:00Z", "Healthy")]),
        history(
            Some("id-2"),
            &[
                ("2026-07-01T00:00:00Z", "Critical"),
                ("2026-07-02T00:00:00Z", "Healthy"),
            ],
        ),
    ];

    let rows: Vec<(String, String)> = flat_map_history(&results)
        .into_iter()
        .map(|(resource, entry)| (resource.to_string(), display_or_dash(entry.status.as_deref())))
        .collect();

    assert_eq!(
        rows,
        vec![
            ("id-1".to_string(), "Healthy".to_string()),
            ("id-2".to_string(), "Critical".to_string()),
            ("id-2".to_string(), "Healthy".to_string()),
        ]
    );
}

#[test]
fn history_skips_a_resource_without_samples() {
    let results = [
        history(Some("id-1"), &[]),
        history(Some("id-2"), &[("2026-07-01T00:00:00Z", "Healthy")]),
    ];
    let rows: Vec<String> = flat_map_history(&results)
        .into_iter()
        .map(|(resource, _)| resource.to_string())
        .collect();
    assert_eq!(rows, vec!["id-2".to_string()]);
}

#[test]
fn history_dashes_a_missing_resource_id() {
    let results = [history(None, &[("2026-07-01T00:00:00Z", "Healthy")])];
    let rows: Vec<String> = flat_map_history(&results)
        .into_iter()
        .map(|(resource, _)| resource.to_string())
        .collect();
    assert_eq!(rows, vec!["-".to_string()]);
}

#[test]
fn change_window_defaults_to_now_and_keeps_nanoseconds() {
    let given = ids(&["id-1"]);
    let (kept, from, to) =
        change_window(&given, "2026-09-06T11:00:00.137128537Z", None).unwrap();

    assert_eq!(kept, vec!["id-1"]);
    assert_eq!(from, "2026-09-06T11:00:00.137128537Z");
    assert!(to.ends_with('Z'), "got: {to}");
    assert!(to > from, "an unset --to should resolve to now");
}

#[test]
fn change_window_rejects_an_inverted_window() {
    let err = change_window(&ids(&["id-1"]), "now-1d", Some("now-7d")).unwrap_err();
    assert!(err.message().contains("--to"), "got: {}", err.message());
    assert!(err.message().contains("--from"), "got: {}", err.message());
}

#[test]
fn change_window_accepts_a_window_of_zero_width() {
    let at = "2026-09-06T11:00:00Z";
    assert!(change_window(&ids(&["id-1"]), at, Some(at)).is_ok());
}

#[test]
fn change_window_rejects_a_bad_time_and_an_over_long_id_list() {
    assert!(change_window(&ids(&["id-1"]), "half past four", None).is_err());

    let over_cap: Vec<String> = (0..MAX_RESOURCE_IDS + 1)
        .map(|i| format!("id-{i}"))
        .collect();
    let err = change_window(&over_cap, "now-1d", None).unwrap_err();
    assert!(err.message().contains("at most 100"), "got: {}", err.message());
}

fn policy(name: &str, status: &str) -> HealthPolicyData {
    HealthPolicyData {
        id: Some("019f4b81-0350-7561-b0cb-4a6b64c73882".to_string()),
        status: Some(status.to_string()),
        name: Some(name.to_string()),
    }
}

#[test]
fn health_policies_render_every_policy_with_its_status() {
    let policies = [
        policy("Deployment has unavailable replicas", "critical"),
        policy("Pod CPU utilization high", "healthy"),
    ];
    assert_eq!(
        join_or_dash(&format_health_policies(&policies)),
        "Deployment has unavailable replicas (critical), Pod CPU utilization high (healthy)"
    );
}

#[test]
fn an_unresolved_policy_name_renders_as_a_dash() {
    assert_eq!(
        format_health_policies(&[policy("", "healthy")]),
        vec!["- (healthy)".to_string()]
    );
}

#[test]
fn a_resource_with_no_policies_renders_as_a_dash() {
    assert_eq!(join_or_dash(&format_health_policies(&[])), "-");
}

#[test]
fn list_table_carries_the_policies_column() {
    let mut row = typed_resource("Kubernetes", "Deployments", &[("Namespace", "shop")]);
    row.health_policies = vec![policy("Deployment has unavailable replicas", "critical")];
    let (headers, rows) = list_table(&[("p".to_string(), row)]);

    assert_eq!(headers[4], "Policies");
    assert_eq!(rows[0][5], "Deployment has unavailable replicas (critical)");
}

#[test]
fn encode_resource_id_escapes_reserved_characters() {
    assert_eq!(
        encode_resource_id("1001234:host_id=i-abc|123"),
        "1001234%3Ahost_id%3Di-abc%7C123"
    );
    assert_eq!(encode_resource_id("plain-id_1.2~3"), "plain-id_1.2~3");
}

fn json(text: &str) -> serde_json::Value {
    serde_json::from_str(text).unwrap()
}

fn change(field: &str, before: serde_json::Value, after: serde_json::Value) -> FieldChangeData {
    FieldChangeData {
        field: Some(field.to_string()),
        before,
        after,
    }
}

fn diff(outcome: &str, changes: Vec<FieldChangeData>) -> ResourceDiffData {
    ResourceDiffData {
        resource_id: Some("7000098:a=frontend".to_string()),
        source: Some("OTEL".to_string()),
        outcome: Some(outcome.to_string()),
        compared_from: None,
        compared_to: None,
        changes,
    }
}

#[test]
fn diff_table_repeats_the_resource_down_its_changes() {
    let results = [diff(
        "changed",
        vec![
            change("spec.replicas", json("3"), json("10")),
            change("spec.image", json(r#""shop:1.4.0""#), json(r#""shop:1.5.0""#)),
        ],
    )];
    let rows = diff_table(&results, "p");

    assert_eq!(rows.len(), 2);
    assert_eq!(rows[0][1], "7000098:a=frontend");
    assert_eq!(rows[1][1], "7000098:a=frontend");
    assert_eq!(rows[0][4], "spec.replicas");
    assert_eq!(rows[1][4], "spec.image");
}

#[test]
fn diff_table_keeps_an_outcome_that_carries_no_changes() {
    let rows = diff_table(&[diff("unchanged", vec![])], "p");
    assert_eq!(rows.len(), 1);
    assert_eq!(rows[0][3], "unchanged");
    assert_eq!(rows[0][4..], ["-", "-", "-"]);
}

#[test]
fn change_values_render_by_type() {
    assert_eq!(render_change_value(&json(r#""shop:1.5.0""#)), "shop:1.5.0");
    assert_eq!(render_change_value(&json("10")), "10");
    assert_eq!(render_change_value(&json("true")), "true");
    assert_eq!(
        render_change_value(&json(r#"{ "image": "x" }"#)),
        r#"{"image":"x"}"#
    );
}

#[test]
fn a_null_change_value_renders_as_null() {
    assert_eq!(render_change_value(&serde_json::Value::Null), "null");
}

#[test]
fn diff_table_rows_carry_seven_cells_in_order() {
    let results = [
        diff("changed", vec![change("spec.replicas", json("3"), json("10"))]),
        ResourceDiffData {
            resource_id: None,
            source: None,
            outcome: Some("created".to_string()),
            compared_from: None,
            compared_to: None,
            changes: vec![],
        },
    ];
    let rows = diff_table(&results, "prod");
    assert_eq!(
        rows,
        vec![
            vec!["prod", "7000098:a=frontend", "OTEL", "changed", "spec.replicas", "3", "10"],
            vec!["prod", "-", "-", "created", "-", "-", "-"],
        ]
    );
}

fn rows(n: usize) -> Vec<serde_json::Value> {
    (0..n).map(|i| serde_json::Value::from(i as u64)).collect()
}

fn envelope_counts(entries: &[(&str, i64, usize)]) -> Vec<ProfileCounts> {
    entries
        .iter()
        .map(|(profile, total_count, returned_count)| ProfileCounts {
            profile: profile.to_string(),
            total_count: *total_count,
            returned_count: *returned_count,
        })
        .collect()
}

#[test]
fn envelope_reports_total_and_returned_counts() {
    let counts = envelope_counts(&[("prod", 512_000, 100)]);
    let envelope = build_list_envelope(512_000, rows(100), &counts, false);

    assert_eq!(envelope.total_count, 512_000);
    assert_eq!(envelope.returned_count, 100);
    assert_eq!(envelope.resources.len(), 100);
}

#[test]
fn envelope_distinguishes_a_partial_window_from_the_fleet_total() {
    let counts = envelope_counts(&[("prod", 512_000, 100)]);
    let envelope = build_list_envelope(512_000, rows(100), &counts, false);

    assert_ne!(envelope.total_count, envelope.returned_count as i64);
    assert_eq!(envelope.total_count, 512_000);
    assert_eq!(envelope.returned_count, 100);
}

#[test]
fn envelope_returned_count_matches_the_emitted_row_count() {
    let counts = envelope_counts(&[("prod", 150, 100), ("staging", 90, 90)]);
    let envelope = build_list_envelope(240, rows(190), &counts, true);

    assert_eq!(envelope.returned_count, 190);
    assert_eq!(envelope.returned_count, envelope.resources.len());
}

#[test]
fn envelope_omits_per_profile_counts_for_a_single_profile() {
    let counts = envelope_counts(&[("prod", 150, 100)]);
    let envelope = build_list_envelope(150, rows(100), &counts, false);
    assert!(envelope.counts_by_profile.is_none());
}

#[test]
fn envelope_breaks_counts_down_per_profile_when_fanning_out() {
    let counts = envelope_counts(&[("prod", 150, 100), ("staging", 90, 90)]);
    let envelope = build_list_envelope(240, rows(190), &counts, true);

    let per_profile = envelope.counts_by_profile.unwrap();
    assert_eq!(per_profile.len(), 2);
    assert_eq!(per_profile[0].profile, "prod");
    assert_eq!(per_profile[0].total_count, 150);
    assert_eq!(per_profile[0].returned_count, 100);
    assert_eq!(per_profile[1].profile, "staging");
    assert_eq!(per_profile[1].total_count, 90);
    assert_eq!(per_profile[1].returned_count, 90);
}

#[test]
fn envelope_for_no_results_still_reports_counts() {
    let envelope = build_list_envelope(0, rows(0), &envelope_counts(&[("prod", 0, 0)]), false);
    assert_eq!(envelope.total_count, 0);
    assert_eq!(envelope.returned_count, 0);
    assert!(envelope.resources.is_empty());
}

#[test]
fn tag_profile_inserts_key_only_when_multi_profile() {
    let tagged = tag_profile(json(r#"{"a": 1}"#), true, "prod");
    assert_eq!(tagged["profile"], "prod");

    let untagged = tag_profile(json(r#"{"a": 1}"#), false, "prod");
    assert!(untagged.get("profile").is_none());
}

#[test]
fn diff_json_keeps_the_raw_types_of_both_sides() {
    let results = diff(
        "changed",
        vec![
            change("spec.replicas", json("3"), json("10")),
            change("spec.paused", json("false"), json("true")),
        ],
    );
    let v = diff_to_json(&results);

    assert_eq!(v["changes"][0]["before"], json("3"));
    assert_eq!(v["changes"][0]["after"], json("10"));
    assert_eq!(v["changes"][1]["before"], json("false"));
    assert_eq!(v["outcome"], "changed");
}

#[test]
fn resource_json_keeps_the_policies_as_the_api_sent_them() {
    let mut row = typed_resource("Kubernetes", "Deployments", &[]);
    row.health_policies = vec![policy("", "pending")];
    let v = resource_to_json(&row, false, "p");

    assert_eq!(v["health_policies"][0]["name"], "");
    assert_eq!(v["health_policies"][0]["status"], "pending");
    assert_eq!(
        v["health_policies"][0]["id"],
        "019f4b81-0350-7561-b0cb-4a6b64c73882"
    );
}

#[test]
fn resource_json_carries_an_empty_array_when_no_policy_applies() {
    let row = typed_resource("Hosts", "EC2_Instances", &[]);
    let v = resource_to_json(&row, false, "p");
    assert_eq!(v["health_policies"], json("[]"));
}

#[test]
fn a_json_row_is_tagged_with_its_profile_only_when_asked() {
    let item = ResourceData {
        resource_id: Some("id".to_string()),
        name: Some("n".to_string()),
        columns: vec![],
        category: Some("Hosts".to_string()),
        resource_type: Some("EC2_Instances".to_string()),
        health_policies: vec![],
    };

    assert_eq!(resource_to_json(&item, true, "prod")["profile"], "prod");
    assert!(resource_to_json(&item, false, "prod")
        .get("profile")
        .is_none());
}

#[test]
fn a_json_row_lists_its_keys_in_order_with_the_columns_object() {
    let item = ResourceData {
        resource_id: Some("4013226:host_id=i-077a".to_string()),
        name: Some("prod-api-01".to_string()),
        columns: vec![
            ("Name".to_string(), "prod-api-01".to_string()),
            ("Region".to_string(), "eu-west-1".to_string()),
        ],
        category: Some("Hosts".to_string()),
        resource_type: Some("EC2_Instances".to_string()),
        health_policies: vec![],
    };
    assert_eq!(
        resource_to_json(&item, false, "prod"),
        json(
            r#"{"resource_id": "4013226:host_id=i-077a", "name": "prod-api-01", "category": "Hosts", "type": "EC2_Instances", "health_policies": [], "columns": { "Name": "prod-api-01", "Region": "eu-west-1" }}"#
        )
    );
    let keys: Vec<String> = resource_to_json(&item, true, "prod")
        .as_object()
        .unwrap()
        .keys()
        .cloned()
        .collect();
    assert_eq!(
        keys,
        vec!["resource_id", "name", "category", "type", "health_policies", "columns", "profile"]
    );
}

#[test]
fn missing_resources_are_reported_only_when_some_did_not_answer() {
    assert_eq!(
        missing_resources_note(3, 2),
        Some("2 of 3 resource(s) answered; the rest were not recognised or were repeats".to_string())
    );
    assert_eq!(missing_resources_note(2, 2), None);
}

#[test]
fn health_entry_json_keeps_timestamp_and_status() {
    let entry = HealthHistoryEntry {
        timestamp: Some("2026-07-01T00:00:00Z".to_string()),
        status: None,
    };
    assert_eq!(
        health_entry_to_json(&entry),
        json(r#"{"timestamp": "2026-07-01T00:00:00Z", "status": null}"#)
    );
}

#[test]
fn filter_and_type_json_rows() {
    let filter = FilterDescriptor {
        name: Some("Region".to_string()),
        kind: None,
        wildcard: true,
        values: vec!["eu-west-1".to_string()],
        types: vec![CategoryType {
            category: Some("Hosts".to_string()),
            resource_type: None,
        }],
    };
    assert_eq!(
        filter_to_json(&filter, true, "prod"),
        json(
            r#"{"name": "Region", "kind": null, "wildcard": true, "values": ["eu-west-1"], "types": [{"category": "Hosts", "type": null}], "profile": "prod"}"#
        )
    );
    let mapping = ResourceTypeMapping {
        category_type: Some(CategoryType {
            category: Some("Kubernetes".to_string()),
            resource_type: Some("Pods".to_string()),
        }),
        label: Some("Pods".to_string()),
    };
    assert_eq!(
        type_mapping_to_json(&mapping, false, "p"),
        json(r#"{"category": "Kubernetes", "type": "Pods", "label": "Pods"}"#)
    );
    let bare = ResourceTypeMapping {
        category_type: None,
        label: None,
    };
    assert_eq!(
        type_mapping_to_json(&bare, false, "p"),
        json(r#"{"category": null, "type": null, "label": null}"#)
    );
}

#[test]
fn change_json_row_counts_the_changes() {
    let change = ResourceChangeData {
        resource_id: Some("id-1".to_string()),
        source: Some("OTEL".to_string()),
        outcome: Some("changed".to_string()),
        last_change: None,
        change_count: Some(4),
    };
    assert_eq!(
        change_to_json(&change),
        json(
            r#"{"resource_id": "id-1", "source": "OTEL", "outcome": "changed", "last_change": null, "change_count": 4}"#
        )
    );
}

#[test]
fn collected_resources_keep_counts_per_profile_and_resources_in_order() {
    let answers = vec![
        (
            "eu".to_string(),
            GetResourcesResponse {
                resources: vec![resource(Some("a"), &[]), resource(Some("b"), &[])],
                total_count: 10,
            },
        ),
        (
            "us".to_string(),
            GetResourcesResponse { resources: vec![resource(Some("c"), &[])], total_count: i64::MAX },
        ),
    ];
    let collected = cx_cli::infra::collect_resources(answers);
    assert_eq!(collected.counts.len(), 2);
    assert_eq!(collected.counts[0].profile, "eu");
    assert_eq!(collected.counts[0].total_count, 10);
    assert_eq!(collected.counts[0].returned_count, 2);
    assert_eq!(collected.counts[1].returned_count, 1);
    let names: Vec<(&str, Option<&str>)> = collected
        .resources
        .iter()
        .map(|(p, r)| (p.as_str(), r.name.as_deref()))
        .collect();
    assert_eq!(names, vec![("eu", Some("a")), ("eu", Some("b")), ("us", Some("c"))]);
    assert_eq!(collected.total_count, i64::MAX);
}

#[test]
fn raw_data_envelope_writes_the_version_then_the_document() {
    let doc: serde_json::Value = serde_json::from_str(r#"{"a": 1}"#).unwrap();
    let env = raw_data_envelope(GetRawDataResponse {
        raw_data: Some(doc),
        version_timestamp: Some("2024-01-01T00:00:00Z".to_string()),
    });
    assert_eq!(
        serde_json::to_string(&env).unwrap(),
        r#"{"version_timestamp":"2024-01-01T00:00:00Z","raw_data":{"a":1}}"#
    );
    let missing = raw_data_envelope(GetRawDataResponse { raw_data: None, version_timestamp: None });
    assert_eq!(
        serde_json::to_string(&missing).unwrap(),
        r#"{"version_timestamp":null,"raw_data":null}"#
    );
}

#[test]
fn raw_data_inputs_trim_and_resolve() {
    let (id, ts) = raw_data_inputs("  r-1 ", None).unwrap();
    assert_eq!(id, "r-1");
    assert_eq!(ts, None);
    let (_, ts) = raw_data_inputs("r-1", Some("2024-01-02T03:04:05Z")).unwrap();
    assert_eq!(ts.as_deref(), Some("2024-01-02T03:04:05.000000000Z"));
    let err = raw_data_inputs(" ", Some("x")).unwrap_err();
    assert_eq!(err.message(), "resource id must not be empty");
    let err = raw_data_inputs("r-1", Some("  ")).unwrap_err();
    assert_eq!(err.message(), "--timestamp must not be empty");
    assert!(raw_data_inputs("r-1", Some("yesterday")).is_err());
}

#[test]
fn change_window_refuses_blank_inputs_in_order() {
    let err = change_window(&ids(&["id-1", " "]), "now-1d", None).unwrap_err();
    assert_eq!(err.message(), "resource id must not be empty");
    let err = change_window(&ids(&["id-1"]), "  ", None).unwrap_err();
    assert_eq!(err.message(), "--from must not be empty");
    let err = change_window(&ids(&["id-1"]), "now-1d", Some(" ")).unwrap_err();
    assert_eq!(err.message(), "--to must not be empty");
    let given = ids(&[" id-1 "]);
    let (got, from, to) =
        change_window(&given, " 2026-01-01T00:00:00Z ", Some("2026-01-02T00:00:00Z")).unwrap();
    assert_eq!(got, vec!["id-1"]);
    assert_eq!(from, "2026-01-01T00:00:00.000000000Z");
    assert_eq!(to, "2026-01-02T00:00:00.000000000Z");
}

#[test]
fn plan_list_owes_a_plan_once_something_narrows() {
    let ok = plan_list(Some(" Hosts "), None, &[], &[], PageWindow { start_row: None, end_row: None })
        .unwrap();
    assert_eq!(ok.category.as_deref(), Some("Hosts"));
    assert!(ok.resource_type.is_none());
    assert!(ok.filter.is_none());
    let err = plan_list(None, None, &[], &[], PageWindow { start_row: None, end_row: None }).unwrap_err();
    assert!(matches!(err, cx_cli::infra::InfraError::NothingToNarrow));
    let err = plan_list(Some("Hosts"), None, &[], &[], PageWindow { start_row: Some(-1), end_row: None })
        .unwrap_err();
    assert!(matches!(err, cx_cli::infra::InfraError::NegativeStartRow { start: -1 }));
    let all = vec!["region=eu".to_string(), "bad".to_string(), "=x".to_string()];
    let err = plan_list(Some("Hosts"), None, &all, &[], PageWindow { start_row: None, end_row: None })
        .unwrap_err();
    assert!(matches!(err, cx_cli::infra::InfraError::MatchMissingEquals { .. }));
}

#[test]
fn columns_ordered_checks_strictly_ascending_names() {
    let pair = |k: &str| (k.to_string(), "v".to_string());
    assert!(columns_ordered(&[pair("a"), pair("b"), pair("c")]));
    assert!(columns_ordered(&[]));
    assert!(!columns_ordered(&[pair("b"), pair("a")]));
    assert!(!columns_ordered(&[pair("a"), pair("a")]));
}

#[test]
fn now_always_resolves() {
    assert!(parse_timestamp_nanos("now").is_ok());
    assert!(parse_timestamp_nanos("  now ").unwrap().ends_with('Z'));
}
