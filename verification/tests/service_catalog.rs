use cx_cli::service_catalog::data::{merge_entities_data, merge_entities_data_checked, series_totals_fit};
use cx_cli::service_catalog::data::{
    column_metadata_to_json, flatten_column_result, flatten_column_value, flatten_table_row,
    format_entities_data_response, table_rows, EntitiesDataResult, TableData, TableRow, TimeseriesData,
};
use cx_cli::service_catalog::{
    build_data_body, ApmFilterInput, ColumnMetadata, DataParams,
    display_json_or_dash, display_or_dash, encode_entity_id, normalize_entity_type, parse_aggregation, parse_filters,
    parse_sort_order, validate_columns, validate_group_by, validate_table_controls_scope,
    DATA_AGGREGATION_TABLE, DATA_AGGREGATION_TIMESERIES, SORT_ORDER_ASC, SORT_ORDER_DESC,
};

#[test]
fn normalize_entity_type_accepts_short_lowercase_form() {
    assert_eq!(normalize_entity_type("service").unwrap(), "ENTITY_TYPE_SERVICE");
}

#[test]
fn normalize_entity_type_accepts_hyphenated_short_form() {
    assert_eq!(normalize_entity_type("k8s-pod").unwrap(), "ENTITY_TYPE_K8S_POD");
    assert_eq!(
        normalize_entity_type("database-operation").unwrap(),
        "ENTITY_TYPE_DATABASE_OPERATION"
    );
}

#[test]
fn normalize_entity_type_accepts_full_proto_name_any_case() {
    assert_eq!(normalize_entity_type("ENTITY_TYPE_JVM").unwrap(), "ENTITY_TYPE_JVM");
    assert_eq!(normalize_entity_type("entity_type_jvm").unwrap(), "ENTITY_TYPE_JVM");
}

#[test]
fn normalize_entity_type_trims_whitespace() {
    assert_eq!(normalize_entity_type("  service  ").unwrap(), "ENTITY_TYPE_SERVICE");
}

#[test]
fn normalize_entity_type_rejects_empty() {
    let err = normalize_entity_type("  ").unwrap_err();
    assert!(err.message().contains("must not be empty"));
}

#[test]
fn normalize_entity_type_rejects_unknown_type() {
    let err = normalize_entity_type("pod").unwrap_err();
    let msg = err.message();
    assert!(msg.contains("unknown entity type 'pod'"), "got: {msg}");
    assert!(msg.contains("k8s-pod"), "got: {msg}");
}

#[test]
fn normalize_entity_type_rejects_unspecified() {
    assert!(normalize_entity_type("unspecified").is_err());
    assert!(normalize_entity_type("ENTITY_TYPE_UNSPECIFIED").is_err());
}

#[test]
fn encode_entity_id_escapes_reserved_characters() {
    assert_eq!(encode_entity_id("checkout/api"), "checkout%2Fapi");
    assert_eq!(encode_entity_id("plain-name_1.2~3"), "plain-name_1.2~3");
}

#[test]
fn parse_aggregation_accepts_known_values_case_insensitively() {
    assert_eq!(parse_aggregation("table").unwrap(), DATA_AGGREGATION_TABLE);
    assert_eq!(parse_aggregation("TIMESERIES").unwrap(), DATA_AGGREGATION_TIMESERIES);
}

#[test]
fn parse_aggregation_rejects_unknown_value() {
    let err = parse_aggregation("chart").unwrap_err();
    assert!(err.message().contains("unknown --aggregation 'chart'"));
}

#[test]
fn parse_sort_order_accepts_asc_and_desc() {
    assert_eq!(parse_sort_order("asc").unwrap(), SORT_ORDER_ASC);
    assert_eq!(parse_sort_order("DESC").unwrap(), SORT_ORDER_DESC);
}

#[test]
fn parse_sort_order_rejects_unknown_value() {
    assert!(parse_sort_order("up").is_err());
}

#[test]
fn table_controls_allowed_for_table_aggregation() {
    assert!(validate_table_controls_scope(
        DATA_AGGREGATION_TABLE,
        Some(10),
        Some("latency"),
        Some(SORT_ORDER_ASC)
    )
    .is_ok());
}

#[test]
fn table_controls_rejected_for_timeseries_aggregation() {
    let err = validate_table_controls_scope(DATA_AGGREGATION_TIMESERIES, Some(10), None, None)
        .unwrap_err();
    assert!(err.message().contains("only apply to --aggregation table"));
}

#[test]
fn timeseries_without_table_controls_is_fine() {
    assert!(validate_table_controls_scope(DATA_AGGREGATION_TIMESERIES, None, None, None).is_ok());
}

#[test]
fn validate_columns_rejects_empty_list() {
    let err = validate_columns(&[]).unwrap_err();
    assert!(err.message().contains("--column is required"));
}

#[test]
fn validate_columns_trims_and_rejects_blank_entries() {
    assert_eq!(
        validate_columns(&[" latency_p99 ".to_string()]).unwrap(),
        vec!["latency_p99".to_string()]
    );
    assert!(validate_columns(&["  ".to_string()]).is_err());
}

#[test]
fn validate_group_by_allows_empty() {
    assert!(validate_group_by(&[]).unwrap().is_empty());
}

#[test]
fn parse_filters_splits_comma_separated_values() {
    let filters = parse_filters(&["environment=prod,staging".to_string()]).unwrap();
    assert_eq!(filters.len(), 1);
    assert_eq!(filters[0].label_name, "environment");
    assert_eq!(filters[0].label_values, vec!["prod", "staging"]);
}

#[test]
fn parse_filters_rejects_missing_equals() {
    let err = parse_filters(&["environment".to_string()]).unwrap_err();
    assert!(err.message().contains("expected label=value1,value2"));
}

#[test]
fn parse_filters_rejects_empty_values() {
    let err = parse_filters(&["environment=".to_string()]).unwrap_err();
    assert!(err.message().contains("at least one non-empty value"));
}

#[test]
fn parse_filters_rejects_repeated_label() {
    let err = parse_filters(&["a=1".to_string(), "a=2".to_string()]).unwrap_err();
    assert!(err.message().contains("given more than once"));
}

#[test]
fn parse_filters_allows_distinct_labels() {
    let filters =
        parse_filters(&["environment=prod".to_string(), "team=core".to_string()]).unwrap();
    assert_eq!(filters.len(), 2);
}

#[test]
fn display_or_dash_falls_back_on_none_and_empty() {
    assert_eq!(display_or_dash(Some("value")), "value");
    assert_eq!(display_or_dash(Some("")), "-");
    assert_eq!(display_or_dash(None), "-");
}

#[test]
fn display_json_or_dash_unwraps_strings_and_stringifies_others() {
    let text = |t: &str| -> serde_json::Value { serde_json::from_str(t).unwrap() };
    assert_eq!(display_json_or_dash(Some(&text(r#""checkout""#))), "checkout");
    assert_eq!(display_json_or_dash(Some(&text("42.5"))), "42.5");
    assert_eq!(display_json_or_dash(Some(&serde_json::Value::Null)), "-");
    assert_eq!(display_json_or_dash(None), "-");
    assert_eq!(display_json_or_dash(Some(&text(r#""""#))), "-");
}

fn parse(text: &str) -> serde_json::Value {
    serde_json::from_str(text).unwrap()
}

#[test]
fn flatten_column_value_returns_the_single_set_field() {
    let value = flatten_column_value(&parse(r#"{ "metric": 42.5 }"#)).ok().unwrap();
    assert_eq!(value, parse("42.5"));
}

#[test]
fn flatten_column_value_wraps_with_warning_when_present() {
    let value = flatten_column_value(&parse(
        r#"{ "metric": 1.0, "warning": { "code": "CODE_RATE_LIMITED" } }"#,
    ))
    .ok()
    .unwrap();
    assert_eq!(value["value"], parse("1.0"));
    assert_eq!(value["warning"]["code"], parse(r#""CODE_RATE_LIMITED""#));
}

#[test]
fn flatten_column_value_rejects_zero_value_fields() {
    let err = flatten_column_value(&parse(r#"{ "warning": null }"#)).err().unwrap();
    assert!(err.message().contains("expected exactly one value field"));
}

#[test]
fn flatten_column_value_rejects_multiple_value_fields() {
    let err = flatten_column_value(&parse(r#"{ "metric": 1.0, "health": {} }"#)).err().unwrap();
    assert!(err.message().contains("expected exactly one value field"));
    assert_eq!(
        err.message(),
        r#"malformed service-catalog column value: expected exactly one value field, got ["metric", "health"]"#
    );
}

#[test]
fn flatten_column_value_keeps_a_null_warning_out() {
    let value = flatten_column_value(&parse(r#"{ "warning": null, "metric": 3 }"#)).ok().unwrap();
    assert_eq!(value, parse("3"));
    assert!(flatten_column_value(&parse("[1]")).is_err());
}

#[test]
fn flatten_column_result_unwraps_value() {
    let value = flatten_column_result(&parse(r#"{ "value": { "metric": 7.0 } }"#)).ok().unwrap();
    assert_eq!(value, parse("7.0"));
}

#[test]
fn flatten_column_result_maps_error_message() {
    let value = flatten_column_result(&parse(
        r#"{ "error": { "code": "CODE_QUERY_TIMEOUT", "message": "took too long" } }"#,
    ))
    .ok()
    .unwrap();
    assert_eq!(value["error"], parse(r#""took too long""#));
}

#[test]
fn flatten_column_result_falls_back_to_error_code() {
    let value = flatten_column_result(&parse(r#"{ "error": { "code": "CODE_RATE_LIMITED" } }"#))
        .ok()
        .unwrap();
    assert_eq!(value["error"], parse(r#""CODE_RATE_LIMITED""#));
    let unknown = flatten_column_result(&parse(r#"{ "error": {} }"#)).ok().unwrap();
    assert_eq!(unknown["error"], parse(r#""unknown error""#));
}

#[test]
fn flatten_column_result_rejects_neither_value_nor_error() {
    let err = flatten_column_result(&parse("{}")).err().unwrap();
    assert!(err
        .message()
        .contains("expected exactly one of 'value' or 'error'"));
}

#[test]
fn flatten_column_result_rejects_both_value_and_error() {
    let err = flatten_column_result(&parse(r#"{ "value": {}, "error": {} }"#)).err().unwrap();
    assert!(err
        .message()
        .contains("expected exactly one of 'value' or 'error'"));
}

#[test]
fn flatten_table_row_merges_identity_and_values() {
    let row = TableRow {
        identity: vec![("name".to_string(), "checkout".to_string())],
        values: vec![(
            "latency_p99".to_string(),
            parse(r#"{ "value": { "metric": 42.0 } }"#),
        )],
    };

    let flat = flatten_table_row(&row).ok().unwrap();
    assert_eq!(flat["name"], parse(r#""checkout""#));
    assert_eq!(flat["latency_p99"], parse("42.0"));
}

#[test]
fn flatten_table_row_propagates_malformed_column_errors() {
    let row = TableRow {
        identity: vec![],
        values: vec![("latency_p99".to_string(), parse("{}"))],
    };
    assert!(flatten_table_row(&row).is_err());
}

fn column(id: &str, display_name: Option<&str>) -> ColumnMetadata {
    ColumnMetadata {
        id: Some(id.to_string()),
        display_name: display_name.map(String::from),
        unit: None,
    }
}

#[test]
fn format_entities_data_response_flattens_table() {
    let result = EntitiesDataResult {
        table: Some(TableData {
            rows: vec![TableRow {
                identity: vec![("name".to_string(), "checkout".to_string())],
                values: vec![(
                    "latency_p99".to_string(),
                    parse(r#"{ "value": { "metric": 42.0 } }"#),
                )],
            }],
            columns: vec![column("latency_p99", Some("P99 Latency"))],
        }),
        timeseries: None,
    };

    let formatted = format_entities_data_response(result).ok().unwrap();
    assert_eq!(formatted["rows"][0]["name"], parse(r#""checkout""#));
    assert_eq!(formatted["rows"][0]["latency_p99"], parse("42.0"));
    assert_eq!(formatted["columns"][0]["id"], parse(r#""latency_p99""#));
    assert_eq!(formatted["columns"][0]["unit"], serde_json::Value::Null);
}

#[test]
fn format_entities_data_response_passes_through_timeseries() {
    let result = EntitiesDataResult {
        table: None,
        timeseries: Some(TimeseriesData {
            series: vec![parse(r#"{ "columnId": "latency_p99" }"#)],
            columns: vec![column("latency_p99", None)],
            total_series_count: 1,
        }),
    };

    let formatted = format_entities_data_response(result).ok().unwrap();
    assert_eq!(formatted["series"][0]["columnId"], parse(r#""latency_p99""#));
    assert_eq!(formatted["total_series_count"], parse("1"));
}

#[test]
fn format_entities_data_response_rejects_empty_result() {
    let result = EntitiesDataResult {
        table: None,
        timeseries: None,
    };
    let err = format_entities_data_response(result).err().unwrap();
    assert!(err.message().contains("neither table nor timeseries data"));
}

#[test]
fn column_metadata_json_keeps_its_key_order() {
    let v = column_metadata_to_json(&column("c", Some("C")));
    let keys: Vec<&str> = v.as_object().unwrap().keys().map(String::as_str).collect();
    assert_eq!(keys, vec!["id", "display_name", "unit"]);
}

#[test]
fn mod_tag_profile_inserts_key_only_when_multi_profile() {
    let tagged = cx_cli::json::tag_profile(parse(r#"{"a": 1}"#), true, "prod");
    assert_eq!(tagged["profile"], "prod");
    let untagged = cx_cli::json::tag_profile(parse(r#"{"a": 1}"#), false, "prod");
    assert!(untagged.get("profile").is_none());
}

#[test]
fn build_data_body_includes_required_fields_only_by_default() {
    let filters = vec![];
    let columns = vec!["latency_p99".to_string()];
    let group_by = vec![];
    let params = DataParams {
        start: 1000,
        end: 2000,
        columns: &columns,
        group_by: &group_by,
        filters: &filters,
        data_aggregation_type: "DATA_AGGREGATION_TYPE_TABLE",
        limit: None,
        sort_column: None,
        sort_order: None,
    };
    let body = build_data_body(&params);
    assert_eq!(body["timeRange"]["start"], 1000);
    assert_eq!(body["timeRange"]["end"], 2000);
    assert_eq!(body["dataAggregationType"], "DATA_AGGREGATION_TYPE_TABLE");
    assert_eq!(body["columns"], parse(r#"[{ "columnId": "latency_p99" }]"#));
    assert!(body.get("limit").is_none());
    assert!(body.get("sortColumn").is_none());
    assert!(body.get("sortOrder").is_none());
    assert!(
        body.get("entityType").is_none(),
        "entityType travels in the URL path, not the body"
    );
}

#[test]
fn build_data_body_includes_table_controls_when_set() {
    let filters = vec![ApmFilterInput {
        label_name: "environment".to_string(),
        label_values: vec!["prod".to_string(), "staging".to_string()],
    }];
    let columns = vec!["latency_p99".to_string()];
    let group_by = vec!["environment".to_string()];
    let params = DataParams {
        start: 1000,
        end: 2000,
        columns: &columns,
        group_by: &group_by,
        filters: &filters,
        data_aggregation_type: "DATA_AGGREGATION_TYPE_TABLE",
        limit: Some(10),
        sort_column: Some("latency_p99"),
        sort_order: Some("SORT_ORDER_DESCENDING"),
    };
    let body = build_data_body(&params);
    assert_eq!(body["limit"], 10);
    assert_eq!(body["sortColumn"], "latency_p99");
    assert_eq!(body["sortOrder"], "SORT_ORDER_DESCENDING");
    assert_eq!(body["groupBy"], parse(r#"["environment"]"#));
    assert_eq!(
        body["filters"],
        parse(r#"[{ "labelName": "environment", "labelValues": ["prod", "staging"] }]"#)
    );
    let keys: Vec<&str> = body.as_object().unwrap().keys().map(String::as_str).collect();
    assert_eq!(
        keys,
        vec!["timeRange", "dataAggregationType", "columns", "groupBy", "filters", "limit", "sortColumn", "sortOrder"]
    );
}

#[test]
fn table_rows_take_the_union_of_keys_with_the_profile_first() {
    let rows = vec![
        parse(r#"{"name": "checkout", "latency": 42.5, "profile": "prod"}"#),
        parse(r#"{"name": "cart", "errors": "", "profile": "staging"}"#),
        parse("7"),
    ];
    let (headers, records) = table_rows(&rows);
    assert_eq!(headers, vec!["name", "latency", "errors"]);
    assert_eq!(records[0], vec!["prod", "checkout", "42.5", "-"]);
    assert_eq!(records[1], vec!["staging", "cart", "-", "-"]);
    assert_eq!(records[2], vec!["", "-", "-", "-"]);
}

fn parsed(text: &str) -> serde_json::Value {
    serde_json::from_str(text).unwrap()
}

#[test]
fn merged_rows_keep_profile_order_and_the_first_columns() {
    let formatted = vec![
        ("eu".to_string(), parsed(r#"{"rows": [{"a": 1}, {"a": 2}], "columns": [{"id": "c1"}]}"#)),
        ("us".to_string(), parsed(r#"{"rows": [{"a": 3}], "columns": [{"id": "other"}]}"#)),
    ];
    let merged = merge_entities_data(&formatted, true);
    assert_eq!(
        serde_json::to_string(&merged).unwrap(),
        r#"{"rows":[{"a":1,"profile":"eu"},{"a":2,"profile":"eu"},{"a":3,"profile":"us"}],"columns":[{"id":"c1"}]}"#
    );
    let plain = merge_entities_data(&formatted, false);
    assert_eq!(
        serde_json::to_string(&plain).unwrap(),
        r#"{"rows":[{"a":1},{"a":2},{"a":3}],"columns":[{"id":"c1"}]}"#
    );
}

#[test]
fn merged_series_sum_their_counts() {
    let formatted = vec![
        ("eu".to_string(), parsed(r#"{"series": [{"s": 1}], "columns": [], "total_series_count": 4}"#)),
        ("us".to_string(), parsed(r#"{"series": [{"s": 2}], "columns": [], "total_series_count": 6}"#)),
    ];
    let merged = merge_entities_data(&formatted, false);
    assert_eq!(
        serde_json::to_string(&merged).unwrap(),
        r#"{"series":[{"s":1},{"s":2}],"columns":[],"total_series_count":10}"#
    );
    assert_eq!(merge_entities_data_checked(&formatted, false), Some(merged));
}

#[test]
fn merging_nothing_gives_empty_rows_and_columns() {
    let merged = merge_entities_data(&[], true);
    assert_eq!(serde_json::to_string(&merged).unwrap(), r#"{"rows":[],"columns":[]}"#);
}

#[test]
fn series_totals_past_i64_are_refused_by_the_checked_merge() {
    let big = format!(r#"{{"series": [], "total_series_count": {}}}"#, i64::MAX);
    let formatted = vec![
        ("eu".to_string(), parsed(&big)),
        ("us".to_string(), parsed(r#"{"series": [], "total_series_count": 1}"#)),
    ];
    assert!(!series_totals_fit(&formatted));
    assert_eq!(merge_entities_data_checked(&formatted, false), None);
}
