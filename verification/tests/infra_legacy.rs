use cx_cli::infra::legacy::parse_scope_filters;

#[test]
fn parse_scope_filters_accepts_allowed_keys() {
    let scope = vec![
        "service=checkout".to_string(),
        "environment=prod".to_string(),
        "team=platform".to_string(),
    ];
    let filters = parse_scope_filters(&scope).unwrap();
    assert_eq!(
        filters,
        vec![
            ("service".to_string(), "checkout".to_string()),
            ("environment".to_string(), "prod".to_string()),
            ("team".to_string(), "platform".to_string()),
        ]
    );
}

#[test]
fn parse_scope_filters_trims_whitespace() {
    let scope = vec![" service = checkout ".to_string()];
    let filters = parse_scope_filters(&scope).unwrap();
    assert_eq!(filters, vec![("service".to_string(), "checkout".to_string())]);
}

#[test]
fn parse_scope_filters_rejects_missing_equals() {
    let err = parse_scope_filters(&["service".to_string()]).unwrap_err();
    assert!(err.message().contains("expected key=value"));
}

#[test]
fn parse_scope_filters_rejects_unknown_key() {
    let err = parse_scope_filters(&["region=us-east-1".to_string()]).unwrap_err();
    let msg = err.message();
    assert!(msg.contains("unknown --scope key 'region'"));
    assert!(msg.contains("service, environment, team"));
}

#[test]
fn parse_scope_filters_rejects_empty_value() {
    let err = parse_scope_filters(&["service=".to_string()]).unwrap_err();
    assert!(err.message().contains("must not be empty"));
}

#[test]
fn parse_scope_filters_empty_input_yields_no_filters() {
    assert!(parse_scope_filters(&[]).unwrap().is_empty());
}

#[test]
fn parse_scope_filters_rejects_a_repeated_key() {
    let err = parse_scope_filters(&["service=a".to_string(), "service=b".to_string()]).unwrap_err();
    let msg = err.message();
    assert!(msg.contains("'service' given more than once"), "got: {msg}");
    assert!(msg.contains('a') && msg.contains('b'), "got: {msg}");
}

#[test]
fn parse_scope_filters_rejects_a_repeated_key_even_with_the_same_value() {
    let err = parse_scope_filters(&["service=a".to_string(), "service=a".to_string()]).unwrap_err();
    assert!(err.message().contains("given more than once"));
}

#[test]
fn parse_scope_filters_detects_a_repeat_after_trimming() {
    let err = parse_scope_filters(&[" service = a ".to_string(), "service=b".to_string()])
        .unwrap_err();
    assert!(err.message().contains("given more than once"));
}

#[test]
fn parse_scope_filters_allows_distinct_keys_sharing_a_value() {
    let filters =
        parse_scope_filters(&["service=core".to_string(), "team=core".to_string()]).unwrap();
    assert_eq!(
        filters,
        vec![
            ("service".to_string(), "core".to_string()),
            ("team".to_string(), "core".to_string()),
        ]
    );
}
