use cx_cli::logs::{merge, LogsResponse};
use cx_cli::spans::{span_line, span_text, SpanText};
use serde_json::Value;

fn parse(text: &str) -> Value {
    serde_json::from_str(text).unwrap()
}

#[test]
fn a_span_line_reads_ids_service_operation_and_duration() {
    let row = parse(
        r#"{"profile": "eu", "userData": {"traceID": "t1", "spanID": "s1"}, "labels": {"operationName": "GET /", "serviceName": "api"}, "metadata": {"duration": 123456}}"#,
    );
    let line = span_line(&row, true);
    assert_eq!(line.prefix, "[eu] ");
    assert_eq!(line.trace_id, "t1");
    assert_eq!(line.span_id, "s1");
    assert_eq!(line.service, "api");
    assert_eq!(line.operation, "GET /");
    assert_eq!(line.duration, "123ms");
}

#[test]
fn a_span_line_falls_back_to_user_data_and_dashes() {
    let row = parse(
        r#"{"userData": {"trace_id": "t2", "span_id": "s2", "operationName": "op", "duration": 999}, "labels": {"processServiceName": "worker"}}"#,
    );
    let line = span_line(&row, false);
    assert_eq!(line.prefix, "");
    assert_eq!(line.trace_id, "t2");
    assert_eq!(line.span_id, "s2");
    assert_eq!(line.service, "worker");
    assert_eq!(line.operation, "op");
    assert_eq!(line.duration, "0ms");

    let bare = parse(r#"{"metadata": {"duration": "slow"}}"#);
    let line = span_line(&bare, true);
    assert_eq!(line.trace_id, "-");
    assert_eq!(line.span_id, "-");
    assert_eq!(line.service, "-");
    assert_eq!(line.operation, "-");
    assert_eq!(line.duration, "-");
}

#[test]
fn span_text_distinguishes_empty_aggregate_and_lines() {
    let empty = merge(vec![], false);
    assert!(matches!(span_text(&empty), SpanText::NoSpans));
    let response = |agg: bool| LogsResponse {
        raw_results: vec![parse(r#"{"userData": {"traceID": "x"}}"#)],
        warnings: vec![],
        is_aggregate: agg,
    };
    let agg = merge(vec![("p".to_string(), Ok(response(true)))], false);
    assert!(matches!(span_text(&agg), SpanText::Rows));
    let rows = merge(vec![("p".to_string(), Ok(response(false)))], false);
    match span_text(&rows) {
        SpanText::Lines(lines) => {
            assert_eq!(lines.len(), 1);
            assert_eq!(lines[0].trace_id, "x");
        }
        _ => panic!("expected lines"),
    }
}
