use cx_cli::integrations::{integration_metadata, test_request};
use serde_json::Value;

fn json(text: &str) -> Value {
    serde_json::from_str(text).unwrap()
}

fn keys(v: &Value) -> Vec<String> {
    v.as_object().unwrap().keys().cloned().collect()
}

const GET_OUTPUT: &str = r#"{
    "integrationDetail": {
        "integration": { "id": "aws-metrics-collector" },
        "default": {
            "registered": [
                { "id": "dep-1", "definitionVersion": "0.1.0", "parameters": [{ "key": "Region", "stringValue": "eu-west-1" }] },
                { "id": "dep-2", "parameters": [] }
            ]
        }
    }
}"#;

#[test]
fn metadata_wrapper_is_taken_as_is() {
    let body = json(r#"{"metadata": {"integrationKey": "k", "version": "1"}, "id": "x"}"#);
    let m = integration_metadata(&body, "ignored").ok().unwrap();
    assert_eq!(m, json(r#"{"integrationKey": "k", "version": "1"}"#));
}

#[test]
fn metadata_moves_top_level_parameters_under_integration_parameters() {
    let body = json(r#"{"integrationKey": "k", "version": "1", "parameters": [1]}"#);
    let m = integration_metadata(&body, "ignored").ok().unwrap();
    assert!(m.get("parameters").is_none());
    assert_eq!(m["integrationParameters"], json(r#"{"parameters": [1]}"#));
    assert_eq!(m["integrationKey"], "k");
    let plain = json(r#"{"integrationKey": "k"}"#);
    assert_eq!(integration_metadata(&plain, "x").ok().unwrap(), plain);
}

#[test]
fn metadata_is_picked_out_of_get_output_by_deployment() {
    let body = json(GET_OUTPUT);
    let m = integration_metadata(&body, "dep-1").ok().unwrap();
    assert_eq!(keys(&m), vec!["integrationKey", "integrationParameters", "version"]);
    assert_eq!(m["integrationKey"], "aws-metrics-collector");
    assert_eq!(m["version"], "0.1.0");
    assert_eq!(m["integrationParameters"]["parameters"][0]["key"], "Region");
}

#[test]
fn metadata_errors_name_the_missing_piece() {
    let body = json(GET_OUTPUT);
    assert_eq!(
        integration_metadata(&body, "dep-9").err().unwrap().message(),
        "deployment `dep-9` was not found in the integration JSON"
    );
    assert_eq!(
        integration_metadata(&body, "dep-2").err().unwrap().message(),
        "deployment `dep-2` is missing `definitionVersion`"
    );
    assert_eq!(
        integration_metadata(&json("{}"), "d").err().unwrap().message(),
        "integration JSON must contain `integrationKey`, `metadata`, or `integrationDetail.integration.id`"
    );
    let no_params = json(
        r#"{"integrationDetail": {"integration": {"id": "k"}, "default": {"registered": [{"id": "d", "definitionVersion": "1"}]}}}"#,
    );
    assert_eq!(
        integration_metadata(&no_params, "d").err().unwrap().message(),
        "deployment `d` is missing `parameters`"
    );
}

#[test]
fn test_request_passes_a_ready_body_through_and_wraps_metadata_otherwise() {
    let ready = json(r#"{"integrationId": "d", "integrationData": {}}"#);
    assert_eq!(test_request(&ready, None).ok().unwrap(), ready);

    let body = json(GET_OUTPUT);
    let r = test_request(&body, Some("dep-1")).ok().unwrap();
    assert_eq!(keys(&r), vec!["integrationId", "integrationData"]);
    assert_eq!(r["integrationId"], "dep-1");
    assert_eq!(r["integrationData"]["version"], "0.1.0");

    let err = test_request(&json(r#"{"integrationKey": "k"}"#), None).err().unwrap();
    assert!(err.message().contains("requires `--id"));

    let by_json_id = json(r#"{"integrationKey": "k", "integrationId": "d7"}"#);
    let r = test_request(&by_json_id, None).ok().unwrap();
    assert_eq!(r["integrationId"], "d7");
}
