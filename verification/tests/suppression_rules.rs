use cx_cli::suppression_rules::{parse_json_body, BodyError};
use cx_cli::suppression_rules::{
    classify_rule_id_in, rule_found, rule_present, update_body_identifier, version_id_note, AlertSchedulerRule, AlertSchedulerRuleEntry,
    GetBulkAlertSchedulerRuleResponse, RuleIdKind,
};

fn parse(text: &str) -> serde_json::Value {
    serde_json::from_str(text).unwrap()
}

fn rule(unique_identifier: Option<&str>, id: Option<&str>) -> AlertSchedulerRule {
    AlertSchedulerRule {
        unique_identifier: unique_identifier.map(String::from),
        id: id.map(String::from),
        name: Some("Maintenance Window".to_string()),
        description: Some("planned downtime".to_string()),
        enabled: None,
        schedule: None,
        meta_labels: Some(vec![]),
        created_at: None,
        updated_at: None,
    }
}

fn fixture() -> GetBulkAlertSchedulerRuleResponse {
    GetBulkAlertSchedulerRuleResponse {
        alert_scheduler_rules: vec![AlertSchedulerRuleEntry {
            alert_scheduler_rule: Some(rule(
                Some("38c4a964-a237-41ea-9b02-87af3d734571"),
                Some("04b68179-b051-4c2c-a684-ef3a4fb0f80f"),
            )),
            next_active_timeframes: vec![],
        }],
    }
}

#[test]
fn classify_recognises_a_unique_identifier_as_addressable() {
    assert_eq!(
        classify_rule_id_in(&fixture(), "38c4a964-a237-41ea-9b02-87af3d734571"),
        RuleIdKind::Addressable
    );
}

#[test]
fn classify_maps_a_version_id_to_its_unique_identifier() {
    assert_eq!(
        classify_rule_id_in(&fixture(), "04b68179-b051-4c2c-a684-ef3a4fb0f80f"),
        RuleIdKind::VersionId("38c4a964-a237-41ea-9b02-87af3d734571".to_string())
    );
}

#[test]
fn classify_reports_an_unknown_id() {
    assert_eq!(
        classify_rule_id_in(&fixture(), "ffffffff-ffff-ffff-ffff-ffffffffffff"),
        RuleIdKind::Unknown
    );
}

#[test]
fn a_stable_id_wins_over_another_rules_version_id() {
    let resp = GetBulkAlertSchedulerRuleResponse {
        alert_scheduler_rules: vec![
            AlertSchedulerRuleEntry {
                alert_scheduler_rule: Some(rule(Some("u-1"), Some("x"))),
                next_active_timeframes: vec![],
            },
            AlertSchedulerRuleEntry {
                alert_scheduler_rule: None,
                next_active_timeframes: vec![],
            },
            AlertSchedulerRuleEntry {
                alert_scheduler_rule: Some(rule(Some("x"), Some("v-2"))),
                next_active_timeframes: vec![],
            },
        ],
    };
    assert_eq!(classify_rule_id_in(&resp, "x"), RuleIdKind::Addressable);
    assert_eq!(
        classify_rule_id_in(&resp, "v-2"),
        RuleIdKind::VersionId("x".to_string())
    );
}

#[test]
fn rule_found_accepts_a_populated_get_response() {
    let json = parse(
        r#"{"alertSchedulerRule": {"uniqueIdentifier": "38c4a964-a237-41ea-9b02-87af3d734571", "name": "Maintenance Window"}}"#,
    );
    assert!(rule_found(&json));
}

#[test]
fn rule_found_rejects_an_empty_get_response() {
    assert!(!rule_found(&parse("{}")));
    assert!(!rule_found(&parse(r#"{"alertSchedulerRule": {}}"#)));
    assert!(!rule_found(&parse(r#"{"alertSchedulerRule": null}"#)));
}

#[test]
fn rule_present_needs_a_non_empty_object() {
    assert!(rule_present(Some(2)));
    assert!(!rule_present(Some(0)));
    assert!(!rule_present(None));
}

#[test]
fn update_body_identifier_prefers_the_stable_id_in_either_shape() {
    let wrapped = parse(r#"{"alertSchedulerRule": {"uniqueIdentifier": "u1", "id": "v1"}}"#);
    assert_eq!(update_body_identifier(&wrapped), Some("u1".to_string()));
    let bare = parse(r#"{"id": "v2"}"#);
    assert_eq!(update_body_identifier(&bare), Some("v2".to_string()));
    assert_eq!(update_body_identifier(&parse("{}")), None);
}

#[test]
fn version_id_note_names_both_ids() {
    assert_eq!(
        version_id_note("04b6", "38c4"),
        "Note: '04b6' is a rule version id, not its stable id. Using uniqueIdentifier '38c4' instead - the version id changes on every update."
    );
}

#[test]
fn a_rule_body_must_be_a_json_object() {
    let ok = parse_json_body(r#"{"name": "quiet hours"}"#, "alert scheduler rule").unwrap();
    assert_eq!(ok.get("name").and_then(|v| v.as_str()), Some("quiet hours"));

    let err = parse_json_body("[1, 2]", "alert scheduler rule").unwrap_err();
    assert!(matches!(err, BodyError::NotObject(_)));
    assert_eq!(err.message(), "alert scheduler rule JSON must be a JSON object");

    let err = parse_json_body("{not json", "alert scheduler rule").unwrap_err();
    match &err {
        BodyError::Parse(m) => {
            let expected = serde_json::from_str::<serde_json::Value>("{not json").unwrap_err().to_string();
            assert_eq!(m, &expected);
        }
        other => panic!("unexpected {other:?}"),
    }
}

#[test]
fn a_version_id_is_answered_with_a_stable_id_that_exists() {
    let entry = |u: Option<&str>, id: Option<&str>| AlertSchedulerRuleEntry {
        alert_scheduler_rule: Some(rule(u, id)),
        next_active_timeframes: vec![],
    };
    let resp = GetBulkAlertSchedulerRuleResponse {
        alert_scheduler_rules: vec![entry(Some("u-1"), Some("v")), entry(None, Some("v"))],
    };
    assert_eq!(classify_rule_id_in(&resp, "v"), RuleIdKind::VersionId("u-1".to_string()));
    let only_bare = GetBulkAlertSchedulerRuleResponse {
        alert_scheduler_rules: vec![entry(None, Some("v"))],
    };
    assert_eq!(classify_rule_id_in(&only_bare, "v"), RuleIdKind::Unknown);
}
