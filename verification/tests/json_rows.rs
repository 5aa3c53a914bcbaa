use cx_cli::extensions::{deployed_extension_to_json, extension_to_json, DeployedExtension, Extension, ItemCount};
use cx_cli::olly::{
    artifact_to_json, interaction_to_json, Artifact, ContentBlock, Interaction, Message,
    TextContentBlock,
};
use cx_cli::parsing_rules::{rg_to_json, RuleGroup};
use cx_cli::roles::{custom_role_to_json, system_role_to_json, CustomRole, SystemRole};
use cx_cli::routers::{router_to_json, Router};
use cx_cli::service_catalog::{
    entity_item_to_json, entity_type_info_to_json, entity_type_metadata_to_json, ColumnMetadata,
    EntityItem, EntityTypeInfo, EntityTypeMetadata, EnvironmentActivity,
};
use cx_cli::suppression_rules::{rule_to_json, AlertSchedulerRule};
use cx_cli::tco_policies::{policy_to_json, TcoPolicy};
use serde_json::Value;

fn json(text: &str) -> Value {
    serde_json::from_str(text).unwrap()
}

fn keys(v: &Value) -> Vec<String> {
    v.as_object().unwrap().keys().cloned().collect()
}

#[test]
fn extension_json_lists_the_catalog_fields_and_tags_the_profile() {
    let ext = Extension {
        id: Some("ext-001".to_string()),
        name: Some("AWS CloudWatch".to_string()),
        version: Some("1.0.0".to_string()),
        deployed: Some(true),
        updated: None,
    };
    assert_eq!(
        extension_to_json(&ext, false, "prod"),
        json(r#"{"id": "ext-001", "name": "AWS CloudWatch", "version": "1.0.0", "deployed": true, "updated": null}"#)
    );
    let tagged = extension_to_json(&ext, true, "prod");
    assert_eq!(keys(&tagged), vec!["id", "name", "version", "deployed", "updated", "profile"]);
    assert_eq!(tagged["profile"], "prod");
}

#[test]
fn deployed_extension_json_carries_the_catalog_name_and_item_count() {
    let ext = DeployedExtension {
        id: Some("ext-001".to_string()),
        version: Some("2".to_string()),
        applications: vec!["app".to_string()],
        subsystems: vec![],
        item_ids: vec![],
        item_counts: Some(vec![ItemCount::Unsigned(3), ItemCount::Text("4".to_string())]),
    };
    assert_eq!(
        deployed_extension_to_json(&ext, Some("AWS CloudWatch"), false, "p"),
        json(r#"{"id": "ext-001", "name": "AWS CloudWatch", "version": "2", "applications": ["app"], "subsystems": [], "deployed_items": 7}"#)
    );
    let bare = DeployedExtension {
        id: None,
        version: None,
        applications: vec![],
        subsystems: vec![],
        item_ids: vec![],
        item_counts: None,
    };
    let v = deployed_extension_to_json(&bare, None, false, "p");
    assert_eq!(v["name"], Value::Null);
    assert_eq!(v["deployed_items"], Value::Null);
}

#[test]
fn role_json_shows_dashes_and_counts_permissions() {
    let role = CustomRole {
        role_id: Some(7),
        name: None,
        description: Some("ops".to_string()),
        parent_role_id: None,
        parent_role_name: Some("Admin".to_string()),
        permissions: vec!["a".to_string(), "b".to_string()],
        team_id: Some(42),
    };
    assert_eq!(
        custom_role_to_json(&role, false, "p"),
        json(r#"{"role_id": 7, "name": "-", "description": "ops", "parent_role_id": null, "parent_role_name": "Admin", "permissions_count": 2, "team_id": 42}"#)
    );
    let system = SystemRole {
        role_id: None,
        name: Some("Viewer".to_string()),
        description: None,
        permissions: vec![],
    };
    assert_eq!(
        system_role_to_json(&system, true, "prod"),
        json(r#"{"role_id": null, "name": "Viewer", "description": "-", "permissions_count": 0, "profile": "prod"}"#)
    );
}

#[test]
fn router_and_rule_group_json_use_their_display_values() {
    let router = Router {
        id: Some("r1".to_string()),
        name: Some("main".to_string()),
        entity_type: Some("ENTITY_TYPE_ALERTS".to_string()),
        destinations: Some(vec![json("{}"), json("{}")]),
        create_time: None,
        update_time: None,
    };
    let v = router_to_json(&router, false, "p");
    assert_eq!(v["entity_type"], "ALERTS");
    assert_eq!(v["destinations_count"], 2);
    let rg = RuleGroup {
        id: Some("g".to_string()),
        name: None,
        rules: Some(vec![json("{}")]),
        enabled: Some(false),
        order: Some(3),
        creator: None,
        description: None,
    };
    assert_eq!(
        rg_to_json(&rg, false, "p"),
        json(r#"{"id": "g", "name": "-", "rules_count": 1, "enabled": false, "order": 3, "creator": null}"#)
    );
}

#[test]
fn policy_and_rule_json_keep_their_key_order() {
    let policy = TcoPolicy {
        id: Some("p1".to_string()),
        name: Some("Keep".to_string()),
        priority: Some("PRIORITY_TYPE_HIGH".to_string()),
        source_type: Some("SOURCE_TYPE_LOGS".to_string()),
        severity: None,
        archive_retention: Some(json(r#"{"id": "ret-1"}"#)),
        enabled: Some(true),
        created_at: None,
        updated_at: None,
        application_rule: None,
        subsystem_rule: None,
    };
    let v = policy_to_json(&policy, false, "p");
    assert_eq!(
        keys(&v),
        vec!["id", "name", "priority", "source_type", "severity", "archive_retention", "enabled", "created_at"]
    );
    assert_eq!(v["source_type"], "LOGS");
    assert_eq!(v["archive_retention"], "ret-1");
    assert_eq!(v["severity"], "-");

    let rule = AlertSchedulerRule {
        unique_identifier: Some("38c4".to_string()),
        id: Some("04b6".to_string()),
        name: Some("Maintenance Window".to_string()),
        description: None,
        enabled: Some(true),
        schedule: None,
        meta_labels: None,
        created_at: None,
        updated_at: None,
    };
    let v = rule_to_json(&rule, true, "prod");
    assert_eq!(
        keys(&v),
        vec!["unique_identifier", "id", "name", "description", "enabled", "created_at", "updated_at", "profile"]
    );
    assert_eq!(v["unique_identifier"], "38c4");
}

#[test]
fn artifact_and_interaction_json() {
    let artifact = Artifact {
        id: Some("a1".to_string()),
        download_url: None,
        filename: Some("report.csv".to_string()),
        content_type: Some("text/csv".to_string()),
        size: Some(1024),
        created_at: None,
        artifact_type: None,
    };
    assert_eq!(
        artifact_to_json(&artifact),
        json(r#"{"id": "a1", "download_url": null, "filename": "report.csv", "content_type": "text/csv", "size": 1024}"#)
    );

    let answered = Interaction {
        id: "i1".to_string(),
        chat_id: "c1".to_string(),
        status: "completed".to_string(),
        created_at: None,
        interaction_mode: Some("fast".to_string()),
        model_choice: None,
        data_sources: vec![],
        feedback: None,
        feedback_description: None,
        responses: Some(vec![Message {
            id: None,
            role: "assistant".to_string(),
            content: vec![ContentBlock::Text(TextContentBlock {
                text: "hello".to_string(),
            })],
        }]),
    };
    assert_eq!(
        interaction_to_json(&answered, "c1"),
        json(r#"{"chat_id": "c1", "interaction_id": "i1", "status": "completed", "response": "hello", "interaction_mode": "fast"}"#)
    );
}

#[test]
fn entity_json_rows() {
    let info = EntityTypeInfo {
        entity_type: Some("ENTITY_TYPE_SERVICE".to_string()),
        id: None,
        display_name: Some("Service".to_string()),
        description: None,
    };
    assert_eq!(
        entity_type_info_to_json(&info, true, "prod"),
        json(r#"{"entity_type": "ENTITY_TYPE_SERVICE", "id": null, "display_name": "Service", "description": null, "profile": "prod"}"#)
    );

    let meta = EntityTypeMetadata {
        entity_id: Some("service".to_string()),
        display_name: None,
        description: None,
        columns: vec![ColumnMetadata {
            id: Some("latency_p99".to_string()),
            display_name: None,
            unit: Some("ms".to_string()),
        }],
        default_columns: vec!["latency_p99".to_string()],
        groupable_labels: vec![],
        group_by_limit: Some(5),
        default_group_by: vec![],
        filterable_labels: vec!["env".to_string()],
        required_filters: vec![],
    };
    let v = entity_type_metadata_to_json(&meta);
    assert_eq!(v["columns"][0]["unit"], "ms");
    assert_eq!(v["group_by_limit"], 5);
    assert_eq!(v["filterable_labels"], json(r#"["env"]"#));

    let item = EntityItem {
        name: Some("checkout".to_string()),
        system: None,
        last_seen: None,
        deployments: vec!["v1".to_string()],
        environments: vec![EnvironmentActivity {
            name: Some("prod".to_string()),
            last_seen: Some("2026-01-01T00:00:00Z".to_string()),
        }],
    };
    assert_eq!(
        entity_item_to_json(&item, false, "p"),
        json(r#"{"name": "checkout", "system": null, "last_seen": null, "deployments": ["v1"], "environments": [{"name": "prod", "last_seen": "2026-01-01T00:00:00Z"}]}"#)
    );
}
