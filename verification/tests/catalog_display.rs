use cx_cli::extensions::{
    list_display, resolve_name, DeployedExtension, Extension, ExtensionsApi, ItemCount,
};
use cx_cli::integrations::Integration;
use cx_cli::parsing_rules::RuleGroup;
use cx_cli::presets::Preset;
use cx_cli::request::Method;
use cx_cli::retentions::Retention;
use cx_cli::roles::{CustomRole, SystemRole};
use cx_cli::routers::Router;
use cx_cli::tco_policies::TcoPolicy;

fn bare_extension() -> Extension {
    Extension {
        id: None,
        name: None,
        version: None,
        deployed: None,
        updated: None,
    }
}

fn bare_preset() -> Preset {
    Preset {
        id: None,
        name: None,
        connector_type: None,
        is_default: None,
        is_custom: None,
        preset_type: None,
    }
}

fn bare_custom_role() -> CustomRole {
    CustomRole {
        role_id: None,
        name: None,
        description: None,
        parent_role_id: None,
        parent_role_name: None,
        permissions: vec![],
        team_id: None,
    }
}

/// Extensions: a catalog entry without name or version shows dashes.
#[test]
fn display_missing_fields() {
    let e = bare_extension();
    assert_eq!(e.display_name(), "-");
    assert_eq!(e.display_version(), "-");
}

/// Roles and presets: missing fields show dashes, no permissions count 0.
#[test]
fn api_display_missing_fields() {
    let role = bare_custom_role();
    assert_eq!(role.display_name(), "-");
    assert_eq!(role.display_description(), "-");
    assert_eq!(role.permissions_count(), 0);

    let sys_role = SystemRole {
        role_id: None,
        name: None,
        description: None,
        permissions: vec![],
    };
    assert_eq!(sys_role.display_name(), "-");
    assert_eq!(sys_role.display_description(), "-");
    assert_eq!(sys_role.permissions_count(), 0);

    let preset = bare_preset();
    assert_eq!(preset.display_name(), "-");
    assert_eq!(preset.display_connector_type(), "-");
}

#[test]
fn preset_display_missing_fields() {
    let preset = bare_preset();
    assert_eq!(preset.display_name(), "-");
    assert_eq!(preset.display_connector_type(), "-");
    assert_eq!(preset.display_is_custom(), None);
}

#[test]
fn role_display_missing_fields() {
    let role = bare_custom_role();
    assert_eq!(role.display_name(), "-");
    assert_eq!(role.display_description(), "-");
    assert_eq!(role.permissions_count(), 0);
}

#[test]
fn display_missing_name() {
    let ret = Retention {
        id: None,
        name: None,
        retention_days: None,
        enabled: None,
    };
    assert_eq!(ret.display_name(), "-");
}

#[test]
fn integration_display_missing_fields() {
    let i = Integration {
        id: None,
        name: None,
        description: None,
        tags: vec![],
        versions: vec![],
        integration_type: None,
    };
    assert_eq!(i.display_name(), "-");
    assert_eq!(i.display_type(), "-");
    assert_eq!(i.display_version(), "-");
}

#[test]
fn router_display_missing_fields() {
    let router = Router {
        id: None,
        name: None,
        entity_type: None,
        destinations: None,
        create_time: None,
        update_time: None,
    };
    assert_eq!(router.display_name(), "-");
    assert_eq!(router.display_entity_type(), "-");
    assert_eq!(router.destinations_count(), 0);
}

#[test]
fn rule_group_display_missing_fields() {
    let rg = RuleGroup {
        id: None,
        name: None,
        rules: None,
        enabled: None,
        order: None,
        creator: None,
        description: None,
    };
    assert_eq!(rg.display_name(), "-");
    assert_eq!(rg.rules_count(), 0);
}

fn bare_policy() -> TcoPolicy {
    TcoPolicy {
        id: None,
        name: None,
        priority: None,
        source_type: None,
        severity: None,
        archive_retention: None,
        enabled: None,
        created_at: None,
        updated_at: None,
        application_rule: None,
        subsystem_rule: None,
    }
}

#[test]
fn tco_policy_display_missing_fields() {
    let policy = bare_policy();
    assert_eq!(policy.display_name(), "-");
    assert_eq!(policy.display_priority(), "-");
    assert_eq!(policy.display_source_type(), "-");
    assert_eq!(policy.display_severity(), "-");
    assert_eq!(policy.display_archive_retention(), "-");
}

#[test]
fn tco_policy_enum_names_lose_their_prefix() {
    let mut policy = bare_policy();
    policy.priority = Some("PRIORITY_TYPE_HIGH".to_string());
    policy.source_type = Some("SOURCE_TYPE_LOGS".to_string());
    policy.severity = Some("CRITICAL".to_string());
    policy.archive_retention = Some(serde_json::Value::Object(
        [("id".to_string(), serde_json::Value::String("ret-1".to_string()))]
            .into_iter()
            .collect(),
    ));
    assert_eq!(policy.display_priority(), "HIGH");
    assert_eq!(policy.display_source_type(), "LOGS");
    assert_eq!(policy.display_severity(), "CRITICAL");
    assert_eq!(policy.display_archive_retention(), "ret-1");
}

#[test]
fn preset_connector_type_and_custom_flag() {
    let mut preset = bare_preset();
    preset.connector_type = Some("CONNECTOR_TYPE_SLACK".to_string());
    preset.preset_type = Some("CUSTOM".to_string());
    assert_eq!(preset.display_connector_type(), "SLACK");
    assert_eq!(preset.display_is_custom(), Some(true));

    preset.connector_type = Some("PAGERDUTY".to_string());
    preset.preset_type = Some("SYSTEM".to_string());
    assert_eq!(preset.display_connector_type(), "PAGERDUTY");
    assert_eq!(preset.display_is_custom(), Some(false));

    preset.is_custom = Some(true);
    assert_eq!(preset.display_is_custom(), Some(true));
}

#[test]
fn integration_version_is_the_last_one() {
    let i = Integration {
        id: None,
        name: Some("AWS".to_string()),
        description: None,
        tags: vec![],
        versions: vec!["1.0.0".to_string(), "1.2.0".to_string()],
        integration_type: Some(serde_json::Value::Object(
            [("cloudformation".to_string(), serde_json::Value::Null)]
                .into_iter()
                .collect(),
        )),
    };
    assert_eq!(i.display_name(), "AWS");
    assert_eq!(i.display_version(), "1.2.0");
    assert_eq!(i.display_type(), "cloudformation");
}

fn deployed(item_ids: &[&str], counts: Option<Vec<ItemCount>>) -> DeployedExtension {
    DeployedExtension {
        id: Some("Ext".to_string()),
        version: None,
        applications: vec![],
        subsystems: vec![],
        item_ids: item_ids.iter().map(|s| s.to_string()).collect(),
        item_counts: counts,
    }
}

#[test]
fn deployed_item_count_handles_string_counts_and_item_ids_fallback() {
    let ext = deployed(
        &[],
        Some(vec![ItemCount::Text("4".to_string()), ItemCount::Unsigned(1)]),
    );
    assert_eq!(ext.deployed_item_count(), Some(5));

    let ext = deployed(&["a", "b"], None);
    assert_eq!(ext.deployed_item_count(), Some(2));
}

#[test]
fn deployed_item_count_sums_the_summary_and_is_unknown_without_one() {
    let full = deployed(
        &["alert-1", "dash-1", "dash-2"],
        Some(vec![ItemCount::Unsigned(1), ItemCount::Unsigned(2)]),
    );
    assert_eq!(full.deployed_item_count(), Some(3));

    let sparse = deployed(&[], None);
    assert_eq!(sparse.deployed_item_count(), None);

    let odd = deployed(
        &[],
        Some(vec![
            ItemCount::Text("x".to_string()),
            ItemCount::Other,
            ItemCount::Text("+7".to_string()),
        ]),
    );
    assert_eq!(odd.deployed_item_count(), Some(7));
}

#[test]
fn deployed_names_come_from_the_last_catalog_entry() {
    let mut a = bare_extension();
    a.id = Some("K8s".to_string());
    a.name = Some("Kubernetes".to_string());
    let mut b = bare_extension();
    b.id = Some("K8s".to_string());
    b.name = Some("Kubernetes v2".to_string());
    let mut c = bare_extension();
    c.id = Some("K8s".to_string());
    let catalog = [a, b, c];
    assert_eq!(resolve_name(&catalog, "K8s").as_deref(), Some("Kubernetes v2"));
    assert_eq!(resolve_name(&catalog, "Other"), None);
}

#[test]
fn list_display_joins_or_dashes() {
    assert_eq!(list_display(&[]), "-");
    assert_eq!(
        list_display(&["prod-eu".to_string(), "staging".to_string()]),
        "prod-eu, staging"
    );
}

#[test]
fn extension_requests_use_their_paths() {
    let client = ();
    let api = ExtensionsApi::new(&client);
    let r = api.get_request("ext-1");
    assert_eq!(r.method, Method::Get);
    assert_eq!(
        r.path,
        "/mgmt/openapi/5/integrations/extensions/v1/catalog/ext-1"
    );
    assert_eq!(api.list_all_request().method, Method::Post);
    assert_eq!(
        api.undeploy_request().path,
        "/mgmt/openapi/5/integrations/extensions/v1/undeploy"
    );
}

#[test]
fn item_counts_fit_only_when_their_sum_fits_in_64_bits() {
    assert!(deployed(&[], None).item_counts_fit());
    assert!(deployed(&[], Some(vec![ItemCount::Unsigned(u64::MAX)])).item_counts_fit());
    assert!(!deployed(
        &[],
        Some(vec![ItemCount::Unsigned(u64::MAX), ItemCount::Text("1".to_string())])
    )
    .item_counts_fit());
    assert!(deployed(
        &[],
        Some(vec![ItemCount::Unsigned(u64::MAX), ItemCount::Text("x".to_string()), ItemCount::Other])
    )
    .item_counts_fit());
}

#[test]
fn deployed_extension_rows_name_from_the_catalog_and_count_items() {
    let mut ext = deployed(&["a", "b"], None);
    ext.applications = vec!["app1".to_string(), "app2".to_string()];
    let row = cx_cli::extensions::deployed_extension_row("eu", &ext, &Some("Nice name".to_string()));
    assert_eq!(row, vec!["eu", "Ext", "Nice name", "", "app1, app2", "-", "2"]);
    let bare = deployed(&[], None);
    let row = cx_cli::extensions::deployed_extension_row("eu", &bare, &None);
    assert_eq!(row, vec!["eu", "Ext", "-", "", "-", "-", "-"]);
}
