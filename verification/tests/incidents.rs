use cx_cli::incidents::{merge_incident_pages, IncidentsError};
use cx_cli::incidents::{
    build_list_body, event_row, event_to_json, group_contextual_labels, list_body_to_json,
    merge_rows, IncidentEvent, normalize_enum, normalize_incident_field,
    normalize_order_direction, page_step, ListIncidentsOptions, PageStep,
};

#[test]
fn build_list_body_uses_repeated_fields_and_full_enum_names() {
    let body = build_list_body(
        &ListIncidentsOptions {
            statuses: vec![
                "triggered".to_string(),
                "INCIDENT_STATUS_ACKNOWLEDGED".to_string(),
            ],
            severities: vec!["critical".to_string()],
            states: vec!["resolved".to_string()],
            assignees: vec!["user-1".to_string()],
            page_size: 25,
            limit: Some(25),
            ..Default::default()
        },
        None,
    )
    .unwrap();

    assert_eq!(
        body.filter.status,
        Some(vec![
            "INCIDENT_STATUS_TRIGGERED".to_string(),
            "INCIDENT_STATUS_ACKNOWLEDGED".to_string()
        ])
    );
    assert_eq!(
        body.filter.severity,
        Some(vec!["INCIDENT_SEVERITY_CRITICAL".to_string()])
    );
    assert_eq!(body.filter.state, Some(vec!["INCIDENT_STATE_RESOLVED".to_string()]));
    assert_eq!(body.filter.assignee, Some(vec!["user-1".to_string()]));
    assert_eq!(body.page_size, 25);
}

#[test]
fn build_list_body_supports_search_labels_ordering_and_page_token() {
    let body = build_list_body(
        &ListIncidentsOptions {
            application_names: vec!["checkout".to_string()],
            subsystem_names: vec!["api".to_string()],
            contextual_labels: vec![
                "team=payments".to_string(),
                "team=platform".to_string(),
                "env=prod".to_string(),
            ],
            search_query: Some("latency".to_string()),
            search_field: Some("name".to_string()),
            is_muted: Some(false),
            order_by: Some("created_at".to_string()),
            order_direction: Some("asc".to_string()),
            page_size: 50,
            limit: Some(50),
            ..Default::default()
        },
        Some("next-token"),
    )
    .unwrap();

    assert_eq!(body.filter.application_name, Some(vec!["checkout".to_string()]));
    assert_eq!(body.filter.subsystem_name, Some(vec!["api".to_string()]));
    assert_eq!(
        body.filter.contextual_labels,
        Some(vec![
            (
                "team".to_string(),
                vec!["payments".to_string(), "platform".to_string()]
            ),
            ("env".to_string(), vec!["prod".to_string()]),
        ])
    );
    let search = body.filter.search_query.as_ref().unwrap();
    assert_eq!(search.query, "latency");
    assert_eq!(search.incident_field.as_deref(), Some("INCIDENTS_FIELDS_NAME"));
    assert_eq!(body.filter.is_muted, Some(false));
    assert_eq!(body.page_token.as_deref(), Some("next-token"));
    let order = body.order_bys.as_ref().unwrap();
    assert_eq!(order.incident_field, "INCIDENTS_FIELDS_CREATED_TIME");
    assert_eq!(order.direction, "ORDER_BY_DIRECTION_ASC");
}

#[test]
fn invalid_contextual_label_errors() {
    let err = build_list_body(
        &ListIncidentsOptions {
            contextual_labels: vec!["team".to_string()],
            page_size: 100,
            limit: Some(100),
            ..Default::default()
        },
        None,
    )
    .unwrap_err();

    assert!(err.message().contains("Use key=value"));
}

#[test]
fn search_query_requires_exactly_one_field_target() {
    let no_field = build_list_body(
        &ListIncidentsOptions {
            search_query: Some("error".to_string()),
            page_size: 100,
            limit: Some(100),
            ..Default::default()
        },
        None,
    )
    .unwrap_err();
    assert!(no_field.message().contains("--query-field"));

    let two_fields = build_list_body(
        &ListIncidentsOptions {
            search_query: Some("error".to_string()),
            search_field: Some("name".to_string()),
            search_contextual_label: Some("service".to_string()),
            page_size: 100,
            limit: Some(100),
            ..Default::default()
        },
        None,
    )
    .unwrap_err();
    assert!(two_fields.message().contains("Use only one"));
}

#[test]
fn an_empty_request_leaves_every_part_out() {
    let body = build_list_body(
        &ListIncidentsOptions {
            page_size: 10,
            page_token: Some("from-options".to_string()),
            ..Default::default()
        },
        None,
    )
    .unwrap();
    assert_eq!(body.filter.status, None);
    assert_eq!(body.filter.contextual_labels, None);
    assert!(body.filter.search_query.is_none());
    assert!(body.filter.created_at_range.is_none());
    assert!(body.order_bys.is_none());
    assert_eq!(body.page_token.as_deref(), Some("from-options"));
}

#[test]
fn time_ranges_resolve_to_rfc_3339() {
    let body = build_list_body(
        &ListIncidentsOptions {
            created_start: Some("2026-01-01T00:00:00Z".to_string()),
            duration_end: Some("now-1h".to_string()),
            ..Default::default()
        },
        None,
    )
    .unwrap();
    let created = body.filter.created_at_range.as_ref().unwrap();
    assert_eq!(
        created.start_time.as_deref(),
        Some("2026-01-01T00:00:00.000000000Z")
    );
    assert_eq!(created.end_time, None);
    let duration = body.filter.incident_duration_range.as_ref().unwrap();
    assert!(duration.end_time.as_deref().unwrap().ends_with('Z'));

    let err = build_list_body(
        &ListIncidentsOptions {
            created_end: Some("yesterday".to_string()),
            ..Default::default()
        },
        None,
    )
    .unwrap_err();
    assert!(err.message().contains("yesterday"));
}

#[test]
fn enum_names_are_normalized() {
    assert_eq!(normalize_enum(" in progress ", "INCIDENT_STATE_"), "INCIDENT_STATE_IN_PROGRESS");
    assert_eq!(normalize_enum("INCIDENT_STATE_x", "INCIDENT_STATE_"), "INCIDENT_STATE_X");
    assert_eq!(normalize_order_direction("desc"), "ORDER_BY_DIRECTION_DESC");
    assert_eq!(normalize_incident_field("last-update"), "INCIDENTS_FIELDS_LAST_STATE_UPDATE_TIME");
    assert_eq!(normalize_incident_field("application"), "INCIDENTS_FIELDS_APPLICATION_NAME");
    assert_eq!(normalize_incident_field("incidents_fields_name"), "INCIDENTS_FIELDS_NAME");
}

#[test]
fn contextual_labels_group_by_key_in_order() {
    let groups = group_contextual_labels(&[
        " b = 1 ".to_string(),
        "a=2".to_string(),
        "b=3".to_string(),
    ])
    .unwrap();
    assert_eq!(
        groups,
        vec![
            ("b".to_string(), vec!["1".to_string(), "3".to_string()]),
            ("a".to_string(), vec!["2".to_string()]),
        ]
    );
    let err = group_contextual_labels(&["a=1".to_string(), "=2".to_string(), "c".to_string()])
        .unwrap_err();
    assert_eq!(err.message(), "Invalid contextual label '=2'. Use key=value.");
}

#[test]
fn paging_stops_at_the_limit_or_the_last_page() {
    assert_eq!(page_step(30, Some(25), true), PageStep::Stop { keep: 25 });
    assert_eq!(page_step(10, Some(25), true), PageStep::Next);
    assert_eq!(page_step(10, Some(25), false), PageStep::Stop { keep: 10 });
    assert_eq!(page_step(10, None, true), PageStep::Next);
}

fn json(text: &str) -> serde_json::Value {
    serde_json::from_str(text).unwrap()
}

#[test]
fn list_body_json_has_the_shape_the_api_takes() {
    let body = build_list_body(
        &ListIncidentsOptions {
            statuses: vec![
                "triggered".to_string(),
                "INCIDENT_STATUS_ACKNOWLEDGED".to_string(),
            ],
            application_names: vec!["checkout".to_string()],
            contextual_labels: vec![
                "team=payments".to_string(),
                "team=platform".to_string(),
                "env=prod".to_string(),
            ],
            search_query: Some("latency".to_string()),
            search_field: Some("name".to_string()),
            is_muted: Some(false),
            order_by: Some("created_at".to_string()),
            order_direction: Some("asc".to_string()),
            page_size: 50,
            limit: Some(50),
            ..Default::default()
        },
        Some("next-token"),
    )
    .unwrap();
    let v = list_body_to_json(&body);

    assert_eq!(
        v["filter"]["status"],
        json(r#"["INCIDENT_STATUS_TRIGGERED", "INCIDENT_STATUS_ACKNOWLEDGED"]"#)
    );
    assert_eq!(v["filter"]["applicationName"], json(r#"["checkout"]"#));
    assert_eq!(
        v["filter"]["contextualLabels"]["team"]["contextualLabelValues"],
        json(r#"["payments", "platform"]"#)
    );
    assert_eq!(
        v["filter"]["contextualLabels"]["env"]["contextualLabelValues"],
        json(r#"["prod"]"#)
    );
    assert_eq!(v["filter"]["searchQuery"]["query"], json(r#""latency""#));
    assert_eq!(
        v["filter"]["searchQuery"]["incidentField"],
        json(r#""INCIDENTS_FIELDS_NAME""#)
    );
    assert_eq!(v["filter"]["isMuted"], json("false"));
    assert_eq!(v["pagination"], json(r#"{"pageSize": 50, "pageToken": "next-token"}"#));
    assert_eq!(
        v["orderBys"],
        json(r#"[{"incidentField": "INCIDENTS_FIELDS_CREATED_TIME", "direction": "ORDER_BY_DIRECTION_ASC"}]"#)
    );
    let filter_keys: Vec<&str> = v["filter"].as_object().unwrap().keys().map(String::as_str).collect();
    assert_eq!(
        filter_keys,
        vec!["status", "applicationName", "contextualLabels", "isMuted", "searchQuery"]
    );
}

#[test]
fn list_body_json_leaves_out_what_was_not_asked_for() {
    let body = build_list_body(
        &ListIncidentsOptions {
            page_size: 100,
            limit: Some(100),
            ..Default::default()
        },
        None,
    )
    .unwrap();
    assert_eq!(
        list_body_to_json(&body),
        json(r#"{"filter": {}, "pagination": {"pageSize": 100}}"#)
    );
}

fn event() -> IncidentEvent {
    IncidentEvent {
        id: Some("e1".to_string()),
        incident_id: Some("i1".to_string()),
        event_type: Some("INCIDENT_EVENT_TYPE_CREATED".to_string()),
        created_at: None,
    }
}

#[test]
fn events_become_tagged_json_rows_and_table_records() {
    assert_eq!(
        event_to_json(&event(), true, "prod"),
        json(r#"{"id": "e1", "incident_id": "i1", "type": "INCIDENT_EVENT_TYPE_CREATED", "created_at": null, "profile": "prod"}"#)
    );
    assert!(event_to_json(&event(), false, "prod").get("profile").is_none());
    assert_eq!(
        event_row("prod", &event()),
        vec!["prod", "e1", "i1", "INCIDENT_EVENT_TYPE_CREATED", ""]
    );
}

#[test]
fn merge_rows_tags_rows_in_profile_order_and_reports_failures() {
    let per_profile: Vec<(String, Result<Vec<serde_json::Value>, String>)> = vec![
        ("prod".to_string(), Ok(vec![json(r#"{"a": 1}"#), json(r#"{"a": 2}"#)])),
        ("down".to_string(), Err("timeout".to_string())),
        ("staging".to_string(), Ok(vec![json(r#"{"a": 3}"#)])),
    ];
    let merged = merge_rows(per_profile, true);
    assert_eq!(merged.rows.len(), 3);
    assert_eq!(merged.rows[0]["profile"], "prod");
    assert_eq!(merged.rows[2]["profile"], "staging");
    assert_eq!(merged.rows[2]["a"], 3);
    assert_eq!(merged.errors, vec!["error from profile 'down': timeout".to_string()]);

    let single = merge_rows(vec![("prod".to_string(), Ok(vec![json(r#"{"a": 1}"#)]))], false);
    assert_eq!(single.rows, vec![json(r#"{"a": 1}"#)]);
    assert!(single.errors.is_empty());
}

fn incident(id: &str) -> cx_cli::incidents::Incident {
    cx_cli::incidents::Incident {
        id: Some(id.to_string()),
        name: Some(format!("incident {id}")),
        severity: "CRITICAL".to_string(),
        state: "TRIGGERED".to_string(),
        created_at: Some("2026-01-01T00:00:00Z".to_string()),
        closed_at: None,
        is_muted: Some(false),
        assigned_to: "-".to_string(),
        description: None,
    }
}

#[test]
fn incident_json_keeps_its_keys_in_order_and_tags_the_profile() {
    let row = cx_cli::incidents::incident_to_json(&incident("i1"), true, "eu");
    assert_eq!(
        serde_json::to_string(&row).unwrap(),
        r#"{"id":"i1","name":"incident i1","severity":"CRITICAL","state":"TRIGGERED","created_at":"2026-01-01T00:00:00Z","closed_at":null,"is_muted":false,"assigned_to":"-","profile":"eu"}"#
    );
    let cells = cx_cli::incidents::incident_row("eu", &incident("i1"));
    assert_eq!(cells, vec!["eu", "i1", "incident i1", "CRITICAL", "TRIGGERED", "2026-01-01T00:00:00Z", "-"]);
}

#[test]
fn merged_incident_pages_keep_profile_order_and_refuse_when_all_fail() {
    let merged = merge_incident_pages(
        vec![
            ("eu".to_string(), Ok(vec![incident("a"), incident("b")])),
            ("us".to_string(), Err("timeout".to_string())),
        ],
        true,
    )
    .unwrap();
    assert_eq!(merged.items.len(), 2);
    assert_eq!(merged.rows.len(), 2);
    assert_eq!(merged.rows[1].get("profile").and_then(|v| v.as_str()), Some("eu"));
    assert_eq!(merged.errors, vec!["error from profile 'us': timeout".to_string()]);

    let err = merge_incident_pages(vec![("us".to_string(), Err("down".to_string()))], false).unwrap_err();
    assert_eq!(err.message(), "Failed to list incidents for all selected profiles.");
    assert!(matches!(err, IncidentsError::AllProfilesFailed { ref errors } if errors.len() == 1));
    assert!(merge_incident_pages(vec![], false).unwrap().rows.is_empty());
}

#[test]
fn normalizing_an_incident_field_twice_changes_nothing() {
    for raw in ["created_at", "name", " last-update ", "INCIDENTS_FIELDS_NAME", "subsystem"] {
        let once = normalize_incident_field(raw);
        assert!(once.starts_with("INCIDENTS_FIELDS_"));
        assert_eq!(normalize_incident_field(&once), once);
    }
    assert_eq!(normalize_incident_field("created_at"), "INCIDENTS_FIELDS_CREATED_TIME");
    assert_eq!(normalize_incident_field("name"), "INCIDENTS_FIELDS_NAME");
}

#[test]
fn incident_details_dash_what_is_missing_and_keep_a_description() {
    let mut inc = incident("i9");
    inc.name = None;
    let lines = cx_cli::incidents::incident_detail_lines(&inc);
    let as_text: Vec<String> = lines.iter().map(|(l, g, v)| format!("{l}{g}{v}")).collect();
    assert_eq!(
        as_text,
        vec![
            "Name:      -",
            "ID:        i9",
            "Severity:  CRITICAL",
            "State:     TRIGGERED",
            "Created:   2026-01-01T00:00:00Z",
            "Assigned:  -",
        ]
    );
    inc.description = Some("disk full".to_string());
    let lines = cx_cli::incidents::incident_detail_lines(&inc);
    assert_eq!(lines.len(), 7);
    assert_eq!(lines[6].0, "Description");
    assert_eq!(lines[6].2, "disk full");
    inc.description = Some(String::new());
    assert_eq!(cx_cli::incidents::incident_detail_lines(&inc).len(), 6);
}
