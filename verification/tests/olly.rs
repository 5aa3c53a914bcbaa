use cx_cli::olly::artifact_text_header;
use cx_cli::olly::{artifact_table_header, artifact_table_rows};
use cx_cli::olly::{
    artifact_agents_response, artifact_response, json_content, Artifact, ProcessedContent,
    artifact_file_name, process_content, short_hash_bytes, ArtifactContent, ContentBlock,
    FileContentBlock, InputContentBlock, Interaction, Message, OllyApi, TextContentBlock,
};
use std::io::Write;

#[test]
fn process_content_text() {
    let text = "Hello, world!";
    let result = process_content(text.as_bytes().to_vec());
    match result {
        ArtifactContent::Text(s) => assert_eq!(s, text),
        ArtifactContent::Binary => panic!("Expected Text, got Binary"),
    }
}

#[test]
fn process_content_json() {
    let json = r#"{"key": "value", "number": 42}"#;
    let result = process_content(json.as_bytes().to_vec());
    match result {
        ArtifactContent::Text(s) => assert_eq!(s, json),
        ArtifactContent::Binary => panic!("Expected Text, got Binary"),
    }
}

#[test]
fn process_content_binary() {
    let bytes = vec![0xff, 0xfe, 0x00, 0x01];
    let result = process_content(bytes);
    assert!(matches!(result, ArtifactContent::Binary));
}

fn gzip(data: &[u8]) -> Vec<u8> {
    let mut encoder = flate2::write::GzEncoder::new(Vec::new(), flate2::Compression::default());
    encoder.write_all(data).unwrap();
    encoder.finish().unwrap()
}

#[test]
fn process_content_gzip_text() {
    let plain = "Hello, compressed world!";
    let compressed = gzip(plain.as_bytes());
    assert_eq!(compressed[0], 0x1f);
    assert_eq!(compressed[1], 0x8b);
    match process_content(compressed) {
        ArtifactContent::Text(s) => assert_eq!(s, plain),
        ArtifactContent::Binary => panic!("Expected Text after gzip decompression"),
    }
}

#[test]
fn process_content_gzip_binary() {
    let plain = vec![0xff, 0xfe, 0x00, 0x01, 0x80, 0x90];
    let compressed = gzip(&plain);
    assert!(matches!(process_content(compressed), ArtifactContent::Binary));
}

#[test]
fn short_hash_is_the_upper_half_of_fnv1a() {
    // FNV-1a of no bytes is the offset basis cbf29ce484222325.
    assert_eq!(short_hash_bytes(b""), "cbf29ce4");
    // FNV-1a("a") is af63dc4c8601ec8c.
    assert_eq!(short_hash_bytes(b"a"), "af63dc4c");
    assert_eq!(
        artifact_file_name("cx", "art-1", "a"),
        "cx_artifact_art-1_af63dc4c.txt"
    );
}

fn msg(role: &str, blocks: Vec<ContentBlock>) -> Message {
    Message {
        id: None,
        role: role.to_string(),
        content: blocks,
    }
}

fn text(t: &str) -> ContentBlock {
    ContentBlock::Text(TextContentBlock {
        text: t.to_string(),
    })
}

#[test]
fn message_text_joins_the_text_blocks() {
    let m = msg(
        "assistant",
        vec![
            text("one"),
            ContentBlock::File(FileContentBlock {
                file_id: None,
                filename: None,
            }),
            ContentBlock::Unknown,
            text("two"),
        ],
    );
    assert_eq!(m.text_content(), "one\ntwo");
    assert_eq!(text("x").as_text(), Some("x"));
    assert_eq!(ContentBlock::Unknown.as_text(), None);
}

fn interaction(status: &str, responses: Option<Vec<Message>>) -> Interaction {
    Interaction {
        id: "i".to_string(),
        chat_id: "c".to_string(),
        status: status.to_string(),
        created_at: None,
        interaction_mode: None,
        model_choice: None,
        data_sources: vec![],
        feedback: None,
        feedback_description: None,
        responses,
    }
}

#[test]
fn interaction_status_is_read_in_any_case() {
    assert!(interaction("COMPLETED", None).is_completed());
    assert!(interaction("error", None).is_error());
    assert!(interaction("Stopped", None).is_terminal());
    assert!(!interaction("in_progress", None).is_terminal());
}

#[test]
fn assistant_text_keeps_the_assistants_non_empty_messages() {
    let i = interaction(
        "completed",
        Some(vec![
            msg("user", vec![text("question")]),
            msg("assistant", vec![text("first")]),
            msg("assistant", vec![]),
            msg("assistant", vec![text("second")]),
        ]),
    );
    assert_eq!(i.assistant_text().as_deref(), Some("first\n\nsecond"));
    assert_eq!(interaction("completed", None).assistant_text(), None);
    assert_eq!(
        interaction("completed", Some(vec![msg("user", vec![text("q")])])).assistant_text(),
        None
    );
}

#[test]
fn input_blocks_are_input_text() {
    let b = InputContentBlock::text("hi");
    assert_eq!(b.content_type, "input_text");
    assert_eq!(b.text, "hi");
}

#[test]
fn chat_requests_use_their_paths() {
    let api = OllyApi::new(());
    let r = api.get_chat_request("c-1");
    assert_eq!(r.path, "/api/v2/olly/v2/chats/c-1");
    assert_eq!(
        r.query,
        vec![("response_format".to_string(), "CONTENT_BLOCKS".to_string())]
    );
    assert_eq!(
        api.get_interaction_request("c-1", "i-2").path,
        "/api/v2/olly/v2/chats/c-1/interactions/i-2"
    );
}

fn parse(text: &str) -> serde_json::Value {
    serde_json::from_str(text).unwrap()
}

fn report() -> Artifact {
    Artifact {
        id: Some("a1".to_string()),
        download_url: Some("https://example.invalid/a1".to_string()),
        filename: Some("report.json".to_string()),
        content_type: Some("application/json".to_string()),
        size: Some(12),
        created_at: None,
        artifact_type: None,
    }
}

#[test]
fn json_content_unwraps_arrays_and_wraps_single_values() {
    assert_eq!(json_content("[1, 2]"), Some(vec![parse("1"), parse("2")]));
    assert_eq!(json_content(r#"{"a": 1}"#), Some(vec![parse(r#"{"a": 1}"#)]));
    assert_eq!(json_content("plain text, not JSON"), None);
}

#[test]
fn artifact_response_carries_the_content_the_file_or_null() {
    let with_json = artifact_response(&report(), ProcessedContent::Json(vec![parse("1")]));
    assert_eq!(
        with_json,
        parse(r#"{"id": "a1", "filename": "report.json", "content_type": "application/json", "size": 12, "content": [1]}"#)
    );
    let with_file = artifact_response(
        &report(),
        ProcessedContent::Text {
            path: "/tmp/x.txt".to_string(),
        },
    );
    assert_eq!(with_file["file"], "/tmp/x.txt");
    assert!(with_file.get("content").is_none());
    let nothing = artifact_response(&report(), ProcessedContent::NoContent);
    assert_eq!(nothing["content"], serde_json::Value::Null);

    assert_eq!(
        artifact_agents_response(&report(), Some("/tmp/x.txt")),
        parse(r#"{"id": "a1", "filename": "report.json", "file": "/tmp/x.txt"}"#)
    );
    assert_eq!(
        artifact_agents_response(&report(), None),
        parse(r#"{"id": "a1", "filename": "report.json", "content": null}"#)
    );
}

#[test]
fn artifact_table_rows_show_dashes_for_what_is_unknown() {
    assert_eq!(artifact_table_header(), vec!["ID", "FILENAME", "TYPE", "SIZE", "CREATED"]);
    let rows = artifact_table_rows(&[report()]);
    assert_eq!(rows, vec![vec!["a1", "report.json", "-", "12 B", "-"]]);
    let bare = Artifact {
        id: None,
        download_url: None,
        filename: None,
        content_type: None,
        size: None,
        created_at: Some("2024-05-01".to_string()),
        artifact_type: Some("report".to_string()),
    };
    assert_eq!(artifact_table_rows(&[bare]), vec![vec!["-", "-", "report", "-", "2024-05-01"]]);
}

#[test]
fn artifact_text_header_lists_only_known_fields() {
    let lines = artifact_text_header(&report());
    assert_eq!(
        lines,
        vec![
            ("Artifact ID:".to_string(), "a1".to_string()),
            ("Filename:".to_string(), "report.json".to_string()),
            ("Type:".to_string(), "application/json".to_string()),
            ("Size:".to_string(), "12 bytes".to_string()),
        ]
    );
}
