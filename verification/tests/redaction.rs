use codex_remote::json::Json;
use codex_remote::redaction::{
    compact_thread_history_image_payloads, redact_thread_resume_payloads,
    should_redact_thread_resume_payloads, ImageGenerationItem, McpToolCall, McpToolCallError,
    McpToolCallResult, ThreadItem, Turn, MAX_INLINE_PERSISTED_IMAGE_RESULT_BYTES, REDACTED_PAYLOAD,
};

fn json(text: &str) -> Json {
    Json::read(text).expect("test document")
}

fn test_turns(items: Vec<ThreadItem>) -> Vec<Turn> {
    vec![Turn {
        id: "turn-1".to_string(),
        items,
        details: json(r#"{"itemsView": "full", "status": "completed"}"#),
    }]
}

fn redacted_mcp_tool_call_result() -> McpToolCallResult {
    McpToolCallResult {
        content: vec![json(r#"{"type": "text", "text": "[redacted]"}"#)],
        structured_content: None,
        meta: None,
    }
}

fn app_context() -> Json {
    json(
        r#"{"connector_id": "calendar", "link_id": "link_calendar",
            "resource_uri": "ui://widget/lookup.html", "app_name": "Calendar",
            "action_name": "lookup", "plugin_id": "sample@test"}"#,
    )
}

fn agent_message() -> ThreadItem {
    ThreadItem::AgentMessage {
        id: "agent-1".to_string(),
        text: "kept".to_string(),
        details: Json::Null,
    }
}

fn image(id: &str, prompt: &str, result: String, saved_path: Option<&str>) -> ThreadItem {
    ThreadItem::ImageGeneration(ImageGenerationItem {
        id: id.to_string(),
        status: "completed".to_string(),
        result,
        saved_path: saved_path.map(str::to_string),
        details: Json::string(prompt),
    })
}

#[test]
fn redacts_mcp_success_result_and_removes_image_generation() {
    let mut turns = test_turns(vec![
        agent_message(),
        ThreadItem::McpToolCall(McpToolCall {
            id: "mcp-1".to_string(),
            server: "docs".to_string(),
            tool: "lookup".to_string(),
            status: "completed".to_string(),
            arguments: json(r#"{"secret":"argument"}"#),
            result: Some(McpToolCallResult {
                content: vec![json(r#"{"type": "text", "text": "secret result"}"#)],
                structured_content: Some(json(r#"{"secret":"structured"}"#)),
                meta: Some(json(r#"{"secret":"meta"}"#)),
            }),
            error: None,
            duration_ms: Some(8),
            details: app_context(),
        }),
        image(
            "ig-1",
            "revised",
            "base64-result".to_string(),
            Some("/tmp/ig-1.png"),
        ),
    ]);

    redact_thread_resume_payloads(&mut turns);

    assert_eq!(turns[0].items.len(), 2);
    assert_eq!(turns[0].items[0], agent_message());
    assert_eq!(
        turns[0].items[1],
        ThreadItem::McpToolCall(McpToolCall {
            id: "mcp-1".to_string(),
            server: "docs".to_string(),
            tool: "lookup".to_string(),
            status: "completed".to_string(),
            arguments: Json::string(REDACTED_PAYLOAD),
            result: Some(redacted_mcp_tool_call_result()),
            error: None,
            duration_ms: Some(8),
            details: app_context(),
        })
    );
}

#[test]
fn compacts_only_large_persisted_image_results() {
    let large_result = "x".repeat(MAX_INLINE_PERSISTED_IMAGE_RESULT_BYTES + 1);
    let small_result = "small-result".to_string();
    let unsaved_result = "y".repeat(MAX_INLINE_PERSISTED_IMAGE_RESULT_BYTES + 1);
    let persisted_path = Some("/tmp/generated.png");
    let mut turns = test_turns(vec![
        image("large-persisted", "large", large_result, persisted_path),
        image(
            "small-persisted",
            "small",
            small_result.clone(),
            persisted_path,
        ),
        image("large-unsaved", "unsaved", unsaved_result.clone(), None),
    ]);

    compact_thread_history_image_payloads(&mut turns);

    let expected = test_turns(vec![
        image("large-persisted", "large", String::new(), persisted_path),
        image("small-persisted", "small", small_result, persisted_path),
        image("large-unsaved", "unsaved", unsaved_result, None),
    ]);
    assert_eq!(turns, expected);

    compact_thread_history_image_payloads(&mut turns);
    assert_eq!(turns, expected);
}

#[test]
fn image_of_exactly_the_limit_is_kept() {
    let kept = "z".repeat(MAX_INLINE_PERSISTED_IMAGE_RESULT_BYTES);
    // Two bytes to a character: the limit counts bytes.
    let wide = "\u{e9}".repeat(MAX_INLINE_PERSISTED_IMAGE_RESULT_BYTES / 2 + 1);
    let mut turns = test_turns(vec![
        image("exact", "p", kept.clone(), Some("/tmp/a.png")),
        image("wide", "p", wide, Some("/tmp/b.png")),
    ]);
    compact_thread_history_image_payloads(&mut turns);
    assert_eq!(
        turns,
        test_turns(vec![
            image("exact", "p", kept, Some("/tmp/a.png")),
            image("wide", "p", String::new(), Some("/tmp/b.png")),
        ])
    );
}

#[test]
fn redacts_mcp_error_message() {
    let mut turns = test_turns(vec![ThreadItem::McpToolCall(McpToolCall {
        id: "mcp-1".to_string(),
        server: "docs".to_string(),
        tool: "lookup".to_string(),
        status: "failed".to_string(),
        arguments: json(r#"{"secret":"argument"}"#),
        result: None,
        error: Some(McpToolCallError {
            message: "secret error".to_string(),
        }),
        duration_ms: Some(8),
        details: Json::Null,
    })]);

    redact_thread_resume_payloads(&mut turns);

    assert_eq!(
        turns[0].items[0],
        ThreadItem::McpToolCall(McpToolCall {
            id: "mcp-1".to_string(),
            server: "docs".to_string(),
            tool: "lookup".to_string(),
            status: "failed".to_string(),
            arguments: Json::string(REDACTED_PAYLOAD),
            result: None,
            error: Some(McpToolCallError {
                message: REDACTED_PAYLOAD.to_string(),
            }),
            duration_ms: Some(8),
            details: Json::Null,
        })
    );
}

#[test]
fn other_items_keep_their_order() {
    let other = |n: i64| ThreadItem::Other(Json::integer(n));
    let picture = || image("i", "p", String::new(), None);
    let mut turns = test_turns(vec![picture(), other(1), picture(), other(2), picture()]);
    redact_thread_resume_payloads(&mut turns);
    assert_eq!(turns, test_turns(vec![other(1), other(2)]));
}

#[test]
fn only_remote_clients_are_redacted() {
    assert!(should_redact_thread_resume_payloads(Some(
        "codex_chatgpt_android_remote"
    )));
    assert!(should_redact_thread_resume_payloads(Some(
        "codex_chatgpt_ios_remote"
    )));
    assert!(!should_redact_thread_resume_payloads(Some("codex_vscode")));
    assert!(!should_redact_thread_resume_payloads(None));
}
