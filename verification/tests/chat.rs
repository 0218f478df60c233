use codex_remote::chat_request::{
    uses_kimi_thinking_parameter, ChatRequestBuilder, Provider,
};
use codex_remote::chat_stream::{
    chat_token_usage, ChatStreamState, ResponseEvent, StreamEnd, StreamPoll, TokenUsage,
};
use codex_remote::json::Json;
use codex_remote::protocol::{
    ContentItem, FunctionCallOutputPayload, ReasoningItemContent, ResponseItem,
};

fn json(text: &str) -> Json {
    Json::read(text).expect("test document")
}

fn provider() -> Provider {
    Provider {
        name: "Kimi".to_string(),
        base_url: "https://api.moonshot.cn/v1".to_string(),
    }
}

fn string_at<'a>(value: &'a Json, name: &str) -> Option<&'a str> {
    value.get(name).and_then(|v| v.as_str())
}

#[test]
fn builds_kimi_tool_loop_with_preserved_reasoning() {
    let input = vec![
        ResponseItem::Message {
            role: "user".to_string(),
            content: vec![ContentItem::InputText {
                text: "read it".to_string(),
            }],
        },
        ResponseItem::Reasoning {
            content: Some(vec![ReasoningItemContent::ReasoningText {
                text: "need the file".to_string(),
            }]),
        },
        ResponseItem::FunctionCall {
            name: "read_file".to_string(),
            namespace: None,
            arguments: r#"{"path":"a.txt"}"#.to_string(),
            call_id: "call-a".to_string(),
        },
        ResponseItem::FunctionCallOutput {
            call_id: Some("call-a".to_string()),
            output: FunctionCallOutputPayload::from_text("A".to_string()),
        },
    ];

    let request = ChatRequestBuilder::new("kimi-k2.7-code", "be useful", &input, &[])
        .reasoning_effort(Some("max".to_string()))
        .build(&provider())
        .expect("request");
    let messages = request
        .body
        .get("messages")
        .and_then(|m| m.as_array())
        .expect("messages");

    assert!(request.body.get("max_tokens").is_none());
    assert_eq!(string_at(&request.body, "reasoning_effort"), Some("max"));
    assert_eq!(
        request
            .body
            .get2("thinking", "type")
            .and_then(|t| t.as_str()),
        Some("enabled")
    );
    assert_eq!(
        string_at(&messages[2], "reasoning_content"),
        Some("need the file")
    );
    let calls = messages[2]
        .get("tool_calls")
        .and_then(|c| c.as_array())
        .expect("tool calls");
    assert_eq!(string_at(&calls[0], "id"), Some("call-a"));
    assert_eq!(string_at(&messages[3], "tool_call_id"), Some("call-a"));
    assert_eq!(string_at(&messages[3], "content"), Some("A"));
}

#[test]
fn maps_developer_messages_to_system_for_chat_providers() {
    let input = vec![ResponseItem::Message {
        role: "developer".to_string(),
        content: vec![ContentItem::InputText {
            text: "follow this policy".to_string(),
        }],
    }];

    let request = ChatRequestBuilder::new("kimi-k3", "", &input, &[])
        .build(&provider())
        .expect("request");

    let messages = request
        .body
        .get("messages")
        .and_then(|m| m.as_array())
        .expect("messages");
    assert_eq!(string_at(&messages[0], "role"), Some("system"));
    assert_eq!(
        string_at(&messages[0], "content"),
        Some("follow this policy")
    );
}

#[test]
fn maps_output_schema_to_chat_response_format() {
    let schema = json(
        r#"{
            "type": "object",
            "properties": {"approved": {"type": "boolean"}},
            "required": ["approved"],
            "additionalProperties": false
        }"#,
    );

    let request = ChatRequestBuilder::new("kimi-k3", "", &[], &[])
        .output_schema(Some(&schema), true)
        .build(&provider())
        .expect("request");

    let format = request.body.get("response_format").expect("response_format");
    assert_eq!(string_at(format, "type"), Some("json_schema"));
    let json_schema = format.get("json_schema").expect("json_schema");
    assert_eq!(string_at(json_schema, "name"), Some("codex_output_schema"));
    assert_eq!(json_schema.get("schema"), Some(&schema));
    assert_eq!(
        json_schema.get("strict").and_then(|s| s.as_bool()),
        Some(true)
    );
}

#[test]
fn does_not_add_kimi_thinking_parameter_for_other_chat_providers() {
    let mut generic_provider = provider();
    generic_provider.name = "Compatible".to_string();
    generic_provider.base_url = "https://example.com/v1".to_string();

    let request = ChatRequestBuilder::new("reasoning-model", "", &[], &[])
        .reasoning_effort(Some("high".to_string()))
        .build(&generic_provider)
        .expect("request");

    assert_eq!(string_at(&request.body, "reasoning_effort"), Some("high"));
    assert!(request.body.get("thinking").is_none());
    assert!(!uses_kimi_thinking_parameter(&generic_provider));
}

#[test]
fn consecutive_calls_share_a_message() {
    let call = |id: &str| ResponseItem::FunctionCall {
        name: "f".to_string(),
        namespace: None,
        arguments: "{}".to_string(),
        call_id: id.to_string(),
    };
    let input = vec![call("a"), call("b")];
    let request = ChatRequestBuilder::new("m", "", &input, &[])
        .build(&provider())
        .expect("request");
    let messages = request
        .body
        .get("messages")
        .and_then(|m| m.as_array())
        .expect("messages");
    assert_eq!(messages.len(), 1);
    let calls = messages[0]
        .get("tool_calls")
        .and_then(|c| c.as_array())
        .expect("tool calls");
    assert_eq!(calls.len(), 2);
    assert_eq!(string_at(&calls[1], "id"), Some("b"));
}

#[test]
fn request_carries_its_session() {
    let request = ChatRequestBuilder::new("m", "", &[], &[])
        .session_id(Some("s".to_string()))
        .thread_id(Some("t".to_string()))
        .session_source(None)
        .parallel_tool_calls(true)
        .build(&provider())
        .expect("request");
    assert_eq!(request.session_id.as_deref(), Some("s"));
    assert_eq!(request.thread_id.as_deref(), Some("t"));
    assert!(request.session_source.is_none());
    assert_eq!(
        request.body.get("stream").and_then(|s| s.as_bool()),
        Some(true)
    );
    assert_eq!(string_at(&request.body, "model"), Some("m"));
}

fn collect_events(data: &[&str]) -> Vec<ResponseEvent> {
    let mut state = ChatStreamState::new();
    let mut events = Vec::new();
    for text in data {
        let step = state.step(StreamPoll::Message(text.to_string()));
        events.extend(step.events);
        if let Some(end) = step.end {
            assert_eq!(end, StreamEnd::Completed);
            return events;
        }
    }
    let step = state.step(StreamPoll::Ended);
    events.extend(step.events);
    assert_eq!(step.end, Some(StreamEnd::Completed));
    events
}

#[test]
fn parses_kimi_reasoning_content_and_text() {
    let events = collect_events(&[
        "{\"id\":\"chat-1\",\"choices\":[{\"delta\":{\"reasoning_content\":\"think\"}}]}",
        "{\"id\":\"chat-1\",\"choices\":[{\"delta\":{\"content\":\"done\"},\"finish_reason\":\"stop\"}]}",
        "{\"id\":\"chat-1\",\"choices\":[],\"usage\":{\"prompt_tokens\":12,\"completion_tokens\":5,\"total_tokens\":17}}",
        "[DONE]",
    ]);

    assert_eq!(events.len(), 7);
    assert!(matches!(
        &events[0],
        ResponseEvent::OutputItemAdded(ResponseItem::Reasoning { .. })
    ));
    assert!(matches!(
        &events[1],
        ResponseEvent::ReasoningContentDelta { delta, .. } if delta == "think"
    ));
    assert!(matches!(
        &events[2],
        ResponseEvent::OutputItemDone(ResponseItem::Reasoning { .. })
    ));
    assert!(matches!(
        &events[3],
        ResponseEvent::OutputItemAdded(ResponseItem::Message { .. })
    ));
    assert!(matches!(
        &events[4],
        ResponseEvent::OutputTextDelta(delta) if delta == "done"
    ));
    assert!(matches!(
        &events[5],
        ResponseEvent::OutputItemDone(ResponseItem::Message { .. })
    ));
    assert!(matches!(
        &events[6],
        ResponseEvent::Completed {
            response_id,
            token_usage: Some(usage),
            end_turn: Some(true),
            ..
        } if response_id == "chat-1" && usage.total_tokens == 17
    ));
}

#[test]
fn merges_streamed_tool_call_arguments() {
    let events = collect_events(&[
        "{\"choices\":[{\"delta\":{\"tool_calls\":[{\"index\":0,\"id\":\"call-1\",\"function\":{\"name\":\"read_file\",\"arguments\":\"{\\\"path\\\":\\\"\"}}]}}]}",
        "{\"choices\":[{\"delta\":{\"tool_calls\":[{\"index\":0,\"function\":{\"arguments\":\"a.txt\\\"}\"}}]},\"finish_reason\":\"tool_calls\"}]}",
        "[DONE]",
    ]);

    assert!(events.iter().any(|event| matches!(
        event,
        ResponseEvent::OutputItemDone(ResponseItem::FunctionCall {
            name,
            arguments,
            call_id,
            ..
        }) if name == "read_file"
            && arguments == r#"{"path":"a.txt"}"#
            && call_id == "call-1"
    )));
    assert!(matches!(
        events.last(),
        Some(ResponseEvent::Completed {
            end_turn: Some(false),
            ..
        })
    ));
}

#[test]
fn text_fragments_are_joined() {
    let events = collect_events(&[
        r#"{"choices":[{"delta":{"content":"one "}}]}"#,
        r#"{"choices":[{"delta":{"content":"two"},"finish_reason":"stop"}]}"#,
        "[DONE]",
    ]);
    let done: Vec<&ResponseEvent> = events
        .iter()
        .filter(|e| matches!(e, ResponseEvent::OutputItemDone(_)))
        .collect();
    assert_eq!(done.len(), 1);
    match done[0] {
        ResponseEvent::OutputItemDone(ResponseItem::Message { role, content }) => {
            assert_eq!(role, "assistant");
            let text: String = content
                .iter()
                .map(|part| match part {
                    ContentItem::OutputText { text } => text.as_str(),
                    other => panic!("unexpected part: {other:?}"),
                })
                .collect();
            assert_eq!(text, "one two");
        }
        other => panic!("unexpected event: {other:?}"),
    }
}

#[test]
fn stream_errors_end_the_stream() {
    let mut state = ChatStreamState::new();
    let step = state.step(StreamPoll::Failed("broken".to_string()));
    assert!(matches!(step.end, Some(StreamEnd::Stream(message)) if message == "broken"));

    let step = ChatStreamState::new().step(StreamPoll::TimedOut);
    assert!(matches!(step.end, Some(StreamEnd::Stream(_))));

    let step = ChatStreamState::new().step(StreamPoll::Ended);
    assert!(step.end.is_some());
}

/// The events up to the end of a stream, and the end.
fn run(polls: Vec<StreamPoll>) -> (Vec<ResponseEvent>, Option<StreamEnd>) {
    let mut state = ChatStreamState::new();
    let mut events = vec![];
    for poll in polls {
        let step = state.step(poll);
        events.extend(step.events);
        if step.end.is_some() {
            return (events, step.end);
        }
    }
    (events, None)
}

#[test]
fn streams_complete_once_or_fail_once() {
    let message = |data: &str| StreamPoll::Message(data.to_string());
    let text = r#"{"id": "r", "choices": [{"delta": {"content": "x"}}]}"#;
    let completions = |events: &[ResponseEvent]| {
        events
            .iter()
            .filter(|event| matches!(event, ResponseEvent::Completed { .. }))
            .count()
    };

    let (events, end) = run(vec![
        message(text),
        message(" [DONE] "),
        message("[DONE]"),
        StreamPoll::Ended,
    ]);
    assert_eq!(end, Some(StreamEnd::Completed));
    assert_eq!(completions(&events), 1);
    assert!(matches!(
        events.last(),
        Some(ResponseEvent::Completed { response_id, .. }) if response_id == "r"
    ));

    let (events, end) = run(vec![
        message(text),
        StreamPoll::Failed("broken".to_string()),
        message("[DONE]"),
    ]);
    assert_eq!(end, Some(StreamEnd::Stream("broken".to_string())));
    assert_eq!(completions(&events), 0);

    let (events, end) = run(vec![
        message(r#"{"choices": [{"finish_reason": "stop"}, {"finish_reason": "length"}]}"#),
        message("DONE"),
    ]);
    assert_eq!(end, Some(StreamEnd::ContextWindowExceeded));
    assert_eq!(completions(&events), 0);

    let (events, end) = run(vec![message(text), message(""), message("no document")]);
    assert_eq!(end, None);
    assert_eq!(completions(&events), 0);
}

#[test]
fn full_context_window_ends_the_stream() {
    let mut state = ChatStreamState::new();
    let step = state.step(StreamPoll::Message(
        r#"{"choices":[{"delta":{},"finish_reason":"length"}]}"#.to_string(),
    ));
    assert_eq!(step.end, Some(StreamEnd::ContextWindowExceeded));
}

#[test]
fn token_usage_is_read_exactly() {
    let usage = json(
        r#"{"prompt_tokens": 12, "completion_tokens": 5, "total_tokens": 17,
            "prompt_tokens_details": {"cached_tokens": 4},
            "completion_tokens_details": {"reasoning_tokens": 3}}"#,
    );
    assert_eq!(
        chat_token_usage(&usage),
        Some(TokenUsage {
            input_tokens: 12,
            cached_input_tokens: 4,
            cache_write_input_tokens: 0,
            output_tokens: 5,
            reasoning_output_tokens: 3,
            total_tokens: 17,
        })
    );
}

#[test]
fn usage_beyond_range_ends_the_stream() {
    let mut state = ChatStreamState::new();
    let step = state.step(StreamPoll::Message(
        r#"{"choices":[],"usage":{"prompt_tokens":9223372036854775807,"completion_tokens":1}}"#
            .to_string(),
    ));
    assert_eq!(step.end, Some(StreamEnd::UsageOverflow));
}
