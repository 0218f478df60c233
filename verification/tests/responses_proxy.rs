use codex_remote::continue_thinking::{
    accepts_continuation, build_next_round_body, commentary_message, is_truncation_pattern,
    merge_include_with_encrypted_reasoning, reasoning_tokens_from_usage, reconstruct_usage,
    should_continue, sum_usage, try_reconstruct_usage, try_sum_usage, ContinueThinkingConfig,
};
use codex_remote::fold::{process_round, FoldError, FoldState, RoundState};
use codex_remote::json::{Json, JsonObject};
use codex_remote::sse::{
    parse_sse_json, read_sse_message, serialize_json_event, split_lines, SseDecoder, SseError,
    SseMessage, SseReader,
};

fn json(text: &str) -> Json {
    Json::read(text).expect("test document")
}

fn object(text: &str) -> JsonObject {
    match json(text) {
        Json::Object(object) => object,
        other => panic!("not an object: {other:?}"),
    }
}

fn config() -> ContinueThinkingConfig {
    ContinueThinkingConfig {
        enabled: true,
        message: "Continue thinking.".to_string(),
        max_extra_rounds: 2,
    }
}

fn sse_text(events: &[&str]) -> String {
    let mut out = String::new();
    for event in events {
        let value = json(event);
        let kind = value.get_str("type").expect("type");
        out.push_str(&format!("event: {kind}\r\ndata: {}\r\n\r\n", value.text()));
    }
    out
}

fn collect_output(sent: &[Vec<u8>]) -> Vec<Json> {
    let joined = String::from_utf8(sent.concat()).expect("text");
    let mut reader = SseReader::new(&joined);
    let mut events = Vec::new();
    while let Some(message) = read_sse_message(&mut reader) {
        if let Some(event) = parse_sse_json(&message) {
            events.push(event);
        }
    }
    events
}

struct Folded {
    events: Vec<Json>,
    payloads: Vec<Json>,
    error: Option<FoldError>,
}

/// Runs a fold the way a server does; `None` stands for a round that cannot be opened.
fn fold(rounds: &[Option<String>], base_body: &str) -> Folded {
    let config = config();
    let base_body = object(base_body);
    let mut sent: Vec<Vec<u8>> = Vec::new();
    let mut payloads = Vec::new();
    let mut state = FoldState::new();
    let mut next = 1;
    let mut reader = SseReader::new(rounds[0].as_ref().expect("first round"));
    loop {
        let outcome = process_round(&mut reader, state.round_number());
        sent.extend(outcome.sent);
        let round = outcome.round.expect("round");
        let body = match state.end_round(&config, &base_body, &round) {
            Ok(body) => body,
            Err(error) => {
                return Folded {
                    events: collect_output(&sent),
                    payloads,
                    error: Some(error),
                }
            }
        };
        if let Some(body) = body {
            payloads.push(body);
            let opened = rounds.get(next).expect("no further round was expected");
            next += 1;
            if let Some(text) = opened {
                state.enter_round(&config, &round);
                reader = SseReader::new(text);
                continue;
            }
        }
        let finish = state.finish(&round);
        sent.extend(finish.sent);
        return Folded {
            events: collect_output(&sent),
            payloads,
            error: finish.error,
        };
    }
}

fn item_id(event: &Json) -> Option<&str> {
    event.get2("item", "id").and_then(|id| id.as_str())
}

#[test]
fn detects_truncation_pattern() {
    assert!(is_truncation_pattern(Some(516)));
    assert!(is_truncation_pattern(Some(1034)));
    assert!(!is_truncation_pattern(Some(515)));
    assert!(!is_truncation_pattern(None));
}

#[test]
fn continue_requires_encrypted_reasoning_and_budget() {
    let config = config();

    assert!(should_continue(
        &config,
        Some(516),
        /*round_number*/ 1,
        /*has_encrypted*/ true
    ));
    assert!(!should_continue(
        &config,
        Some(516),
        /*round_number*/ 3,
        /*has_encrypted*/ true,
    ));
    assert!(!should_continue(
        &config,
        Some(516),
        /*round_number*/ 1,
        /*has_encrypted*/ false,
    ));
}

#[test]
fn candidate_request_requires_stream_reasoning_and_array_input() {
    let config = config();

    assert!(config.is_candidate_request(&json(
        r#"{"stream": true, "reasoning": {"effort": "high"}, "input": []}"#
    )));
    assert!(!config.is_candidate_request(&json(
        r#"{"stream": false, "reasoning": {"effort": "high"}, "input": []}"#
    )));
    assert!(!config.is_candidate_request(&json(
        r#"{"stream": true, "reasoning": false, "input": []}"#
    )));
    assert!(!config.is_candidate_request(&json(
        r#"{"stream": true, "reasoning": {"effort": "high"}, "input": "plain text"}"#
    )));
}

#[test]
fn continuations_are_successful_streams() {
    assert!(accepts_continuation(200, Some("text/event-stream")));
    assert!(accepts_continuation(
        299,
        Some("text/event-stream; charset=utf-8")
    ));
    assert!(!accepts_continuation(300, Some("text/event-stream")));
    assert!(!accepts_continuation(199, Some("text/event-stream")));
    assert!(!accepts_continuation(200, Some("application/json")));
    assert!(!accepts_continuation(200, Some("Text/Event-Stream")));
    assert!(!accepts_continuation(200, None));
}

#[test]
fn disabled_config_takes_no_requests() {
    let config = ContinueThinkingConfig {
        enabled: false,
        ..config()
    };
    assert!(!config.is_candidate_request(&json(
        r#"{"stream": true, "reasoning": {"effort": "high"}, "input": []}"#
    )));
    assert!(!should_continue(&config, Some(516), 1, true));
}

#[test]
fn merges_include_without_duplicates() {
    let body = object(r#"{"include": ["foo", "reasoning.encrypted_content"]}"#);

    let merged = merge_include_with_encrypted_reasoning(&body);
    assert_eq!(merged, json(r#"["foo", "reasoning.encrypted_content"]"#));
}

#[test]
fn merging_twice_is_merging_once() {
    let mut body = object(r#"{"include": ["foo"]}"#);
    let once = merge_include_with_encrypted_reasoning(&body);
    assert_eq!(once, json(r#"["foo", "reasoning.encrypted_content"]"#));
    body.insert("include".to_string(), once.duplicate());
    assert_eq!(merge_include_with_encrypted_reasoning(&body), once);
    assert_eq!(
        merge_include_with_encrypted_reasoning(&object("{}")),
        json(r#"["reasoning.encrypted_content"]"#)
    );
}

#[test]
fn builds_next_round_body_from_replay_tail() {
    let body = object(
        r#"{
            "input": [{"type": "message", "role": "user"}],
            "include": ["foo"],
            "previous_response_id": "resp-1"
        }"#,
    );
    let replay_tail = vec![commentary_message("Continue thinking.")];

    let next = build_next_round_body(&body, &replay_tail).unwrap();
    assert_eq!(
        next,
        json(
            r#"{
                "input": [
                    {"type": "message", "role": "user"},
                    {
                        "type": "message",
                        "role": "assistant",
                        "phase": "commentary",
                        "content": [{"type": "output_text", "text": "Continue thinking."}]
                    }
                ],
                "include": ["foo", "reasoning.encrypted_content"]
            }"#
        )
    );
}

#[test]
fn next_round_needs_a_list_of_inputs() {
    assert!(build_next_round_body(&object(r#"{"input": "text"}"#), &vec![]).is_none());
    assert!(build_next_round_body(&object("{}"), &vec![]).is_none());
}

#[test]
fn reconstructs_usage_as_one_logical_response() {
    let first_usage = json(
        r#"{
            "input_tokens": 10,
            "input_tokens_details": {"cached_tokens": 3},
            "output_tokens": 520,
            "output_tokens_details": {"reasoning_tokens": 516},
            "total_tokens": 530
        }"#,
    );
    let second_usage = json(
        r#"{
            "input_tokens": 12,
            "output_tokens": 40,
            "output_tokens_details": {"reasoning_tokens": 20},
            "total_tokens": 52
        }"#,
    );
    let mut total = JsonObject::new();
    sum_usage(&mut total, Some(&first_usage));
    sum_usage(&mut total, Some(&second_usage));

    let reconstructed = reconstruct_usage(Some(&first_usage), &total, Some(&second_usage));
    assert_eq!(
        reconstructed,
        json(
            r#"{
                "input_tokens": 10,
                "input_tokens_details": {"cached_tokens": 3},
                "output_tokens": 556,
                "output_tokens_details": {"reasoning_tokens": 536},
                "total_tokens": 566
            }"#
        )
    );
    assert_eq!(reasoning_tokens_from_usage(Some(&second_usage)), Some(20));
}

#[test]
fn sums_that_do_not_fit_are_told() {
    let largest = json(r#"{"output_tokens": 9223372036854775807}"#);
    let one = json(r#"{"output_tokens": 1}"#);
    let mut total = JsonObject::new();
    assert!(try_sum_usage(&mut total, Some(&largest)));
    let before = total.duplicate();
    assert!(!try_sum_usage(&mut total, Some(&one)));
    assert_eq!(total, before);
    let first = json(r#"{"input_tokens": 1}"#);
    assert!(try_reconstruct_usage(Some(&first), &total, Some(&largest)).is_none());
    assert!(try_reconstruct_usage(None, &total, Some(&largest)).is_some());
}

#[test]
fn folds_truncated_first_round_into_second_round() {
    let first_round = sse_text(&[
        r#"{"type": "response.created", "response": {"id": "resp-1"}}"#,
        r#"{"type": "response.output_item.added", "output_index": 0, "item": {"type": "reasoning", "id": "r1"}}"#,
        r#"{"type": "response.output_item.done", "output_index": 0, "item": {"type": "reasoning", "id": "r1", "encrypted_content": "abc"}}"#,
        r#"{"type": "response.output_item.added", "output_index": 1, "item": {"type": "message", "id": "m1", "role": "assistant", "content": [{"type":"output_text","text":""}]}}"#,
        r#"{"type": "response.output_text.delta", "output_index": 1, "item_id": "m1", "delta": "bad answer"}"#,
        r#"{"type": "response.output_item.done", "output_index": 1, "item": {"type": "message", "id": "m1", "role": "assistant", "content": [{"type":"output_text","text":"bad answer"}]}}"#,
        r#"{"type": "response.completed", "response": {"id": "resp-1", "usage": {"input_tokens": 10, "input_tokens_details": {"cached_tokens": 1}, "output_tokens": 520, "output_tokens_details": {"reasoning_tokens": 516}, "total_tokens": 530}}}"#,
    ]);
    let second_round = sse_text(&[
        r#"{"type": "response.output_item.added", "output_index": 0, "item": {"type": "reasoning", "id": "r2"}}"#,
        r#"{"type": "response.output_item.done", "output_index": 0, "item": {"type": "reasoning", "id": "r2", "encrypted_content": "def"}}"#,
        r#"{"type": "response.output_item.added", "output_index": 1, "item": {"type": "message", "id": "m2", "role": "assistant", "content": [{"type":"output_text","text":""}]}}"#,
        r#"{"type": "response.output_text.delta", "output_index": 1, "item_id": "m2", "delta": "good answer"}"#,
        r#"{"type": "response.output_item.done", "output_index": 1, "item": {"type": "message", "id": "m2", "role": "assistant", "content": [{"type":"output_text","text":"good answer"}]}}"#,
        r#"{"type": "response.completed", "response": {"id": "resp-2", "usage": {"input_tokens": 12, "output_tokens": 40, "output_tokens_details": {"reasoning_tokens": 20}, "total_tokens": 52}}}"#,
    ]);
    let folded = fold(
        &[Some(first_round), Some(second_round)],
        r#"{
            "stream": true,
            "reasoning": {"effort": "high"},
            "input": [{"type": "message", "role": "user", "content": [{"type": "input_text", "text": "solve"}]}]
        }"#,
    );
    assert_eq!(folded.error, None);

    let events = folded.events;
    assert_eq!(events[0].get_str("type"), Some("response.created"));
    assert_eq!(events[1].get_str("type"), Some("response.output_item.added"));
    assert_eq!(item_id(&events[1]), Some("r1"));
    assert_eq!(events[2].get_str("type"), Some("response.output_item.done"));
    assert_eq!(item_id(&events[2]), Some("r1"));
    assert_eq!(events[3].get_str("type"), Some("response.output_item.added"));
    assert_eq!(item_id(&events[3]), Some("r2"));
    assert_eq!(events[4].get_str("type"), Some("response.output_item.done"));
    assert_eq!(item_id(&events[4]), Some("r2"));
    assert_eq!(events[5].get_str("type"), Some("response.output_item.added"));
    assert_eq!(item_id(&events[5]), Some("m2"));
    let usage = events[8].get2("response", "usage").expect("usage");
    assert_eq!(
        usage
            .get2("output_tokens_details", "reasoning_tokens")
            .and_then(|n| n.as_i64()),
        Some(536)
    );
    assert_eq!(usage.get_i64("output_tokens"), Some(556));
    assert_eq!(
        events
            .iter()
            .filter(|event| item_id(event) == Some("m1"))
            .count(),
        0
    );

    assert_eq!(folded.payloads.len(), 1);
    let next_input = folded.payloads[0]
        .get("input")
        .and_then(|input| input.as_array())
        .unwrap();
    assert_eq!(next_input.len(), 3);
    assert_eq!(next_input[1].get_str("type"), Some("reasoning"));
    assert_eq!(next_input[2].get_str("phase"), Some("commentary"));
}

#[test]
fn keeps_first_round_output_when_reasoning_is_not_encrypted() {
    let first_round = sse_text(&[
        r#"{"type": "response.output_item.added", "output_index": 0, "item": {"type": "message", "id": "m1", "role": "assistant", "content": [{"type":"output_text","text":""}]}}"#,
        r#"{"type": "response.output_text.delta", "output_index": 0, "item_id": "m1", "delta": "keep me"}"#,
        r#"{"type": "response.output_item.done", "output_index": 0, "item": {"type": "message", "id": "m1", "role": "assistant", "content": [{"type":"output_text","text":"keep me"}]}}"#,
        r#"{"type": "response.completed", "response": {"id": "resp-1", "usage": {"output_tokens": 520, "output_tokens_details": {"reasoning_tokens": 516}}}}"#,
    ]);
    // No second round is offered: asking for one would panic.
    let folded = fold(
        &[Some(first_round)],
        r#"{"stream": true, "reasoning": {"effort": "high"}, "input": []}"#,
    );
    assert_eq!(folded.error, None);

    let events = folded.events;
    assert_eq!(events.len(), 4);
    assert_eq!(events[0].get_str("type"), Some("response.output_item.added"));
    assert_eq!(item_id(&events[0]), Some("m1"));
    assert_eq!(events[2].get_str("type"), Some("response.output_item.done"));
    assert_eq!(item_id(&events[2]), Some("m1"));
    assert_eq!(events[3].get_str("type"), Some("response.completed"));
    assert_eq!(
        events[3].get2("response", "id").and_then(|id| id.as_str()),
        Some("resp-1")
    );
}

#[test]
fn falls_back_to_first_round_when_continuation_open_fails() {
    let first_round = sse_text(&[
        r#"{"type": "response.output_item.added", "output_index": 0, "item": {"type": "reasoning", "id": "r1"}}"#,
        r#"{"type": "response.output_item.done", "output_index": 0, "item": {"type": "reasoning", "id": "r1", "encrypted_content": "abc"}}"#,
        r#"{"type": "response.output_item.added", "output_index": 1, "item": {"type": "message", "id": "m1", "role": "assistant", "content": [{"type":"output_text","text":""}]}}"#,
        r#"{"type": "response.output_text.delta", "output_index": 1, "item_id": "m1", "delta": "keep me"}"#,
        r#"{"type": "response.output_item.done", "output_index": 1, "item": {"type": "message", "id": "m1", "role": "assistant", "content": [{"type":"output_text","text":"keep me"}]}}"#,
        r#"{"type": "response.completed", "response": {"id": "resp-1", "usage": {"output_tokens": 520, "output_tokens_details": {"reasoning_tokens": 516}}}}"#,
    ]);
    let folded = fold(
        &[Some(first_round), None],
        r#"{"stream": true, "reasoning": {"effort": "high"}, "input": []}"#,
    );
    assert_eq!(folded.error, None);
    assert_eq!(folded.payloads.len(), 1);

    let events = folded.events;
    assert_eq!(events.len(), 6);
    assert_eq!(events[0].get_str("type"), Some("response.output_item.added"));
    assert_eq!(item_id(&events[0]), Some("r1"));
    assert_eq!(events[1].get_str("type"), Some("response.output_item.done"));
    assert_eq!(item_id(&events[1]), Some("r1"));
    assert_eq!(events[2].get_str("type"), Some("response.output_item.added"));
    assert_eq!(item_id(&events[2]), Some("m1"));
    assert_eq!(events[4].get_str("type"), Some("response.output_item.done"));
    assert_eq!(item_id(&events[4]), Some("m1"));
    assert_eq!(events[5].get_str("type"), Some("response.completed"));
    assert_eq!(
        events[5].get2("response", "id").and_then(|id| id.as_str()),
        Some("resp-1")
    );
}

#[test]
fn hidden_rounds_are_limited() {
    let truncated = sse_text(&[
        r#"{"type": "response.output_item.added", "output_index": 0, "item": {"type": "reasoning", "id": "r1"}}"#,
        r#"{"type": "response.output_item.done", "output_index": 0, "item": {"type": "reasoning", "id": "r1", "encrypted_content": "abc"}}"#,
        r#"{"type": "response.completed", "response": {"id": "resp", "usage": {"output_tokens": 520, "output_tokens_details": {"reasoning_tokens": 516}}}}"#,
    ]);
    let folded = fold(
        &[
            Some(truncated.clone()),
            Some(truncated.clone()),
            Some(truncated),
        ],
        r#"{"input": []}"#,
    );
    assert_eq!(folded.error, None);
    assert_eq!(folded.payloads.len(), 2);
}

#[test]
fn event_without_type_is_refused() {
    let mut round = RoundState::new();
    assert!(matches!(
        round.push_event(1, json(r#"{"data": 1}"#)),
        Err(SseError::MissingType)
    ));
    assert_eq!(
        serialize_json_event(&json("[]")),
        Err(SseError::MissingType)
    );
    let outcome = process_round(&mut SseReader::new("data: {\"data\": 1}\n\n"), 1);
    assert!(matches!(outcome.round, Err(SseError::MissingType)));
}

#[test]
fn usage_beyond_range_ends_a_fold() {
    let round = sse_text(&[
        r#"{"type": "response.output_item.added", "output_index": 0, "item": {"type": "reasoning", "id": "r1"}}"#,
        r#"{"type": "response.output_item.done", "output_index": 0, "item": {"type": "reasoning", "id": "r1", "encrypted_content": "abc"}}"#,
        r#"{"type": "response.completed", "response": {"id": "resp", "usage": {"output_tokens": 9223372036854775807, "output_tokens_details": {"reasoning_tokens": 516}}}}"#,
    ]);
    let folded = fold(&[Some(round.clone()), Some(round)], r#"{"input": []}"#);
    assert_eq!(folded.error, Some(FoldError::UsageOverflow));
}

#[test]
fn reads_event_and_data_lines() {
    let text = "event: response.created\r\ndata: {\"type\":\"response.created\"}\r\n\r\n";
    let mut reader = SseReader::new(text);

    let message = read_sse_message(&mut reader).unwrap();
    assert_eq!(
        message,
        SseMessage {
            event: Some("response.created".to_string()),
            data: "{\"type\":\"response.created\"}".to_string(),
        }
    );
    assert_eq!(
        parse_sse_json(&message),
        Some(json(r#"{"type": "response.created"}"#))
    );
}

#[test]
fn serializes_json_event_to_sse_bytes() {
    let event = json(r#"{"type": "response.completed", "response": {"id": "resp-1"}}"#);

    let bytes = serialize_json_event(&event).unwrap();
    assert_eq!(
        String::from_utf8(bytes).unwrap(),
        "event: response.completed\r\ndata: {\"response\":{\"id\":\"resp-1\"},\"type\":\"response.completed\"}\r\n\r\n"
    );
}

#[test]
fn serialized_events_are_read_back() {
    let event = json(r#"{"type": "a", "text": "two\nlines\r", "n": 3}"#);
    let bytes = serialize_json_event(&event).unwrap();
    let mut reader = SseReader::new(&String::from_utf8(bytes).unwrap());
    let message = read_sse_message(&mut reader).unwrap();
    assert_eq!(message.event.as_deref(), Some("a"));
    assert_eq!(parse_sse_json(&message), Some(event));
    assert_eq!(read_sse_message(&mut reader), None);
}

#[test]
fn serialized_events_end_where_others_begin() {
    let first = json(r#"{"type": "a", "n": 1}"#);
    let second = json(r#"{"type": "b", "n": 2}"#);
    let mut bytes = serialize_json_event(&first).unwrap();
    bytes.extend(serialize_json_event(&second).unwrap());
    let mut text = String::from_utf8(bytes).unwrap();
    text.push_str("data: rest");
    let mut reader = SseReader::new(&text);
    let message = read_sse_message(&mut reader).unwrap();
    assert_eq!(parse_sse_json(&message), Some(first));
    let message = read_sse_message(&mut reader).unwrap();
    assert_eq!(parse_sse_json(&message), Some(second));
    assert_eq!(read_sse_message(&mut reader).unwrap().data, "rest");
    assert_eq!(read_sse_message(&mut reader), None);
}

#[test]
fn message_without_blank_line_at_the_end_is_read() {
    let mut reader = SseReader::new("data: one\ndata: two");
    let message = read_sse_message(&mut reader).unwrap();
    assert_eq!(message.event, None);
    assert_eq!(message.data, "one\ntwo");
    assert_eq!(read_sse_message(&mut reader), None);
}

#[test]
fn data_that_is_no_document_is_skipped() {
    let done = SseMessage {
        event: None,
        data: "[DONE]".to_string(),
    };
    assert_eq!(parse_sse_json(&done), None);
}

#[test]
fn lines_are_decoded_one_by_one() {
    assert_eq!(
        split_lines("a\nb\r\nc"),
        vec!["a\n".to_string(), "b\r\n".to_string(), "c".to_string()]
    );
    let mut decoder = SseDecoder::new();
    assert_eq!(decoder.push_line("event: x\n"), None);
    assert_eq!(decoder.push_line("data: 1\n"), None);
    assert_eq!(
        decoder.push_line("\n"),
        Some(SseMessage {
            event: Some("x".to_string()),
            data: "1".to_string(),
        })
    );
    assert_eq!(decoder.finish(), None);
}
