use libreoffice_ai::accumulator::ToolCallAccumulator;
use libreoffice_ai::engine::{parse_models_from_value, ToolCallDelta};
use libreoffice_ai::json::{parse_json, Json};
use libreoffice_ai::stream::parse_stream_line;

fn text_at<'a>(value: &'a Json, key: &str) -> Option<&'a str> {
    value.get(key).and_then(|v| v.as_str())
}

#[test]
fn parses_done_marker_line() {
    let chunk = parse_stream_line("data: [DONE]").expect("chunk expected");
    assert!(chunk.done);
    assert!(chunk.content.is_empty());
    assert!(chunk.tool_calls.is_none());
}

#[test]
fn parses_token_payload() {
    let chunk = parse_stream_line(r#"{"token":"Hello","done":false}"#).expect("chunk expected");
    assert!(!chunk.done);
    assert_eq!(chunk.content, "Hello");
    assert!(chunk.tool_calls.is_none());
}

#[test]
fn parses_top_level_tool_calls_array() {
    let chunk = parse_stream_line(
        r#"{"tool_calls":[{"function":{"name":"create_blank_document","arguments":{"filename":"test.odt"}}}]}"#,
    )
    .expect("chunk expected");

    let calls = chunk.tool_calls.expect("tool calls expected");
    assert_eq!(calls.len(), 1);
    assert_eq!(calls[0].function.name, "create_blank_document");
    assert_eq!(text_at(&calls[0].function.arguments, "filename"), Some("test.odt"));
}

#[test]
fn parses_openai_style_choice_delta_tool_calls() {
    let chunk = parse_stream_line(
        r#"{"choices":[{"delta":{"tool_calls":[{"function":{"name":"add_text","arguments":{"file_path":"a.odt","text":"hi"}}}]}}]}"#,
    )
    .expect("chunk expected");

    let calls = chunk.tool_calls.expect("tool calls expected");
    assert_eq!(calls.len(), 1);
    assert_eq!(calls[0].function.name, "add_text");
    assert_eq!(text_at(&calls[0].function.arguments, "text"), Some("hi"));
}

#[test]
fn extracts_tool_call_deltas_from_partial_openai_chunk() {
    let chunk = parse_stream_line(
        r#"{"choices":[{"delta":{"tool_calls":[{"index":0,"function":{"name":"add_text","arguments":"{\"file_path\":\"a.odt\",\"text\":\""}}]}}]}"#,
    )
    .expect("chunk expected");

    assert!(chunk.tool_calls.is_some());
    assert_eq!(chunk.tool_call_deltas.len(), 1);
    assert_eq!(chunk.tool_call_deltas[0].index, 0);
    assert_eq!(chunk.tool_call_deltas[0].name.as_deref(), Some("add_text"));
    assert_eq!(
        chunk.tool_call_deltas[0].arguments_chunk.as_deref(),
        Some("{\"file_path\":\"a.odt\",\"text\":\"")
    );
}

#[test]
fn assembles_split_tool_call_arguments() {
    let mut accumulator = ToolCallAccumulator::default();

    let chunk_1 = parse_stream_line(
        r#"{"choices":[{"delta":{"tool_calls":[{"index":0,"function":{"name":"add_text","arguments":"{\"file_path\":\"a.odt\",\"text\":\""}}]}}]}"#,
    )
    .expect("chunk expected");
    accumulator.absorb_deltas(&chunk_1.tool_call_deltas);

    let chunk_2 = parse_stream_line(
        r#"{"choices":[{"delta":{"tool_calls":[{"index":0,"function":{"arguments":"hello\"}"}}]}}]}"#,
    )
    .expect("chunk expected");
    accumulator.absorb_deltas(&chunk_2.tool_call_deltas);

    let calls = accumulator
        .finalize()
        .expect("assembled tool calls expected");
    assert_eq!(calls.len(), 1);
    assert_eq!(calls[0].function.name, "add_text");
    assert_eq!(text_at(&calls[0].function.arguments, "file_path"), Some("a.odt"));
    assert_eq!(text_at(&calls[0].function.arguments, "text"), Some("hello"));
}

#[test]
fn drops_incomplete_tool_call_arguments() {
    let mut accumulator = ToolCallAccumulator::default();
    accumulator.absorb_deltas(&[ToolCallDelta {
        index: 0,
        name: Some("add_text".to_string()),
        arguments_chunk: Some("{\"file_path\":".to_string()),
    }]);

    assert!(accumulator.finalize().is_none());
}

#[test]
fn parses_models_from_models_array() {
    let value = parse_json(
        r#"{"models":[{"name":"model-a","size":123},{"id":"model-b","updated_at":"2026-03-02T10:00:00Z"}]}"#,
    )
    .expect("json expected");

    let models = parse_models_from_value(&value);
    assert_eq!(models.len(), 2);
    assert_eq!(models[0].name, "model-a");
    assert_eq!(models[0].size, 123);
    assert_eq!(models[1].name, "model-b");
    assert_eq!(models[1].modified_at, "2026-03-02T10:00:00Z");
}

#[test]
fn parses_models_from_string_array() {
    let value = parse_json(r#"["model-x", "model-y"]"#).expect("json expected");
    let models = parse_models_from_value(&value);
    assert_eq!(models.len(), 2);
    assert_eq!(models[0].name, "model-x");
    assert_eq!(models[1].name, "model-y");
}
