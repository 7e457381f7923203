use libreoffice_ai::accumulator::{parse_arguments_buffer, ToolCallAccumulator};
use libreoffice_ai::config::{
    default_max_tokens, default_ollama_url, default_python_path, default_selected_model,
    default_smolpc_engine_url, default_temperature, default_theme, documents_path_from,
    load_settings_error, AiProvider, AppConfig, ConfigService,
};
use libreoffice_ai::decoder::EngineStreamDecoder;
use libreoffice_ai::engine::{
    extract_error_message, extract_token_text, parse_model_item, parse_tool_call_delta_item,
    parse_tool_calls_value, ToolCallDelta,
};
use libreoffice_ai::json::{parse_json, Json};
use libreoffice_ai::mcp::{
    check_status, launch_plan, process_start_decision, reply_text, start_status, stop_status,
    tool_call_result, tools_json, InitAction, InitRetry, LaunchProbe, McpError, McpRequest,
    McpResponse, McpTool, RequestIds, ToolRegistry,
};
use libreoffice_ai::models::{ChatMessage, Tool, ToolFunction};
use libreoffice_ai::providers::{
    engine_models_result, list_models_error, ollama_endpoint, stream_chunk_from_engine, url_or,
    OllamaLineReader,
};
use libreoffice_ai::request::{
    endpoint_url, flatten_prompt, generate_payload, to_engine_message, EngineGenerateRequest,
};
use libreoffice_ai::stream::{parse_stream_line, stream_payload};
use libreoffice_ai::system::{
    discover_engine_token, legacy_health_status, libreoffice_status, ollama_status,
    python_candidates, python_status, shared_health_decision, EngineProbe, HealthReply,
};
use libreoffice_ai::text::{same_ignoring_ascii_case, trim_str, trim_trailing_slashes};

fn json(text: &str) -> Json {
    parse_json(text).expect("valid JSON")
}

fn message(role: &str, content: &str) -> ChatMessage {
    ChatMessage { role: role.to_string(), content: content.to_string(), tool_calls: None }
}

fn delta(index: usize, name: Option<&str>, chunk: Option<&str>) -> ToolCallDelta {
    ToolCallDelta {
        index,
        name: name.map(|s| s.to_string()),
        arguments_chunk: chunk.map(|s| s.to_string()),
    }
}

// ------------------------------------------------------------------- text
#[test]
fn trims_unicode_whitespace() {
    assert_eq!(trim_str("\u{3000}\t hi there \n\u{A0}"), "hi there");
    assert_eq!(trim_str("   "), "");
}

#[test]
fn compares_ignoring_ascii_case() {
    assert!(same_ignoring_ascii_case("[done]", "[DONE]"));
    assert!(!same_ignoring_ascii_case("[DONE] ", "[DONE]"));
}

#[test]
fn removes_trailing_slashes() {
    assert_eq!(trim_trailing_slashes("http://h:1//"), "http://h:1");
    assert_eq!(endpoint_url("http://127.0.0.1:19432/", "/generate"), "http://127.0.0.1:19432/generate");
    assert_eq!(ollama_endpoint("http://localhost:11434/", "/api/tags"), "http://localhost:11434//api/tags");
}

// ------------------------------------------------------------------- json
#[test]
fn parse_json_builds_the_tree() {
    let v = json(r#"{"a":[1,"x",true,null],"b":{"c":18446744073709551615},"d":-3}"#);
    let a = v.get("a").and_then(|x| x.as_array()).expect("array");
    assert_eq!(a.len(), 4);
    assert_eq!(a[0].as_u64(), Some(1));
    assert_eq!(a[1].as_str(), Some("x"));
    assert_eq!(a[2].as_bool(), Some(true));
    assert!(matches!(a[3], Json::Null));
    assert_eq!(v.get("b").and_then(|b| b.get("c")).and_then(|c| c.as_u64()), Some(u64::MAX));
    assert_eq!(v.get("d").and_then(|d| d.as_u64()), None);
    assert_eq!(v.get("b").map(|b| b.to_text()), Some(r#"{"c":18446744073709551615}"#.to_string()));
    assert!(parse_json("{not json").is_none());
    assert!(v.get("missing").is_none());
}

// --------------------------------------------------------- stream lines
#[test]
fn done_marker_ignores_case() {
    let line = parse_stream_line("  data:  [done]  ").expect("line");
    assert!(line.done);
    assert!(line.content.is_empty());
}

#[test]
fn blank_line_says_nothing() {
    assert!(parse_stream_line(" \t ").is_none());
}

#[test]
fn bare_data_prefix_is_an_empty_text_line() {
    let line = parse_stream_line("data:").expect("line");
    assert!(!line.done);
    assert!(line.content.is_empty());
    assert!(line.tool_calls.is_none() && line.tool_call_deltas.is_empty());
}

#[test]
fn error_payload_ends_stream() {
    let line = parse_stream_line(r#"data: {"error":{"message":"boom"}}"#).expect("line");
    assert!(line.done);
    assert_eq!(line.content, "[smolpc-engine error] boom");
    let line = parse_stream_line(r#"{"error":"bad"}"#).expect("line");
    assert_eq!(line.content, "[smolpc-engine error] bad");
}

#[test]
fn plain_text_payload_is_content() {
    let line = parse_stream_line("data: hello world").expect("line");
    assert!(!line.done);
    assert_eq!(line.content, "hello world");
}

#[test]
fn json_without_anything_says_nothing() {
    assert!(parse_stream_line(r#"{"usage":{"tokens":3}}"#).is_none());
}

#[test]
fn done_flag_without_token_gives_empty_chunk() {
    let line = parse_stream_line(r#"{"done":true}"#).expect("line");
    assert!(line.done);
    assert_eq!(line.content, "");
}

#[test]
fn data_prefix_is_optional() {
    let a = parse_stream_line(r#"data: {"text":"abc"}"#).expect("line");
    let b = parse_stream_line(r#"{"text":"abc"}"#).expect("line");
    assert_eq!(a.content, b.content);
    assert_eq!(stream_payload("  data:  x  "), "x");
}

#[test]
fn token_text_sources() {
    assert_eq!(extract_token_text(&json(r#"{"token":1,"text":"t"}"#)), Some("t".to_string()));
    assert_eq!(
        extract_token_text(&json(r#"{"choices":[{"delta":{"content":"c"}}]}"#)),
        Some("c".to_string())
    );
    assert_eq!(extract_token_text(&json(r#"{"choices":[{"text":"x"}]}"#)), Some("x".to_string()));
    assert_eq!(extract_token_text(&json(r#"{"choices":[]}"#)), None);
    assert_eq!(extract_error_message(&json(r#"{"error":{"code":1}}"#)), None);
}

#[test]
fn tool_call_decoding() {
    assert!(parse_tool_calls_value(&json(r#"[{"function":{"name":"a","arguments":{}}},{"x":1}]"#)).is_none());
    let calls = parse_tool_calls_value(&json(r#"{"function":{"name":"a","arguments":"{}"}}"#)).expect("calls");
    assert_eq!(calls.len(), 1);
    assert_eq!(calls[0].function.arguments.as_str(), Some("{}"));
    assert_eq!(parse_tool_calls_value(&json("[]")).map(|c| c.len()), Some(0));
    assert!(parse_tool_calls_value(&json(r#"{"function":{"name":"a"}}"#)).is_none());
}

#[test]
fn tool_call_array_forms() {
    let calls = parse_tool_calls_value(&json(r#"{"function":["n",{"k":1}]}"#)).expect("calls");
    assert_eq!(calls.len(), 1);
    assert_eq!(calls[0].function.name, "n");
    assert_eq!(calls[0].function.arguments.get("k").and_then(|v| v.as_u64()), Some(1));
    let flat = parse_tool_calls_value(&json(r#"[{"name":"x","arguments":{}}]"#)).expect("calls");
    assert_eq!(flat.len(), 1);
    assert_eq!(flat[0].function.name, "x");
    let nested = parse_tool_calls_value(&json(r#"[["m",2]]"#)).expect("calls");
    assert_eq!(nested.len(), 1);
    assert_eq!(nested[0].function.name, "m");
    assert_eq!(nested[0].function.arguments.as_u64(), Some(2));
    assert!(parse_tool_calls_value(&json(r#"{"function":["n"]}"#)).is_none());
    assert!(parse_tool_calls_value(&json(r#"{"function":[1,{}]}"#)).is_none());
}

#[test]
fn delta_item_fields() {
    let d = parse_tool_call_delta_item(&json(r#"{"name":"n","arguments":{"k":[1,2]}}"#), 4).expect("delta");
    assert_eq!(d.index, 4);
    assert_eq!(d.name.as_deref(), Some("n"));
    assert_eq!(d.arguments_chunk.as_deref(), Some(r#"{"k":[1,2]}"#));
    let d = parse_tool_call_delta_item(&json(r#"{"index":2,"function":{"arguments":"x"}}"#), 0).expect("delta");
    assert_eq!(d.index, 2);
    assert!(d.name.is_none());
    assert!(parse_tool_call_delta_item(&json(r#"{"index":1,"arguments":5}"#), 0).is_none());
}

#[test]
fn model_items() {
    let m = parse_model_item(&json(r#""solo""#)).expect("model");
    assert_eq!((m.name.as_str(), m.modified_at.as_str(), m.size), ("solo", "", 0));
    let m = parse_model_item(&json(r#"{"model":"m","modified_at":"t","size":-1}"#)).expect("model");
    assert_eq!((m.name.as_str(), m.modified_at.as_str(), m.size), ("m", "t", 0));
    assert!(parse_model_item(&json(r#"{"name":3,"id":"x"}"#)).is_none());
}

// ----------------------------------------------------------- accumulator
#[test]
fn absorbing_in_batches_matches_all_at_once() {
    let ds = vec![
        delta(1, Some("b"), Some("{\"x\":")),
        delta(0, Some(" a "), Some("{}")),
        delta(1, None, Some("1}")),
        delta(1, Some("  "), None),
    ];
    let mut whole = ToolCallAccumulator::new();
    whole.absorb_deltas(&ds);
    let mut parts = ToolCallAccumulator::new();
    parts.absorb_deltas(&ds[..2]);
    parts.absorb_deltas(&ds[2..]);
    let a = whole.finalize().expect("calls");
    let b = parts.finalize().expect("calls");
    assert_eq!(a.len(), 2);
    assert_eq!(b.len(), 2);
    assert_eq!(a[0].function.name, "a");
    assert_eq!(a[1].function.name, "b");
    assert_eq!(b[1].function.name, "b");
    assert_eq!(a[1].function.arguments.get("x").and_then(|v| v.as_u64()), Some(1));
    assert_eq!(b[1].function.arguments.get("x").and_then(|v| v.as_u64()), Some(1));
}

#[test]
fn empty_arguments_become_empty_object() {
    let mut acc = ToolCallAccumulator::new();
    acc.absorb_deltas(&[delta(3, Some("t"), Some("   "))]);
    let calls = acc.finalize().expect("calls");
    assert_eq!(calls[0].function.arguments.to_text(), "{}");
    assert!(parse_arguments_buffer("{bad").is_none());
}

#[test]
fn nameless_calls_are_dropped() {
    let mut acc = ToolCallAccumulator::new();
    acc.absorb_deltas(&[delta(0, None, Some("{}"))]);
    assert!(acc.finalize().is_none());
}

#[test]
fn complete_calls_keep_their_arguments_text() {
    let line = parse_stream_line(r#"{"tool_calls":[{"function":{"name":"f","arguments":{"a":1}}}]}"#).unwrap();
    let mut acc = ToolCallAccumulator::new();
    acc.absorb_complete_calls(line.tool_calls.as_ref().unwrap());
    let calls = acc.finalize().expect("calls");
    assert_eq!(calls[0].function.name, "f");
    assert_eq!(calls[0].function.arguments.to_text(), r#"{"a":1}"#);
}

// --------------------------------------------------------------- decoder
#[test]
fn decoder_pieces_match_whole_stream() {
    let text = "data: {\"token\":\"He\"}\n\ndata: {\"token\":\"llo\"}\ndata: [DONE]\ndata: {\"token\":\"late\"}\n";
    let mut whole = EngineStreamDecoder::new();
    let all: Vec<(String, bool)> =
        whole.push_text(text).into_iter().map(|c| (c.content, c.done)).collect();
    let mut pieces = EngineStreamDecoder::new();
    let mut got: Vec<(String, bool)> = Vec::new();
    let (a, rest) = text.split_at(13);
    let (b, c) = rest.split_at(20);
    for part in [a, b, c] {
        for ch in pieces.push_text(part) {
            got.push((ch.content, ch.done));
        }
    }
    assert_eq!(all, got);
    assert_eq!(
        all,
        vec![("He".to_string(), false), ("llo".to_string(), false), (String::new(), true)]
    );
    assert!(whole.is_finished());
    assert!(whole.finish().is_empty());
}

#[test]
fn finish_ends_with_assembled_tool_calls() {
    let mut d = EngineStreamDecoder::new();
    let out = d.push_text(&[
        "{\"choices\":[{\"delta\":{\"tool_calls\":[{\"index\":0,\"function\":{\"name\":\"add_text\"}}]}}]}\n",
        "{\"choices\":[{\"delta\":{\"tool_calls\":[{\"index\":0,\"function\":{\"arguments\":\"{\\\"a\\\":\"}}]}}]}\n",
        "{\"choices\":[{\"delta\":{\"tool_calls\":[{\"index\":0,\"function\":{\"arguments\":\"2}\"}}]}}]}",
    ]
    .concat());
    assert_eq!(out.len(), 2);
    assert!(out.iter().all(|c| !c.done && c.tool_calls.is_none()));
    let end = d.finish();
    assert_eq!(end.len(), 2);
    assert!(!end[0].done);
    assert!(end[1].done);
    let calls = end[1].tool_calls.as_ref().expect("calls");
    assert_eq!(calls[0].function.name, "add_text");
    assert_eq!(calls[0].function.arguments.get("a").and_then(|v| v.as_u64()), Some(2));
}

#[test]
fn decoder_reassembles_split_tool_call_arguments() {
    // The first line's item reads both as a complete call and as a delta;
    // its argument piece is joined once, so the pieces reassemble.
    let mut d = EngineStreamDecoder::new();
    let out = d.push_text(
        &[
            "{\"choices\":[{\"delta\":{\"tool_calls\":[{\"index\":0,\"function\":{\"name\":\"add_text\",\"arguments\":\"{\\\"file_path\\\":\\\"a.odt\\\",\\\"text\\\":\\\"\"}}]}}]}\n",
            "{\"choices\":[{\"delta\":{\"tool_calls\":[{\"index\":0,\"function\":{\"arguments\":\"hello\\\"}\"}}]}}]}\n",
            "data: [DONE]\n",
        ]
        .concat(),
    );
    assert_eq!(out.len(), 3);
    assert!(!out[0].done && !out[1].done);
    assert!(out[2].done);
    assert!(d.is_finished());
    let calls = out[2].tool_calls.as_ref().expect("assembled tool calls expected");
    assert_eq!(calls.len(), 1);
    assert_eq!(calls[0].function.name, "add_text");
    let args = &calls[0].function.arguments;
    assert_eq!(args.get("file_path").and_then(|v| v.as_str()), Some("a.odt"));
    assert_eq!(args.get("text").and_then(|v| v.as_str()), Some("hello"));
    assert!(d.finish().is_empty());
}

#[test]
fn decoder_keeps_complete_calls_without_deltas() {
    // A complete call whose arguments are an object also arrives as one
    // delta (the object's text); the end of input yields it once.
    let mut d = EngineStreamDecoder::new();
    let out = d.push_text(
        "{\"tool_calls\":[{\"function\":{\"name\":\"f\",\"arguments\":{\"a\":1}}}]}\n",
    );
    assert_eq!(out.len(), 1);
    assert!(out[0].tool_calls.is_some());
    let end = d.finish();
    assert_eq!(end.len(), 1);
    let calls = end[0].tool_calls.as_ref().expect("calls");
    assert_eq!(calls.len(), 1);
    assert_eq!(calls[0].function.name, "f");
    assert_eq!(calls[0].function.arguments.get("a").and_then(|v| v.as_u64()), Some(1));
}

#[test]
fn decoder_byte_pieces_match_whole() {
    let whole = "{\"text\":\"h\u{e9}\"}\n{\"text\":\"!\"}\n".as_bytes();
    let mut one = EngineStreamDecoder::new();
    let a = one.push_bytes(whole);
    let mut two = EngineStreamDecoder::new();
    let cut = "{\"text\":\"h\u{e9}".len();
    let mut b = two.push_bytes(&whole[..cut]);
    b.extend(two.push_bytes(&whole[cut..]));
    let texts = |cs: &Vec<libreoffice_ai::decoder::EngineStreamChunk>| {
        cs.iter().map(|c| c.content.clone()).collect::<Vec<String>>()
    };
    assert_eq!(texts(&a), vec!["h\u{e9}".to_string(), "!".to_string()]);
    assert_eq!(texts(&a), texts(&b));
}

#[test]
fn decoder_drops_invalid_utf8_chunks() {
    let mut d = EngineStreamDecoder::new();
    assert!(d.push_bytes(&[0xff, 0xfe, b'\n']).is_empty());
    let out = d.push_bytes(b"{\"text\":\"ok\"}\n");
    assert_eq!(out.len(), 1);
    assert_eq!(out[0].content, "ok");
    let end = d.finish();
    assert_eq!(end.len(), 1);
    assert!(end[0].done && end[0].content.is_empty() && end[0].tool_calls.is_none());
}

// ---------------------------------------------------------------- request
#[test]
fn prompt_skips_blank_messages() {
    let ms = vec![message("system", "be brief"), message("user", "  "), message("user", "hi")];
    assert_eq!(flatten_prompt(&ms), "system: be brief\nuser: hi");
    assert_eq!(flatten_prompt(&[]), "");
}

#[test]
fn payload_sets_tool_choice_with_tools() {
    let tool = Tool {
        tool_type: "function".to_string(),
        function: ToolFunction {
            name: "add_text".to_string(),
            description: "adds".to_string(),
            parameters: json(r#"{"type":"object"}"#),
        },
    };
    let req = EngineGenerateRequest {
        model: "m".to_string(),
        messages: vec![message("user", "hi")],
        tools: Some(vec![tool]),
        temperature_bits: Some(0.5f32.to_bits()),
        max_tokens: None,
    };
    let p = generate_payload(req);
    assert_eq!(p.prompt, "user: hi");
    assert_eq!(p.tool_choice.as_deref(), Some("auto"));
    assert_eq!(p.tools.as_ref().map(|t| t.len()), Some(1));
    assert_eq!(p.params.temperature_bits, Some(0.5f32.to_bits()));
    let req = EngineGenerateRequest {
        model: "m".to_string(),
        messages: vec![],
        tools: None,
        temperature_bits: None,
        max_tokens: Some(9),
    };
    let p = generate_payload(req);
    assert!(p.tool_choice.is_none() && p.tools.is_none());
    assert_eq!(p.params.max_tokens, Some(9));
}

#[test]
fn payload_sends_tool_results_as_user_messages() {
    let req = EngineGenerateRequest {
        model: "m".to_string(),
        messages: vec![message("user", "list"), message("tool", "{\"ok\":true}")],
        tools: None,
        temperature_bits: None,
        max_tokens: None,
    };
    let p = generate_payload(req);
    assert_eq!(p.messages.len(), 2);
    assert_eq!(p.messages[0].role, "user");
    assert_eq!(p.messages[0].content, "list");
    assert_eq!(p.messages[1].role, "user");
    assert_eq!(p.messages[1].content, "Tool result:\n{\"ok\":true}");
    assert_eq!(p.prompt, "user: list\ntool: {\"ok\":true}");
    let m = to_engine_message(&message("assistant", "done"));
    assert_eq!((m.role.as_str(), m.content.as_str()), ("assistant", "done"));
}

// ----------------------------------------------------------------- config
#[test]
fn config_defaults() {
    assert_eq!(default_ollama_url(), "http://localhost:11434");
    assert_eq!(default_selected_model(), "phi3:latest");
    assert_eq!(default_smolpc_engine_url(), "http://127.0.0.1:19432");
    assert_eq!(default_python_path(), "python3");
    assert_eq!(default_theme(), "dark");
    assert_eq!(default_temperature().map(f32::from_bits), Some(0.7f32));
    assert_eq!(default_max_tokens(), Some(2048));
    assert_eq!(AiProvider::default(), AiProvider::Ollama);
    let c = AppConfig::defaults_with_documents_path("/docs".to_string());
    assert_eq!(c.theme, "dark");
    assert_eq!(c.documents_path, "/docs");
    assert!(c.libreoffice_path.is_none() && c.system_prompt.is_none());
    assert_eq!(documents_path_from(None), "");
    assert_eq!(documents_path_from(Some("/d".to_string())), "/d");
}

#[test]
fn config_load_resolution() {
    let loaded = ConfigService::resolve_load(None, "/docs".to_string()).expect("defaults");
    assert_eq!(loaded.ollama_url, "http://localhost:11434");
    assert_eq!(loaded.documents_path, "/docs");
    let err = ConfigService::resolve_load(Some(Err("bad".to_string())), String::new());
    assert_eq!(err.err().as_deref(), Some("bad"));
    let fallback = ConfigService::config_or_default(Err("x".to_string()), String::new());
    assert_eq!(fallback.selected_model, "phi3:latest");
    assert_eq!(fallback.documents_path, "");
    assert_eq!(ConfigService::settings_file_name(), "settings.json");
    assert_eq!(ConfigService::app_dir_name(), "libreoffice-ai");
    assert_eq!(load_settings_error("e"), "Failed to load settings: e");
}

// -------------------------------------------------------------------- MCP
#[test]
fn mcp_statuses() {
    let s = start_status(Some("no python"), None);
    assert!(!s.running);
    assert_eq!(s.error_message.as_deref(), Some("Failed to start MCP server: no python"));
    let s = start_status(None, Some("timeout"));
    assert_eq!(s.error_message.as_deref(), Some("Failed to initialize MCP: timeout"));
    assert!(start_status(None, None).running);
    assert_eq!(check_status(false).error_message.as_deref(), Some("MCP server is not running"));
    assert!(check_status(true).error_message.is_none());
    let s = stop_status(Some("busy"));
    assert!(s.running);
    assert_eq!(s.error_message.as_deref(), Some("Failed to stop MCP server: busy"));
    assert!(!stop_status(None).running);
}

#[test]
fn request_ids_count_up() {
    let mut ids = RequestIds::new();
    assert_eq!(ids.next_id(), 1);
    assert_eq!(ids.next_id(), 2);
    let r = McpRequest::new(7, "tools/list".to_string(), None);
    assert_eq!(r.jsonrpc, "2.0");
    assert_eq!(r.id, 7);
}

#[test]
fn init_retry_gives_up_after_ten_attempts() {
    let mut retry = InitRetry::new();
    for n in 1..=10u32 {
        match retry.next_attempt(0) {
            InitAction::Send(k) => assert_eq!(k, n),
            other => panic!("unexpected {:?}", other),
        }
        match retry.after_reply(Err("io".to_string())) {
            InitAction::Wait(ms) if n < 10 => assert_eq!(ms, 2000),
            InitAction::Finished(Err(m)) if n == 10 => {
                assert_eq!(m, "MCP initialization failed after 10 attempts")
            }
            other => panic!("unexpected {:?}", other),
        }
    }
    assert_eq!(retry.attempts(), 10);
}

#[test]
fn init_retry_timeout_and_replies() {
    let mut retry = InitRetry::new();
    match retry.next_attempt(30_000_000_001) {
        InitAction::Finished(Err(m)) => assert_eq!(m, "MCP initialization timed out after 30s"),
        other => panic!("unexpected {:?}", other),
    }
    assert!(matches!(retry.next_attempt(30_000_000_000), InitAction::Send(1)));
    assert!(matches!(retry.after_reply(Ok(None)), InitAction::Finished(Ok(()))));
    match retry.after_reply(Ok(Some("nope".to_string()))) {
        InitAction::Finished(Err(m)) => assert_eq!(m, "MCP initialization failed: nope"),
        other => panic!("unexpected {:?}", other),
    }
}

#[test]
fn reply_lines_and_results() {
    assert_eq!(reply_text("  {\"id\":1}\n").unwrap(), "{\"id\":1}");
    assert_eq!(reply_text("\n").unwrap_err(), "MCP server closed stdout (empty response)");
    let with_error = McpResponse {
        id: Some(1),
        result: None,
        error: Some(McpError { code: -1, message: "denied".to_string(), data: None }),
    };
    assert_eq!(tools_json(with_error).unwrap_err(), "Failed to list tools: denied");
    let no_result = McpResponse { id: None, result: None, error: None };
    assert_eq!(tools_json(no_result).unwrap().to_text(), "[]");
    let tools = McpResponse { id: None, result: Some(json(r#"{"tools":[{"name":"t"}]}"#)), error: None };
    assert_eq!(tools_json(tools).unwrap().to_text(), r#"[{"name":"t"}]"#);
    let none = McpResponse { id: None, result: None, error: None };
    assert_eq!(tool_call_result(none).unwrap_err(), "No result from tool invocation");
    let failed = McpResponse {
        id: None,
        result: None,
        error: Some(McpError { code: 0, message: "x".to_string(), data: None }),
    };
    assert_eq!(tool_call_result(failed).unwrap_err(), "Tool invocation failed: x");
}

fn tool(name: &str, description: &str) -> McpTool {
    McpTool { name: name.to_string(), description: Some(description.to_string()), input_schema: Json::Null }
}

#[test]
fn registry_keeps_latest_tool_per_name() {
    let mut reg = ToolRegistry::new();
    reg.record(&vec![tool("a", "1"), tool("b", "2")]);
    reg.record(&vec![tool("a", "3")]);
    let all = reg.get_tools();
    assert_eq!(all.len(), 2);
    assert_eq!(all[0].name, "a");
    assert_eq!(all[0].description.as_deref(), Some("3"));
    assert_eq!(reg.find("b").and_then(|t| t.description), Some("2".to_string()));
    assert!(reg.find("c").is_none());
}

#[test]
fn registry_last_tool_of_a_name_wins() {
    let mut reg = ToolRegistry::new();
    reg.record(&vec![tool("x", "0")]);
    reg.record(&vec![tool("a", "1"), tool("b", "2"), tool("a", "3")]);
    let all = reg.get_tools();
    let names: Vec<&str> = all.iter().map(|t| t.name.as_str()).collect();
    assert_eq!(names, vec!["x", "a", "b"]);
    assert_eq!(reg.find("a").and_then(|t| t.description), Some("3".to_string()));
    assert_eq!(reg.find("x").and_then(|t| t.description), Some("0".to_string()));
}

fn probe(run: bool, unix: bool, main: bool, venv: bool, windows: bool) -> LaunchProbe {
    LaunchProbe {
        run_script: "/m/run.sh".to_string(),
        run_script_exists: run,
        unix,
        windows,
        main_script: "/m/main.py".to_string(),
        main_script_exists: main,
        venv_python: "/m/.venv/bin/python".to_string(),
        venv_python_exists: venv,
        mcp_dir_debug: "\"/m\"".to_string(),
    }
}

#[test]
fn launch_plans() {
    let p = launch_plan(&probe(true, true, true, true, false)).unwrap();
    assert_eq!(p.command, "/m/run.sh");
    assert!(p.args.is_empty());
    let p = launch_plan(&probe(true, false, true, false, true)).unwrap();
    assert_eq!(p.command, "python");
    assert_eq!(p.args, vec!["/m/main.py".to_string()]);
    let p = launch_plan(&probe(false, true, true, false, false)).unwrap();
    assert_eq!(p.command, "python3");
    let p = launch_plan(&probe(false, true, true, true, false)).unwrap();
    assert_eq!(p.command, "/m/.venv/bin/python");
    let e = launch_plan(&probe(false, true, false, true, false)).unwrap_err();
    assert_eq!(e, "MCP server scripts not found at \"/m\"");
    assert_eq!(process_start_decision(true, false, "x"), Ok(false));
    assert_eq!(process_start_decision(false, true, "x"), Ok(true));
    assert_eq!(
        process_start_decision(false, false, "\"p\""),
        Err("MCP server main.py not found at \"p\"".to_string())
    );
}

// ----------------------------------------------------------------- system
#[test]
fn python_checks() {
    assert_eq!(python_candidates(true), vec!["python", "python3", "py"]);
    assert_eq!(python_candidates(false), vec!["python3", "python"]);
    let s = python_status(Some(("  ".to_string(), "Python 3.12.1\n".to_string())));
    assert!(s.installed);
    assert_eq!(s.version.as_deref(), Some("Python 3.12.1"));
    let s = python_status(None);
    assert!(!s.installed);
    assert_eq!(s.error_message.as_deref(), Some("Python 3.12+ not found. Please install from python.org"));
}

#[test]
fn ollama_and_libreoffice_checks() {
    let s = ollama_status(Some("{\"version\":\"0.5\"}".to_string()));
    assert!(s.installed && s.name == "Ollama");
    assert!(!ollama_status(None).installed);
    assert!(libreoffice_status(true).error_message.is_none());
    assert_eq!(
        libreoffice_status(false).error_message.as_deref(),
        Some("LibreOffice not found. Document features will be disabled.")
    );
}

fn reply(code: u16, text: &str, body: &str) -> Option<HealthReply> {
    Some(HealthReply { code, status_text: text.to_string(), body: body.to_string() })
}

#[test]
fn engine_health_decisions() {
    match shared_health_decision(reply(200, "200 OK", " {\"ok\":true} ")) {
        EngineProbe::Decided(s) => {
            assert!(s.installed);
            assert_eq!(s.version.as_deref(), Some("shared-engine-v1 {\"ok\":true}"));
        }
        EngineProbe::TryLegacy => panic!("decided expected"),
    }
    match shared_health_decision(reply(204, "204 No Content", "")) {
        EngineProbe::Decided(s) => assert_eq!(s.version.as_deref(), Some("shared-engine-v1")),
        EngineProbe::TryLegacy => panic!("decided expected"),
    }
    match shared_health_decision(reply(403, "403 Forbidden", "")) {
        EngineProbe::Decided(s) => assert!(!s.installed && s.error_message.unwrap().contains("bearer token")),
        EngineProbe::TryLegacy => panic!("decided expected"),
    }
    match shared_health_decision(reply(500, "500 Internal Server Error", "")) {
        EngineProbe::Decided(s) => assert_eq!(
            s.error_message.as_deref(),
            Some("smolpc-engine health check failed at /engine/health: 500 Internal Server Error")
        ),
        EngineProbe::TryLegacy => panic!("decided expected"),
    }
    assert!(matches!(shared_health_decision(reply(404, "404 Not Found", "")), EngineProbe::TryLegacy));
    assert!(matches!(shared_health_decision(None), EngineProbe::TryLegacy));
    let s = legacy_health_status(reply(200, "200 OK", "up"));
    assert_eq!(s.version.as_deref(), Some("legacy-preview up"));
    assert!(!legacy_health_status(reply(404, "404 Not Found", "")).installed);
    assert!(!legacy_health_status(None).installed);
}

#[test]
fn engine_token_sources() {
    assert_eq!(discover_engine_token(Some(" t1 ".to_string()), Some("t2".to_string())), Some("t1".to_string()));
    assert_eq!(discover_engine_token(Some("  ".to_string()), Some("\nt2\n".to_string())), Some("t2".to_string()));
    assert_eq!(discover_engine_token(None, Some(" ".to_string())), None);
    assert_eq!(discover_engine_token(None, None), None);
}

// -------------------------------------------------------------- providers
#[test]
fn provider_helpers() {
    assert_eq!(url_or(None, "http://d"), "http://d");
    assert_eq!(url_or(Some("http://x".to_string()), "http://d"), "http://x");
    assert_eq!(list_models_error(AiProvider::Ollama, "e"), "Failed to list Ollama models: e");
    assert_eq!(list_models_error(AiProvider::SmolpcEngine, "e"), "Failed to list smolpc-engine models: e");
    assert_eq!(
        engine_models_result(vec![]).unwrap_err(),
        "smolpc-engine /models returned no usable model entries"
    );
}

#[test]
fn engine_chunk_becomes_assistant_message() {
    let mut d = EngineStreamDecoder::new();
    let chunk = d
        .push_text("{\"token\":\"x\",\"tool_calls\":[{\"function\":{\"name\":\"f\",\"arguments\":{}}}]}\n")
        .pop()
        .expect("chunk");
    let sc = stream_chunk_from_engine(&"phi".to_string(), chunk);
    assert_eq!(sc.model, "phi");
    assert_eq!(sc.message.role, "assistant");
    assert_eq!(sc.message.content, "x");
    assert_eq!(sc.message.tool_calls.as_ref().map(|c| c.len()), Some(1));
    assert_eq!(sc.tool_calls.as_ref().map(|c| c[0].function.name.clone()), Some("f".to_string()));
}

#[test]
fn ollama_reader_lines() {
    let mut r = OllamaLineReader::new();
    assert_eq!(r.push_text("{\"a\":1}\n  \n{\"b\""), vec!["{\"a\":1}".to_string()]);
    assert_eq!(r.push_bytes(b":2}\n"), vec!["{\"b\":2}".to_string()]);
    assert!(r.push_bytes(&[0xc3]).is_empty());
    assert_eq!(r.push_text(" {\"c\":3} "), Vec::<String>::new());
    assert_eq!(r.finish().as_deref(), Some("{\"c\":3}"));
    assert!(r.finish().is_none());
}

#[test]
fn reader_pieces_match_whole_reply() {
    let text = "{\"a\":1}\n\n {\"b\":2} \n{\"c\"";
    let mut whole = OllamaLineReader::new();
    let all = whole.push_text(text);
    let mut pieces = OllamaLineReader::new();
    let mut got = pieces.push_text(&text[..5]);
    got.extend(pieces.push_text(&text[5..17]));
    got.extend(pieces.push_text(&text[17..]));
    assert_eq!(all, got);
    assert_eq!(all, vec!["{\"a\":1}".to_string(), "{\"b\":2}".to_string()]);
    assert_eq!(whole.finish(), pieces.finish());
}

#[test]
fn nothing_after_done() {
    let mut d = EngineStreamDecoder::new();
    let out = d.push_text("{\"token\":\"a\",\"done\":true}\n");
    assert_eq!(out.len(), 1);
    assert!(out[0].done);
    assert!(d.push_text("{\"token\":\"b\"}\n").is_empty());
    assert!(d.finish().is_empty());
}
