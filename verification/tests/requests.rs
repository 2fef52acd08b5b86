use agent_mcp::agent_loop::{AgentLoop, TurnOutcome, MAX_TURNS};
use agent_mcp::claude::{
    begin_connection_test, begin_turn, cache_primer_text, cache_read_tokens, cache_write_tokens,
    cached_messages, cached_system_prompt, claude_request_body, connection_outcome,
    connection_test_body, load_runtime_config, local_tools_schema, log_cache_usage_hint,
    mark_content_for_cache, mark_last_tool_result_for_cache, minimum_cacheable_tokens,
    strip_cache_control, system_prompt, tool_result_block, truncate, turn_failure, RuntimeConfig,
};
use agent_mcp::config::{ConfigError, ConfigFile};
use agent_mcp::json::Json;
use agent_mcp::logs::{LogLevel, LogStore};
use agent_mcp::stream::{
    finish_turn, handle_stream_event, merge_usage, ClaudeTurn, ContentBlockBuilder,
    StreamEventStats, StreamInput, StreamStep, ToolUse, TurnStream, CANCELLED,
};

const ASSISTANT: &str = "Assistant";

/// The name of a model of the assistant.
fn model(version: &str) -> String {
    format!("assistant{version}")
}

fn json(text: &str) -> Json {
    Json::parse(text).unwrap()
}

fn runtime() -> RuntimeConfig {
    RuntimeConfig {
        messages_url: "https://example.com/v1/messages".to_string(),
        api_key: "sk-test".to_string(),
        model: model("-opus-4-7"),
    }
}

#[test]
fn the_prompt_says_who_the_assistant_is() {
    assert!(system_prompt(ASSISTANT).starts_with(&format!("You are {ASSISTANT} Code running")));
}

#[test]
fn truncates_long_output() {
    let result = truncate("abcdef", 3);
    assert!(result.starts_with("abc"));
    assert!(result.contains("truncated"));
    assert_eq!(result, "abc\n...[truncated]");
    assert_eq!(truncate("abcdef", 6), "abcdef");
    assert_eq!(truncate("你好吗", 2), "你好\n...[truncated]");
}

#[test]
fn parses_text_stream_event() {
    let mut blocks = Vec::new();
    let mut turn = ClaudeTurn::default();
    let mut stats = StreamEventStats::default();
    handle_stream_event(
        r#"{"type":"content_block_start","index":0,"content_block":{"type":"text","text":""}}"#,
        &mut blocks,
        &mut turn,
        &mut stats,
    )
    .unwrap();
    handle_stream_event(
        r#"{"type":"content_block_delta","index":0,"delta":{"type":"text_delta","text":"hello"}}"#,
        &mut blocks,
        &mut turn,
        &mut stats,
    )
    .unwrap();
    assert_eq!(turn.text, "hello");
    assert_eq!(blocks[0].text, "hello");
    assert_eq!(stats.events, 2);
    assert_eq!(stats.text_chars, 5);
}

#[test]
fn parses_tool_stream_event() {
    let mut blocks = Vec::new();
    let mut turn = ClaudeTurn::default();
    let mut stats = StreamEventStats::default();
    handle_stream_event(
        r#"{"type":"content_block_start","index":0,"content_block":{"type":"tool_use","id":"u1","name":"read_file","input":{}}}"#,
        &mut blocks,
        &mut turn,
        &mut stats,
    )
    .unwrap();
    handle_stream_event(
        r#"{"type":"content_block_delta","index":0,"delta":{"type":"input_json_delta","partial_json":"{\"path\":\"Cargo.toml\"}"}}"#,
        &mut blocks,
        &mut turn,
        &mut stats,
    )
    .unwrap();
    assert_eq!(blocks[0].name.as_deref(), Some("read_file"));
    assert!(blocks[0].input_json.contains("Cargo.toml"));
    assert_eq!(stats.tool_uses, 1);
}

#[test]
fn adds_prompt_cache_breakpoints() {
    let system = cached_system_prompt(ASSISTANT);
    assert!(system[0].get("cache_control").is_none());
    let second = system[1].into_value();
    assert_eq!(second["cache_control"]["type"], "ephemeral");
    assert!(second["text"].as_str().unwrap().split_whitespace().count() > 4096);

    let tools = local_tools_schema();
    assert_eq!(
        tools.last().unwrap().into_value()["cache_control"]["type"],
        "ephemeral"
    );
    assert_eq!(tools.len(), 4);
}

#[test]
fn request_body_enables_top_level_automatic_cache() {
    let messages = vec![json(r#"{"role": "user", "content": "hello"}"#)];
    let body = claude_request_body(&runtime(), &messages, ASSISTANT).into_value();

    assert_eq!(body["cache_control"]["type"], "ephemeral");
    assert_eq!(body["system"][1]["cache_control"]["type"], "ephemeral");
    assert_eq!(
        body["tools"].as_array().unwrap().last().unwrap()["cache_control"]["type"],
        "ephemeral"
    );
    assert_eq!(body["model"], model("-opus-4-7"));
    assert_eq!(body["max_tokens"], 4096);
}

#[test]
fn request_body_marks_last_message_for_cache() {
    let messages = vec![json(r#"{"role": "user", "content": "hello"}"#)];
    let body = claude_request_body(&runtime(), &messages, ASSISTANT).into_value();

    assert_eq!(body["messages"][0]["content"][0]["type"], "text");
    assert_eq!(
        body["messages"][0]["content"][0]["cache_control"]["type"],
        "ephemeral"
    );
}

#[test]
fn request_body_strips_old_message_cache_controls() {
    let messages = vec![
        json(
            r#"{"role": "user", "content": [{"type": "text", "text": "old", "cache_control": {"type": "ephemeral"}}]}"#,
        ),
        json(r#"{"role": "user", "content": [{"type": "text", "text": "new"}]}"#),
    ];

    let body = claude_request_body(&runtime(), &messages, ASSISTANT).into_value();

    assert!(body["messages"][0]["content"][0]
        .get("cache_control")
        .is_none());
    assert_eq!(
        body["messages"][1]["content"][0]["cache_control"]["type"],
        "ephemeral"
    );
}

#[test]
fn caches_only_last_tool_result_block() {
    let mut results = vec![
        tool_result_block("u1", "first".to_string(), false),
        tool_result_block("u2", "second".to_string(), true),
    ];

    mark_last_tool_result_for_cache(&mut results);

    assert!(results[0].get("cache_control").is_none());
    assert_eq!(
        results[1].into_value()["cache_control"]["type"],
        "ephemeral"
    );
    let first = results[0].into_value();
    assert_eq!(first["tool_use_id"], "u1");
    assert_eq!(first["content"], "first");
    assert_eq!(first["is_error"], false);
}

#[test]
fn parses_cache_usage_from_stream_events() {
    let mut blocks = Vec::new();
    let mut turn = ClaudeTurn::default();
    let mut stats = StreamEventStats::default();

    handle_stream_event(
        r#"{"type":"message_start","message":{"usage":{"input_tokens":1200,"cache_creation_input_tokens":1000,"cache_read_input_tokens":0}}}"#,
        &mut blocks,
        &mut turn,
        &mut stats,
    )
    .unwrap();
    handle_stream_event(
        r#"{"type":"message_delta","usage":{"output_tokens":64}}"#,
        &mut blocks,
        &mut turn,
        &mut stats,
    )
    .unwrap();

    let usage = turn.usage.unwrap().into_value();
    assert_eq!(usage["cache_creation_input_tokens"], 1000);
    assert_eq!(usage["cache_read_input_tokens"], 0);
    assert_eq!(usage["output_tokens"], 64);
    assert_eq!(stats.usage_events, 2);
}

#[test]
fn uses_model_specific_cache_minimums() {
    assert_eq!(minimum_cacheable_tokens(&model("-opus-4-7")), 4096);
    assert_eq!(minimum_cacheable_tokens(&model("-haiku-3-5")), 2048);
    assert_eq!(minimum_cacheable_tokens(&model("-sonnet-4-7")), 1024);
    assert_eq!(minimum_cacheable_tokens(&model("-opus-4-7").to_uppercase()), 4096);
}

#[test]
fn system_prompt_allows_full_local_access_and_search_rules() {
    let prompt = system_prompt(ASSISTANT);

    assert!(prompt.contains("real local machine"));
    assert!(prompt.contains("workdir"));
    assert!(prompt.contains("full local tool access"));
    assert!(prompt.contains("Prefer rg"));
    assert!(prompt.contains("node_modules"));
}

#[test]
fn sums_nested_cache_creation_usage() {
    let usage = json(
        r#"{"cache_creation": {"ephemeral_5m_input_tokens": 10, "ephemeral_1h_input_tokens": "20"}}"#,
    );

    assert_eq!(cache_write_tokens(&usage), 30);
    assert_eq!(cache_read_tokens(&usage), 0);
}

#[test]
fn the_cache_primer_repeats_its_anchor() {
    let primer = cache_primer_text();
    assert_eq!(primer.matches("cache-anchor ").count(), 5_200);
    assert!(primer.starts_with("Ignore the following cache anchor."));
}

#[test]
fn a_broken_event_is_an_error() {
    let mut blocks = Vec::new();
    let mut turn = ClaudeTurn::default();
    let mut stats = StreamEventStats::default();
    let error = handle_stream_event("{", &mut blocks, &mut turn, &mut stats).unwrap_err();
    assert!(!error.message().is_empty());
    assert_eq!(stats.events, 0);
    assert_eq!(turn.text, "");
    let far = r#"{"type":"content_block_start","index":18446744073709551615,"content_block":{"type":"text"}}"#;
    assert!(handle_stream_event(far, &mut blocks, &mut turn, &mut stats).is_err());
    assert_eq!(blocks.len(), 0);
}

const REPLY: &str = "event: message_start\n\
data: {\"type\":\"message_start\",\"message\":{\"usage\":{\"input_tokens\":3}}}\n\n\
data: {\"type\":\"content_block_start\",\"index\":0,\"content_block\":{\"type\":\"text\",\"text\":\"\"}}\n\n\
data: {\"type\":\"content_block_delta\",\"index\":0,\"delta\":{\"type\":\"text_delta\",\"text\":\"你好\"}}\n\n\
data: {\"type\":\"content_block_start\",\"index\":1,\"content_block\":{\"type\":\"tool_use\",\"id\":\"u1\",\"name\":\"list_dir\",\"input\":{}}}\n\n\
data: {\"type\":\"content_block_delta\",\"index\":1,\"delta\":{\"type\":\"input_json_delta\",\"partial_json\":\"{\\\"path\\\":\"}}\n\n\
data: {\"type\":\"content_block_delta\",\"index\":1,\"delta\":{\"type\":\"input_json_delta\",\"partial_json\":\"\\\".\\\"}\"}}\n\n\
data: {\"type\":\"message_delta\",\"delta\":{\"stop_reason\":\"tool_use\"},\"usage\":{\"output_tokens\":5}}\n\n\
data: [DONE]\n\n";

fn reply_in_pieces(size: usize) -> (ClaudeTurn, StreamEventStats) {
    let mut stream = TurnStream::new(ASSISTANT);
    assert_eq!(stream.timeout_seconds(), 45);
    let chars: Vec<char> = REPLY.chars().collect();
    for piece in chars.chunks(size) {
        let text: String = piece.iter().collect();
        match stream.advance(StreamInput::Chunk(text.into_bytes())) {
            StreamStep::Wait(next) => stream = next,
            _ => panic!("the reply ended too early"),
        }
        assert_eq!(stream.timeout_seconds(), 90);
    }
    match stream.advance(StreamInput::Ended) {
        StreamStep::Done(turn, stats) => (turn, stats),
        _ => panic!("the reply did not end"),
    }
}

#[test]
fn a_reply_is_the_same_in_any_pieces() {
    for size in [1, 2, 7, 64, 4096] {
        let (turn, stats) = reply_in_pieces(size);
        assert_eq!(turn.text, "你好");
        assert_eq!(turn.stop_reason.as_deref(), Some("tool_use"));
        assert_eq!(turn.tool_uses.len(), 1);
        assert_eq!(turn.tool_uses[0].id, "u1");
        assert_eq!(turn.tool_uses[0].name, "list_dir");
        assert_eq!(turn.tool_uses[0].input.get_str("path"), Some("."));
        assert_eq!(turn.content.len(), 2);
        assert_eq!(turn.usage.unwrap().to_text(), "{\"input_tokens\":3,\"output_tokens\":5}");
        assert_eq!(stats.text_chars, 2);
        assert_eq!(stats.usage_events, 2);
        assert_eq!(stats.tool_uses, 1);
    }
}

#[test]
fn a_reply_can_fail() {
    match TurnStream::new(ASSISTANT).advance(StreamInput::Cancelled) {
        StreamStep::Fail(reason) => assert_eq!(reason, CANCELLED),
        _ => panic!("a cancelled reply goes on"),
    }
    match TurnStream::new(ASSISTANT).advance(StreamInput::TimedOut) {
        StreamStep::Fail(reason) => {
            assert_eq!(reason, "Assistant Messages 流式响应超过 45 秒没有数据")
        }
        _ => panic!("a silent reply goes on"),
    }
    match TurnStream::new(ASSISTANT).advance(StreamInput::Failed("reset".to_string())) {
        StreamStep::Fail(reason) => assert!(reason.contains("reset")),
        _ => panic!("a broken reply goes on"),
    }
    match TurnStream::new(ASSISTANT).advance(StreamInput::Chunk(b"data: {\n\n".to_vec())) {
        StreamStep::Fail(reason) => assert!(!reason.is_empty()),
        _ => panic!("an unreadable event is taken"),
    }
}

#[test]
fn bytes_that_are_no_text_are_replaced() {
    let mut stream = TurnStream::new(ASSISTANT);
    let mut bytes = b"data: {\"type\":\"content_block_delta\",\"index\":0,\"delta\":{\"type\":\"text_delta\",\"text\":\"a".to_vec();
    bytes.push(0xff);
    bytes.extend_from_slice(b"b\"}}\n\n");
    stream = match stream.advance(StreamInput::Chunk(bytes)) {
        StreamStep::Wait(next) => next,
        _ => panic!("the reply ended too early"),
    };
    match stream.advance(StreamInput::Ended) {
        StreamStep::Done(turn, _) => assert_eq!(turn.text, "a\u{fffd}b"),
        _ => panic!("the reply did not end"),
    }
}

#[test]
fn usage_of_later_events_wins() {
    let mut usage = None;
    merge_usage(&mut usage, &json(r#"{"input_tokens": 1, "output_tokens": 2}"#));
    merge_usage(&mut usage, &json(r#"{"output_tokens": 7}"#));
    assert_eq!(
        usage.unwrap().to_text(),
        "{\"input_tokens\":1,\"output_tokens\":7}"
    );
}

#[test]
fn unreadable_tool_input_becomes_an_empty_object() {
    let blocks = vec![ContentBlockBuilder {
        kind: "tool_use".to_string(),
        id: Some("u1".to_string()),
        name: Some("run_command".to_string()),
        text: String::new(),
        input_json: "{\"command\":".to_string(),
    }];
    let turn = finish_turn(&blocks, ClaudeTurn::default());
    assert_eq!(turn.tool_uses.len(), 1);
    assert_eq!(turn.content.len(), 1);
    assert_eq!(turn.content[0].get_str("type"), Some("tool_use"));
    assert_eq!(turn.tool_uses[0].input.to_text(), "{}");
    assert_eq!(turn.content[0].get("input").unwrap().to_text(), "{}");
}

#[test]
fn an_event_that_cannot_be_read_changes_nothing() {
    let mut blocks = Vec::new();
    let mut turn = ClaudeTurn::default();
    let mut stats = StreamEventStats::default();
    handle_stream_event(
        r#"{"type":"content_block_delta","index":0,"delta":{"type":"text_delta","text":"hi"}}"#,
        &mut blocks,
        &mut turn,
        &mut stats,
    )
    .unwrap();
    assert!(handle_stream_event("{", &mut blocks, &mut turn, &mut stats).is_err());
    assert_eq!(turn.text, "hi");
    assert_eq!(blocks.len(), 1);
    assert_eq!((stats.events, stats.text_chars), (1, 2));
}

#[test]
fn lines_before_an_unreadable_one_are_taken() {
    let mut stream = TurnStream::new(ASSISTANT);
    let delta = r#"data: {"type":"content_block_delta","index":0,"delta":{"type":"text_delta","text":"hi"}}"#;
    assert!(stream.feed(&format!("{delta}\ndata: {{\n")).is_err());
    match stream.advance(StreamInput::Ended) {
        StreamStep::Done(turn, stats) => {
            assert_eq!(turn.text, "hi");
            assert_eq!(stats.events, 1);
        }
        _ => panic!("the reply did not end"),
    }
}

#[test]
fn only_the_last_message_is_marked() {
    let messages = vec![
        json(r#"{"role": "user", "content": "a"}"#),
        json(r#"{"role": "assistant", "content": [{"type": "text", "text": "b"}]}"#),
    ];
    let marked = cached_messages(&messages);
    assert_eq!(marked[0].to_text().matches("cache_control").count(), 0);
    assert_eq!(marked[1].to_text().matches("cache_control").count(), 1);
    assert!(mark_content_for_cache(&Json::text("x")).is_some());
    assert!(mark_content_for_cache(&Json::Null).is_none());
    assert!(mark_content_for_cache(&json("[]")).is_none());
}

#[test]
fn stripping_leaves_no_mark_at_any_depth() {
    let value = json(
        r#"{"a": [{"cache_control": 1, "b": {"cache_control": {"type": "ephemeral"}}}], "cache_control": null}"#,
    );
    assert_eq!(strip_cache_control(&value).to_text(), r#"{"a":[{"b":{}}]}"#);
}

#[test]
fn requests_need_a_key_and_an_address() {
    let mut file = ConfigFile::default_for(ASSISTANT);
    assert_eq!(
        load_runtime_config(None, ASSISTANT).unwrap_err(),
        ConfigError::MissingKey
    );
    file.api_key = Some(" sk ".to_string());
    file.api_url = "ftp://x".to_string();
    assert_eq!(
        load_runtime_config(Some(file), ASSISTANT).unwrap_err(),
        ConfigError::UrlScheme
    );
    let mut file = ConfigFile::default_for(ASSISTANT);
    file.api_key = Some(" sk ".to_string());
    let runtime = load_runtime_config(Some(file), ASSISTANT).unwrap();
    assert_eq!(runtime.api_key, "sk");
    assert_eq!(runtime.messages_url, "https://api.anthropic.com/v1/messages");
}

#[test]
fn a_logged_request_does_not_show_the_key() {
    let mut store = LogStore::new();
    let (request_id, log) = begin_connection_test(&runtime());
    assert_eq!(request_id.len(), 36);
    assert_eq!(log.level, LogLevel::Info);
    let entry = store.push_draft(log);
    assert_eq!(entry.detail.unwrap().into_value()["api_key"], "••••");
    let (_, log) = begin_turn(&runtime(), 3, "task", ASSISTANT);
    let entry = store.push_draft(log);
    let detail = entry.detail.unwrap().into_value();
    assert_eq!(detail["api_key"], "••••");
    assert_eq!(detail["message_count"], 3);
    assert_eq!(entry.task_id.as_deref(), Some("task"));
}

#[test]
fn a_connection_is_tested() {
    let body = connection_test_body(&runtime()).into_value();
    assert_eq!(body["model"], model("-opus-4-7"));
    let outcome = connection_outcome(200, r#"{"usage":{"input_tokens":1}}"#, "r");
    assert!(outcome.result.is_ok());
    assert_eq!(outcome.usage.unwrap().to_text(), "{\"input_tokens\":1}");
    let outcome = connection_outcome(401, r#"{"error":"no"}"#, "r");
    assert!(outcome.result.unwrap_err().contains("401"));
    assert_eq!(outcome.log.level, LogLevel::Error);
    let (log, message) = turn_failure(500, "oops", "r", "t", ASSISTANT);
    assert_eq!(log.level, LogLevel::Error);
    assert!(message.contains("500"));
}

#[test]
fn cache_hints_are_logged() {
    let read = json(r#"{"input_tokens": 10, "cache_read_input_tokens": 9000}"#);
    assert!(log_cache_usage_hint(&runtime(), &read, None, None).is_none());
    assert!(log_cache_usage_hint(&runtime(), &json("{}"), None, None).is_none());
    let long = json(r#"{"input_tokens": 4096}"#);
    assert!(log_cache_usage_hint(&runtime(), &long, None, None).is_none());
    let short = json(r#"{"input_tokens": 4095}"#);
    let hint = log_cache_usage_hint(&runtime(), &short, Some("r".to_string()), None).unwrap();
    assert_eq!(hint.summary, "未触发缓存：输入低于最低缓存长度");
    assert_eq!(hint.request_id.as_deref(), Some("r"));
    assert_eq!(hint.detail.unwrap().into_value()["minimum_cache_tokens"], 4096);
}

fn call(id: &str) -> ToolUse {
    ToolUse {
        id: id.to_string(),
        name: "list_dir".to_string(),
        input: json("{}"),
    }
}

#[test]
fn the_loop_takes_turns() {
    let mut state = AgentLoop::new("do it", ASSISTANT);
    assert_eq!(state.message_count(), 1);
    let log = state.begin_turn(false, "/w", "m", "t").unwrap();
    assert_eq!(log.task_id.as_deref(), Some("t"));
    assert_eq!(
        state.begin_turn(true, "/w", "m", "t").unwrap_err(),
        CANCELLED
    );
    let mut turn = ClaudeTurn::default();
    turn.text = "working".to_string();
    turn.content = vec![json(r#"{"type": "text", "text": "working"}"#)];
    turn.tool_uses = vec![call("u1"), call("u2")];
    let calls = match state.take_turn(turn, "t") {
        TurnOutcome::Tools(calls) => calls,
        TurnOutcome::Final(_, _) => panic!("the loop ended"),
    };
    assert_eq!(calls.len(), 2);
    assert!(AgentLoop::before_tool(false).is_ok());
    assert_eq!(AgentLoop::before_tool(true).unwrap_err(), CANCELLED);
    state.take_result("u1", Ok("fine".to_string()));
    state.take_result("u2", Err("bad".to_string()));
    state.end_tools();
    assert_eq!(state.message_count(), 3);
    let body = state.request_body(&runtime()).into_value();
    assert_eq!(body["messages"][1]["role"], "assistant");
    assert_eq!(body["messages"][2]["role"], "user");
    assert_eq!(body["messages"][2]["content"][0]["content"], "fine");
    assert_eq!(body["messages"][2]["content"][1]["is_error"], true);
    let mut last = ClaudeTurn::default();
    last.text = "done".to_string();
    match state.take_turn(last, "t") {
        TurnOutcome::Final(text, log) => {
            assert!(text.contains("done"));
            assert_eq!(log.level, LogLevel::Info);
        }
        TurnOutcome::Tools(_) => panic!("the loop goes on"),
    }
}

#[test]
fn the_loop_has_a_last_turn() {
    let mut state = AgentLoop::new("p", ASSISTANT);
    let mut count = 0;
    while state.begin_turn(false, "/w", "m", "t").is_ok() {
        count += 1;
        let mut turn = ClaudeTurn::default();
        turn.tool_uses = vec![call("u")];
        if let TurnOutcome::Tools(_) = state.take_turn(turn, "t") {
            state.take_result("u", Ok(String::new()));
            state.end_tools();
        }
    }
    assert_eq!(count, MAX_TURNS);
}
