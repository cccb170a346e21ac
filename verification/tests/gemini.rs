use ring_agent::catalog::ProviderKind;
use ring_agent::json::Json;
use ring_agent::provider::{
    ChatRequest, ContentBlock, Message, MessageRole, StopReason, StreamChunk, StreamEvent, ToolDef,
};
use ring_agent::providers::gemini::{
    build_body, catalog_entry, convert_messages_to_contents, convert_tools, effort_to_thinking_budget,
    endpoint, gemini_known_models, parse_chat_response, parse_finish_reason, GeminiSettings, GeminiStream,
};

fn s(v: &str) -> Json {
    Json::Str(v.to_string())
}

fn n(v: &str) -> Json {
    Json::Number(v.to_string())
}

fn obj(members: Vec<(&str, Json)>) -> Json {
    Json::Object(members.into_iter().map(|(k, v)| (k.to_string(), v)).collect())
}

fn get<'a>(j: &'a Json, k: &str) -> &'a Json {
    j.get(k).unwrap()
}

fn text(t: &str) -> ContentBlock {
    ContentBlock::Text { text: t.to_string() }
}

fn as_vec(j: &Json) -> &Vec<Json> {
    j.as_array().unwrap()
}

#[test]
fn budgets_by_effort() {
    assert_eq!(effort_to_thinking_budget(Some("max")), 24_576);
    assert_eq!(effort_to_thinking_budget(Some("xhigh")), 24_576);
    assert_eq!(effort_to_thinking_budget(Some("high")), 16_384);
    assert_eq!(effort_to_thinking_budget(Some("medium")), 8_192);
    assert_eq!(effort_to_thinking_budget(Some("low")), 4_096);
    assert_eq!(effort_to_thinking_budget(Some("minimal")), 4_096);
    assert_eq!(effort_to_thinking_budget(Some("weird")), 16_384);
    assert_eq!(effort_to_thinking_budget(None), 16_384);
}

#[test]
fn finish_reasons() {
    assert_eq!(parse_finish_reason(Some("STOP"), false), StopReason::EndTurn);
    assert_eq!(parse_finish_reason(Some("MAX_TOKENS"), false), StopReason::MaxTokens);
    assert_eq!(parse_finish_reason(Some("SAFETY"), false), StopReason::EndTurn);
    assert_eq!(parse_finish_reason(None, false), StopReason::EndTurn);
    assert_eq!(parse_finish_reason(Some("MAX_TOKENS"), true), StopReason::ToolUse);
}

#[test]
fn endpoints() {
    assert_eq!(
        endpoint("https://g.example", "K", "gemini-2.5-pro", false),
        "https://g.example/v1beta/models/gemini-2.5-pro:generateContent?key=K"
    );
    assert_eq!(endpoint("b", "k", "m", true), "b/v1beta/models/m:streamGenerateContent?key=k");
}

#[test]
fn settings_defaults() {
    let g = GeminiSettings::new("k".to_string(), None, None);
    assert_eq!(g.base_url, "https://generativelanguage.googleapis.com");
    assert_eq!(g.default_model(), "gemini-2.0-flash");
    assert_eq!(g.id(), "gemini");
    assert_eq!(g.display_name(), "Google Gemini");
    let g = GeminiSettings::new("k".to_string(), Some("u".to_string()), Some("m".to_string()));
    assert_eq!(g.base_url, "u");
    assert_eq!(g.default_model(), "m");
}

#[test]
fn catalog_and_models() {
    let e = catalog_entry();
    assert_eq!(e.name, "Google Gemini");
    assert_eq!(e.kind, ProviderKind::Gemini);
    assert_eq!(e.api_key_env.as_deref(), Some("GEMINI_API_KEY"));
    let m = gemini_known_models();
    assert_eq!(m.len(), 4);
    assert_eq!(m[2].id, "gemini-2.5-flash");
    assert!(m[2].supports_thinking);
    assert_eq!(m[1].max_output_tokens, 8_192);
}

#[test]
fn contents_from_messages() {
    let msgs = vec![
        Message::new(MessageRole::User, vec![text("hi"), ContentBlock::Image { media_type: "image/png".to_string(), data: "AAA".to_string() }]),
        Message::new(
            MessageRole::Assistant,
            vec![
                ContentBlock::Thinking { thinking: "hmm".to_string(), signature: None, redacted: false },
                ContentBlock::ToolUse { tool_use_id: "t1".to_string(), tool_name: "bash".to_string(), tool_input: obj(vec![("cmd", s("ls"))]) },
            ],
        ),
        Message::new(
            MessageRole::ToolResult,
            vec![ContentBlock::ToolResult { tool_use_id: "t1".to_string(), tool_result: "out".to_string(), is_error: true }],
        ),
        Message::new(MessageRole::Assistant, vec![ContentBlock::Thinking { thinking: "x".to_string(), signature: None, redacted: false }]),
        Message::new(
            MessageRole::ToolResult,
            vec![ContentBlock::ToolResult { tool_use_id: "nope".to_string(), tool_result: "r".to_string(), is_error: false }],
        ),
    ];
    let c = convert_messages_to_contents(&msgs);
    let c = as_vec(&c);
    assert_eq!(c.len(), 4);
    assert_eq!(get(&c[0], "role").as_str(), Some("user"));
    let parts = as_vec(get(&c[0], "parts"));
    assert_eq!(get(&parts[0], "text").as_str(), Some("hi"));
    assert_eq!(get(get(&parts[1], "inline_data"), "mime_type").as_str(), Some("image/png"));
    assert_eq!(get(&c[1], "role").as_str(), Some("model"));
    let call = get(&as_vec(get(&c[1], "parts"))[0], "functionCall");
    assert_eq!(get(call, "name").as_str(), Some("bash"));
    assert_eq!(get(get(call, "args"), "cmd").as_str(), Some("ls"));
    let resp = get(&as_vec(get(&c[2], "parts"))[0], "functionResponse");
    assert_eq!(get(resp, "name").as_str(), Some("bash"));
    assert_eq!(get(get(resp, "response"), "isError").as_bool(), Some(true));
    let resp = get(&as_vec(get(&c[3], "parts"))[0], "functionResponse");
    assert_eq!(get(resp, "name").as_str(), Some(""));
    assert!(get(resp, "response").get("isError").is_none());
}

#[test]
fn tools_and_body() {
    let tools = vec![ToolDef { name: "bash".to_string(), description: "run".to_string(), input_schema: obj(vec![]) }];
    let t = convert_tools(&tools);
    let decls = as_vec(get(&as_vec(&t)[0], "function_declarations"));
    assert_eq!(get(&decls[0], "name").as_str(), Some("bash"));
    let req = ChatRequest {
        model: "m".to_string(),
        messages: vec![Message::user_text("q".to_string())],
        system: Some("sys".to_string()),
        tools,
        max_tokens: 1024,
        stop: vec!["END".to_string()],
        extended_thinking: false,
        reasoning_effort: Some("medium".to_string()),
        thinking_budget: None,
    };
    let body = build_body(&req);
    let cfg = get(&body, "generationConfig");
    assert_eq!(get(cfg, "maxOutputTokens").as_u64(), Some(1024));
    assert_eq!(as_vec(get(cfg, "stopSequences")).len(), 1);
    assert_eq!(get(get(cfg, "thinkingConfig"), "thinkingBudget").as_u64(), Some(8_192));
    assert_eq!(get(&as_vec(get(get(&body, "systemInstruction"), "parts"))[0], "text").as_str(), Some("sys"));
    assert!(body.get("tools").is_some());
    let plain = ChatRequest {
        model: "m".to_string(),
        messages: vec![],
        system: None,
        tools: vec![],
        max_tokens: 5,
        stop: vec![],
        extended_thinking: true,
        reasoning_effort: None,
        thinking_budget: Some(77),
    };
    let body = build_body(&plain);
    let cfg = get(&body, "generationConfig");
    assert!(cfg.get("stopSequences").is_none());
    assert_eq!(get(get(cfg, "thinkingConfig"), "thinkingBudget").as_u64(), Some(77));
    assert!(body.get("systemInstruction").is_none());
    assert!(body.get("tools").is_none());
}

#[test]
fn whole_answer() {
    let raw = obj(vec![
        ("candidates", Json::Array(vec![obj(vec![
            ("finishReason", s("STOP")),
            ("content", obj(vec![("parts", Json::Array(vec![
                obj(vec![("text", s("thinking...")), ("thought", Json::Bool(true))]),
                obj(vec![("text", s("answer"))]),
                obj(vec![("functionCall", obj(vec![("name", s("bash")), ("args", obj(vec![("x", n("1.5"))]))]))]),
            ]))])),
        ])])),
        ("usageMetadata", obj(vec![("promptTokenCount", n("12")), ("candidatesTokenCount", n("34"))])),
    ]);
    let r = parse_chat_response(&raw, "gemini-2.5-pro").unwrap();
    assert_eq!(r.model, "gemini-2.5-pro");
    assert_eq!(r.stop_reason, StopReason::ToolUse);
    assert_eq!(r.usage.input_tokens, 12);
    assert_eq!(r.usage.output_tokens, 34);
    assert_eq!(r.message.content.len(), 3);
    assert!(matches!(&r.message.content[0], ContentBlock::Thinking { thinking, .. } if thinking == "thinking..."));
    assert!(matches!(&r.message.content[1], ContentBlock::Text { text } if text == "answer"));
    match &r.message.content[2] {
        ContentBlock::ToolUse { tool_use_id, tool_name, tool_input } => {
            assert_eq!(tool_name, "bash");
            assert_eq!(tool_use_id.len(), 36);
            assert!(matches!(get(tool_input, "x"), Json::Number(t) if t == "1.5"));
        },
        _ => panic!("expected a tool use"),
    }
    let none = obj(vec![("candidates", Json::Array(vec![]))]);
    assert_eq!(parse_chat_response(&none, "m").err().unwrap(), "no candidates in response");
    let limit = obj(vec![("candidates", Json::Array(vec![obj(vec![("finishReason", s("MAX_TOKENS"))])]))]);
    let r = parse_chat_response(&limit, "m").unwrap();
    assert_eq!(r.stop_reason, StopReason::MaxTokens);
    assert_eq!(r.usage.input_tokens, 0);
    assert!(r.message.content.is_empty());
}

#[test]
fn stream_framing() {
    let mut st = GeminiStream::new();
    assert!(st.feed("data: {\"a\":1}\n").is_empty());
    let p = st.feed("\nevent: x\r\ndata: second\r\n\n: comment\n\ndata: third");
    assert_eq!(p, vec!["{\"a\":1}".to_string(), "second\r".to_string()]);
    let p = st.feed("\n\n");
    assert_eq!(p, vec!["third".to_string()]);
    let p = st.feed("data: crlf\r\nnext: y\n\nno data here\n\n");
    assert_eq!(p, vec!["crlf".to_string()]);
}

#[test]
fn stream_framing_ignores_chunk_boundaries() {
    let text = "data: one\n\ndata: two\n\nda";
    let mut whole = GeminiStream::new();
    let all = whole.feed(text);
    for cut in 0..text.len() {
        let mut st = GeminiStream::new();
        let mut got = st.feed(&text[..cut]);
        got.extend(st.feed(&text[cut..]));
        assert_eq!(got, all);
    }
}

#[test]
fn stream_events_and_done() {
    let mut st = GeminiStream::new();
    let payload = obj(vec![
        ("candidates", Json::Array(vec![obj(vec![
            ("content", obj(vec![("parts", Json::Array(vec![
                obj(vec![("text", s("hm")), ("thought", Json::Bool(true))]),
                obj(vec![("text", s(""))]),
                obj(vec![("text", s("hi"))]),
            ]))])),
        ])])),
        ("usageMetadata", obj(vec![("promptTokenCount", n("3"))])),
    ]);
    let ev = st.apply(&payload);
    assert_eq!(ev.len(), 2);
    assert!(matches!(&ev[0], StreamEvent::Chunk(StreamChunk::ThinkingDelta { delta }) if delta == "hm"));
    assert!(matches!(&ev[1], StreamEvent::Chunk(StreamChunk::TextDelta { delta }) if delta == "hi"));
    let payload = obj(vec![
        ("candidates", Json::Array(vec![obj(vec![
            ("finishReason", s("MAX_TOKENS")),
            ("content", obj(vec![("parts", Json::Array(vec![
                obj(vec![("functionCall", obj(vec![("name", s("f")), ("args", obj(vec![("path", s("a.rs")), ("n", n("2"))]))]))]),
            ]))])),
        ])])),
        ("usageMetadata", obj(vec![("candidatesTokenCount", n("9"))])),
    ]);
    let ev = st.apply(&payload);
    assert_eq!(ev.len(), 3);
    let id = match &ev[0] {
        StreamEvent::Chunk(StreamChunk::ToolCallStart { call_id, tool_name }) => {
            assert_eq!(tool_name, "f");
            let c: Vec<char> = call_id.chars().collect();
            assert_eq!(c.len(), 36);
            assert_eq!((c[8], c[13], c[14], c[18], c[23]), ('-', '-', '4', '-', '-'));
            assert!("89ab".contains(c[19]));
            assert!(c.iter().enumerate().all(|(i, ch)| [8, 13, 18, 23].contains(&i) || "0123456789abcdef".contains(*ch)));
            call_id.clone()
        },
        _ => panic!("expected a tool call start"),
    };
    assert!(matches!(&ev[1], StreamEvent::Chunk(StreamChunk::ToolCallInput { call_id, delta })
        if *call_id == id && delta == "{\"n\":2,\"path\":\"a.rs\"}"));
    assert!(matches!(&ev[2], StreamEvent::Chunk(StreamChunk::ToolCallDone { call_id, .. }) if *call_id == id));
    match st.done() {
        StreamEvent::Done { stop_reason, usage } => {
            assert_eq!(stop_reason, StopReason::ToolUse);
            assert_eq!(usage.input_tokens, 3);
            assert_eq!(usage.output_tokens, 9);
        },
        _ => panic!("expected done"),
    }
}

#[test]
fn stream_stop_reason_without_calls() {
    let mut st = GeminiStream::new();
    let p = obj(vec![("candidates", Json::Array(vec![obj(vec![("finishReason", s("MAX_TOKENS"))])]))]);
    st.apply(&p);
    let p = obj(vec![("candidates", Json::Array(vec![obj(vec![("finishReason", s(""))])]))]);
    st.apply(&p);
    assert!(matches!(st.done(), StreamEvent::Done { stop_reason: StopReason::MaxTokens, .. }));
    let p = obj(vec![("nothing", Json::Null)]);
    assert!(st.apply(&p).is_empty());
}

#[test]
fn receiving_bytes_parses_completed_events_and_skips_bad_ones() {
    let mut st = GeminiStream::new();
    let first = b"data: {\"candidates\":[{\"content\":{\"parts\":[{\"text\":\"he\"}]}}]}\n\ndata: not json\n\ndata: {\"candi";
    let ev = st.receive(first);
    assert_eq!(ev.len(), 1);
    assert!(matches!(&ev[0], StreamEvent::Chunk(StreamChunk::TextDelta { delta }) if delta == "he"));
    let second = "dates\":[{\"finishReason\":\"STOP\",\"content\":{\"parts\":[{\"functionCall\":{\"name\":\"edit\",\"args\":{\"s\":\"a\\\"b\\n\",\"k\":[1,2.5,null]}}}]}}],\"usageMetadata\":{\"promptTokenCount\":4}}\n\n";
    let ev = st.receive(second.as_bytes());
    assert_eq!(ev.len(), 3);
    assert!(matches!(&ev[0], StreamEvent::Chunk(StreamChunk::ToolCallStart { tool_name, .. }) if tool_name == "edit"));
    let args: serde_json::Value = serde_json::from_str("{\"s\":\"a\\\"b\\n\",\"k\":[1,2.5,null]}").unwrap();
    assert!(matches!(&ev[1], StreamEvent::Chunk(StreamChunk::ToolCallInput { delta, .. }) if *delta == args.to_string()));
    match st.done() {
        StreamEvent::Done { stop_reason, usage } => {
            assert_eq!(stop_reason, StopReason::ToolUse);
            assert_eq!(usage.input_tokens, 4);
        },
        _ => panic!("expected done"),
    }
}

#[test]
fn receiving_invalid_utf8_is_replaced() {
    let mut st = GeminiStream::new();
    let mut chunk = b"data: {\"candidates\":[{\"content\":{\"parts\":[{\"text\":\"a".to_vec();
    chunk.push(0xff);
    chunk.extend_from_slice(b"b\"}]}}]}\n\n");
    let ev = st.receive(&chunk);
    assert_eq!(ev.len(), 1);
    assert!(matches!(&ev[0], StreamEvent::Chunk(StreamChunk::TextDelta { delta }) if delta == "a\u{fffd}b"));
}
