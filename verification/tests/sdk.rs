use ring_agent::json::Json;
use ring_agent::provider::{ContentBlock, MessageRole};
use ring_agent::sdk::{
    aborted_event, build_context, classify, models_event, context_messages, dispatch, fallback_done_event, forward_event, model_or_default,
    no_provider_event, parse_error_event, ready_event, requested_model, Forward, HistoryMessage, SdkAction,
    SdkCommand, SdkInput, TurnEvent,
};

fn input(t: &str) -> SdkInput {
    SdkInput { id: 7, msg_type: t.to_string(), payload: "hello".to_string(), model: None, history: None }
}

#[test]
fn request_types() {
    assert_eq!(classify("ping"), SdkCommand::Ping);
    assert_eq!(classify("stop"), SdkCommand::Exit);
    assert_eq!(classify("exit"), SdkCommand::Exit);
    assert_eq!(classify("models"), SdkCommand::Models);
    assert_eq!(classify("Ping"), SdkCommand::Unknown);
}

#[test]
fn dispatching() {
    match dispatch(&input("ping"), false) {
        SdkAction::Reply(o) => {
            assert_eq!(o.id, 7);
            assert_eq!(o.msg_type, "pong");
            assert_eq!(o.payload, "");
        },
        _ => panic!("expected a reply"),
    }
    assert!(matches!(dispatch(&input("exit"), true), SdkAction::Stop));
    assert!(matches!(dispatch(&input("models"), false), SdkAction::ListModels));
    assert!(matches!(dispatch(&input("abort"), false), SdkAction::Ignore));
    match dispatch(&input("abort"), true) {
        SdkAction::Abort(o) => assert_eq!((o.msg_type.as_str(), o.payload.as_str()), ("aborted", "cancelled")),
        _ => panic!("expected an abort"),
    }
    assert!(matches!(dispatch(&input("message"), true), SdkAction::StartTurn));
    match dispatch(&input("dance"), false) {
        SdkAction::Reply(o) => assert_eq!((o.msg_type.as_str(), o.payload.as_str()), ("error", "unknown type: dance")),
        _ => panic!("expected an error"),
    }
}

#[test]
fn fixed_events() {
    let r = ready_event("");
    assert_eq!((r.id, r.msg_type.as_str(), r.payload.as_str()), (0, "ready", "ring SDK ready — model: (none)"));
    assert_eq!(ready_event("m").payload, "ring SDK ready — model: m");
    assert_eq!(parse_error_event("eof").payload, "parse error: eof");
    assert_eq!(aborted_event(3).msg_type, "aborted");
    assert_eq!(fallback_done_event(3).payload, "end_turn");
    assert_eq!(no_provider_event(3).payload, "no provider configured");
}

#[test]
fn model_choice() {
    assert_eq!(requested_model(None), None);
    assert_eq!(requested_model(Some("  ")), None);
    assert_eq!(requested_model(Some("p/m")), Some("p/m"));
    assert_eq!(model_or_default("m", Some("d")), "m");
    assert_eq!(model_or_default("", Some("d")), "d");
    assert_eq!(model_or_default("", None), "");
}

#[test]
fn conversation_from_history_or_payload() {
    let msgs = context_messages(&input("message"));
    assert_eq!(msgs.len(), 1);
    assert_eq!(msgs[0].role, MessageRole::User);
    let mut i = input("message");
    i.history = Some(vec![]);
    assert_eq!(context_messages(&i).len(), 1);
    i.history = Some(vec![
        HistoryMessage { role: "user".to_string(), content: "q".to_string() },
        HistoryMessage { role: "system".to_string(), content: "s".to_string() },
        HistoryMessage { role: "assistant".to_string(), content: "a".to_string() },
    ]);
    let msgs = context_messages(&i);
    assert_eq!(msgs.len(), 2);
    assert_eq!(msgs[1].role, MessageRole::Assistant);
    assert!(matches!(&msgs[1].content[0], ContentBlock::Text { text } if text == "a"));
}

#[test]
fn forwarding_events() {
    let (f, end) = forward_event(&TurnEvent::AgentText { delta: "d".to_string() }, 1, 1);
    assert!(!end);
    assert!(matches!(f, Forward::Text { msg_type, payload } if msg_type == "text" && payload == "d"));
    let (f, end) = forward_event(&TurnEvent::AgentText { delta: "d".to_string() }, 2, 1);
    assert!(!end && matches!(f, Forward::Skip));
    let (f, end) = forward_event(&TurnEvent::AgentDone { stop_reason: "end_turn".to_string() }, 1, 1);
    assert!(end && matches!(f, Forward::Text { msg_type, .. } if msg_type == "done"));
    let ev = TurnEvent::ToolEnd { call_id: "c".to_string(), tool_name: "bash".to_string(), ok: true, duration_ms: 12 };
    match forward_event(&ev, 1, 1) {
        (Forward::Json { msg_type, payload }, false) => {
            assert_eq!(msg_type, "tool_end");
            assert_eq!(payload.get("duration_ms").unwrap().as_u64(), Some(12));
            assert_eq!(payload.get("ok").unwrap().as_bool(), Some(true));
        },
        _ => panic!("expected JSON"),
    }
    let ev = TurnEvent::ToolStart { call_id: "c".to_string(), tool_name: "bash".to_string(), input: Json::Null };
    assert!(matches!(forward_event(&ev, 1, 1), (Forward::Json { .. }, false)));
    assert!(matches!(forward_event(&TurnEvent::AgentError { error: "e".to_string() }, 1, 1), (Forward::Text { .. }, true)));
}

#[test]
fn models_answer_lists_id_and_role() {
    let o = models_event(3, &vec![
        ("openai/gpt-4o".to_string(), "main".to_string()),
        ("gemini/gemini-2.0-flash".to_string(), "fast".to_string()),
    ]);
    assert_eq!(o.id, 3);
    assert_eq!(o.msg_type, "models");
    assert_eq!(
        o.payload,
        "[{\"id\":\"openai/gpt-4o\",\"role\":\"main\"},{\"id\":\"gemini/gemini-2.0-flash\",\"role\":\"fast\"}]"
    );
    assert_eq!(models_event(4, &vec![]).payload, "[]");
}

#[test]
fn context_carries_model_and_system_prompt() {
    let ctx = build_context(&input("message"), "be brief", "gemini-2.5-pro");
    assert_eq!(ctx.model, "gemini-2.5-pro");
    assert_eq!(ctx.system.as_deref(), Some("be brief"));
    assert_eq!(ctx.messages.len(), 1);
    assert_eq!(ctx.messages[0].role, MessageRole::User);
}
