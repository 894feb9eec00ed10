use ai_bot::cursor::{
    agent_args, agent_missing_message, config_from_parts, extract_assistant_text, parse_u64,
    status_after_check, status_before_check, status_without_agent, stream_outcome, stream_start,
    stream_event_step, stream_step, strip_fences, text_outcome, timeout_message, CursorConfig,
};
use ai_bot::json::JsonValue;

fn config(model: Option<&str>, key: Option<&str>) -> CursorConfig {
    CursorConfig {
        binary: "/usr/bin/cursor-agent".into(),
        model: model.map(|s| s.to_string()),
        timeout_ms: 120000,
        api_key: key.map(|s| s.to_string()),
    }
}

#[test]
fn strip_fences_removes_code_fences() {
    assert_eq!(strip_fences("```json\n{\"a\":1}\n```"), "{\"a\":1}");
    assert_eq!(strip_fences("  hello  "), "hello");
    assert_eq!(strip_fences("```"), "");
    assert_eq!(strip_fences("text``````"), "text");
    assert_eq!(strip_fences("```only-line"), "```only-line");
}

#[test]
fn parse_u64_follows_std() {
    assert_eq!(parse_u64("120"), Some(120));
    assert_eq!(parse_u64("+7"), Some(7));
    assert_eq!(parse_u64(""), None);
    assert_eq!(parse_u64("+"), None);
    assert_eq!(parse_u64("-1"), None);
    assert_eq!(parse_u64("1a"), None);
    assert_eq!(parse_u64(" 5"), None);
    assert_eq!(parse_u64("18446744073709551615"), Some(u64::MAX));
    assert_eq!(parse_u64("18446744073709551616"), None);
    assert_eq!(parse_u64("99999999999999999999x"), None);
}

#[test]
fn config_defaults() {
    let c = config_from_parts("/bin/a".into(), Some("  ".into()), Some("abc".into()), Some("k".into()));
    assert_eq!(c.binary, "/bin/a");
    assert_eq!(c.model, None);
    assert_eq!(c.timeout_ms, 120000);
    assert_eq!(c.api_key.as_deref(), Some("k"));
    let c = config_from_parts("/bin/a".into(), Some(" gpt ".into()), Some("5000".into()), None);
    assert_eq!(c.model.as_deref(), Some(" gpt "));
    assert_eq!(c.timeout_ms, 5000);
    assert_eq!(c.api_key, None);
}

#[test]
fn args_for_stream_and_text_runs() {
    let c = config(Some("cfg-model"), Some("KEY"));
    assert_eq!(
        agent_args(&c, "P", None, Some("chat1"), true),
        vec!["--print", "--mode", "ask", "--output-format", "stream-json", "--stream-partial-output", "--trust", "--model", "cfg-model", "--resume", "chat1", "--api-key", "KEY", "P"]
    );
    let c = config(None, None);
    assert_eq!(
        agent_args(&c, "P", Some("m"), None, false),
        vec!["--print", "--mode", "ask", "--output-format", "text", "--trust", "--model", "m", "P"]
    );
}

#[test]
fn status_decisions() {
    let s = status_without_agent();
    assert!(!s.available && !s.logged_in);
    assert_eq!(s.message, "未找到 cursor-agent，请安装或设置 CURSOR_AGENT_BIN");
    assert!(status_before_check(&config(None, None)).is_none());
    let s = status_before_check(&config(Some("m"), Some("k"))).unwrap();
    assert!(s.available && s.logged_in);
    assert_eq!(s.binary.as_deref(), Some("/usr/bin/cursor-agent"));
    assert_eq!(s.model.as_deref(), Some("m"));
    let c = config(None, None);
    let s = status_after_check(&c, Some((true, "Logged in as x".into())));
    assert!(s.logged_in);
    assert_eq!(s.message, "cursor-agent 已登录");
    let s = status_after_check(&c, Some((true, "Not logged in".into())));
    assert!(s.available && !s.logged_in);
    assert_eq!(s.message, "cursor-agent 未登录，请运行 cursor-agent login");
    let s = status_after_check(&c, None);
    assert!(!s.available);
    assert_eq!(s.message, "无法检查 cursor-agent 状态");
}

#[test]
fn assistant_text_from_string_or_parts() {
    let obj = JsonValue::Object(vec![(
        "message".into(),
        JsonValue::Object(vec![(
            "content".into(),
            JsonValue::Array(vec![
                JsonValue::Object(vec![("type".into(), JsonValue::Str("text".into())), ("text".into(), JsonValue::Str("你".into()))]),
                JsonValue::Str("好".into()),
                JsonValue::Object(vec![("text".into(), JsonValue::Number("1".into()))]),
            ]),
        )]),
    )]);
    assert_eq!(extract_assistant_text(&obj), "你好");
    let obj = JsonValue::Object(vec![("message".into(), JsonValue::Object(vec![("content".into(), JsonValue::Str("hi".into()))]))]);
    assert_eq!(extract_assistant_text(&obj), "hi");
    assert_eq!(extract_assistant_text(&JsonValue::Null), "");
}

#[test]
fn stream_accumulates_and_reports() {
    let mut st = stream_start(Some("old"));
    let out = stream_step(&mut st, r#"{"type":"system","session_id":"s1"}"#);
    assert_eq!(out.meta.as_deref(), Some("s1"));
    assert_eq!(out.delta, None);
    let out = stream_step(&mut st, r#"{"type":"assistant","session_id":"s1","message":{"content":[{"type":"text","text":"你"}]}}"#);
    assert_eq!(out.meta, None);
    assert_eq!(out.delta.as_deref(), Some("你"));
    let out = stream_step(&mut st, r#"{"type":"assistant","message":{"content":"你好"}}"#);
    assert_eq!(out.delta.as_deref(), Some("好"));
    let out = stream_step(&mut st, r#"{"type":"assistant","message":{"content":"好"}}"#);
    assert_eq!(out.delta, None);
    let out = stream_step(&mut st, "not json");
    assert_eq!(out.delta, None);
    let out = stream_step(&mut st, "   ");
    assert_eq!(out.delta, None);
    let out = stream_step(&mut st, r#"{"type":"thinking","message":{"content":"zzz"}}"#);
    assert_eq!(out.delta, None);
    let out = stream_step(&mut st, r#"{"type":"result","result":"你好！"}"#);
    assert_eq!(out.delta.as_deref(), Some("！"));
    assert_eq!(st.full_text, "你好！");
    let out = stream_step(&mut st, r#"{"type":"result","result":"全新"}"#);
    assert_eq!(out.delta, None);
    assert_eq!(st.full_text, "全新");
    let r = stream_outcome(st, true, Some(0)).unwrap();
    assert_eq!(r.text, "全新");
    assert_eq!(r.chat_id.as_deref(), Some("s1"));
}

#[test]
fn stream_outcomes() {
    let st = stream_start(None);
    assert_eq!(stream_outcome(st, false, Some(2)).unwrap_err(), "cursor-agent 调用失败 (exit Some(2))");
    let st = stream_start(None);
    assert_eq!(stream_outcome(st, false, None).unwrap_err(), "cursor-agent 调用失败 (exit None)");
    let st = stream_start(None);
    assert_eq!(stream_outcome(st, true, Some(0)).unwrap_err(), "cursor-agent 没有返回内容");
}

#[test]
fn text_outcomes() {
    assert_eq!(text_outcome(false, Some(-3), "", "  boom \n", None).unwrap_err(), "cursor-agent 调用失败 (exit Some(-3)): boom");
    assert_eq!(text_outcome(true, Some(0), "  ", "", None).unwrap_err(), "cursor-agent 没有返回任何内容");
    let r = text_outcome(true, Some(0), "```\nok\n```", "", Some("c")).unwrap();
    assert_eq!(r.text, "ok");
    assert_eq!(r.chat_id.as_deref(), Some("c"));
}

#[test]
fn messages() {
    assert_eq!(timeout_message(120000), "cursor-agent 超时 (>120000ms)");
    assert_eq!(timeout_message(0), "cursor-agent 超时 (>0ms)");
    assert_eq!(agent_missing_message(), "未找到 cursor-agent");
}

#[test]
fn stream_event_step_on_parsed_events() {
    let mut state = stream_start(Some("c0"));
    let ev = JsonValue::Object(vec![
        ("type".into(), JsonValue::Str("assistant".into())),
        ("session_id".into(), JsonValue::Str("c1".into())),
        (
            "message".into(),
            JsonValue::Object(vec![("content".into(), JsonValue::Str("你好".into()))]),
        ),
    ]);
    let out = stream_event_step(&mut state, &ev);
    assert_eq!(out.delta.as_deref(), Some("你好"));
    assert_eq!(out.meta.as_deref(), Some("c1"));
    assert_eq!(state.full_text, "你好");
    assert_eq!(state.chat_id.as_deref(), Some("c1"));
    let done = JsonValue::Object(vec![
        ("type".into(), JsonValue::Str("result".into())),
        ("session_id".into(), JsonValue::Str("c1".into())),
        ("result".into(), JsonValue::Str("你好呀".into())),
    ]);
    let out = stream_event_step(&mut state, &done);
    assert_eq!(out.delta.as_deref(), Some("呀"));
    assert_eq!(out.meta, None);
    assert_eq!(state.full_text, "你好呀");
}
