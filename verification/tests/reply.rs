use ai_bot::cursor::AgentResult;
use ai_bot::models::Bot;
use ai_bot::reply::{reply_step, ReplyAction, ReplyInput, ReplyStage};
use ai_bot::routing::SelectedBot;

fn selected() -> SelectedBot {
    SelectedBot {
        bot: Bot {
            id: "b1".into(),
            group_id: "g".into(),
            nickname: "小周".into(),
            avatar: "#0d9488".into(),
            persona: "设定".into(),
            model: Some("m-1".into()),
            cursor_chat_id: Some("chat-0".into()),
        },
        hint: None,
    }
}

fn ok(text: &str, chat: Option<&str>) -> Result<AgentResult, String> {
    Ok(AgentResult { text: text.into(), chat_id: chat.map(|c| c.to_string()) })
}

fn ids(random: u128) -> ReplyInput {
    ReplyInput::FreshIds { message_id: "m9".into(), created_at: "t9".into(), random }
}

#[test]
fn stream_runs_first_with_model_and_session() {
    let s = selected();
    let (stage, acts) = reply_step(ReplyStage::Generating, "g", &s, "提示", ReplyInput::Started);
    assert!(matches!(stage, ReplyStage::Generating));
    assert_eq!(acts.len(), 1);
    match &acts[0] {
        ReplyAction::RunStream(p, m, c) => {
            assert_eq!(p, "提示");
            assert_eq!(m.as_deref(), Some("m-1"));
            assert_eq!(c.as_deref(), Some("chat-0"));
        }
        other => panic!("unexpected {other:?}"),
    }
}

#[test]
fn failed_stream_falls_back_to_one_text_run_then_reports_stream_error() {
    let s = selected();
    let (stage, acts) = reply_step(
        ReplyStage::Generating,
        "g",
        &s,
        "提示",
        ReplyInput::StreamResult(Err("流失败".into())),
    );
    assert_eq!(acts.len(), 1);
    match &acts[0] {
        ReplyAction::RunText(p, m, c) => {
            assert_eq!(p, "提示");
            assert_eq!(m.as_deref(), Some("m-1"));
            assert_eq!(c.as_deref(), Some("chat-0"));
        }
        other => panic!("unexpected {other:?}"),
    }
    let (stage, acts) =
        reply_step(stage, "g", &s, "提示", ReplyInput::TextResult(Err("文本失败".into())));
    assert!(matches!(acts.as_slice(), [ReplyAction::NeedIds]));
    let (stage, acts) = reply_step(stage, "g", &s, "提示", ids(0));
    assert!(matches!(stage, ReplyStage::Ended));
    assert_eq!(acts.len(), 3);
    match (&acts[0], &acts[1], &acts[2]) {
        (ReplyAction::Store(m), ReplyAction::Emit(e), ReplyAction::Done(Some(d))) => {
            assert_eq!(m.id, "m9");
            assert_eq!(m.created_at, "t9");
            assert_eq!(m.content, "（回复失败：流失败）");
            assert_eq!(m.status, "error");
            assert_eq!(m.bot_id.as_deref(), Some("b1"));
            assert_eq!(e.event_type, "bot_error");
            assert_eq!(e.error.as_deref(), Some("流失败"));
            assert_eq!(e.message_id.as_deref(), Some("m9"));
            assert_eq!(d.id, "m9");
        }
        other => panic!("unexpected {other:?}"),
    }
}

#[test]
fn reply_is_typed_then_stored() {
    let s = selected();
    let (stage, acts) = reply_step(
        ReplyStage::Generating,
        "g",
        &s,
        "提示",
        ReplyInput::StreamResult(ok("  你好呀 ", Some("chat-1"))),
    );
    assert_eq!(acts.len(), 2);
    assert!(matches!(&acts[0], ReplyAction::SaveChatId(c) if c == "chat-1"));
    assert!(matches!(&acts[1], ReplyAction::NeedIds));
    let (stage, acts) = reply_step(stage, "g", &s, "提示", ids(1005));
    assert_eq!(acts.len(), 3);
    match (&acts[0], &acts[1], &acts[2]) {
        (ReplyAction::Emit(typing), ReplyAction::Emit(shown), ReplyAction::Sleep(ms)) => {
            assert_eq!(typing.event_type, "bot_typing");
            assert_eq!(typing.bot_id.as_deref(), Some("b1"));
            let m = typing.message.as_ref().unwrap();
            assert_eq!(m.status, "streaming");
            assert_eq!(m.content, "");
            assert_eq!(shown.event_type, "message");
            assert_eq!(shown.message.as_ref().unwrap().id, "m9");
            assert_eq!(*ms, 1000 + 1005 % 1001);
        }
        other => panic!("unexpected {other:?}"),
    }
    let (stage, acts) = reply_step(stage, "g", &s, "提示", ReplyInput::TypingOver);
    assert!(matches!(stage, ReplyStage::Ended));
    match (&acts[0], &acts[1], &acts[2]) {
        (ReplyAction::Store(m), ReplyAction::Emit(e), ReplyAction::Done(Some(d))) => {
            assert_eq!(m.content, "你好呀");
            assert_eq!(m.status, "done");
            assert_eq!(m.id, "m9");
            assert_eq!(e.event_type, "bot_done");
            assert_eq!(d.content, "你好呀");
        }
        other => panic!("unexpected {other:?}"),
    }
}

#[test]
fn silent_reply_leaves_no_trace() {
    let s = selected();
    let (stage, acts) = reply_step(
        ReplyStage::TextFallback { stream_error: "x".into() },
        "g",
        &s,
        "提示",
        ReplyInput::TextResult(ok("**No_Reply**", None)),
    );
    assert!(matches!(stage, ReplyStage::Ended));
    assert!(matches!(acts.as_slice(), [ReplyAction::Done(None)]));
    let (_, acts) = reply_step(
        ReplyStage::Generating,
        "g",
        &s,
        "提示",
        ReplyInput::StreamResult(ok("【跳过】", Some("chat-2"))),
    );
    assert!(matches!(acts.as_slice(), [ReplyAction::SaveChatId(_), ReplyAction::Done(None)]));
}

#[test]
fn stop_ends_the_reply_and_stray_inputs_change_nothing() {
    let s = selected();
    let (stage, acts) = reply_step(
        ReplyStage::Preparing { text: "好".into() },
        "g",
        &s,
        "提示",
        ReplyInput::Cancelled,
    );
    assert!(matches!(stage, ReplyStage::Ended));
    assert!(matches!(acts.as_slice(), [ReplyAction::Done(None)]));
    let (stage, acts) = reply_step(ReplyStage::Generating, "g", &s, "提示", ReplyInput::TypingOver);
    assert!(matches!(stage, ReplyStage::Generating));
    assert!(acts.is_empty());
    let (_, acts) = reply_step(ReplyStage::Ended, "g", &s, "提示", ReplyInput::Cancelled);
    assert!(acts.is_empty());
}
