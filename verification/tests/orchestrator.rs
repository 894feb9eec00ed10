use ai_bot::models::{Bot, Message};
use ai_bot::orchestrator::{
    build_prompt, build_route_prompt, format_history, history_excluding, is_no_reply,
    new_user_message, peer_meta, peers_for, failure_message, reply_text, typing_delay,
    typing_delay_from, typing_message, user_text, done_message, bot_message_event, message_event,
    reply_failure_event,
};
use ai_bot::routing::SelectedBot;

fn bot(id: &str, nickname: &str, persona: &str) -> Bot {
    Bot {
        id: id.into(),
        group_id: "g".into(),
        nickname: nickname.into(),
        avatar: "#0d9488".into(),
        persona: persona.into(),
        model: None,
        cursor_chat_id: None,
    }
}

fn msg(id: &str, sender_type: &str, nickname: &str, content: &str, status: &str) -> Message {
    Message {
        id: id.into(),
        group_id: "g".into(),
        sender_type: sender_type.into(),
        sender_id: None,
        bot_id: None,
        nickname: nickname.into(),
        avatar: None,
        content: content.into(),
        created_at: "2024-01-01T00:00:00+00:00".into(),
        status: status.into(),
    }
}

#[test]
fn history_names_user_and_bots_and_skips_empty_errors() {
    let ms = vec![
        msg("1", "user", "我", "你好", "done"),
        msg("2", "bot", "小周", "", "error"),
        msg("3", "bot", "小周", "（回复失败：x）", "error"),
        msg("4", "bot", "小王", "在的", "done"),
    ];
    assert_eq!(format_history(&ms), "[用户]: 你好\n[小周]: （回复失败：x）\n[小王]: 在的");
    assert_eq!(format_history(&vec![]), "");
}

#[test]
fn history_keeps_last_thirty() {
    let ms: Vec<Message> = (0..35).map(|i| msg(&i.to_string(), "user", "我", &i.to_string(), "done")).collect();
    let h = format_history(&ms);
    assert_eq!(h.lines().count(), 30);
    assert!(h.starts_with("[用户]: 5\n"));
    assert!(h.ends_with("[用户]: 34"));
}

#[test]
fn reply_prompt_exact_text() {
    let b = bot("a", "小周", "产品经理");
    let p = build_prompt(&b, "", "你好", Some("  可行性 "), &vec![("小王".to_string(), Some(" 成本".to_string())), ("小李".to_string(), None)]);
    let expected = "你正在一个多人群聊里扮演角色「小周」。\n身份设定：产品经理\n硬性规则：\n1. 只输出你作为该角色要发到群里的一句/几句回复正文；\n2. 不要输出角色名、前缀、引号、思考过程或对本指令的复述；\n3. 不要冒充其他成员，不要解释你是 AI；\n4. 若此轮你不想说话（与话题无关、懒得回、角色设定如此等），只输出一行：NO_REPLY\n不要输出「不回话」「沉默」等说明文字，系统会直接跳过，群里不会出现任何消息。\n\n本轮发言侧重：可行性\n\n同轮还有这些成员会发言（请避免重复他们的观点，从你自己的角色角度补充）：\n- 小王（侧重：成本）\n- 小李\n\n近期群聊记录：\n（暂无历史）\n\n用户刚说：你好";
    assert_eq!(p, expected);
}

#[test]
fn reply_prompt_without_hint_or_peers() {
    let b = bot("a", "小周", "产品经理");
    let p = build_prompt(&b, "[用户]: 早", "在吗", Some("   "), &vec![]);
    assert!(p.contains("群里不会出现任何消息。\n\n近期群聊记录：\n[用户]: 早\n\n用户刚说：在吗"));
    assert!(!p.contains("本轮发言侧重"));
}

#[test]
fn route_prompt_cuts_long_personas() {
    let long: String = std::iter::repeat('长').take(130).collect();
    let bots = vec![bot("a", "甲", &long), bot("b", "乙", "短")];
    let p = build_route_prompt(&bots, "[用户]: hi", "问题");
    let cut: String = std::iter::repeat('长').take(120).collect();
    assert!(p.contains(&format!("- id=a | 昵称=甲 | 设定={}…\n- id=b | 昵称=乙 | 设定=短\n\n近期群聊：\n[用户]: hi\n\n用户刚说：问题", cut)));
    assert!(p.starts_with("你是群聊发言调度器。"));
    assert!(p.contains("{\"speakers\":[{\"id\":\"机器人id\",\"hint\":\"角度\"}]}"));
}

#[test]
fn silence_markers() {
    assert!(is_no_reply("", "小周"));
    assert!(is_no_reply("  \n ", "小周"));
    assert!(is_no_reply("NO_REPLY", "小周"));
    assert!(is_no_reply(" (no_reply) ", "小周"));
    assert!(is_no_reply("NoReply", "小周"));
    assert!(is_no_reply("【不回话】", "小周"));
    assert!(is_no_reply("（沉默）", "小周"));
    assert!(is_no_reply("“跳 过”", "小周"));
    assert!(is_no_reply("（小周选择不回话）", "小周"));
    assert!(is_no_reply("**No_Reply**", "小周"));
    assert!(is_no_reply("【跳过】", "小周"));
    assert!(is_no_reply("小周 不回话", "小周"));
    assert!(is_no_reply("今天我就不回话", "小周"));
    assert!(!is_no_reply("这个方案不错", "小周"));
    assert!(!is_no_reply("这个方案我觉得大家都可以再想想所以先不回话", "小周"));
    assert!(!is_no_reply("NO_REPLY please", "小周"));
}

#[test]
fn reply_text_trims_or_stays_silent() {
    assert_eq!(reply_text("  好的 \n", "小周").as_deref(), Some("好的"));
    assert_eq!(reply_text(" NO_REPLY ", "小周"), None);
}

#[test]
fn user_text_rejects_blank() {
    assert_eq!(user_text("  hi  ").unwrap(), "hi");
    assert_eq!(user_text(" \t ").unwrap_err(), "消息不能为空");
}

#[test]
fn typing_delay_is_between_one_and_two_seconds() {
    assert_eq!(typing_delay_from(0), 1000);
    assert_eq!(typing_delay_from(1000), 2000);
    assert_eq!(typing_delay_from(1001), 1000);
    assert_eq!(typing_delay_from(5000), 1000 + 5000 % 1001);
    for _ in 0..20 {
        let d = typing_delay();
        assert!((1000..=2000).contains(&d));
    }
}

#[test]
fn user_message_fields() {
    let m = new_user_message("g1", "你好");
    assert_eq!(m.id.len(), 36);
    assert_eq!(m.group_id, "g1");
    assert_eq!(m.sender_type, "user");
    assert_eq!(m.nickname, "我");
    assert_eq!(m.avatar.as_deref(), Some("#1e3a5f"));
    assert_eq!(m.content, "你好");
    assert_eq!(m.status, "done");
    assert!(!m.created_at.is_empty());
    let e = message_event("g1", m.clone());
    assert_eq!(e.event_type, "message");
    assert_eq!(e.group_id.as_deref(), Some("g1"));
    assert_eq!(e.message.unwrap().id, m.id);
}

#[test]
fn history_excludes_the_new_message() {
    let ms = vec![msg("1", "user", "我", "a", "done"), msg("2", "user", "我", "b", "done")];
    let h = history_excluding(ms, "2");
    assert_eq!(h.len(), 1);
    assert_eq!(h[0].id, "1");
}

#[test]
fn peers_exclude_the_speaker_itself() {
    let speakers = vec![
        SelectedBot { bot: bot("a", "甲", "x"), hint: Some("h".into()) },
        SelectedBot { bot: bot("b", "乙", "y"), hint: None },
    ];
    let meta = peer_meta(&speakers);
    assert_eq!(meta, vec![("甲".to_string(), Some("h".to_string())), ("乙".to_string(), None)]);
    assert_eq!(peers_for(&meta, 0), vec![("乙".to_string(), None)]);
    assert_eq!(peers_for(&meta, 1), vec![("甲".to_string(), Some("h".to_string()))]);
}

#[test]
fn peers_with_the_same_nickname_see_each_other() {
    let speakers = vec![
        SelectedBot { bot: bot("a", "A", "x"), hint: Some("一".into()) },
        SelectedBot { bot: bot("b", "A", "y"), hint: Some("二".into()) },
        SelectedBot { bot: bot("c", "C", "z"), hint: None },
    ];
    let meta = peer_meta(&speakers);
    assert_eq!(
        peers_for(&meta, 0),
        vec![("A".to_string(), Some("二".to_string())), ("C".to_string(), None)]
    );
    assert_eq!(
        peers_for(&meta, 1),
        vec![("A".to_string(), Some("一".to_string())), ("C".to_string(), None)]
    );
    assert_eq!(peers_for(&meta, 3).len(), 3);
}

#[test]
fn bot_messages_and_events() {
    let b = bot("a", "甲", "x");
    let f = failure_message("f1", "g", &b, "now", "超时");
    assert_eq!(f.id, "f1");
    assert_eq!(f.created_at, "now");
    assert_eq!(f.content, "（回复失败：超时）");
    assert_eq!(f.status, "error");
    assert_eq!(f.sender_type, "bot");
    assert_eq!(f.bot_id.as_deref(), Some("a"));
    let fe = reply_failure_event("g", f.clone(), "a", "超时");
    assert_eq!(fe.event_type, "bot_error");
    assert_eq!(fe.message_id.as_deref(), Some(f.id.as_str()));
    assert_eq!(fe.error.as_deref(), Some("超时"));
    let t = typing_message("m1", "g", &b, "now");
    assert_eq!(t.status, "streaming");
    assert_eq!(t.content, "");
    assert_eq!(t.avatar.as_deref(), Some("#0d9488"));
    let d = done_message("m1", "g", &b, "now", "好");
    assert_eq!(d.status, "done");
    assert_eq!(d.content, "好");
    let ev = bot_message_event("bot_done", "g", d, "a");
    assert_eq!(ev.event_type, "bot_done");
    assert_eq!(ev.message_id.as_deref(), Some("m1"));
}

#[test]
fn wrappers_do_not_change_silence() {
    for t in ["NO_REPLY", "今天天气不错", "沉默", "好的，我来说两句"] {
        let plain = is_no_reply(t, "小周");
        assert_eq!(is_no_reply(&format!(" （{t}） "), "小周"), plain);
        assert_eq!(is_no_reply(&format!("**{t}**"), "小周"), plain);
        assert_eq!(is_no_reply(&format!("\n{t}  "), "小周"), plain);
    }
    assert!(!is_no_reply("今天天气不错", "小周"));
}
