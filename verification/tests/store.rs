use ai_bot::models::{Bot, CreateBotInput, Message, UpdateBotInput, UpdateUserProfileInput};
use ai_bot::store::{
    apply_bot_update, apply_profile_update, default_user_profile, fill_message_defaults,
    group_name, group_rename, keep_last, new_bot, new_group, recall_check, replies_to_remove,
};

fn msg(id: &str, sender_type: &str) -> Message {
    Message {
        id: id.into(),
        group_id: "g".into(),
        sender_type: sender_type.into(),
        sender_id: None,
        bot_id: None,
        nickname: "n".into(),
        avatar: None,
        content: "c".into(),
        created_at: "t".into(),
        status: "done".into(),
    }
}

#[test]
fn group_names() {
    assert_eq!(group_name("  测试群 "), "测试群");
    assert_eq!(group_name("   "), "新群聊");
    let g = new_group("测试群");
    assert_eq!(g.name, "测试群");
    assert_eq!(g.id.len(), 36);
    assert!(g.bot_ids.is_empty());
    assert_eq!(group_rename(" x "), Some("x".to_string()));
    assert_eq!(group_rename(""), None);
}

#[test]
fn new_bot_defaults_and_trims() {
    let b = new_bot("g", &CreateBotInput { nickname: Some(" 小周 ".into()), avatar: Some("".into()), persona: Some("三十多岁的产品经理。".into()), model: Some("  ".into()) });
    assert_eq!(b.nickname, "小周");
    assert_eq!(b.avatar, "#0d9488");
    assert_eq!(b.persona, "三十多岁的产品经理。");
    assert_eq!(b.model, None);
    assert_eq!(b.group_id, "g");
    let b = new_bot("g", &CreateBotInput { nickname: None, avatar: Some(" #fff".into()), persona: Some(" ".into()), model: Some(" m ".into()) });
    assert_eq!(b.nickname, "机器人");
    assert_eq!(b.avatar, " #fff");
    assert_eq!(b.persona, "你是一个友好的助手。");
    assert_eq!(b.model.as_deref(), Some("m"));
}

#[test]
fn bot_updates() {
    let b = Bot { id: "a".into(), group_id: "g".into(), nickname: "甲".into(), avatar: "#1".into(), persona: "p".into(), model: Some("m".into()), cursor_chat_id: Some("c".into()) };
    let u = apply_bot_update(b.clone(), UpdateBotInput { nickname: Some("  ".into()), avatar: Some("".into()), persona: Some(" q ".into()), model: Some("x".into()), clear_model: Some(true) });
    assert_eq!(u.nickname, "甲");
    assert_eq!(u.avatar, "");
    assert_eq!(u.persona, "q");
    assert_eq!(u.model, None);
    assert_eq!(u.cursor_chat_id.as_deref(), Some("c"));
    let u = apply_bot_update(b.clone(), UpdateBotInput { nickname: None, avatar: None, persona: None, model: Some(" y ".into()), clear_model: Some(false) });
    assert_eq!(u.model.as_deref(), Some("y"));
    let u = apply_bot_update(b, UpdateBotInput { nickname: None, avatar: None, persona: None, model: None, clear_model: None });
    assert_eq!(u.model.as_deref(), Some("m"));
}

#[test]
fn keep_last_keeps_the_tail() {
    let ms: Vec<Message> = (0..5).map(|i| msg(&i.to_string(), "user")).collect();
    let k = keep_last(ms.clone(), 2);
    assert_eq!(k.iter().map(|m| m.id.as_str()).collect::<Vec<_>>(), vec!["3", "4"]);
    assert_eq!(keep_last(ms, 10).len(), 5);
}

#[test]
fn message_defaults() {
    let mut m = msg("", "user");
    m.created_at = String::new();
    let f = fill_message_defaults(m);
    assert_eq!(f.id.len(), 36);
    assert!(!f.created_at.is_empty());
    let f = fill_message_defaults(msg("x", "user"));
    assert_eq!(f.id, "x");
    assert_eq!(f.created_at, "t");
}

#[test]
fn recall_rules() {
    assert_eq!(recall_check(&None, "g").unwrap_err(), "消息不存在");
    assert_eq!(recall_check(&Some(msg("1", "user")), "h").unwrap_err(), "消息不存在");
    assert_eq!(recall_check(&Some(msg("1", "bot")), "g").unwrap_err(), "只能撤回自己的消息");
    assert_eq!(recall_check(&Some(msg("1", "user")), "g"), Ok(false));
    let mut r = msg("1", "user");
    r.status = "recalled".into();
    assert_eq!(recall_check(&Some(r), "g"), Ok(true));
}

#[test]
fn recall_removes_replies_until_next_user_message() {
    let all = vec![msg("0", "bot"), msg("1", "user"), msg("2", "bot"), msg("3", "bot"), msg("4", "user"), msg("5", "bot")];
    assert_eq!(replies_to_remove(&all, "1"), vec!["2".to_string(), "3".to_string()]);
    assert!(replies_to_remove(&all, "5").is_empty());
    assert!(replies_to_remove(&all, "nope").is_empty());
}

#[test]
fn profile_updates() {
    let p = default_user_profile();
    assert_eq!(p.nickname, "我");
    assert_eq!(p.avatar, "#1e3a5f");
    let q = apply_profile_update(p.clone(), UpdateUserProfileInput { nickname: Some(" 阿明 ".into()), avatar: None }).unwrap();
    assert_eq!(q.nickname, "阿明");
    assert_eq!(q.avatar, "#1e3a5f");
    assert_eq!(apply_profile_update(p.clone(), UpdateUserProfileInput { nickname: Some("  ".into()), avatar: None }).unwrap_err(), "昵称不能为空");
    let long: String = std::iter::repeat('名').take(25).collect();
    assert_eq!(apply_profile_update(p.clone(), UpdateUserProfileInput { nickname: Some(long), avatar: None }).unwrap_err(), "昵称太长");
    let ok: String = std::iter::repeat('名').take(24).collect();
    assert!(apply_profile_update(p.clone(), UpdateUserProfileInput { nickname: Some(ok), avatar: None }).is_ok());
    assert_eq!(apply_profile_update(p, UpdateUserProfileInput { nickname: None, avatar: Some(" ".into()) }).unwrap_err(), "头像不能为空");
}
