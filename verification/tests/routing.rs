use ai_bot::cursor::AgentResult;
use ai_bot::models::Bot;
use ai_bot::routing::{
    extract_json_object, plan_speakers, resolve_bot, route_next, select_from_decision,
    speakers_from_decision, RouteDecision, RouteSpeaker, RouteStep, SpeakerPlan,
};

fn decision(ids: &[&str], speakers: &[(&str, &str, &str)]) -> RouteDecision {
    RouteDecision {
        ids: ids.iter().map(|s| s.to_string()).collect(),
        speakers: speakers
            .iter()
            .map(|(id, nickname, hint)| RouteSpeaker {
                id: id.to_string(),
                nickname: nickname.to_string(),
                hint: hint.to_string(),
            })
            .collect(),
    }
}

fn bot(id: &str, nickname: &str) -> Bot {
    Bot {
        id: id.into(),
        group_id: "g".into(),
        nickname: nickname.into(),
        avatar: "#1".into(),
        persona: "设定".into(),
        model: None,
        cursor_chat_id: None,
    }
}

fn sample_bots() -> Vec<Bot> {
    vec![
        Bot {
            id: "a".into(),
            group_id: "g".into(),
            nickname: "产品经理".into(),
            avatar: "#1".into(),
            persona: "产品".into(),
            model: None,
            cursor_chat_id: None,
        },
        Bot {
            id: "b".into(),
            group_id: "g".into(),
            nickname: "工程师".into(),
            avatar: "#2".into(),
            persona: "工程".into(),
            model: None,
            cursor_chat_id: None,
        },
    ]
}

#[test]
fn selects_speakers_with_hints() {
    let bots = sample_bots();
    let sel = select_from_decision(&decision(&[], &[("b", "", "谈可行性")]), &bots);
    assert_eq!(sel.len(), 1);
    assert_eq!(sel[0].bot.id, "b");
    assert_eq!(sel[0].hint.as_deref(), Some("谈可行性"));
}

#[test]
fn selects_ids_without_speakers() {
    let bots = sample_bots();
    let sel = select_from_decision(&decision(&["a", "b", "x"], &[]), &bots);
    assert_eq!(sel.len(), 2);
}

#[test]
fn extract_json_object_spans_first_to_last_brace() {
    assert_eq!(
        extract_json_object("  note {\"a\":{\"b\":1}} end ").as_deref(),
        Some("{\"a\":{\"b\":1}}")
    );
    assert_eq!(extract_json_object("no braces"), None);
    assert_eq!(extract_json_object("} then {"), None);
    assert_eq!(extract_json_object("{"), None);
}

#[test]
fn resolve_bot_by_id_then_nickname() {
    let bots = sample_bots();
    assert_eq!(resolve_bot(&bots, " b ", "").map(|b| b.id.as_str()), Some("b"));
    assert_eq!(resolve_bot(&bots, "zzz", "产品经理").map(|b| b.id.as_str()), Some("a"));
    assert_eq!(resolve_bot(&bots, "", "工程").map(|b| b.id.as_str()), Some("b"));
    assert_eq!(resolve_bot(&bots, "", "资深工程师").map(|b| b.id.as_str()), Some("b"));
    assert!(resolve_bot(&bots, "", "").is_none());
    assert!(resolve_bot(&bots, "x", "设计师").is_none());
}

#[test]
fn speakers_by_nickname_with_trimmed_hints_and_no_duplicates() {
    let bots = sample_bots();
    let d = decision(&[], &[("", "工程师", "  成本 "), ("b", "", "再说"), ("a", "", "   ")]);
    let sel = select_from_decision(&d, &bots);
    assert_eq!(sel.len(), 2);
    assert_eq!(sel[0].bot.id, "b");
    assert_eq!(sel[0].hint.as_deref(), Some("成本"));
    assert_eq!(sel[1].bot.id, "a");
    assert_eq!(sel[1].hint, None);
}

#[test]
fn at_most_three_speakers() {
    let bots = vec![bot("1", "甲"), bot("2", "乙"), bot("3", "丙"), bot("4", "丁")];
    let sel = select_from_decision(&decision(&["1", "2", "3", "4"], &[]), &bots);
    let ids: Vec<&str> = sel.iter().map(|s| s.bot.id.as_str()).collect();
    assert_eq!(ids, vec!["1", "2", "3"]);
}

#[test]
fn speakers_win_over_ids() {
    let bots = sample_bots();
    let sel = select_from_decision(&decision(&["b"], &[("a", "", "")]), &bots);
    assert_eq!(sel.len(), 1);
    assert_eq!(sel[0].bot.id, "a");
    let sel = select_from_decision(&decision(&["b"], &[("x", "", "")]), &bots);
    assert_eq!(sel[0].bot.id, "b");
    assert!(select_from_decision(&decision(&[], &[]), &bots).is_empty());
}

#[test]
fn failed_routing_falls_back_to_first_bot() {
    let bots = sample_bots();
    let sel = speakers_from_decision(None, &bots);
    assert_eq!(sel.len(), 1);
    assert_eq!(sel[0].bot.id, "a");
    assert!(sel[0].hint.is_none());
    let sel = speakers_from_decision(Some(&decision(&["zzz"], &[])), &bots);
    assert_eq!(sel.len(), 1);
    assert_eq!(sel[0].bot.id, "a");
    let sel = speakers_from_decision(Some(&decision(&["b"], &[])), &bots);
    assert_eq!(sel.len(), 1);
    assert_eq!(sel[0].bot.id, "b");
}

#[test]
fn router_runs_text_then_stream() {
    let ok = |t: &str| -> Result<AgentResult, String> {
        Ok(AgentResult { text: t.to_string(), chat_id: None })
    };
    let failed: Result<AgentResult, String> = Err("坏了".to_string());
    assert!(matches!(route_next("p", None, None), RouteStep::RunText(p) if p == "p"));
    assert!(matches!(route_next("p", Some(&ok("{}")), None), RouteStep::Read(x) if x == "{}"));
    assert!(matches!(route_next("p", Some(&failed), None), RouteStep::RunStream(p) if p == "p"));
    assert!(
        matches!(route_next("p", Some(&failed), Some(&ok("答"))), RouteStep::Read(x) if x == "答")
    );
    assert!(matches!(route_next("p", Some(&failed), Some(&failed)), RouteStep::Read(x) if x.is_empty()));
}

#[test]
fn plan_depends_on_group_size() {
    let none: Vec<Bot> = vec![];
    assert!(matches!(plan_speakers(&none, "", "hi"), SpeakerPlan::Nobody));
    let one = vec![bot("1", "甲")];
    match plan_speakers(&one, "", "hi") {
        SpeakerPlan::Only(s) => {
            assert_eq!(s.bot.id, "1");
            assert!(s.hint.is_none());
        }
        _ => panic!("expected the only bot"),
    }
    match plan_speakers(&sample_bots(), "", "你好") {
        SpeakerPlan::Route(p) => {
            assert!(p.contains("- id=a | 昵称=产品经理 | 设定=产品\n- id=b | 昵称=工程师 | 设定=工程"));
            assert!(p.contains("2–3 人"));
            assert!(p.ends_with("近期群聊：\n（暂无历史）\n\n用户刚说：你好"));
        }
        _ => panic!("expected routing"),
    }
}
