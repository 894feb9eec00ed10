use vstd::prelude::*;
use vstd::string::*;
use crate::models::{Bot, ChatEvent, Message, MessageView, EventView, opt_view, copy_opt};
use crate::routing::SelectedBot;
use crate::text::{
    same_text, trim, trimmed, is_blank, trim_by, drop_ws, lower_char, has_suffix, chars_of,
    trim_bounds, trim_bounds_by, string_of_range, drop_ws_chars, lower_chars, same_chars,
    ends_with_chars, is_ws, is_wrapper_char, has_infix, occurs_at, lemma_drop_ws_concat, lemma_drop_ws_wrappers,
    lemma_drop_ws_of_text, lemma_drop_ws_trim, lemma_trim_by_wrapped, lemma_drop_ws_none,
    lemma_trim_by_untouched,
};

verus! {

/// At most this many recent messages go into a prompt.
pub const HISTORY_LIMIT: usize = 30;

/// How a message's sender is named in the history: the user as "用户",
/// a bot by its nickname.
pub open spec fn speaker_name(m: Message) -> Seq<char> {
    if m.sender_type@ == "user"@ {
        "用户"@
    } else {
        m.nickname@
    }
}

/// One history line: `[name]: content`.
pub open spec fn history_line(m: Message) -> Seq<char> {
    "["@ + speaker_name(m) + "]: "@ + m.content@
}

/// Failed replies with no text are left out of the history.
pub open spec fn shown_in_history(m: Message) -> bool {
    m.status@ != "error"@ || m.content@.len() > 0
}

/// The history lines of the messages, in order.
pub open spec fn history_lines(ms: Seq<Message>) -> Seq<Seq<char>>
    decreases ms.len(),
{
    if ms.len() == 0 {
        Seq::empty()
    } else {
        let rest = history_lines(ms.drop_last());
        if shown_in_history(ms.last()) {
            rest.push(history_line(ms.last()))
        } else {
            rest
        }
    }
}

/// Lines joined by line breaks.
pub open spec fn join_lines(lines: Seq<Seq<char>>) -> Seq<char>
    decreases lines.len(),
{
    if lines.len() == 0 {
        Seq::empty()
    } else if lines.len() == 1 {
        lines[0]
    } else {
        join_lines(lines.drop_last()) + "\n"@ + lines.last()
    }
}

/// The last `HISTORY_LIMIT` messages as history text.
pub open spec fn history_text(ms: Seq<Message>) -> Seq<char> {
    let start = if ms.len() > HISTORY_LIMIT {
        ms.len() - HISTORY_LIMIT
    } else {
        0
    };
    join_lines(history_lines(ms.subrange(start, ms.len() as int)))
}

proof fn lemma_history_lines_len(ms: Seq<Message>)
    ensures
        history_lines(ms).len() <= ms.len(),
    decreases ms.len(),
{
    if ms.len() > 0 {
        lemma_history_lines_len(ms.drop_last());
    }
}

/// A prompt never carries more than `HISTORY_LIMIT` history lines.
pub proof fn law_history_within_limit(ms: Seq<Message>)
    ensures
        ({
            let start = if ms.len() > HISTORY_LIMIT {
                ms.len() - HISTORY_LIMIT
            } else {
                0
            };
            history_lines(ms.subrange(start, ms.len() as int)).len() <= HISTORY_LIMIT
        }),
{
    let start = if ms.len() > HISTORY_LIMIT {
        ms.len() - HISTORY_LIMIT
    } else {
        0
    };
    lemma_history_lines_len(ms.subrange(start, ms.len() as int));
}

/// The recent history as prompt text: the last `HISTORY_LIMIT` messages,
/// without failed replies that have no text, one `[name]: content` line each.
pub fn format_history(messages: &Vec<Message>) -> (r: String)
    ensures
        r@ == history_text(messages@),
{
    let n = messages.len();
    let start = if n > HISTORY_LIMIT {
        n - HISTORY_LIMIT
    } else {
        0
    };
    let ghost ms = messages@.subrange(start as int, n as int);
    let mut out = String::new();
    let mut count: usize = 0;
    let mut i = start;
    while i < n
        invariant
            start <= i <= n == messages.len(),
            ms == messages@.subrange(start as int, n as int),
            count == history_lines(ms.take(i - start)).len(),
            count <= i - start,
            out@ == join_lines(history_lines(ms.take(i - start))),
        decreases n - i,
    {
        let m = &messages[i];
        proof {
            assert(ms.take(i - start + 1).drop_last() =~= ms.take(i - start));
            assert(ms.take(i - start + 1).last() == *m);
        }
        let errored = same_text(m.status.as_str(), "error");
        if !errored || m.content.unicode_len() > 0 {
            if count > 0 {
                out.append("\n");
            }
            out.append("[");
            if same_text(m.sender_type.as_str(), "user") {
                out.append("用户");
            } else {
                out.append(m.nickname.as_str());
            }
            out.append("]: ");
            out.append(m.content.as_str());
            proof {
                let lines = history_lines(ms.take(i - start + 1));
                assert(lines.drop_last() == history_lines(ms.take(i - start)));
                if count > 0 {
                    assert(out@ =~= join_lines(lines));
                } else {
                    assert(out@ =~= join_lines(lines));
                }
            }
            count = count + 1;
        }
        i = i + 1;
    }
    assert(ms.take(n - start) =~= ms);
    out
}


/// What a hint says once trimmed; `None` when absent or blank.
pub open spec fn focus_of(h: Option<Seq<char>>) -> Option<Seq<char>> {
    match h {
        Some(x) => if trim(x).len() > 0 {
            Some(trim(x))
        } else {
            None
        },
        None => None,
    }
}

/// The line that names a fellow speaker and, if given, its angle.
pub open spec fn peer_line(p: (Seq<char>, Option<Seq<char>>)) -> Seq<char> {
    match focus_of(p.1) {
        Some(h) => "- "@ + p.0 + "（侧重："@ + h + "）"@,
        None => "- "@ + p.0,
    }
}

/// The fellow speakers as plain values.
pub open spec fn peers_view(peers: Seq<(String, Option<String>)>) -> Seq<(Seq<char>, Option<Seq<char>>)> {
    peers.map_values(|p: (String, Option<String>)| (p.0@, opt_view(p.1)))
}

/// The part of a reply prompt that carries this bot's angle and the other speakers.
pub open spec fn prompt_extra(hint: Option<Seq<char>>, peers: Seq<(Seq<char>, Option<Seq<char>>)>) -> Seq<char> {
    let a = match focus_of(hint) {
        Some(h) => "\n本轮发言侧重："@ + h + "\n"@,
        None => Seq::empty(),
    };
    let b = if peers.len() > 0 {
        "\n同轮还有这些成员会发言（请避免重复他们的观点，从你自己的角色角度补充）：\n"@ + join_lines(peers.map_values(|p: (Seq<char>, Option<Seq<char>>)| peer_line(p))) + "\n"@
    } else {
        Seq::empty()
    };
    a + b
}

/// The history text, or a placeholder when there is none.
pub open spec fn history_or_placeholder(history: Seq<char>) -> Seq<char> {
    if history.len() == 0 {
        "（暂无历史）"@
    } else {
        history
    }
}

/// The opening of a reply prompt: the bot's role, persona and the rules.
pub open spec fn reply_head(bot: Bot) -> Seq<char> {
    "你正在一个多人群聊里扮演角色「"@ + bot.nickname@ + "」。\n身份设定："@ + bot.persona@ + "\n硬性规则：\n1. 只输出你作为该角色要发到群里的一句/几句回复正文；\n2. 不要输出角色名、前缀、引号、思考过程或对本指令的复述；\n3. 不要冒充其他成员，不要解释你是 AI；\n4. 若此轮你不想说话（与话题无关、懒得回、角色设定如此等），只输出一行：NO_REPLY\n不要输出「不回话」「沉默」等说明文字，系统会直接跳过，群里不会出现任何消息。\n"@
}

/// The prompt that asks a bot for its reply.
pub open spec fn reply_prompt(
    bot: Bot,
    history: Seq<char>,
    user: Seq<char>,
    hint: Option<Seq<char>>,
    peers: Seq<(Seq<char>, Option<Seq<char>>)>,
) -> Seq<char> {
    reply_head(bot)
        + prompt_extra(hint, peers) + "\n近期群聊记录：\n"@ + history_or_placeholder(history) + "\n\n用户刚说："@ + user
}

/// The optional string slice as plain values.
pub open spec fn opt_str_view(h: Option<&str>) -> Option<Seq<char>> {
    match h {
        Some(x) => Some(x@),
        None => None,
    }
}

/// What a hint says once trimmed; `None` when absent or blank.
fn focus(h: Option<&str>) -> (r: Option<String>)
    ensures
        opt_view(r) == focus_of(opt_str_view(h)),
{
    match h {
        Some(x) => {
            let t = trimmed(x);
            proof {
                crate::text::lemma_trim_idempotent(x@);
            }
            if is_blank(t.as_str()) {
                None
            } else {
                Some(t)
            }
        },
        None => None,
    }
}

/// The prompt that asks `bot` for its reply: its role and persona, the rules
/// of the game (reply text only, or `NO_REPLY` to stay silent), its angle
/// and the other speakers of the turn, the recent history and the user's words.
pub fn build_prompt(
    bot: &Bot,
    history_text: &str,
    user_content: &str,
    hint: Option<&str>,
    peers: &Vec<(String, Option<String>)>,
) -> (r: String)
    ensures
        r@ == reply_prompt(*bot, history_text@, user_content@, opt_str_view(hint), peers_view(peers@)),
{
    let mut extra = String::new();
    if let Some(h) = focus(hint) {
        extra.append("\n本轮发言侧重：");
        extra.append(h.as_str());
        extra.append("\n");
    }
    let ghost first = extra@;
    if peers.len() > 0 {
        extra.append("\n同轮还有这些成员会发言（请避免重复他们的观点，从你自己的角色角度补充）：\n");
        let ghost head = extra@;
        let ghost pv = peers_view(peers@);
        let ghost lines = pv.map_values(|p: (Seq<char>, Option<Seq<char>>)| peer_line(p));
        let mut i: usize = 0;
        while i < peers.len()
            invariant
                i <= peers.len(),
                pv == peers_view(peers@),
                lines == pv.map_values(|p: (Seq<char>, Option<Seq<char>>)| peer_line(p)),
                extra@ == head + join_lines(lines.take(i as int)),
            decreases peers.len() - i,
        {
            let ghost before = extra@;
            if i > 0 {
                extra.append("\n");
            }
            extra.append("- ");
            extra.append(peers[i].0.as_str());
            let f = match &peers[i].1 {
                Some(x) => focus(Some(x.as_str())),
                None => focus(None),
            };
            if let Some(hh) = f {
                extra.append("（侧重：");
                extra.append(hh.as_str());
                extra.append("）");
            }
            proof {
                assert(pv[i as int] == (peers@[i as int].0@, opt_view(peers@[i as int].1)));
                assert(lines.take(i + 1).drop_last() =~= lines.take(i as int));
                assert(lines.take(i + 1).last() == peer_line(pv[i as int]));
                if i > 0 {
                    assert(extra@ =~= head + join_lines(lines.take(i + 1)));
                } else {
                    assert(extra@ =~= head + join_lines(lines.take(i + 1)));
                }
            }
            i = i + 1;
        }
        assert(lines.take(peers.len() as int) =~= lines);
        extra.append("\n");
    }
    proof {
        assert(extra@ =~= prompt_extra(opt_str_view(hint), peers_view(peers@)));
    }
    let mut out = String::new();
    out.append("你正在一个多人群聊里扮演角色「");
    out.append(bot.nickname.as_str());
    out.append("」。\n身份设定：");
    out.append(bot.persona.as_str());
    out.append("\n硬性规则：\n1. 只输出你作为该角色要发到群里的一句/几句回复正文；\n2. 不要输出角色名、前缀、引号、思考过程或对本指令的复述；\n3. 不要冒充其他成员，不要解释你是 AI；\n4. 若此轮你不想说话（与话题无关、懒得回、角色设定如此等），只输出一行：NO_REPLY\n不要输出「不回话」「沉默」等说明文字，系统会直接跳过，群里不会出现任何消息。\n");
    out.append(extra.as_str());
    out.append("\n近期群聊记录：\n");
    if history_text.unicode_len() == 0 {
        out.append("（暂无历史）");
    } else {
        out.append(history_text);
    }
    out.append("\n\n用户刚说：");
    out.append(user_content);
    proof {
        assert(out@ =~= reply_prompt(*bot, history_text@, user_content@, opt_str_view(hint), peers_view(peers@)));
    }
    out
}

/// Whenever the bot has an angle, a hint that is not blank once trimmed,
/// its prompt tells it that angle as the line "本轮发言侧重：" followed by the
/// trimmed hint, whether or not other bots speak in the same turn.
pub proof fn law_prompt_tells_the_angle(
    bot: Bot,
    history: Seq<char>,
    user: Seq<char>,
    hint: Seq<char>,
    peers: Seq<(Seq<char>, Option<Seq<char>>)>,
)
    requires
        trim(hint).len() > 0,
    ensures
        has_infix(
            reply_prompt(bot, history, user, Some(hint), peers),
            "\n本轮发言侧重："@ + trim(hint) + "\n"@,
        ),
{
    let full = reply_prompt(bot, history, user, Some(hint), peers);
    let line = "\n本轮发言侧重："@ + trim(hint) + "\n"@;
    let head = reply_head(bot);
    let e = prompt_extra(Some(hint), peers);
    assert(focus_of(Some(hint)) == Some(trim(hint)));
    assert(e.subrange(0, line.len() as int) =~= line);
    let i = head.len() as int;
    assert(full.subrange(i, i + line.len()) =~= line);
    assert(occurs_at(full, line, i));
}

/// A persona cut to its first 120 characters, marked with an ellipsis.
pub open spec fn persona_brief(p: Seq<char>) -> Seq<char> {
    if p.len() > 120 {
        p.take(120) + "…"@
    } else {
        p
    }
}

/// The roster line that presents a bot to the router.
pub open spec fn roster_line(b: Bot) -> Seq<char> {
    "- id="@ + b.id@ + " | 昵称="@ + b.nickname@ + " | 设定="@ + persona_brief(b.persona@)
}

/// The prompt that asks the router who should speak.
pub open spec fn route_prompt(bots: Seq<Bot>, history: Seq<char>, user: Seq<char>) -> Seq<char> {
    "你是群聊发言调度器。根据用户这句话和近期上下文，决定本轮最适合开口的机器人。\n目标：\n1. 优先选最相关的 1 人；只有话题明显需要多视角时才选 2–"@ + crate::text::dec(crate::routing::MAX_SPEAKERS as nat) + " 人；\n2. 不要为了热闹让所有人都回；避免多人说相似内容；\n3. 若几乎无人相关，仍选最不违和的 1 人；\n4. 为每位入选者给一句简短 hint（他们应从哪个角度说，彼此角度要不同）。\n\n只输出一段 JSON，不要 markdown，不要解释。格式：\n{\"speakers\":[{\"id\":\"机器人id\",\"hint\":\"角度\"}]}\n\n可选机器人：\n"@
        + join_lines(bots.map_values(|b: Bot| roster_line(b))) + "\n\n近期群聊：\n"@ + history_or_placeholder(history)
        + "\n\n用户刚说："@ + user
}

/// The prompt that asks the router which bots should speak this turn and
/// from which angle, as a JSON object; each bot is listed with its id,
/// nickname and persona, the persona cut after 120 characters.
pub fn build_route_prompt(bots: &Vec<Bot>, history_text: &str, user_content: &str) -> (r: String)
    ensures
        r@ == route_prompt(bots@, history_text@, user_content@),
{
    let ghost lines = bots@.map_values(|b: Bot| roster_line(b));
    let mut roster = String::new();
    let mut i: usize = 0;
    while i < bots.len()
        invariant
            i <= bots.len(),
            lines == bots@.map_values(|b: Bot| roster_line(b)),
            roster@ == join_lines(lines.take(i as int)),
        decreases bots.len() - i,
    {
        let b = &bots[i];
        if i > 0 {
            roster.append("\n");
        }
        roster.append("- id=");
        roster.append(b.id.as_str());
        roster.append(" | 昵称=");
        roster.append(b.nickname.as_str());
        roster.append(" | 设定=");
        let p = crate::text::chars_of(b.persona.as_str());
        if p.len() > 120 {
            let cut = crate::text::string_of_range(&p, 0, 120);
            roster.append(cut.as_str());
            roster.append("…");
        } else {
            roster.append(b.persona.as_str());
        }
        proof {
            assert(lines.take(i + 1).drop_last() =~= lines.take(i as int));
            assert(lines.take(i + 1).last() == roster_line(*b));
            assert(p@.subrange(0, 120) =~= p@.take(120));
            assert(roster@ =~= join_lines(lines.take(i + 1)));
        }
        i = i + 1;
    }
    assert(lines.take(bots.len() as int) =~= lines);
    let mut out = String::new();
    out.append("你是群聊发言调度器。根据用户这句话和近期上下文，决定本轮最适合开口的机器人。\n目标：\n1. 优先选最相关的 1 人；只有话题明显需要多视角时才选 2–");
    crate::text::push_decimal(&mut out, crate::routing::MAX_SPEAKERS as u64);
    out.append(" 人；\n2. 不要为了热闹让所有人都回；避免多人说相似内容；\n3. 若几乎无人相关，仍选最不违和的 1 人；\n4. 为每位入选者给一句简短 hint（他们应从哪个角度说，彼此角度要不同）。\n\n只输出一段 JSON，不要 markdown，不要解释。格式：\n{\"speakers\":[{\"id\":\"机器人id\",\"hint\":\"角度\"}]}\n\n可选机器人：\n");
    out.append(roster.as_str());
    out.append("\n\n近期群聊：\n");
    if history_text.unicode_len() == 0 {
        out.append("（暂无历史）");
    } else {
        out.append(history_text);
    }
    out.append("\n\n用户刚说：");
    out.append(user_content);
    proof {
        assert(out@ =~= route_prompt(bots@, history_text@, user_content@));
    }
    out
}


/// The fixed phrases that mean "no reply".
pub open spec fn is_silence_phrase(s: Seq<char>) -> bool {
    ||| s == "不回话"@
    ||| s == "不回复"@
    ||| s == "无需回复"@
    ||| s == "沉默"@
    ||| s == "跳过"@
    ||| s == "选择不回话"@
}

/// The model chose to stay silent: its trimmed text is empty, or, with white
/// space removed and brackets, quotes and stars peeled off both ends, it is
/// `NO_REPLY` or `noreply` in any ASCII case, a fixed silence phrase, the
/// nickname followed by "不回话" or "选择不回话", or a short text ending in
/// "不回话" (at most ten characters longer than the nickname).
pub open spec fn no_reply(text: Seq<char>, nickname: Seq<char>) -> bool {
    let t = trim(text);
    if t.len() == 0 {
        true
    } else {
        let s = trim_by(drop_ws(t), 1);
        let lower = s.map_values(|c: char| lower_char(c));
        ||| lower == "no_reply"@
        ||| lower == "noreply"@
        ||| is_silence_phrase(s)
        ||| s == nickname + "不回话"@
        ||| s == nickname + "选择不回话"@
        ||| (has_suffix(s, "不回话"@) && s.len() <= nickname.len() + 10)
    }
}

/// Every character of `s` is white space or one of the wrappers that the
/// silence check peels off: brackets, quotes and stars.
pub open spec fn peelable(s: Seq<char>) -> bool {
    forall|j: int| 0 <= j < s.len() ==> is_ws(#[trigger] s[j]) || is_wrapper_char(s[j])
}

/// Wrapping a reply in brackets, quotes, stars or white space never changes
/// whether it is silent, as long as the reply itself is not blank.
pub proof fn law_silence_ignores_wrappers(
    before: Seq<char>,
    text: Seq<char>,
    after: Seq<char>,
    nickname: Seq<char>,
)
    requires
        peelable(before),
        peelable(after),
        trim(text).len() > 0,
    ensures
        no_reply(before + text + after, nickname) == no_reply(text, nickname),
{
    let whole = before + text + after;
    lemma_drop_ws_concat(before, text);
    lemma_drop_ws_concat(before + text, after);
    lemma_drop_ws_wrappers(before);
    lemma_drop_ws_wrappers(after);
    lemma_drop_ws_of_text(text);
    lemma_drop_ws_trim(text);
    lemma_drop_ws_trim(whole);
    if trim(whole).len() == 0 {
        assert(drop_ws(trim(whole)) =~= Seq::<char>::empty());
        assert(drop_ws(whole).len() >= drop_ws(text).len());
        assert(false);
    }
    lemma_trim_by_wrapped(drop_ws(before), drop_ws(text), drop_ws(after), 1);
    assert(trim_by(drop_ws(trim(whole)), 1) == trim_by(drop_ws(trim(text)), 1));
}

/// A text with no white space, not starting or ending with a wrapper, that
/// is one of the fixed phrases, means silence whatever the nickname.
proof fn lemma_phrase_silent(p: Seq<char>, nickname: Seq<char>)
    requires
        p.len() > 0,
        forall|j: int| 0 <= j < p.len() ==> !is_ws(#[trigger] p[j]),
        !is_wrapper_char(p[0]),
        !is_wrapper_char(p.last()),
        is_silence_phrase(p),
    ensures
        no_reply(p, nickname),
{
    lemma_trim_by_untouched(p, 0);
    lemma_drop_ws_none(p);
    lemma_trim_by_untouched(p, 1);
}

/// Each fixed silence phrase, said alone, means the bot stays silent,
/// whatever its nickname.
pub proof fn law_silence_phrases_are_silent(nickname: Seq<char>)
    ensures
        no_reply("不回话"@, nickname),
        no_reply("不回复"@, nickname),
        no_reply("无需回复"@, nickname),
        no_reply("沉默"@, nickname),
        no_reply("跳过"@, nickname),
        no_reply("选择不回话"@, nickname),
{
    reveal_strlit("不回话");
    reveal_strlit("不回复");
    reveal_strlit("无需回复");
    reveal_strlit("沉默");
    reveal_strlit("跳过");
    reveal_strlit("选择不回话");
    lemma_phrase_silent("不回话"@, nickname);
    lemma_phrase_silent("不回复"@, nickname);
    lemma_phrase_silent("无需回复"@, nickname);
    lemma_phrase_silent("沉默"@, nickname);
    lemma_phrase_silent("跳过"@, nickname);
    lemma_phrase_silent("选择不回话"@, nickname);
}

/// Whether `v` spells the text `lit`.
fn spells(v: &Vec<char>, lit: &str) -> (r: bool)
    ensures
        r == (v@ == lit@),
{
    let w = chars_of(lit);
    same_chars(v, &w)
}

/// True when the model chose to stay silent, or answered with a placeholder
/// that only says it stays silent.
pub fn is_no_reply(text: &str, nickname: &str) -> (r: bool)
    ensures
        r == no_reply(text@, nickname@),
{
    let all = chars_of(text);
    let (lo, hi) = trim_bounds(&all);
    if lo == hi {
        return true;
    }
    let t = string_of_range(&all, lo, hi);
    let tv = chars_of(t.as_str());
    let compact = drop_ws_chars(&tv);
    let (a, b) = trim_bounds_by(&compact, 1);
    let stripped = string_of_range(&compact, a, b);
    let sv = chars_of(stripped.as_str());
    let lower = lower_chars(&sv);
    if spells(&lower, "no_reply") || spells(&lower, "noreply") {
        return true;
    }
    if spells(&sv, "不回话") || spells(&sv, "不回复") || spells(&sv, "无需回复") || spells(&sv, "沉默")
        || spells(&sv, "跳过") || spells(&sv, "选择不回话") {
        return true;
    }
    let named = String::from_str(nickname).concat("不回话");
    let named_choice = String::from_str(nickname).concat("选择不回话");
    if spells(&sv, named.as_str()) || spells(&sv, named_choice.as_str()) {
        return true;
    }
    let marker = chars_of("不回话");
    let nick = chars_of(nickname);
    ends_with_chars(&sv, &marker) && (sv.len() <= 10 || sv.len() - 10 <= nick.len())
}


/// Shortest and longest time the typing indicator shows, in milliseconds.
pub const TYPING_DELAY_MIN_MS: u64 = 1000;
pub const TYPING_DELAY_MAX_MS: u64 = 2000;

/// The typing delay drawn from `random`: the shortest delay plus `random`
/// modulo one more than the span.
pub fn typing_delay_from(random: u128) -> (r: u64)
    ensures
        r == TYPING_DELAY_MIN_MS + (random as int) % ((TYPING_DELAY_MAX_MS - TYPING_DELAY_MIN_MS) + 1),
        TYPING_DELAY_MIN_MS <= r <= TYPING_DELAY_MAX_MS,
{
    let span = TYPING_DELAY_MAX_MS - TYPING_DELAY_MIN_MS;
    let jitter = (random % (span as u128 + 1)) as u64;
    TYPING_DELAY_MIN_MS + jitter
}

/// A random typing delay between the shortest and the longest, in milliseconds.
pub fn typing_delay() -> (r: u64)
    ensures
        TYPING_DELAY_MIN_MS <= r <= TYPING_DELAY_MAX_MS,
{
    typing_delay_from(crate::ids::random_bits())
}

/// The user's message text: trimmed, and refused when blank.
pub fn user_text(content: &str) -> (r: Result<String, String>)
    ensures
        match r {
            Ok(t) => trim(content@).len() > 0 && t@ == trim(content@),
            Err(e) => trim(content@).len() == 0 && e@ == "消息不能为空"@,
        },
{
    let t = trimmed(content);
    proof {
        crate::text::lemma_trim_idempotent(content@);
    }
    if is_blank(t.as_str()) {
        return Err(String::from_str("消息不能为空"));
    }
    Ok(t)
}

/// The user's message as it is stored: sent by "我" with the user's avatar,
/// done, with a fresh id and the current time.
pub fn new_user_message(group_id: &str, text: &str) -> (r: Message)
    ensures
        r.id@.len() == 36,
        r.group_id@ == group_id@,
        r.sender_type@ == "user"@,
        r.sender_id.is_none(),
        r.bot_id.is_none(),
        r.nickname@ == "我"@,
        opt_view(r.avatar) == Some("#1e3a5f"@),
        r.content@ == text@,
        r.created_at@.len() > 0,
        r.status@ == "done"@,
{
    Message {
        id: crate::ids::new_id(),
        group_id: String::from_str(group_id),
        sender_type: String::from_str("user"),
        sender_id: None,
        bot_id: None,
        nickname: String::from_str("我"),
        avatar: Some(String::from_str("#1e3a5f")),
        content: String::from_str(text),
        created_at: crate::ids::now_rfc3339(),
        status: String::from_str("done"),
    }
}

/// The messages whose id is not `id`, in order.
pub open spec fn without_id(ms: Seq<Message>, id: Seq<char>) -> Seq<Message>
    decreases ms.len(),
{
    if ms.len() == 0 {
        ms
    } else if ms.last().id@ == id {
        without_id(ms.drop_last(), id)
    } else {
        without_id(ms.drop_last(), id).push(ms.last())
    }
}

/// The history without the message that has just been stored.
pub fn history_excluding(messages: Vec<Message>, id: &str) -> (r: Vec<Message>)
    ensures
        r@ == without_id(messages@, id@),
{
    let mut out: Vec<Message> = Vec::new();
    let mut i: usize = 0;
    while i < messages.len()
        invariant
            i <= messages.len(),
            out@ == without_id(messages@.take(i as int), id@),
        decreases messages.len() - i,
    {
        assert(messages@.take(i + 1).drop_last() =~= messages@.take(i as int));
        if !same_text(messages[i].id.as_str(), id) {
            out.push(messages[i].duplicate());
        }
        i = i + 1;
    }
    assert(messages@.take(messages.len() as int) =~= messages@);
    out
}

/// An event with only a type, a group and perhaps a message.
pub open spec fn plain_event(e: ChatEvent) -> bool {
    &&& e.delta.is_none()
    &&& e.content.is_none()
    &&& e.action.is_none()
}

/// The event that shows a message in the group, as plain values.
pub open spec fn shown_event(group: Seq<char>, m: MessageView) -> EventView {
    EventView {
        event_type: "message"@,
        group_id: Some(group),
        message: Some(m),
        bot_id: None,
        message_id: None,
        delta: None,
        content: None,
        error: None,
        action: None,
    }
}

/// An event about one bot message, as plain values.
pub open spec fn bot_event(
    kind: Seq<char>,
    group: Seq<char>,
    m: MessageView,
    bot_id: Seq<char>,
    error: Option<Seq<char>>,
) -> EventView {
    EventView {
        event_type: kind,
        group_id: Some(group),
        message: Some(m),
        bot_id: Some(bot_id),
        message_id: Some(m.id),
        delta: None,
        content: None,
        error,
        action: None,
    }
}

/// A message sent under a bot's name, as plain values.
pub open spec fn bot_message(
    id: Seq<char>,
    group: Seq<char>,
    bot: Bot,
    created_at: Seq<char>,
    content: Seq<char>,
    status: Seq<char>,
) -> MessageView {
    MessageView {
        id,
        group_id: group,
        sender_type: "bot"@,
        sender_id: None,
        bot_id: Some(bot.id@),
        nickname: bot.nickname@,
        avatar: Some(bot.avatar@),
        content,
        created_at,
        status,
    }
}

/// The text of a message that reports a failed reply.
pub open spec fn failure_text(error: Seq<char>) -> Seq<char> {
    "（回复失败："@ + error + "）"@
}

/// The event that shows a message in the group.
pub fn message_event(group_id: &str, message: Message) -> (r: ChatEvent)
    ensures
        r@ == shown_event(group_id@, message@),
        r.event_type@ == "message"@,
        opt_view(r.group_id) == Some(group_id@),
        r.message == Some(message),
        r.bot_id.is_none(),
        r.message_id.is_none(),
        r.error.is_none(),
        plain_event(r),
{
    ChatEvent {
        event_type: String::from_str("message"),
        group_id: Some(String::from_str(group_id)),
        message: Some(message),
        bot_id: None,
        message_id: None,
        delta: None,
        content: None,
        error: None,
        action: None,
    }
}

/// The nickname and hint of a speaker, as the other speakers see it.
pub open spec fn meta_of(s: SelectedBot) -> (String, Option<String>) {
    (s.bot.nickname, s.hint)
}

/// The nickname and hint of each speaker, in order.
pub fn peer_meta(speakers: &Vec<SelectedBot>) -> (r: Vec<(String, Option<String>)>)
    ensures
        r@ == speakers@.map_values(|s: SelectedBot| meta_of(s)),
{
    let mut out: Vec<(String, Option<String>)> = Vec::new();
    let mut i: usize = 0;
    while i < speakers.len()
        invariant
            i <= speakers.len(),
            out@ == speakers@.take(i as int).map_values(|s: SelectedBot| meta_of(s)),
        decreases speakers.len() - i,
    {
        out.push((speakers[i].bot.nickname.clone(), copy_opt(&speakers[i].hint)));
        assert(speakers@.take(i + 1).map_values(|s: SelectedBot| meta_of(s)) =~= speakers@.take(
            i as int,
        ).map_values(|s: SelectedBot| meta_of(s)).push(meta_of(speakers@[i as int])));
        i = i + 1;
    }
    assert(speakers@.take(speakers.len() as int) =~= speakers@);
    out
}

/// Every entry but the one at `index`, in order; all of them when `index`
/// is past the end.
pub open spec fn others_of(meta: Seq<(String, Option<String>)>, index: int) -> Seq<
    (String, Option<String>),
> {
    if 0 <= index < meta.len() {
        meta.remove(index)
    } else {
        meta
    }
}

/// Each speaker of a turn is shown every other speaker of that turn, with
/// its hint and in the order of the turn, and never itself, whatever the
/// nicknames.
pub proof fn law_each_speaker_sees_the_others(speakers: Seq<SelectedBot>, i: int)
    requires
        0 <= i < speakers.len(),
    ensures
        ({
            let p = others_of(speakers.map_values(|s: SelectedBot| meta_of(s)), i);
            &&& p.len() == speakers.len() - 1
            &&& forall|j: int| 0 <= j < i ==> #[trigger] p[j] == meta_of(speakers[j])
            &&& forall|j: int| i < j < speakers.len() ==> p[j - 1] == meta_of(#[trigger] speakers[j])
        }),
{
}

/// The other speakers of the turn, as the speaker at `index` sees them.
pub fn peers_for(meta: &Vec<(String, Option<String>)>, index: usize) -> (r: Vec<
    (String, Option<String>),
>)
    ensures
        r@ == others_of(meta@, index as int),
{
    let mut out: Vec<(String, Option<String>)> = Vec::new();
    let mut i: usize = 0;
    while i < meta.len()
        invariant
            i <= meta.len(),
            out@ == others_of(meta@.take(i as int), index as int),
        decreases meta.len() - i,
    {
        if i != index {
            out.push((meta[i].0.clone(), copy_opt(&meta[i].1)));
        }
        proof {
            let t = meta@.take(i as int);
            let t1 = meta@.take(i + 1);
            assert(t1 =~= t.push(meta@[i as int]));
            if i == index {
                assert(t1.remove(index as int) =~= t);
            } else if index < i {
                assert(t1.remove(index as int) =~= t.remove(index as int).push(meta@[i as int]));
            } else {
                assert(out@ =~= t1);
            }
        }
        i = i + 1;
    }
    assert(meta@.take(meta.len() as int) =~= meta@);
    out
}

/// A message sent under a bot's name.
pub open spec fn from_bot(m: Message, bot: Bot) -> bool {
    &&& m.sender_type@ == "bot"@
    &&& m.sender_id.is_none()
    &&& opt_view(m.bot_id) == Some(bot.id@)
    &&& m.nickname@ == bot.nickname@
    &&& opt_view(m.avatar) == Some(bot.avatar@)
}

/// The stored message that reports a failed reply: "（回复失败：…）", with
/// status "error", under the given id and time.
pub fn failure_message(message_id: &str, group_id: &str, bot: &Bot, created_at: &str, error: &str) -> (r:
    Message)
    ensures
        r@ == bot_message(message_id@, group_id@, *bot, created_at@, failure_text(error@), "error"@),
{
    let mut content = String::from_str("（回复失败：");
    content.append(error);
    content.append("）");
    Message {
        id: String::from_str(message_id),
        group_id: String::from_str(group_id),
        sender_type: String::from_str("bot"),
        sender_id: None,
        bot_id: Some(bot.id.clone()),
        nickname: bot.nickname.clone(),
        avatar: Some(bot.avatar.clone()),
        content,
        created_at: String::from_str(created_at),
        status: String::from_str("error"),
    }
}

/// The event that reports a failed reply.
pub fn reply_failure_event(group_id: &str, message: Message, bot_id: &str, error: &str) -> (r:
    ChatEvent)
    ensures
        r@ == bot_event("bot_error"@, group_id@, message@, bot_id@, Some(error@)),
        r.event_type@ == "bot_error"@,
        opt_view(r.group_id) == Some(group_id@),
        opt_view(r.message_id) == Some(message.id@),
        r.message == Some(message),
        opt_view(r.bot_id) == Some(bot_id@),
        opt_view(r.error) == Some(error@),
        plain_event(r),
{
    let message_id = message.id.clone();
    ChatEvent {
        event_type: String::from_str("bot_error"),
        group_id: Some(String::from_str(group_id)),
        message: Some(message),
        bot_id: Some(String::from_str(bot_id)),
        message_id: Some(message_id),
        delta: None,
        content: None,
        error: Some(String::from_str(error)),
        action: None,
    }
}

/// What a bot's reply becomes: the trimmed text, or nothing at all when the
/// bot chose to stay silent.
pub open spec fn reply_spec(text: Seq<char>, nickname: Seq<char>) -> Option<Seq<char>> {
    let f = trim(text);
    if no_reply(f, nickname) {
        None
    } else {
        Some(f)
    }
}

/// The text that a bot posts, or `None` when it stays silent.
pub fn reply_text(text: &str, nickname: &str) -> (r: Option<String>)
    ensures
        opt_view(r) == reply_spec(text@, nickname@),
{
    let f = trimmed(text);
    if is_no_reply(f.as_str(), nickname) {
        None
    } else {
        Some(f)
    }
}

/// The bot message under construction: status "streaming", no content yet.
/// It is shown while the bot types and never stored.
pub fn typing_message(message_id: &str, group_id: &str, bot: &Bot, created_at: &str) -> (r:
    Message)
    ensures
        r@ == bot_message(message_id@, group_id@, *bot, created_at@, Seq::empty(), "streaming"@),
        from_bot(r, *bot),
        r.id@ == message_id@,
        r.group_id@ == group_id@,
        r.content@.len() == 0,
        r.created_at@ == created_at@,
        r.status@ == "streaming"@,
{
    Message {
        id: String::from_str(message_id),
        group_id: String::from_str(group_id),
        sender_type: String::from_str("bot"),
        sender_id: None,
        bot_id: Some(bot.id.clone()),
        nickname: bot.nickname.clone(),
        avatar: Some(bot.avatar.clone()),
        content: String::new(),
        created_at: String::from_str(created_at),
        status: String::from_str("streaming"),
    }
}

/// The finished bot message, as it is stored: status "done".
pub fn done_message(message_id: &str, group_id: &str, bot: &Bot, created_at: &str, text: &str) -> (r:
    Message)
    ensures
        r@ == bot_message(message_id@, group_id@, *bot, created_at@, text@, "done"@),
        from_bot(r, *bot),
        r.id@ == message_id@,
        r.group_id@ == group_id@,
        r.content@ == text@,
        r.created_at@ == created_at@,
        r.status@ == "done"@,
{
    Message {
        id: String::from_str(message_id),
        group_id: String::from_str(group_id),
        sender_type: String::from_str("bot"),
        sender_id: None,
        bot_id: Some(bot.id.clone()),
        nickname: bot.nickname.clone(),
        avatar: Some(bot.avatar.clone()),
        content: String::from_str(text),
        created_at: String::from_str(created_at),
        status: String::from_str("done"),
    }
}

/// An event about one bot message: "bot_typing" while it types, "bot_done"
/// when the message is stored.
pub fn bot_message_event(event_type: &str, group_id: &str, message: Message, bot_id: &str) -> (r:
    ChatEvent)
    ensures
        r@ == bot_event(event_type@, group_id@, message@, bot_id@, None),
        r.event_type@ == event_type@,
        opt_view(r.group_id) == Some(group_id@),
        opt_view(r.message_id) == Some(message.id@),
        r.message == Some(message),
        opt_view(r.bot_id) == Some(bot_id@),
        r.error.is_none(),
        plain_event(r),
{
    let message_id = message.id.clone();
    ChatEvent {
        event_type: String::from_str(event_type),
        group_id: Some(String::from_str(group_id)),
        message: Some(message),
        bot_id: Some(String::from_str(bot_id)),
        message_id: Some(message_id),
        delta: None,
        content: None,
        error: None,
        action: None,
    }
}

} // verus!
