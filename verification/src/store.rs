use vstd::prelude::*;
use vstd::string::*;
use crate::models::{
    Bot, CreateBotInput, Group, Message, UpdateBotInput, UpdateUserProfileInput, UserProfile,
    opt_view,
};
use crate::text::{trim, trimmed, is_blank, same_text};

verus! {

/// The longest user nickname, in characters.
pub const MAX_NICKNAME_CHARS: usize = 24;

/// A trimmed text, or `fallback` when it is blank.
pub open spec fn trimmed_or(s: Seq<char>, fallback: Seq<char>) -> Seq<char> {
    if trim(s).len() > 0 {
        trim(s)
    } else {
        fallback
    }
}

/// The trimmed text, or `None` when it is blank.
pub open spec fn nonblank(s: Seq<char>) -> Option<Seq<char>> {
    if trim(s).len() > 0 {
        Some(trim(s))
    } else {
        None
    }
}

/// The trimmed text, or `None` when it is blank.
pub fn nonblank_text(s: &str) -> (r: Option<String>)
    ensures
        opt_view(r) == nonblank(s@),
{
    let t = trimmed(s);
    proof {
        crate::text::lemma_trim_idempotent(s@);
    }
    if is_blank(t.as_str()) {
        None
    } else {
        Some(t)
    }
}

/// A trimmed optional text, or `fallback` when it is absent or blank.
pub open spec fn given_or(o: Option<String>, fallback: Seq<char>) -> Seq<char> {
    match o {
        Some(s) => trimmed_or(s@, fallback),
        None => fallback,
    }
}

/// The trimmed optional text, or the literal `fallback`.
fn text_or(o: &Option<String>, fallback: &str) -> (r: String)
    ensures
        r@ == given_or(*o, fallback@),
{
    match o {
        Some(s) => match nonblank_text(s.as_str()) {
            Some(t) => t,
            None => String::from_str(fallback),
        },
        None => String::from_str(fallback),
    }
}

/// The name of a new group: the trimmed name, or "新群聊" when it is blank.
pub fn group_name(name: &str) -> (r: String)
    ensures
        r@ == trimmed_or(name@, "新群聊"@),
{
    match nonblank_text(name) {
        Some(t) => t,
        None => String::from_str("新群聊"),
    }
}

/// A new group with a fresh id, the current time, no bots yet, and its name
/// as `group_name` gives it.
pub fn new_group(name: &str) -> (r: Group)
    ensures
        r.id@.len() == 36,
        r.name@ == trimmed_or(name@, "新群聊"@),
        r.created_at@.len() > 0,
        r.bot_ids@.len() == 0,
{
    Group {
        id: crate::ids::new_id(),
        name: group_name(name),
        created_at: crate::ids::now_rfc3339(),
        bot_ids: Vec::new(),
    }
}

/// The new name of a renamed group: the trimmed name, or `None` (keep the
/// old one) when it is blank.
pub fn group_rename(name: &str) -> (r: Option<String>)
    ensures
        opt_view(r) == nonblank(name@),
{
    nonblank_text(name)
}

/// An avatar as given, unless it is absent or empty.
pub open spec fn avatar_or(o: Option<String>, fallback: Seq<char>) -> Seq<char> {
    match o {
        Some(a) => if a@.len() > 0 {
            a@
        } else {
            fallback
        },
        None => fallback,
    }
}

/// A model name: trimmed, and none when blank.
pub open spec fn model_of(o: Option<String>) -> Option<Seq<char>> {
    match o {
        Some(m) => nonblank(m@),
        None => None,
    }
}

/// A new bot in group `group_id` with a fresh id: nickname and persona
/// trimmed (defaults "机器人" and "你是一个友好的助手。"), the avatar as given
/// unless empty (default "#0d9488"), the model trimmed or none, no session yet.
pub fn new_bot(group_id: &str, input: &CreateBotInput) -> (r: Bot)
    ensures
        r.id@.len() == 36,
        r.group_id@ == group_id@,
        r.nickname@ == given_or(input.nickname, "机器人"@),
        r.avatar@ == avatar_or(input.avatar, "#0d9488"@),
        r.persona@ == given_or(input.persona, "你是一个友好的助手。"@),
        opt_view(r.model) == model_of(input.model),
        r.cursor_chat_id.is_none(),
{
    let avatar = match &input.avatar {
        Some(a) => if a.unicode_len() > 0 {
            a.clone()
        } else {
            String::from_str("#0d9488")
        },
        None => String::from_str("#0d9488"),
    };
    let model = match &input.model {
        Some(m) => nonblank_text(m.as_str()),
        None => None,
    };
    Bot {
        id: crate::ids::new_id(),
        group_id: String::from_str(group_id),
        nickname: text_or(&input.nickname, "机器人"),
        avatar,
        persona: text_or(&input.persona, "你是一个友好的助手。"),
        model,
        cursor_chat_id: None,
    }
}

/// A field after an update that ignores blank values: the trimmed new value,
/// else the old one.
pub open spec fn updated_text(old: Seq<char>, new: Option<String>) -> Seq<char> {
    match new {
        Some(n) => trimmed_or(n@, old),
        None => old,
    }
}

/// The model after an update: cleared on request, else the trimmed new
/// name (none when blank), else unchanged.
pub open spec fn updated_model(
    old: Option<Seq<char>>,
    model: Option<String>,
    clear: Option<bool>,
) -> Option<Seq<char>> {
    if clear == Some(true) {
        None
    } else {
        match model {
            Some(m) => nonblank(m@),
            None => old,
        }
    }
}

/// A bot after an update: blank nickname and persona are ignored, the avatar
/// is taken as given, and the model follows `updated_model`; the id, group
/// and session stay.
pub fn apply_bot_update(bot: Bot, input: UpdateBotInput) -> (r: Bot)
    ensures
        r.id == bot.id,
        r.group_id == bot.group_id,
        r.nickname@ == updated_text(bot.nickname@, input.nickname),
        r.avatar@ == match input.avatar {
            Some(a) => a@,
            None => bot.avatar@,
        },
        r.persona@ == updated_text(bot.persona@, input.persona),
        opt_view(r.model) == updated_model(opt_view(bot.model), input.model, input.clear_model),
        r.cursor_chat_id == bot.cursor_chat_id,
{
    let mut bot = bot;
    if let Some(n) = &input.nickname {
        if let Some(t) = nonblank_text(n.as_str()) {
            bot.nickname = t;
        }
    }
    if let Some(a) = input.avatar {
        bot.avatar = a;
    }
    if let Some(p) = &input.persona {
        if let Some(t) = nonblank_text(p.as_str()) {
            bot.persona = t;
        }
    }
    let clear = match input.clear_model {
        Some(c) => c,
        None => false,
    };
    if clear {
        bot.model = None;
    } else if let Some(m) = &input.model {
        bot.model = nonblank_text(m.as_str());
    }
    bot
}

/// The last `limit` messages, or all of them when there are fewer.
pub open spec fn last_n(ms: Seq<Message>, limit: nat) -> Seq<Message> {
    if ms.len() > limit {
        ms.subrange(ms.len() - limit, ms.len() as int)
    } else {
        ms
    }
}

/// Keeps the last `limit` messages.
pub fn keep_last(messages: Vec<Message>, limit: usize) -> (r: Vec<Message>)
    ensures
        r@ == last_n(messages@, limit as nat),
{
    let mut messages = messages;
    if messages.len() > limit {
        let at = messages.len() - limit;
        let ghost before = messages@;
        let tail = messages.split_off(at);
        assert(tail@ =~= last_n(before, limit as nat));
        return tail;
    }
    messages
}

/// A message with an id and a time: an empty id is replaced by a fresh one
/// and an empty time by the current time; everything else stays.
pub fn fill_message_defaults(message: Message) -> (r: Message)
    ensures
        message.id@.len() > 0 ==> r.id == message.id,
        message.id@.len() == 0 ==> r.id@.len() == 36,
        message.created_at@.len() > 0 ==> r.created_at == message.created_at,
        r.created_at@.len() > 0,
        r.group_id == message.group_id,
        r.sender_type == message.sender_type,
        r.sender_id == message.sender_id,
        r.bot_id == message.bot_id,
        r.nickname == message.nickname,
        r.avatar == message.avatar,
        r.content == message.content,
        r.status == message.status,
{
    let mut message = message;
    if message.id.unicode_len() == 0 {
        message.id = crate::ids::new_id();
    }
    if message.created_at.unicode_len() == 0 {
        message.created_at = crate::ids::now_rfc3339();
    }
    message
}

/// Whether a recall may go on. A missing message, or one of another group,
/// is "消息不存在"; a bot message is "只能撤回自己的消息"; a message already
/// recalled gives `Ok(true)` (nothing more to do); else `Ok(false)`.
pub fn recall_check(found: &Option<Message>, group_id: &str) -> (r: Result<bool, String>)
    ensures
        match *found {
            None => r matches Err(e) && e@ == "消息不存在"@,
            Some(m) => if m.group_id@ != group_id@ {
                r matches Err(e) && e@ == "消息不存在"@
            } else if m.sender_type@ != "user"@ {
                r matches Err(e) && e@ == "只能撤回自己的消息"@
            } else {
                r == Ok::<bool, String>(m.status@ == "recalled"@)
            },
        },
{
    match found {
        None => Err(String::from_str("消息不存在")),
        Some(m) => {
            if !same_text(m.group_id.as_str(), group_id) {
                return Err(String::from_str("消息不存在"));
            }
            if !same_text(m.sender_type.as_str(), "user") {
                return Err(String::from_str("只能撤回自己的消息"));
            }
            Ok(same_text(m.status.as_str(), "recalled"))
        },
    }
}

/// Walking the messages in order: whether the recalled message was passed,
/// whether the next user message stopped the walk, and the ids of the bot
/// replies collected in between.
pub open spec fn removal_walk(ms: Seq<Message>, id: Seq<char>) -> (bool, bool, Seq<Seq<char>>)
    decreases ms.len(),
{
    if ms.len() == 0 {
        (false, false, Seq::empty())
    } else {
        let (after, stopped, acc) = removal_walk(ms.drop_last(), id);
        let m = ms.last();
        if stopped {
            (after, stopped, acc)
        } else if m.id@ == id {
            (true, false, acc)
        } else if !after {
            (after, stopped, acc)
        } else if m.sender_type@ == "user"@ {
            (after, true, acc)
        } else if m.sender_type@ == "bot"@ {
            (after, stopped, acc.push(m.id@))
        } else {
            (after, stopped, acc)
        }
    }
}

/// The ids of the bot replies that follow the recalled message, up to the
/// next user message.
pub fn replies_to_remove(all: &Vec<Message>, message_id: &str) -> (r: Vec<String>)
    ensures
        r@.map_values(|s: String| s@) == removal_walk(all@, message_id@).2,
{
    let mut removing: Vec<String> = Vec::new();
    let mut after = false;
    let mut i: usize = 0;
    assert(all@.take(all.len() as int) =~= all@);
    while i < all.len()
        invariant
            i <= all.len(),
            all@.take(all.len() as int) == all@,
            (after, false, removing@.map_values(|s: String| s@)) == removal_walk(
                all@.take(i as int),
                message_id@,
            ),
        ensures
            removing@.map_values(|s: String| s@) == removal_walk(all@, message_id@).2,
        decreases all.len() - i,
    {
        let m = &all[i];
        proof {
            assert(all@.take(i + 1).drop_last() =~= all@.take(i as int));
            assert(all@.take(i + 1).last() == *m);
        }
        if same_text(m.id.as_str(), message_id) {
            after = true;
        } else if after {
            if same_text(m.sender_type.as_str(), "user") {
                proof {
                    lemma_walk_stays_stopped(all@, message_id@, i + 1);
                }
                break;
            }
            if same_text(m.sender_type.as_str(), "bot") {
                let ghost before = removing@;
                removing.push(m.id.clone());
                assert(removing@.map_values(|s: String| s@) =~= before.map_values(
                    |s: String| s@,
                ).push(m.id@));
            }
        }
        i = i + 1;
    }
    proof {
        assert(all@.take(all.len() as int) =~= all@);
    }
    removing
}

proof fn lemma_walk_stays_stopped(ms: Seq<Message>, id: Seq<char>, k: int)
    requires
        0 <= k <= ms.len(),
        removal_walk(ms.take(k), id).1,
    ensures
        removal_walk(ms, id) == removal_walk(ms.take(k), id),
    decreases ms.len() - k,
{
    if k < ms.len() {
        assert(ms.drop_last().take(k) =~= ms.take(k));
        lemma_walk_stays_stopped(ms.drop_last(), id, k);
    } else {
        assert(ms.take(k) =~= ms);
    }
}

/// The ids that a recall removes.
pub open spec fn removed_ids(ms: Seq<Message>, id: Seq<char>) -> Seq<Seq<char>> {
    removal_walk(ms, id).2
}

/// Some bot message of `ms`, other than the one with id `id`, has the id `x`.
pub open spec fn is_bot_reply_in(ms: Seq<Message>, id: Seq<char>, x: Seq<char>) -> bool {
    exists|i: int|
        0 <= i < ms.len() && (#[trigger] ms[i]).sender_type@ == "bot"@ && ms[i].id@ == x && ms[i].id@
            != id
}

/// Every id that a recall removes belongs to a bot message of the group's
/// history, other than the recalled message.
pub proof fn law_recall_removes_only_bot_replies(ms: Seq<Message>, id: Seq<char>)
    ensures
        forall|j: int|
            0 <= j < removed_ids(ms, id).len() ==> is_bot_reply_in(
                ms,
                id,
                #[trigger] removed_ids(ms, id)[j],
            ),
    decreases ms.len(),
{
    if ms.len() > 0 {
        let rest = ms.drop_last();
        law_recall_removes_only_bot_replies(rest, id);
        let acc = removed_ids(rest, id);
        assert(removed_ids(ms, id) == acc || removed_ids(ms, id) == acc.push(ms.last().id@));
        assert forall|j: int| 0 <= j < removed_ids(ms, id).len() implies is_bot_reply_in(
            ms,
            id,
            #[trigger] removed_ids(ms, id)[j],
        ) by {
            if j < acc.len() {
                assert(is_bot_reply_in(rest, id, acc[j]));
                let i = choose|i: int|
                    0 <= i < rest.len() && (#[trigger] rest[i]).sender_type@ == "bot"@
                        && rest[i].id@ == acc[j] && rest[i].id@ != id;
                assert(ms[i] == rest[i]);
            } else {
                let k = ms.len() - 1;
                assert(removed_ids(ms, id) == acc.push(ms.last().id@));
                assert(ms[k] == ms.last());
            }
        }
    }
}

/// The user profile before it is ever changed.
pub fn default_user_profile() -> (r: UserProfile)
    ensures
        r.nickname@ == "我"@,
        r.avatar@ == "#1e3a5f"@,
{
    UserProfile { nickname: String::from_str("我"), avatar: String::from_str("#1e3a5f") }
}

/// A profile after an update: a new nickname is trimmed and must be neither
/// blank ("昵称不能为空") nor longer than `MAX_NICKNAME_CHARS` characters
/// ("昵称太长"); a new avatar is trimmed and must not be blank ("头像不能为空").
pub open spec fn profile_update_spec(
    nickname: Seq<char>,
    avatar: Seq<char>,
    new_nickname: Option<Seq<char>>,
    new_avatar: Option<Seq<char>>,
) -> Result<(Seq<char>, Seq<char>), Seq<char>> {
    let nick = match new_nickname {
        Some(n) => if trim(n).len() == 0 {
            Err("昵称不能为空"@)
        } else if trim(n).len() > MAX_NICKNAME_CHARS {
            Err("昵称太长"@)
        } else {
            Ok(trim(n))
        },
        None => Ok(nickname),
    };
    match nick {
        Err(e) => Err(e),
        Ok(n) => match new_avatar {
            Some(a) => if trim(a).len() == 0 {
                Err("头像不能为空"@)
            } else {
                Ok((n, trim(a)))
            },
            None => Ok((n, avatar)),
        },
    }
}

/// Applies a profile update, refusing blank or too long values.
pub fn apply_profile_update(profile: UserProfile, input: UpdateUserProfileInput) -> (r: Result<
    UserProfile,
    String,
>)
    ensures
        match (r, profile_update_spec(
            profile.nickname@,
            profile.avatar@,
            opt_view(input.nickname),
            opt_view(input.avatar),
        )) {
            (Ok(p), Ok((n, a))) => p.nickname@ == n && p.avatar@ == a,
            (Err(e), Err(x)) => e@ == x,
            _ => false,
        },
{
    let mut profile = profile;
    if let Some(n) = &input.nickname {
        let t = trimmed(n.as_str());
        let len = t.unicode_len();
        proof {
            crate::text::lemma_trim_idempotent(n@);
        }
        if is_blank(t.as_str()) {
            return Err(String::from_str("昵称不能为空"));
        }
        if len > MAX_NICKNAME_CHARS {
            return Err(String::from_str("昵称太长"));
        }
        profile.nickname = t;
    }
    if let Some(a) = &input.avatar {
        let t = trimmed(a.as_str());
        proof {
            crate::text::lemma_trim_idempotent(a@);
        }
        if is_blank(t.as_str()) {
            return Err(String::from_str("头像不能为空"));
        }
        profile.avatar = t;
    }
    Ok(profile)
}


/// Whether a bot that was looked up may be changed through group
/// `group_id`: it must exist and belong to that group, else "机器人不存在".
pub fn bot_in_group(found: &Option<Bot>, group_id: &str) -> (r: Result<(), String>)
    ensures
        match *found {
            Some(b) if b.group_id@ == group_id@ => r is Ok,
            _ => r matches Err(e) && e@ == "机器人不存在"@,
        },
{
    match found {
        Some(b) => if same_text(b.group_id.as_str(), group_id) {
            Ok(())
        } else {
            Err(String::from_str("机器人不存在"))
        },
        None => Err(String::from_str("机器人不存在")),
    }
}

} // verus!
