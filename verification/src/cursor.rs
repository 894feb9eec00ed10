use vstd::prelude::*;
use vstd::string::*;
use crate::json::{JsonValue, json_parse, parse_json, member, str_value, get_member, text_member};
use crate::models::{CursorStatus, opt_view, copy_opt};
use crate::text::{
    trim, has_prefix, has_suffix, first_of, chars_of, trim_bounds, string_of_range, find_char,
    starts_with_chars, ends_with_chars, is_blank, trimmed, dec, signed_dec, push_decimal,
    push_signed, text_contains, has_infix, same_chars,
};

verus! {

/// Where the `cursor-agent` program is and how to call it.
#[derive(Debug, Clone)]
pub struct CursorConfig {
    pub binary: String,
    pub model: Option<String>,
    pub timeout_ms: u64,
    pub api_key: Option<String>,
}

/// What an agent run produced: its text and the chat session it used.
#[derive(Debug, Clone)]
pub struct AgentResult {
    pub text: String,
    pub chat_id: Option<String>,
}

/// The agent timeout when none is configured, in milliseconds.
pub const DEFAULT_TIMEOUT_MS: u64 = 120000;

/// The value of an ASCII decimal digit.
pub open spec fn digit_value(c: char) -> int {
    (c as u32) - 48
}

/// `c` is an ASCII decimal digit.
pub open spec fn is_digit(c: char) -> bool {
    '0' <= c && c <= '9'
}

/// The number that a string of decimal digits spells.
pub open spec fn digits_value(s: Seq<char>) -> int
    decreases s.len(),
{
    if s.len() == 0 {
        0
    } else {
        10 * digits_value(s.drop_last()) + digit_value(s.last())
    }
}

/// `s` without a leading `+`.
pub open spec fn unsigned_part(s: Seq<char>) -> Seq<char> {
    if s.len() > 0 && s[0] == '+' {
        s.drop_first()
    } else {
        s
    }
}

/// Every character of `d` is a decimal digit.
pub open spec fn all_digits(d: Seq<char>) -> bool {
    forall|j: int| 0 <= j < d.len() ==> is_digit(#[trigger] d[j])
}

/// What `str::parse::<u64>` makes of `s`: an optional `+` and then one or
/// more decimal digits whose value fits in 64 bits; `None` for anything else.
pub open spec fn parse_u64_spec(s: Seq<char>) -> Option<u64> {
    let d = unsigned_part(s);
    if d.len() > 0 && all_digits(d) && digits_value(d) <= u64::MAX {
        Some(digits_value(d) as u64)
    } else {
        None
    }
}

proof fn lemma_digits_value_grows(s: Seq<char>, i: int)
    requires
        0 <= i <= s.len(),
        forall|j: int| 0 <= j < s.len() ==> is_digit(#[trigger] s[j]),
    ensures
        digits_value(s.take(i)) <= digits_value(s),
        0 <= digits_value(s.take(i)),
    decreases s.len() - i,
{
    if i < s.len() {
        lemma_digits_value_grows(s.drop_last(), i);
        assert(s.drop_last().take(i) =~= s.take(i));
        lemma_digits_value_nonneg(s.drop_last());
    } else {
        assert(s.take(i) =~= s);
        lemma_digits_value_nonneg(s);
    }
}

proof fn lemma_digits_value_nonneg(s: Seq<char>)
    requires
        forall|j: int| 0 <= j < s.len() ==> is_digit(#[trigger] s[j]),
    ensures
        0 <= digits_value(s),
    decreases s.len(),
{
    if s.len() > 0 {
        lemma_digits_value_nonneg(s.drop_last());
    }
}

/// `str::parse::<u64>`.
pub fn parse_u64(s: &str) -> (r: Option<u64>)
    ensures
        r == parse_u64_spec(s@),
{
    let v = chars_of(s);
    let start: usize = if v.len() > 0 && v[0] == '+' {
        1
    } else {
        0
    };
    let ghost d = unsigned_part(s@);
    assert(d =~= v@.subrange(start as int, v.len() as int));
    if start == v.len() {
        return None;
    }
    let mut value: u64 = 0;
    let mut overflow = false;
    let mut i = start;
    while i < v.len()
        invariant
            start <= i <= v.len(),
            v@ == s@,
            d == unsigned_part(s@),
            d == v@.subrange(start as int, v.len() as int),
            forall|j: int| 0 <= j < i - start ==> is_digit(#[trigger] d[j]),
            !overflow ==> value == digits_value(d.take(i - start)),
            overflow ==> digits_value(d.take(i - start)) > u64::MAX,
        decreases v.len() - i,
    {
        let c = v[i];
        if !('0' <= c && c <= '9') {
            assert(d[i - start] == c);
            assert(!is_digit(d[i - start]));
            return None;
        }
        proof {
            assert(d.take(i - start + 1).drop_last() =~= d.take(i - start));
            assert(d.take(i - start + 1).last() == c);
        }
        let digit = ((c as u32) - 48) as u64;
        if !overflow {
            if value > (u64::MAX - digit) / 10 {
                overflow = true;
            } else {
                value = value * 10 + digit;
            }
        }
        i = i + 1;
    }
    proof {
        assert(d.take(d.len() as int) =~= d);
        if overflow {
            lemma_digits_value_grows(d, d.len() as int);
        }
    }
    if overflow {
        None
    } else {
        Some(value)
    }
}

/// A setting that counts as given: present and not blank.
pub open spec fn given(o: Option<String>) -> Option<Seq<char>> {
    match o {
        Some(s) => if trim(s@).len() > 0 {
            Some(s@)
        } else {
            None
        },
        None => None,
    }
}

/// Keeps a setting only when it is not blank; the value is kept as it is.
fn keep_given(o: Option<String>) -> (r: Option<String>)
    ensures
        opt_view(r) == given(o),
{
    match o {
        Some(s) => if is_blank(s.as_str()) {
            None
        } else {
            Some(s)
        },
        None => None,
    }
}

/// The agent configuration from the program path and the raw values of
/// `CURSOR_MODEL`, `CURSOR_TIMEOUT` and `CURSOR_API_KEY`: blank model and key
/// count as unset, and a timeout that does not parse as a number of
/// milliseconds gives the default.
pub fn config_from_parts(
    binary: String,
    model_var: Option<String>,
    timeout_var: Option<String>,
    api_key_var: Option<String>,
) -> (r: CursorConfig)
    ensures
        r.binary == binary,
        opt_view(r.model) == given(model_var),
        opt_view(r.api_key) == given(api_key_var),
        r.timeout_ms == match timeout_var {
            Some(t) => match parse_u64_spec(t@) {
                Some(n) => n,
                None => DEFAULT_TIMEOUT_MS,
            },
            None => DEFAULT_TIMEOUT_MS,
        },
{
    let timeout_ms = match &timeout_var {
        Some(t) => match parse_u64(t.as_str()) {
            Some(n) => n,
            None => DEFAULT_TIMEOUT_MS,
        },
        None => DEFAULT_TIMEOUT_MS,
    };
    CursorConfig {
        binary,
        model: keep_given(model_var),
        timeout_ms,
        api_key: keep_given(api_key_var),
    }
}

/// Three backticks, the Markdown code fence.
pub open spec fn fence() -> Seq<char> {
    seq!['`', '`', '`']
}

/// `s` without any number of trailing code fences, as
/// `str::trim_end_matches("```")` gives it.
pub open spec fn drop_trailing_fences(s: Seq<char>) -> Seq<char>
    decreases s.len(),
{
    if has_suffix(s, fence()) {
        drop_trailing_fences(s.subrange(0, s.len() - 3))
    } else {
        s
    }
}

/// Agent output without Markdown code fences: trimmed; a leading fence line
/// (up to and with its line break) dropped; trailing fences dropped; trimmed again.
pub open spec fn strip_fences_spec(text: Seq<char>) -> Seq<char> {
    let c = trim(text);
    let c1 = if has_prefix(c, fence()) {
        match first_of(c, '\n') {
            Some(pos) => c.subrange(pos + 1, c.len() as int),
            None => c,
        }
    } else {
        c
    };
    trim(drop_trailing_fences(c1))
}

/// How much of `w` is left once trailing code fences are dropped.
fn end_without_fences(w: &Vec<char>) -> (end: usize)
    ensures
        end <= w.len(),
        w@.take(end as int) == drop_trailing_fences(w@),
{
    let mut end: usize = w.len();
    assert(w@.take(end as int) =~= w@);
    while end >= 3 && w[end - 3] == '`' && w[end - 2] == '`' && w[end - 1] == '`'
        invariant
            end <= w.len(),
            drop_trailing_fences(w@) == drop_trailing_fences(w@.take(end as int)),
        decreases end,
    {
        proof {
            let t = w@.take(end as int);
            assert(t.subrange(t.len() - 3, t.len() as int) =~= fence());
            assert(t.subrange(0, t.len() - 3) =~= w@.take(end - 3));
        }
        end = end - 3;
    }
    proof {
        let t = w@.take(end as int);
        if has_suffix(t, fence()) {
            assert(t.subrange(t.len() - 3, t.len() as int)[0] == w@[end - 3]);
            assert(t.subrange(t.len() - 3, t.len() as int)[1] == w@[end - 2]);
            assert(t.subrange(t.len() - 3, t.len() as int)[2] == w@[end - 1]);
        }
    }
    end
}

/// Where the text starts once a leading code fence line is dropped.
fn start_after_fence(c: &Vec<char>) -> (start: usize)
    ensures
        start <= c.len(),
        c@.subrange(start as int, c.len() as int) == (if has_prefix(c@, fence()) {
            match first_of(c@, '\n') {
                Some(pos) => c@.subrange(pos + 1, c@.len() as int),
                None => c@,
            }
        } else {
            c@
        }),
{
    let fence_v = chars_of("```");
    proof {
        reveal_strlit("```");
        assert(fence_v@ =~= fence());
    }
    let mut start: usize = 0;
    if starts_with_chars(c, &fence_v) {
        if let Some(pos) = find_char(c, '\n') {
            start = pos + 1;
        }
    }
    assert(c@.subrange(0, c@.len() as int) =~= c@);
    start
}

/// Strips Markdown code fences around agent output.
pub fn strip_fences(text: &str) -> (r: String)
    ensures
        r@ == strip_fences_spec(text@),
{
    let all = chars_of(text);
    let (lo, hi) = trim_bounds(&all);
    let c_s = string_of_range(&all, lo, hi);
    let c = chars_of(c_s.as_str());
    let start = start_after_fence(&c);
    let c1 = string_of_range(&c, start, c.len());
    let w = chars_of(c1.as_str());
    assert(w@ =~= c@.subrange(start as int, c@.len() as int));
    let end = end_without_fences(&w);
    let c2 = string_of_range(&w, 0, end);
    trimmed(c2.as_str())
}

/// The text of one part of an assistant message: the part itself when it is
/// a string, else its string member `text`, else nothing.
pub open spec fn part_text(p: JsonValue) -> Seq<char> {
    match p {
        JsonValue::Str(s) => s@,
        _ => match str_value(member(p, "text"@)) {
            Some(t) => t,
            None => Seq::empty(),
        },
    }
}

/// The texts of the parts, joined.
pub open spec fn parts_text(ps: Seq<JsonValue>) -> Seq<char>
    decreases ps.len(),
{
    if ps.len() == 0 {
        Seq::empty()
    } else {
        parts_text(ps.drop_last()) + part_text(ps.last())
    }
}

/// The text of an assistant event: `/message/content` when it is a string,
/// the joined texts of its parts when it is a list, else nothing.
pub open spec fn assistant_text(obj: JsonValue) -> Seq<char> {
    match member(obj, "message"@) {
        None => Seq::empty(),
        Some(m) => match member(m, "content"@) {
            Some(JsonValue::Str(s)) => s@,
            Some(JsonValue::Array(items)) => parts_text(items@),
            _ => Seq::empty(),
        },
    }
}

/// The text that an assistant event of the agent's JSON stream carries.
pub fn extract_assistant_text(obj: &JsonValue) -> (r: String)
    ensures
        r@ == assistant_text(*obj),
{
    let message = match get_member(obj, "message") {
        Some(m) => m,
        None => return String::new(),
    };
    let items = match get_member(message, "content") {
        Some(JsonValue::Str(s)) => return s.clone(),
        Some(JsonValue::Array(items)) => items,
        _ => return String::new(),
    };
    let mut out = String::new();
    let mut i: usize = 0;
    while i < items.len()
        invariant
            i <= items.len(),
            out@ == parts_text(items@.take(i as int)),
        decreases items.len() - i,
    {
        let p = &items[i];
        match p {
            JsonValue::Str(s) => out.append(s.as_str()),
            _ => match text_member(p, "text") {
                Some(t) => out.append(t.as_str()),
                None => {},
            },
        }
        proof {
            assert(items@.take(i + 1).drop_last() =~= items@.take(i as int));
            assert(out@ =~= parts_text(items@.take(i + 1)));
        }
        i = i + 1;
    }
    assert(items@.take(items.len() as int) =~= items@);
    out
}


/// The flags every agent run starts with; streaming runs ask for the JSON
/// event stream with partial output, the others for plain text.
pub open spec fn base_args(streaming: bool) -> Seq<Seq<char>> {
    if streaming {
        seq![
            "--print"@,
            "--mode"@,
            "ask"@,
            "--output-format"@,
            "stream-json"@,
            "--stream-partial-output"@,
            "--trust"@,
        ]
    } else {
        seq!["--print"@, "--mode"@, "ask"@, "--output-format"@, "text"@, "--trust"@]
    }
}

/// A flag and its value, or nothing when the value is absent.
pub open spec fn flag_pair(flag: Seq<char>, value: Option<Seq<char>>) -> Seq<Seq<char>> {
    match value {
        Some(v) => seq![flag, v],
        None => Seq::empty(),
    }
}

/// The optional string slice as plain values.
pub open spec fn opt_str(o: Option<&str>) -> Option<Seq<char>> {
    match o {
        Some(x) => Some(x@),
        None => None,
    }
}

/// The model a run uses: the one asked for, else the configured one.
pub open spec fn effective_model(model: Option<Seq<char>>, configured: Option<Seq<char>>) -> Option<
    Seq<char>,
> {
    match model {
        Some(m) => Some(m),
        None => configured,
    }
}

/// The command line of an agent run, after the program name.
pub open spec fn agent_args_spec(
    config: CursorConfig,
    prompt: Seq<char>,
    model: Option<Seq<char>>,
    resume_chat_id: Option<Seq<char>>,
    streaming: bool,
) -> Seq<Seq<char>> {
    base_args(streaming) + flag_pair("--model"@, effective_model(model, opt_view(config.model)))
        + flag_pair("--resume"@, resume_chat_id) + flag_pair("--api-key"@, opt_view(config.api_key))
        + seq![prompt]
}

/// The strings of a list, as plain values.
pub open spec fn strings_view(v: Seq<String>) -> Seq<Seq<char>> {
    v.map_values(|s: String| s@)
}

/// Appends a flag and its value when the value is present.
fn push_flag(args: &mut Vec<String>, flag: &str, value: Option<&str>)
    ensures
        strings_view(final(args)@) == strings_view(old(args)@) + flag_pair(flag@, opt_str(value)),
{
    if let Some(v) = value {
        args.push(String::from_str(flag));
        args.push(String::from_str(v));
    }
    assert(strings_view(args@) =~= strings_view(old(args)@) + flag_pair(flag@, opt_str(value)));
}

/// The command line of an agent run: the fixed flags, the model (the one
/// asked for, else the configured one), the chat to resume, the API key, and
/// the prompt last.
pub fn agent_args(
    config: &CursorConfig,
    prompt: &str,
    model: Option<&str>,
    resume_chat_id: Option<&str>,
    streaming: bool,
) -> (r: Vec<String>)
    ensures
        strings_view(r@) == agent_args_spec(
            *config,
            prompt@,
            opt_str(model),
            opt_str(resume_chat_id),
            streaming,
        ),
{
    let mut args: Vec<String> = Vec::new();
    args.push(String::from_str("--print"));
    args.push(String::from_str("--mode"));
    args.push(String::from_str("ask"));
    args.push(String::from_str("--output-format"));
    if streaming {
        args.push(String::from_str("stream-json"));
        args.push(String::from_str("--stream-partial-output"));
    } else {
        args.push(String::from_str("text"));
    }
    args.push(String::from_str("--trust"));
    assert(strings_view(args@) =~= base_args(streaming));
    let effective: Option<&str> = match model {
        Some(m) => Some(m),
        None => match &config.model {
            Some(m) => Some(m.as_str()),
            None => None,
        },
    };
    push_flag(&mut args, "--model", effective);
    push_flag(&mut args, "--resume", resume_chat_id);
    let key: Option<&str> = match &config.api_key {
        Some(k) => Some(k.as_str()),
        None => None,
    };
    push_flag(&mut args, "--api-key", key);
    let ghost before = args@;
    args.push(String::from_str(prompt));
    assert(strings_view(args@) =~= strings_view(before) + seq![prompt@]);
    args
}

/// The status when no `cursor-agent` program was found.
pub fn status_without_agent() -> (r: CursorStatus)
    ensures
        !r.available,
        !r.logged_in,
        r.binary.is_none(),
        r.model.is_none(),
        r.message@ == "未找到 cursor-agent，请安装或设置 CURSOR_AGENT_BIN"@,
{
    CursorStatus {
        available: false,
        logged_in: false,
        binary: None,
        model: None,
        message: String::from_str("未找到 cursor-agent，请安装或设置 CURSOR_AGENT_BIN"),
    }
}

/// The status that needs no check of the program: with an API key the agent
/// counts as available and logged in; without one, `None` (run `status`).
pub fn status_before_check(config: &CursorConfig) -> (r: Option<CursorStatus>)
    ensures
        config.api_key.is_none() ==> r.is_none(),
        config.api_key.is_some() ==> (r matches Some(st) && st.available && st.logged_in
            && opt_view(st.binary) == Some(config.binary@) && st.model == config.model
            && st.message@ == "已通过 CURSOR_API_KEY 鉴权"@),
{
    if config.api_key.is_none() {
        return None;
    }
    Some(
        CursorStatus {
            available: true,
            logged_in: true,
            binary: Some(config.binary.clone()),
            model: copy_opt(&config.model),
            message: String::from_str("已通过 CURSOR_API_KEY 鉴权"),
        },
    )
}

/// The status after running `cursor-agent status`: `checked` holds whether it
/// exited successfully and its output (stdout then stderr), or `None` when it
/// could not be run in time. It is logged in when it exited successfully and
/// its output does not say "Not logged in".
pub fn status_after_check(config: &CursorConfig, checked: Option<(bool, String)>) -> (r:
    CursorStatus)
    ensures
        opt_view(r.binary) == Some(config.binary@),
        r.model == config.model,
        match checked {
            Some((success, output)) => {
                &&& r.available
                &&& r.logged_in == (success && !has_infix(output@, "Not logged in"@))
                &&& r.message@ == (if r.logged_in {
                    "cursor-agent 已登录"@
                } else {
                    "cursor-agent 未登录，请运行 cursor-agent login"@
                })
            },
            None => !r.available && !r.logged_in && r.message@ == "无法检查 cursor-agent 状态"@,
        },
{
    match checked {
        Some((success, output)) => {
            let logged_in = success && !text_contains(output.as_str(), "Not logged in");
            CursorStatus {
                available: true,
                logged_in,
                binary: Some(config.binary.clone()),
                model: copy_opt(&config.model),
                message: if logged_in {
                    String::from_str("cursor-agent 已登录")
                } else {
                    String::from_str("cursor-agent 未登录，请运行 cursor-agent login")
                },
            }
        },
        None => CursorStatus {
            available: false,
            logged_in: false,
            binary: Some(config.binary.clone()),
            model: copy_opt(&config.model),
            message: String::from_str("无法检查 cursor-agent 状态"),
        },
    }
}


/// What has been read so far from the agent's JSON event stream.
#[derive(Debug, Clone)]
pub struct StreamState {
    pub full_text: String,
    pub chat_id: Option<String>,
}

/// What one line of the stream asks the caller to report: new text, and a
/// newly learned chat session id.
#[derive(Debug, Clone)]
pub struct StreamOutput {
    pub delta: Option<String>,
    pub meta: Option<String>,
}

/// The chat session after an event that may name one, and the id to report
/// when it is new.
pub open spec fn session_after(chat: Option<Seq<char>>, sid: Option<Seq<char>>) -> (
    Option<Seq<char>>,
    Option<Seq<char>>,
) {
    match sid {
        Some(x) => if chat == Some(x) {
            (chat, None)
        } else {
            (Some(x), Some(x))
        },
        None => (chat, None),
    }
}

/// The text after an assistant event, and what it adds. A text that extends
/// what was read replaces it; any other text is appended, unless what was
/// read already ends with it.
pub open spec fn grow_text(full: Seq<char>, text: Seq<char>) -> (Seq<char>, Option<Seq<char>>) {
    if text.len() == 0 {
        (full, None)
    } else if full.len() > 0 && has_prefix(text, full) {
        let next = text.subrange(full.len() as int, text.len() as int);
        if next.len() > 0 {
            (text, Some(next))
        } else {
            (full, None)
        }
    } else if !has_suffix(full, text) {
        (full + text, Some(text))
    } else {
        (full, None)
    }
}

/// The text after a result event, and what it adds: the result replaces what
/// was read, and what it adds is reported when it extends it.
pub open spec fn settle_text(full: Seq<char>, result: Option<Seq<char>>) -> (
    Seq<char>,
    Option<Seq<char>>,
) {
    match result {
        None => (full, None),
        Some(r) => if full.len() == 0 {
            (r, Some(r))
        } else if has_prefix(r, full) {
            let next = r.subrange(full.len() as int, r.len() as int);
            if next.len() > 0 {
                (r, Some(next))
            } else {
                (full, None)
            }
        } else {
            (r, None)
        },
    }
}

/// The effect of one stream event: the text, the session, the new text to
/// report and the new session to report.
pub open spec fn stream_event(full: Seq<char>, chat: Option<Seq<char>>, obj: JsonValue) -> (
    Seq<char>,
    Option<Seq<char>>,
    Option<Seq<char>>,
    Option<Seq<char>>,
) {
    let (chat1, meta) = session_after(chat, str_value(member(obj, "session_id"@)));
    let kind = match str_value(member(obj, "type"@)) {
        Some(k) => k,
        None => Seq::empty(),
    };
    if kind == "assistant"@ {
        let (f, d) = grow_text(full, assistant_text(obj));
        (f, chat1, d, meta)
    } else if kind == "result"@ {
        let (f, d) = settle_text(full, str_value(member(obj, "result"@)));
        (f, chat1, d, meta)
    } else {
        (full, chat1, None, meta)
    }
}

/// The effect of one line of the stream; blank lines and lines that are not
/// JSON change nothing.
pub open spec fn stream_line(full: Seq<char>, chat: Option<Seq<char>>, line: Seq<char>) -> (
    Seq<char>,
    Option<Seq<char>>,
    Option<Seq<char>>,
    Option<Seq<char>>,
) {
    let t = trim(line);
    if t.len() == 0 {
        (full, chat, None, None)
    } else {
        match json_parse(t) {
            None => (full, chat, None, None),
            Some(obj) => stream_event(full, chat, obj),
        }
    }
}

/// The state before the first line: no text yet, and the session being resumed.
pub fn stream_start(resume_chat_id: Option<&str>) -> (r: StreamState)
    ensures
        r.full_text@.len() == 0,
        opt_view(r.chat_id) == opt_str(resume_chat_id),
{
    StreamState {
        full_text: String::new(),
        chat_id: match resume_chat_id {
            Some(c) => Some(String::from_str(c)),
            None => None,
        },
    }
}

/// Whether two optional strings are equal.
fn same_opt(a: &Option<String>, b: &str) -> (r: bool)
    ensures
        r == (opt_view(*a) == Some(b@)),
{
    match a {
        Some(x) => crate::text::same_text(x.as_str(), b),
        None => false,
    }
}

/// What text `text` adds after `full`, if it extends it.
fn extension(full: &String, text: &String) -> (r: Option<String>)
    ensures
        match r {
            Some(n) => full@.len() <= text@.len() && has_prefix(text@, full@) && n@
                == text@.subrange(full@.len() as int, text@.len() as int),
            None => !has_prefix(text@, full@),
        },
{
    let f = chars_of(full.as_str());
    let t = chars_of(text.as_str());
    if starts_with_chars(&t, &f) {
        Some(string_of_range(&t, f.len(), t.len()))
    } else {
        None
    }
}

/// Reads one line of the agent's JSON event stream.
pub fn stream_step(state: &mut StreamState, line: &str) -> (r: StreamOutput)
    ensures
        (final(state).full_text@, opt_view(final(state).chat_id), opt_view(r.delta), opt_view(
            r.meta,
        )) == stream_line(old(state).full_text@, opt_view(old(state).chat_id), line@),
{
    let t = trimmed(line);
    if crate::text::is_blank(t.as_str()) {
        proof {
            crate::text::lemma_trim_idempotent(line@);
        }
        return StreamOutput { delta: None, meta: None };
    }
    proof {
        crate::text::lemma_trim_idempotent(line@);
    }
    let obj = match parse_json(t.as_str()) {
        Some(o) => o,
        None => return StreamOutput { delta: None, meta: None },
    };
    stream_event_step(state, &obj)
}

/// Applies one parsed event of the agent's JSON stream to what has been read.
pub fn stream_event_step(state: &mut StreamState, obj: &JsonValue) -> (r: StreamOutput)
    ensures
        (final(state).full_text@, opt_view(final(state).chat_id), opt_view(r.delta), opt_view(
            r.meta,
        )) == stream_event(old(state).full_text@, opt_view(old(state).chat_id), *obj),
{
    let mut meta: Option<String> = None;
    match text_member(obj, "session_id") {
        Some(sid) => {
            if !same_opt(&state.chat_id, sid.as_str()) {
                state.chat_id = Some(sid.clone());
                meta = Some(sid);
            }
        },
        None => {},
    }
    let kind = match text_member(obj, "type") {
        Some(k) => k,
        None => String::new(),
    };
    let mut delta: Option<String> = None;
    if crate::text::same_text(kind.as_str(), "assistant") {
        let text = extract_assistant_text(obj);
        if text.unicode_len() > 0 {
            if state.full_text.unicode_len() > 0 && extension(&state.full_text, &text).is_some() {
                let next = extension(&state.full_text, &text).unwrap();
                if next.unicode_len() > 0 {
                    state.full_text = text;
                    delta = Some(next);
                }
            } else {
                let fv = chars_of(state.full_text.as_str());
                let tv = chars_of(text.as_str());
                if !ends_with_chars(&fv, &tv) {
                    state.full_text.append(text.as_str());
                    delta = Some(text);
                }
            }
        }
    } else if crate::text::same_text(kind.as_str(), "result") {
        match text_member(obj, "result") {
            Some(result) => {
                if state.full_text.unicode_len() == 0 {
                    state.full_text = result.clone();
                    delta = Some(result);
                } else {
                    match extension(&state.full_text, &result) {
                        Some(next) => {
                            if next.unicode_len() > 0 {
                                state.full_text = result;
                                delta = Some(next);
                            }
                        },
                        None => {
                            state.full_text = result;
                        },
                    }
                }
            },
            None => {},
        }
    }
    StreamOutput { delta, meta }
}

/// Whenever a line reports new text, the text read so far grows by exactly
/// that text; whenever it reports a session id, that id becomes the session.
pub proof fn law_stream_deltas_append(full: Seq<char>, chat: Option<Seq<char>>, line: Seq<char>)
    ensures
        ({
            let (f, c, d, m) = stream_line(full, chat, line);
            &&& d matches Some(x) ==> f == full + x
            &&& m matches Some(x) ==> c == Some(x) && chat != Some(x)
        }),
{
    let t = trim(line);
    if t.len() > 0 {
        if let Some(obj) = json_parse(t) {
            let text = assistant_text(obj);
            if full.len() > 0 && has_prefix(text, full) {
                assert(text =~= full + text.subrange(full.len() as int, text.len() as int));
            }
            if let Some(r) = str_value(member(obj, "result"@)) {
                if full.len() == 0 {
                    assert(r =~= full + r);
                } else if has_prefix(r, full) {
                    assert(r =~= full + r.subrange(full.len() as int, r.len() as int));
                }
            }
        }
    }
}

/// A result event read before any text becomes the whole text: from a state
/// with nothing read, an event of type "result" that carries a non-empty
/// result `r` leaves exactly `r` read and reports all of `r` as new text.
pub proof fn law_result_fills_empty_text(
    chat: Option<Seq<char>>,
    obj: JsonValue,
    r: Seq<char>,
)
    requires
        str_value(member(obj, "type"@)) == Some("result"@),
        str_value(member(obj, "result"@)) == Some(r),
        r.len() > 0,
    ensures
        stream_event(Seq::empty(), chat, obj).0 == r,
        stream_event(Seq::empty(), chat, obj).2 == Some(r),
{
    reveal_strlit("result");
    reveal_strlit("assistant");
    assert("result"@ != "assistant"@) by {
        assert("result"@.len() != "assistant"@.len());
    }
}

/// Whenever an API key is configured, the command line hands it on: the
/// flag "--api-key" is followed at once by the key, for plain-text and
/// streaming runs alike, and the prompt comes last.
pub proof fn law_api_key_always_passed(
    config: CursorConfig,
    prompt: Seq<char>,
    model: Option<Seq<char>>,
    resume_chat_id: Option<Seq<char>>,
    streaming: bool,
    key: Seq<char>,
)
    requires
        opt_view(config.api_key) == Some(key),
    ensures
        ({
            let a = agent_args_spec(config, prompt, model, resume_chat_id, streaming);
            &&& exists|i: int| 0 <= i && i + 1 < a.len() && #[trigger] a[i] == "--api-key"@ && a[i
                + 1] == key
            &&& a.last() == prompt
        }),
{
    let a = agent_args_spec(config, prompt, model, resume_chat_id, streaming);
    let head = base_args(streaming) + flag_pair(
        "--model"@,
        effective_model(model, opt_view(config.model)),
    ) + flag_pair("--resume"@, resume_chat_id);
    let i = head.len() as int;
    assert(a =~= head + seq!["--api-key"@, key] + seq![prompt]);
    assert(a[i] == "--api-key"@);
    assert(a[i + 1] == key);
}

/// How `{:?}` writes an exit code.
pub open spec fn exit_debug(code: Option<i32>) -> Seq<char> {
    match code {
        Some(c) => "Some("@ + signed_dec(c as int) + ")"@,
        None => "None"@,
    }
}

/// Appends how `{:?}` writes an exit code.
fn push_exit_debug(out: &mut String, code: Option<i32>)
    ensures
        final(out)@ == old(out)@ + exit_debug(code),
{
    match code {
        Some(c) => {
            out.append("Some(");
            push_signed(out, c);
            out.append(")");
        },
        None => out.append("None"),
    }
    assert(out@ =~= old(out)@ + exit_debug(code));
}

/// An agent run's result as plain values.
pub open spec fn run_view(r: Result<AgentResult, String>) -> Result<
    (Seq<char>, Option<Seq<char>>),
    Seq<char>,
> {
    match r {
        Ok(a) => Ok((a.text@, opt_view(a.chat_id))),
        Err(e) => Err(e@),
    }
}

/// What a streaming run gives once the program has exited: a failure when it
/// exited unsuccessfully having said nothing; else the text without code
/// fences, which must not be empty, and the last session seen.
pub open spec fn stream_outcome_spec(
    full: Seq<char>,
    chat: Option<Seq<char>>,
    success: bool,
    code: Option<i32>,
) -> Result<(Seq<char>, Option<Seq<char>>), Seq<char>> {
    if !success && full.len() == 0 {
        Err("cursor-agent 调用失败 (exit "@ + exit_debug(code) + ")"@)
    } else {
        let t = strip_fences_spec(full);
        if t.len() == 0 {
            Err("cursor-agent 没有返回内容"@)
        } else {
            Ok((t, chat))
        }
    }
}

/// The result of a streaming run once the program has exited.
pub fn stream_outcome(state: StreamState, success: bool, code: Option<i32>) -> (r: Result<
    AgentResult,
    String,
>)
    ensures
        run_view(r) == stream_outcome_spec(
            state.full_text@,
            opt_view(state.chat_id),
            success,
            code,
        ),
{
    if !success && state.full_text.unicode_len() == 0 {
        let mut e = String::from_str("cursor-agent 调用失败 (exit ");
        push_exit_debug(&mut e, code);
        e.append(")");
        return Err(e);
    }
    let text = strip_fences(state.full_text.as_str());
    if text.unicode_len() == 0 {
        return Err(String::from_str("cursor-agent 没有返回内容"));
    }
    Ok(AgentResult { text, chat_id: state.chat_id })
}

/// What a plain-text run gives: a failure with the exit code and the trimmed
/// error output when it exited unsuccessfully; else its output without code
/// fences, which must not be empty, and the session it resumed.
pub open spec fn text_outcome_spec(
    success: bool,
    code: Option<i32>,
    stdout: Seq<char>,
    stderr: Seq<char>,
    resume_chat_id: Option<Seq<char>>,
) -> Result<(Seq<char>, Option<Seq<char>>), Seq<char>> {
    if !success {
        Err("cursor-agent 调用失败 (exit "@ + exit_debug(code) + "): "@ + trim(stderr))
    } else {
        let t = strip_fences_spec(stdout);
        if t.len() == 0 {
            Err("cursor-agent 没有返回任何内容"@)
        } else {
            Ok((t, resume_chat_id))
        }
    }
}

/// The result of a plain-text run once the program has exited.
pub fn text_outcome(
    success: bool,
    code: Option<i32>,
    stdout: &str,
    stderr: &str,
    resume_chat_id: Option<&str>,
) -> (r: Result<AgentResult, String>)
    ensures
        run_view(r) == text_outcome_spec(success, code, stdout@, stderr@, opt_str(resume_chat_id)),
{
    if !success {
        let mut e = String::from_str("cursor-agent 调用失败 (exit ");
        push_exit_debug(&mut e, code);
        e.append("): ");
        let t = trimmed(stderr);
        e.append(t.as_str());
        return Err(e);
    }
    let text = strip_fences(stdout);
    if text.unicode_len() == 0 {
        return Err(String::from_str("cursor-agent 没有返回任何内容"));
    }
    Ok(
        AgentResult {
            text,
            chat_id: match resume_chat_id {
                Some(c) => Some(String::from_str(c)),
                None => None,
            },
        },
    )
}

/// The failure reported when a run takes longer than the configured timeout.
pub fn timeout_message(timeout_ms: u64) -> (r: String)
    ensures
        r@ == "cursor-agent 超时 (>"@ + dec(timeout_ms as nat) + "ms)"@,
{
    let mut e = String::from_str("cursor-agent 超时 (>");
    push_decimal(&mut e, timeout_ms);
    e.append("ms)");
    e
}

/// The failure reported when no `cursor-agent` program is found.
pub fn agent_missing_message() -> (r: String)
    ensures
        r@ == "未找到 cursor-agent"@,
{
    String::from_str("未找到 cursor-agent")
}

} // verus!
