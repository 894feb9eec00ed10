use vstd::prelude::*;
use crate::cursor::AgentResult;
use crate::models::{Bot, opt_view};
use crate::orchestrator::{build_route_prompt, route_prompt};
use crate::text::{
    first_of, last_of, find_char, rfind_char, trim, has_infix, chars_of, trim_bounds,
    string_of_range, same_chars, contains_chars, trimmed,
};

verus! {

/// At most this many bots speak in one turn.
pub const MAX_SPEAKERS: usize = 3;

/// The span from the first `{` to the last `}` of the trimmed text, when the
/// `}` comes after the `{`.
pub open spec fn json_span(text: Seq<char>) -> Option<Seq<char>> {
    let t = trim(text);
    match (first_of(t, '{'), last_of(t, '}')) {
        (Some(a), Some(b)) => if b <= a {
            None
        } else {
            Some(t.subrange(a, b + 1))
        },
        _ => None,
    }
}

/// The JSON object in a model's reply: from the first `{` to the last `}` of
/// the trimmed text; `None` when either is missing or they are out of order.
pub fn extract_json_object(text: &str) -> (r: Option<String>)
    ensures
        opt_view(r) == json_span(text@),
{
    let all = chars_of(text);
    let (lo, hi) = trim_bounds(&all);
    let t = string_of_range(&all, lo, hi);
    let v = chars_of(t.as_str());
    let start = match find_char(&v, '{') {
        Some(i) => i,
        None => return None,
    };
    let end = match rfind_char(&v, '}') {
        Some(i) => i,
        None => return None,
    };
    if end <= start {
        return None;
    }
    Some(string_of_range(&v, start, end + 1))
}

/// How a bot is looked up: by id, by nickname, or by one nickname holding the other.
pub open spec fn bot_matches(b: Bot, mode: u8, needle: Seq<char>) -> bool {
    if mode == 0 {
        b.id@ == needle
    } else if mode == 1 {
        b.nickname@ == needle
    } else {
        has_infix(b.nickname@, needle) || has_infix(needle, b.nickname@)
    }
}

/// Index of the first bot that matches.
pub open spec fn first_bot(bots: Seq<Bot>, mode: u8, needle: Seq<char>) -> Option<int>
    decreases bots.len(),
{
    if bots.len() == 0 {
        None
    } else {
        match first_bot(bots.drop_last(), mode, needle) {
            Some(i) => Some(i),
            None => if bot_matches(bots.last(), mode, needle) {
                Some(bots.len() - 1)
            } else {
                None
            },
        }
    }
}

/// The bot that a routing entry names: by trimmed id first, then by trimmed
/// nickname, exactly and then by containment either way.
pub open spec fn resolve_index(bots: Seq<Bot>, id: Seq<char>, nickname: Seq<char>) -> Option<int> {
    let id = trim(id);
    let nick = trim(nickname);
    let by_id = if id.len() > 0 {
        first_bot(bots, 0, id)
    } else {
        None
    };
    match by_id {
        Some(i) => Some(i),
        None => if nick.len() == 0 {
            None
        } else {
            match first_bot(bots, 1, nick) {
                Some(i) => Some(i),
                None => first_bot(bots, 2, nick),
            }
        },
    }
}

proof fn lemma_first_bot_prefix(bots: Seq<Bot>, mode: u8, needle: Seq<char>, i: int)
    requires
        0 <= i <= bots.len(),
        forall|j: int| 0 <= j < i ==> !bot_matches(#[trigger] bots[j], mode, needle),
    ensures
        first_bot(bots.take(i), mode, needle).is_none(),
    decreases i,
{
    if i > 0 {
        assert(bots.take(i).drop_last() =~= bots.take(i - 1));
        lemma_first_bot_prefix(bots, mode, needle, i - 1);
    }
}

proof fn lemma_first_bot_found(bots: Seq<Bot>, mode: u8, needle: Seq<char>, i: int)
    requires
        0 <= i < bots.len(),
        forall|j: int| 0 <= j < i ==> !bot_matches(#[trigger] bots[j], mode, needle),
        bot_matches(bots[i], mode, needle),
    ensures
        first_bot(bots, mode, needle) == Some(i),
    decreases bots.len(),
{
    if i < bots.len() - 1 {
        lemma_first_bot_found(bots.drop_last(), mode, needle, i);
    } else {
        lemma_first_bot_prefix(bots, mode, needle, i);
        assert(bots.take(i) =~= bots.drop_last());
    }
}

/// Whether `b` matches `needle` in the given mode.
fn bot_matches_exec(b: &Bot, mode: u8, needle: &Vec<char>) -> (r: bool)
    ensures
        r == bot_matches(*b, mode, needle@),
{
    if mode == 0 {
        let id = chars_of(b.id.as_str());
        same_chars(&id, needle)
    } else {
        let nick = chars_of(b.nickname.as_str());
        if mode == 1 {
            same_chars(&nick, needle)
        } else {
            contains_chars(&nick, needle) || contains_chars(needle, &nick)
        }
    }
}

/// Index of the first bot that matches `needle` in the given mode.
fn find_bot(bots: &Vec<Bot>, mode: u8, needle: &Vec<char>) -> (r: Option<usize>)
    ensures
        match r {
            Some(i) => first_bot(bots@, mode, needle@) == Some(i as int) && i < bots.len(),
            None => first_bot(bots@, mode, needle@).is_none(),
        },
{
    let mut i: usize = 0;
    while i < bots.len()
        invariant
            i <= bots.len(),
            forall|j: int| 0 <= j < i ==> !bot_matches(#[trigger] bots@[j], mode, needle@),
        decreases bots.len() - i,
    {
        if bot_matches_exec(&bots[i], mode, needle) {
            proof {
                lemma_first_bot_found(bots@, mode, needle@, i as int);
            }
            return Some(i);
        }
        i = i + 1;
    }
    proof {
        lemma_first_bot_prefix(bots@, mode, needle@, bots.len() as int);
        assert(bots@.take(bots.len() as int) =~= bots@);
    }
    None
}

/// The bot that a routing entry names, looked up by id and then by nickname.
pub fn resolve_bot<'a>(bots: &'a Vec<Bot>, id: &str, nickname: &str) -> (r: Option<&'a Bot>)
    ensures
        match resolve_index(bots@, id@, nickname@) {
            Some(i) => 0 <= i < bots.len() && (r matches Some(b) && *b == bots@[i]),
            None => r.is_none(),
        },
{
    let id_t = trimmed(id);
    let nick_t = trimmed(nickname);
    let idv = chars_of(id_t.as_str());
    let nickv = chars_of(nick_t.as_str());
    if idv.len() > 0 {
        if let Some(i) = find_bot(bots, 0, &idv) {
            return Some(&bots[i]);
        }
    }
    if nickv.len() > 0 {
        if let Some(i) = find_bot(bots, 1, &nickv) {
            return Some(&bots[i]);
        }
        if let Some(i) = find_bot(bots, 2, &nickv) {
            return Some(&bots[i]);
        }
    }
    None
}


/// One entry of the router's reply: a bot named by id or nickname, and the
/// angle it should take.
#[derive(Debug)]
pub struct RouteSpeaker {
    pub id: String,
    pub nickname: String,
    pub hint: String,
}

/// The router's reply: speakers with hints, or else bare bot ids.
#[derive(Debug)]
pub struct RouteDecision {
    pub ids: Vec<String>,
    pub speakers: Vec<RouteSpeaker>,
}

impl View for RouteSpeaker {
    type V = (Seq<char>, Seq<char>, Seq<char>);

    open spec fn view(&self) -> (Seq<char>, Seq<char>, Seq<char>) {
        (self.id@, self.nickname@, self.hint@)
    }
}

impl View for RouteDecision {
    type V = (Seq<Seq<char>>, Seq<(Seq<char>, Seq<char>, Seq<char>)>);

    open spec fn view(&self) -> (Seq<Seq<char>>, Seq<(Seq<char>, Seq<char>, Seq<char>)>) {
        (
            self.ids@.map_values(|s: String| s@),
            self.speakers@.map_values(|sp: RouteSpeaker| sp@),
        )
    }
}

/// A bot chosen to speak this turn, with the angle it should take.
#[derive(Debug)]
pub struct SelectedBot {
    pub bot: Bot,
    pub hint: Option<String>,
}

/// A hint as it is kept: trimmed, and dropped when blank.
pub open spec fn hint_of(h: Seq<char>) -> Option<Seq<char>> {
    let t = trim(h);
    if t.len() == 0 {
        None
    } else {
        Some(t)
    }
}

/// A bot with the same id as bot `k` has been picked already.
pub open spec fn already_picked(
    bots: Seq<Bot>,
    picks: Seq<(int, Option<Seq<char>>)>,
    k: int,
) -> bool {
    exists|j: int| 0 <= j < picks.len() && bots[(#[trigger] picks[j]).0].id@ == bots[k].id@
}

/// One step of the selection: the bot found, if any, joins the picks unless
/// the picks are full or hold a bot with its id.
pub open spec fn add_pick(
    bots: Seq<Bot>,
    picks: Seq<(int, Option<Seq<char>>)>,
    found: Option<int>,
    hint: Option<Seq<char>>,
) -> Seq<(int, Option<Seq<char>>)> {
    if picks.len() >= MAX_SPEAKERS {
        picks
    } else {
        match found {
            None => picks,
            Some(k) => if already_picked(bots, picks, k) {
                picks
            } else {
                picks.push((k, hint))
            },
        }
    }
}

/// The bots that the `speakers` entries name, in order, as bot indices with hints.
pub open spec fn picks_from_speakers(
    bots: Seq<Bot>,
    speakers: Seq<(Seq<char>, Seq<char>, Seq<char>)>,
) -> Seq<(int, Option<Seq<char>>)>
    decreases speakers.len(),
{
    if speakers.len() == 0 {
        Seq::empty()
    } else {
        let sp = speakers.last();
        add_pick(
            bots,
            picks_from_speakers(bots, speakers.drop_last()),
            resolve_index(bots, sp.0, sp.1),
            hint_of(sp.2),
        )
    }
}

/// The bots that the `ids` entries name, in order, without hints.
pub open spec fn picks_from_ids(bots: Seq<Bot>, ids: Seq<Seq<char>>) -> Seq<
    (int, Option<Seq<char>>),
>
    decreases ids.len(),
{
    if ids.len() == 0 {
        Seq::empty()
    } else {
        add_pick(
            bots,
            picks_from_ids(bots, ids.drop_last()),
            resolve_index(bots, ids.last(), Seq::empty()),
            None,
        )
    }
}

/// Who speaks after a router reply: the bots named under `speakers`, or, when
/// none of them resolves, those named under `ids`.
pub open spec fn selection(
    bots: Seq<Bot>,
    d: (Seq<Seq<char>>, Seq<(Seq<char>, Seq<char>, Seq<char>)>),
) -> Seq<(int, Option<Seq<char>>)> {
    let a = picks_from_speakers(bots, d.1);
    if a.len() > 0 {
        a
    } else {
        picks_from_ids(bots, d.0)
    }
}

/// `r` holds the picked bots, in order, with their hints.
pub open spec fn shows_picks(
    r: Seq<SelectedBot>,
    bots: Seq<Bot>,
    picks: Seq<(int, Option<Seq<char>>)>,
) -> bool {
    &&& r.len() == picks.len()
    &&& forall|j: int|
        0 <= j < r.len() ==> 0 <= (#[trigger] picks[j]).0 < bots.len() && r[j].bot
            == bots[picks[j].0] && opt_view(r[j].hint) == picks[j].1
}

/// Some selected bot has the id `id`.
fn id_taken(selected: &Vec<SelectedBot>, id: &str) -> (r: bool)
    ensures
        r == exists|j: int| 0 <= j < selected.len() && (#[trigger] selected@[j]).bot.id@ == id@,
{
    let mut i: usize = 0;
    while i < selected.len()
        invariant
            i <= selected.len(),
            forall|j: int| 0 <= j < i ==> (#[trigger] selected@[j]).bot.id@ != id@,
        decreases selected.len() - i,
    {
        if crate::text::same_text(selected[i].bot.id.as_str(), id) {
            return true;
        }
        i = i + 1;
    }
    false
}

/// Adds the bot `found` with `hint` to `selected`, as `add_pick` says.
fn push_pick(
    selected: &mut Vec<SelectedBot>,
    bots: &Vec<Bot>,
    found: Option<&Bot>,
    hint: Option<String>,
    Ghost(picks): Ghost<Seq<(int, Option<Seq<char>>)>>,
    Ghost(k): Ghost<Option<int>>,
)
    requires
        shows_picks(old(selected)@, bots@, picks),
        match k {
            Some(i) => 0 <= i < bots.len() && (found matches Some(b) && *b == bots@[i]),
            None => found.is_none(),
        },
    ensures
        shows_picks(final(selected)@, bots@, add_pick(bots@, picks, k, opt_view(hint))),
{
    if selected.len() >= MAX_SPEAKERS {
        return;
    }
    if let Some(b) = found {
        let taken = id_taken(selected, b.id.as_str());
        proof {
            let i = k->0;
            if already_picked(bots@, picks, i) {
                let j = choose|j: int|
                    0 <= j < picks.len() && bots@[(#[trigger] picks[j]).0].id@ == bots@[i].id@;
                assert(selected@[j].bot.id@ == b.id@);
            }
            if taken {
                let j = choose|j: int|
                    0 <= j < selected.len() && (#[trigger] selected@[j]).bot.id@ == b.id@;
                assert(0 <= picks[j].0 < bots.len());
                assert(bots@[picks[j].0].id@ == bots@[i].id@);
                assert(already_picked(bots@, picks, i));
            }
        }
        if !taken {
            let ghost before = selected@;
            selected.push(SelectedBot { bot: b.duplicate(), hint });
            proof {
                let p2 = picks.push((k->0, opt_view(hint)));
                assert forall|j: int| 0 <= j < selected@.len() implies 0 <= (#[trigger] p2[j]).0
                    < bots.len() && selected@[j].bot == bots@[p2[j].0] && opt_view(
                    selected@[j].hint,
                ) == p2[j].1 by {
                    if j < before.len() {
                        assert(selected@[j] == before[j]);
                        assert(p2[j] == picks[j]);
                    }
                }
            }
        }
    }
}

/// The bots that a router decision names: those under `speakers` with their
/// trimmed hints, or, when none of them resolves, those under `ids`; never a
/// bot twice, and at most `MAX_SPEAKERS` of them.
pub fn select_from_decision(d: &RouteDecision, bots: &Vec<Bot>) -> (r: Vec<SelectedBot>)
    ensures
        shows_picks(r@, bots@, selection(bots@, d@)),
{
    let mut selected: Vec<SelectedBot> = Vec::new();
    let mut i: usize = 0;
    while i < d.speakers.len()
        invariant
            i <= d.speakers.len(),
            shows_picks(selected@, bots@, picks_from_speakers(bots@, d@.1.take(i as int))),
        decreases d.speakers.len() - i,
    {
        let ghost before = picks_from_speakers(bots@, d@.1.take(i as int));
        let sp = &d.speakers[i];
        assert(d@.1[i as int] == sp@);
        let found = resolve_bot(bots, sp.id.as_str(), sp.nickname.as_str());
        let hint_t = trimmed(sp.hint.as_str());
        let hint = if crate::text::is_blank(hint_t.as_str()) {
            None
        } else {
            Some(hint_t)
        };
        proof {
            crate::text::lemma_trim_idempotent(sp.hint@);
        }
        push_pick(
            &mut selected,
            bots,
            found,
            hint,
            Ghost(before),
            Ghost(resolve_index(bots@, sp.id@, sp.nickname@)),
        );
        proof {
            assert(d@.1.take(i + 1).drop_last() =~= d@.1.take(i as int));
        }
        i = i + 1;
    }
    assert(d@.1.take(d@.1.len() as int) =~= d@.1);
    if selected.len() > 0 {
        return selected;
    }
    let mut i: usize = 0;
    while i < d.ids.len()
        invariant
            i <= d.ids.len(),
            shows_picks(selected@, bots@, picks_from_ids(bots@, d@.0.take(i as int))),
        decreases d.ids.len() - i,
    {
        let ghost before = picks_from_ids(bots@, d@.0.take(i as int));
        let id = &d.ids[i];
        assert(d@.0[i as int] == id@);
        let found = resolve_bot(bots, id.as_str(), "");
        proof {
            assert(""@ =~= Seq::<char>::empty()) by {
                reveal_strlit("");
            }
        }
        push_pick(
            &mut selected,
            bots,
            found,
            None,
            Ghost(before),
            Ghost(resolve_index(bots@, id@, Seq::empty())),
        );
        proof {
            assert(d@.0.take(i + 1).drop_last() =~= d@.0.take(i as int));
        }
        i = i + 1;
    }
    assert(d@.0.take(d@.0.len() as int) =~= d@.0);
    selected
}


/// Who speaks after the router's reply was read: the bots that the decision
/// names, or nobody when the reply held no readable decision.
pub open spec fn decided_selection(
    bots: Seq<Bot>,
    d: Option<(Seq<Seq<char>>, Seq<(Seq<char>, Seq<char>, Seq<char>)>)>,
) -> Seq<(int, Option<Seq<char>>)> {
    match d {
        None => Seq::empty(),
        Some(x) => selection(bots, x),
    }
}

/// Who speaks after the router's reply was read, falling back to the first
/// bot alone when the reply selects nobody.
pub open spec fn speakers_after_routing(
    bots: Seq<Bot>,
    d: Option<(Seq<Seq<char>>, Seq<(Seq<char>, Seq<char>, Seq<char>)>)>,
) -> Seq<(int, Option<Seq<char>>)> {
    let s = decided_selection(bots, d);
    if s.len() == 0 {
        seq![(0int, None)]
    } else {
        s
    }
}

/// The decision, if any, as plain values.
pub open spec fn decision_view(d: Option<&RouteDecision>) -> Option<
    (Seq<Seq<char>>, Seq<(Seq<char>, Seq<char>, Seq<char>)>),
> {
    match d {
        Some(x) => Some(x@),
        None => None,
    }
}

/// The speakers after the router's reply was read into `decision` (`None`
/// when it held no readable decision); the first bot alone when the reply
/// names nobody, so that a failed routing never makes everyone answer.
pub fn speakers_from_decision(decision: Option<&RouteDecision>, bots: &Vec<Bot>) -> (r: Vec<
    SelectedBot,
>)
    requires
        bots.len() > 0,
    ensures
        shows_picks(r@, bots@, speakers_after_routing(bots@, decision_view(decision))),
{
    let mut selected = match decision {
        Some(d) => select_from_decision(d, bots),
        None => Vec::new(),
    };
    if selected.len() == 0 {
        selected.push(SelectedBot { bot: bots[0].duplicate(), hint: None });
    }
    selected
}

/// A list of picks that could be a selection: few enough, each index a bot,
/// no id twice.
pub open spec fn sound_picks(bots: Seq<Bot>, picks: Seq<(int, Option<Seq<char>>)>) -> bool {
    &&& picks.len() <= MAX_SPEAKERS
    &&& forall|j: int| 0 <= j < picks.len() ==> 0 <= (#[trigger] picks[j]).0 < bots.len()
    &&& forall|a: int, b: int|
        0 <= a < b < picks.len() ==> bots[(#[trigger] picks[a]).0].id@ != bots[(
        #[trigger] picks[b]).0].id@
}

proof fn lemma_first_bot_in_range(bots: Seq<Bot>, mode: u8, needle: Seq<char>)
    ensures
        first_bot(bots, mode, needle) matches Some(i) ==> 0 <= i < bots.len(),
    decreases bots.len(),
{
    if bots.len() > 0 {
        lemma_first_bot_in_range(bots.drop_last(), mode, needle);
    }
}

proof fn lemma_resolve_in_range(bots: Seq<Bot>, id: Seq<char>, nickname: Seq<char>)
    ensures
        resolve_index(bots, id, nickname) matches Some(i) ==> 0 <= i < bots.len(),
{
    lemma_first_bot_in_range(bots, 0, trim(id));
    lemma_first_bot_in_range(bots, 1, trim(nickname));
    lemma_first_bot_in_range(bots, 2, trim(nickname));
}

proof fn lemma_add_pick_sound(
    bots: Seq<Bot>,
    picks: Seq<(int, Option<Seq<char>>)>,
    found: Option<int>,
    hint: Option<Seq<char>>,
)
    requires
        sound_picks(bots, picks),
        found matches Some(k) ==> 0 <= k < bots.len(),
    ensures
        sound_picks(bots, add_pick(bots, picks, found, hint)),
{
    if picks.len() < MAX_SPEAKERS {
        if let Some(k) = found {
            if !already_picked(bots, picks, k) {
                let p2 = picks.push((k, hint));
                assert forall|a: int, b: int| 0 <= a < b < p2.len() implies bots[(
                #[trigger] p2[a]).0].id@ != bots[(#[trigger] p2[b]).0].id@ by {
                    if b == picks.len() {
                        assert(p2[a] == picks[a]);
                        if bots[picks[a].0].id@ == bots[k].id@ {
                            assert(already_picked(bots, picks, k));
                        }
                    } else {
                        assert(p2[a] == picks[a] && p2[b] == picks[b]);
                    }
                }
                assert forall|j: int| 0 <= j < p2.len() implies 0 <= (#[trigger] p2[j]).0
                    < bots.len() by {
                    if j < picks.len() {
                        assert(p2[j] == picks[j]);
                    }
                }
            }
        }
    }
}

proof fn lemma_speaker_picks_sound(
    bots: Seq<Bot>,
    speakers: Seq<(Seq<char>, Seq<char>, Seq<char>)>,
)
    ensures
        sound_picks(bots, picks_from_speakers(bots, speakers)),
    decreases speakers.len(),
{
    if speakers.len() > 0 {
        let sp = speakers.last();
        lemma_speaker_picks_sound(bots, speakers.drop_last());
        lemma_resolve_in_range(bots, sp.0, sp.1);
        lemma_add_pick_sound(
            bots,
            picks_from_speakers(bots, speakers.drop_last()),
            resolve_index(bots, sp.0, sp.1),
            hint_of(sp.2),
        );
    }
}

proof fn lemma_id_picks_sound(bots: Seq<Bot>, ids: Seq<Seq<char>>)
    ensures
        sound_picks(bots, picks_from_ids(bots, ids)),
    decreases ids.len(),
{
    if ids.len() > 0 {
        lemma_id_picks_sound(bots, ids.drop_last());
        lemma_resolve_in_range(bots, ids.last(), Seq::empty());
        lemma_add_pick_sound(
            bots,
            picks_from_ids(bots, ids.drop_last()),
            resolve_index(bots, ids.last(), Seq::empty()),
            None,
        );
    }
}

/// Whatever the router replies, at most `MAX_SPEAKERS` bots are selected,
/// each one a bot of the group, and no bot id twice.
pub proof fn law_route_selection_sound(
    bots: Seq<Bot>,
    d: Option<(Seq<Seq<char>>, Seq<(Seq<char>, Seq<char>, Seq<char>)>)>,
)
    ensures
        sound_picks(bots, decided_selection(bots, d)),
{
    if let Some(x) = d {
        lemma_speaker_picks_sound(bots, x.1);
        lemma_id_picks_sound(bots, x.0);
    }
}

/// In a group with bots, routing always lets someone speak, and never more
/// than `MAX_SPEAKERS` bots, each at most once.
pub proof fn law_routing_never_silent(
    bots: Seq<Bot>,
    d: Option<(Seq<Seq<char>>, Seq<(Seq<char>, Seq<char>, Seq<char>)>)>,
)
    requires
        bots.len() > 0,
    ensures
        speakers_after_routing(bots, d).len() >= 1,
        sound_picks(bots, speakers_after_routing(bots, d)),
{
    law_route_selection_sound(bots, d);
}

/// The next move while asking the router who speaks.
#[derive(Debug)]
pub enum RouteStep {
    /// Run the agent with plain-text output on this prompt, with no model
    /// and no session.
    RunText(String),
    /// Run the agent with streaming output on this prompt, with no model and
    /// no session.
    RunStream(String),
    /// Read the router's reply from this text.
    Read(String),
}

/// The next move while asking the router: the plain-text run first; when it
/// fails, the streaming run; the reply is the text of the run that
/// succeeded, and empty when both failed.
pub fn route_next(
    prompt: &str,
    text_run: Option<&Result<AgentResult, String>>,
    stream_run: Option<&Result<AgentResult, String>>,
) -> (r: RouteStep)
    ensures
        match text_run {
            None => r matches RouteStep::RunText(p) && p@ == prompt@,
            Some(Ok(a)) => r matches RouteStep::Read(x) && x@ == a.text@,
            Some(Err(_)) => match stream_run {
                None => r matches RouteStep::RunStream(p) && p@ == prompt@,
                Some(Ok(a)) => r matches RouteStep::Read(x) && x@ == a.text@,
                Some(Err(_)) => r matches RouteStep::Read(x) && x@.len() == 0,
            },
        },
{
    match text_run {
        None => RouteStep::RunText(String::from_str(prompt)),
        Some(Ok(a)) => RouteStep::Read(a.text.clone()),
        Some(Err(_)) => match stream_run {
            None => RouteStep::RunStream(String::from_str(prompt)),
            Some(Ok(a)) => RouteStep::Read(a.text.clone()),
            Some(Err(_)) => RouteStep::Read(String::new()),
        },
    }
}

/// What to do to pick the speakers of a turn.
#[derive(Debug)]
pub enum SpeakerPlan {
    /// The group has no bot: nobody speaks.
    Nobody,
    /// The group has one bot: it speaks, with no router asked.
    Only(SelectedBot),
    /// Ask the router with this prompt (see `route_next`), then pick the
    /// speakers from its reply with `speakers_from_decision`.
    Route(String),
}

/// Decides how the speakers of a turn are picked: nobody in a group without
/// bots, the only bot of a one-bot group, and otherwise the router.
pub fn plan_speakers(bots: &Vec<Bot>, history_text: &str, user_content: &str) -> (r: SpeakerPlan)
    ensures
        bots.len() == 0 ==> r is Nobody,
        bots.len() == 1 ==> (r matches SpeakerPlan::Only(s) && s.bot == bots@[0] && s.hint.is_none()),
        bots.len() >= 2 ==> (r matches SpeakerPlan::Route(p) && p@ == route_prompt(
            bots@,
            history_text@,
            user_content@,
        )),
{
    if bots.len() == 0 {
        return SpeakerPlan::Nobody;
    }
    if bots.len() == 1 {
        return SpeakerPlan::Only(SelectedBot { bot: bots[0].duplicate(), hint: None });
    }
    SpeakerPlan::Route(build_route_prompt(bots, history_text, user_content))
}

} // verus!
