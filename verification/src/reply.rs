use vstd::prelude::*;
use vstd::string::*;
use crate::cursor::{AgentResult, run_view};
use crate::models::{Bot, ChatEvent, Message, MessageView, EventView, opt_view, copy_opt};
use crate::orchestrator::{
    bot_event, bot_message, bot_message_event, done_message, failure_message, failure_text,
    message_event, no_reply, reply_spec, reply_text, shown_event, typing_delay_from, typing_message,
    TYPING_DELAY_MAX_MS, TYPING_DELAY_MIN_MS,
};
use crate::routing::SelectedBot;
use crate::text::trim;

verus! {

/// Where one bot's reply stands.
#[derive(Debug)]
pub enum ReplyStage {
    /// Nothing has run yet.
    Generating,
    /// The streaming run failed; the plain-text run is under way.
    TextFallback { stream_error: String },
    /// Both runs failed; the failure is reported once ids are at hand.
    Failing { stream_error: String },
    /// The reply text is ready; it is shown once ids are at hand.
    Preparing { text: String },
    /// The typing indicator is shown for the reply that will be stored.
    Showing { message_id: String, created_at: String, text: String },
    /// The reply is over.
    Ended,
}

/// What the caller hands back to the reply flow.
#[derive(Debug)]
pub enum ReplyInput {
    /// The flow may begin.
    Started,
    /// What the streaming run gave.
    StreamResult(Result<AgentResult, String>),
    /// What the plain-text run gave.
    TextResult(Result<AgentResult, String>),
    /// A fresh message id, the current time and random bits.
    FreshIds { message_id: String, created_at: String, random: u128 },
    /// The typing delay has passed.
    TypingOver,
    /// The turn was stopped.
    Cancelled,
}

/// What the reply flow asks the caller to do, in order.
#[derive(Debug)]
pub enum ReplyAction {
    /// Run the agent with streaming output: prompt, model and session.
    RunStream(String, Option<String>, Option<String>),
    /// Run the agent with plain-text output: prompt, model and session.
    RunText(String, Option<String>, Option<String>),
    /// Remember this agent session for the bot.
    SaveChatId(String),
    /// Hand back a fresh message id, the current time and random bits.
    NeedIds,
    /// Push this event to the window.
    Emit(ChatEvent),
    /// Store this message.
    Store(Message),
    /// Wait this many milliseconds, then hand back `TypingOver`.
    Sleep(u64),
    /// The reply is over, with the message it stored, if any.
    Done(Option<Message>),
}

/// A reply stage as plain values.
pub enum StageView {
    Generating,
    TextFallback { stream_error: Seq<char> },
    Failing { stream_error: Seq<char> },
    Preparing { text: Seq<char> },
    Showing { message_id: Seq<char>, created_at: Seq<char>, text: Seq<char> },
    Ended,
}

/// An input of the reply flow as plain values.
pub enum InputView {
    Started,
    StreamResult(Result<(Seq<char>, Option<Seq<char>>), Seq<char>>),
    TextResult(Result<(Seq<char>, Option<Seq<char>>), Seq<char>>),
    FreshIds { message_id: Seq<char>, created_at: Seq<char>, random: u128 },
    TypingOver,
    Cancelled,
}

/// An action of the reply flow as plain values.
pub enum ActionView {
    RunStream(Seq<char>, Option<Seq<char>>, Option<Seq<char>>),
    RunText(Seq<char>, Option<Seq<char>>, Option<Seq<char>>),
    SaveChatId(Seq<char>),
    NeedIds,
    Emit(EventView),
    Store(MessageView),
    Sleep(u64),
    Done(Option<MessageView>),
}

impl View for ReplyStage {
    type V = StageView;

    open spec fn view(&self) -> StageView {
        match self {
            ReplyStage::Generating => StageView::Generating,
            ReplyStage::TextFallback { stream_error } => StageView::TextFallback {
                stream_error: stream_error@,
            },
            ReplyStage::Failing { stream_error } => StageView::Failing {
                stream_error: stream_error@,
            },
            ReplyStage::Preparing { text } => StageView::Preparing { text: text@ },
            ReplyStage::Showing { message_id, created_at, text } => StageView::Showing {
                message_id: message_id@,
                created_at: created_at@,
                text: text@,
            },
            ReplyStage::Ended => StageView::Ended,
        }
    }
}

impl View for ReplyInput {
    type V = InputView;

    open spec fn view(&self) -> InputView {
        match self {
            ReplyInput::Started => InputView::Started,
            ReplyInput::StreamResult(r) => InputView::StreamResult(run_view(*r)),
            ReplyInput::TextResult(r) => InputView::TextResult(run_view(*r)),
            ReplyInput::FreshIds { message_id, created_at, random } => InputView::FreshIds {
                message_id: message_id@,
                created_at: created_at@,
                random: *random,
            },
            ReplyInput::TypingOver => InputView::TypingOver,
            ReplyInput::Cancelled => InputView::Cancelled,
        }
    }
}

impl View for ReplyAction {
    type V = ActionView;

    open spec fn view(&self) -> ActionView {
        match self {
            ReplyAction::RunStream(p, m, c) => ActionView::RunStream(p@, opt_view(*m), opt_view(*c)),
            ReplyAction::RunText(p, m, c) => ActionView::RunText(p@, opt_view(*m), opt_view(*c)),
            ReplyAction::SaveChatId(c) => ActionView::SaveChatId(c@),
            ReplyAction::NeedIds => ActionView::NeedIds,
            ReplyAction::Emit(e) => ActionView::Emit(e@),
            ReplyAction::Store(m) => ActionView::Store(m@),
            ReplyAction::Sleep(ms) => ActionView::Sleep(*ms),
            ReplyAction::Done(m) => ActionView::Done(
                match m {
                    Some(x) => Some(x@),
                    None => None,
                },
            ),
        }
    }
}

/// The actions as plain values.
pub open spec fn actions_view(a: Seq<ReplyAction>) -> Seq<ActionView> {
    a.map_values(|x: ReplyAction| x@)
}

/// After a successful run: its session is remembered, and then either the
/// bot stays silent and the reply ends, or its text waits for ids.
pub open spec fn after_run(bot: Bot, run: (Seq<char>, Option<Seq<char>>)) -> (
    StageView,
    Seq<ActionView>,
) {
    let save = match run.1 {
        Some(c) => seq![ActionView::SaveChatId(c)],
        None => Seq::empty(),
    };
    match reply_spec(run.0, bot.nickname@) {
        None => (StageView::Ended, save.push(ActionView::Done(None))),
        Some(t) => (StageView::Preparing { text: t }, save.push(ActionView::NeedIds)),
    }
}

/// One step of a bot's reply. The streaming run comes first; when it fails,
/// the plain-text run follows with the same prompt, model and session; when
/// that fails too, a failure message that carries the streaming error is
/// stored and reported with `bot_error`. A run that succeeds has its session
/// remembered; a silent reply ends with nothing shown or stored; any other
/// reply shows the typing indicator with the unstored placeholder, waits the
/// typing delay, stores the finished message and reports `bot_done`. A stop
/// ends the reply at once; an input that does not fit the stage changes
/// nothing.
pub open spec fn reply_step_spec(
    stage: StageView,
    group: Seq<char>,
    selected: SelectedBot,
    prompt: Seq<char>,
    input: InputView,
) -> (StageView, Seq<ActionView>) {
    let bot = selected.bot;
    let model = opt_view(bot.model);
    let session = opt_view(bot.cursor_chat_id);
    let unchanged = (stage, Seq::<ActionView>::empty());
    if input is Cancelled {
        if stage is Ended {
            unchanged
        } else {
            (StageView::Ended, seq![ActionView::Done(None)])
        }
    } else {
        match stage {
            StageView::Generating => match input {
                InputView::Started => (
                    StageView::Generating,
                    seq![ActionView::RunStream(prompt, model, session)],
                ),
                InputView::StreamResult(Ok(run)) => after_run(bot, run),
                InputView::StreamResult(Err(e)) => (
                    StageView::TextFallback { stream_error: e },
                    seq![ActionView::RunText(prompt, model, session)],
                ),
                _ => unchanged,
            },
            StageView::TextFallback { stream_error } => match input {
                InputView::TextResult(Ok(run)) => after_run(bot, run),
                InputView::TextResult(Err(_)) => (
                    StageView::Failing { stream_error },
                    seq![ActionView::NeedIds],
                ),
                _ => unchanged,
            },
            StageView::Failing { stream_error } => match input {
                InputView::FreshIds { message_id, created_at, random: _ } => {
                    let m = bot_message(
                        message_id,
                        group,
                        bot,
                        created_at,
                        failure_text(stream_error),
                        "error"@,
                    );
                    (
                        StageView::Ended,
                        seq![
                            ActionView::Store(m),
                            ActionView::Emit(
                                bot_event("bot_error"@, group, m, bot.id@, Some(stream_error)),
                            ),
                            ActionView::Done(Some(m)),
                        ],
                    )
                },
                _ => unchanged,
            },
            StageView::Preparing { text } => match input {
                InputView::FreshIds { message_id, created_at, random } => {
                    let typing = bot_message(
                        message_id,
                        group,
                        bot,
                        created_at,
                        Seq::empty(),
                        "streaming"@,
                    );
                    (
                        StageView::Showing { message_id, created_at, text },
                        seq![
                            ActionView::Emit(bot_event("bot_typing"@, group, typing, bot.id@, None)),
                            ActionView::Emit(shown_event(group, typing)),
                            ActionView::Sleep(
                                (TYPING_DELAY_MIN_MS + (random as int) % ((TYPING_DELAY_MAX_MS
                                    - TYPING_DELAY_MIN_MS) + 1)) as u64,
                            ),
                        ],
                    )
                },
                _ => unchanged,
            },
            StageView::Showing { message_id, created_at, text } => match input {
                InputView::TypingOver => {
                    let done = bot_message(message_id, group, bot, created_at, text, "done"@);
                    (
                        StageView::Ended,
                        seq![
                            ActionView::Store(done),
                            ActionView::Emit(bot_event("bot_done"@, group, done, bot.id@, None)),
                            ActionView::Done(Some(done)),
                        ],
                    )
                },
                _ => unchanged,
            },
            StageView::Ended => unchanged,
        }
    }
}


/// The streaming run comes first, with the bot's model and session; when it
/// fails, exactly one plain-text run follows with the same prompt, model and
/// session; when that fails too, the failure that is stored and reported
/// carries the streaming run's error.
pub proof fn law_stream_first_then_one_text_run(
    group: Seq<char>,
    selected: SelectedBot,
    prompt: Seq<char>,
    stream_error: Seq<char>,
    text_error: Seq<char>,
    message_id: Seq<char>,
    created_at: Seq<char>,
    random: u128,
)
    ensures
        ({
            let bot = selected.bot;
            let model = opt_view(bot.model);
            let session = opt_view(bot.cursor_chat_id);
            let s1 = reply_step_spec(StageView::Generating, group, selected, prompt, InputView::Started);
            let s2 = reply_step_spec(
                s1.0,
                group,
                selected,
                prompt,
                InputView::StreamResult(Err(stream_error)),
            );
            let s3 = reply_step_spec(
                s2.0,
                group,
                selected,
                prompt,
                InputView::TextResult(Err(text_error)),
            );
            let s4 = reply_step_spec(
                s3.0,
                group,
                selected,
                prompt,
                InputView::FreshIds { message_id, created_at, random },
            );
            let m = bot_message(
                message_id,
                group,
                bot,
                created_at,
                failure_text(stream_error),
                "error"@,
            );
            &&& s1.1 == seq![ActionView::RunStream(prompt, model, session)]
            &&& s2.1 == seq![ActionView::RunText(prompt, model, session)]
            &&& s3.1 == seq![ActionView::NeedIds]
            &&& s4.0 == StageView::Ended
            &&& s4.1 == seq![
                ActionView::Store(m),
                ActionView::Emit(bot_event("bot_error"@, group, m, bot.id@, Some(stream_error))),
                ActionView::Done(Some(m)),
            ]
        }),
{
}

/// A run that succeeds with a session has that session remembered for the
/// bot before anything else, whether or not the bot then speaks.
pub proof fn law_session_remembered(
    stage: StageView,
    group: Seq<char>,
    selected: SelectedBot,
    prompt: Seq<char>,
    input: InputView,
    run: (Seq<char>, Option<Seq<char>>),
    session: Seq<char>,
)
    requires
        (stage is Generating && input == InputView::StreamResult(Ok(run))) || (stage is TextFallback
            && input == InputView::TextResult(Ok(run))),
        run.1 == Some(session),
    ensures
        ({
            let acts = reply_step_spec(stage, group, selected, prompt, input).1;
            acts.len() == 2 && acts[0] == ActionView::SaveChatId(session)
        }),
{
}

/// A run that succeeds with text the bot does not keep silent goes on to be
/// shown, whichever run it was: its trimmed text waits for ids, after its
/// session, if any, is saved; the plain-text fallback leads to the same
/// step as the streaming run.
pub proof fn law_spoken_reply_goes_on(
    stream_error: Seq<char>,
    group: Seq<char>,
    selected: SelectedBot,
    prompt: Seq<char>,
    run: (Seq<char>, Option<Seq<char>>),
)
    requires
        !no_reply(trim(run.0), selected.bot.nickname@),
    ensures
        ({
            let by_text = reply_step_spec(
                StageView::TextFallback { stream_error },
                group,
                selected,
                prompt,
                InputView::TextResult(Ok(run)),
            );
            let by_stream = reply_step_spec(
                StageView::Generating,
                group,
                selected,
                prompt,
                InputView::StreamResult(Ok(run)),
            );
            &&& by_text == by_stream
            &&& by_text.0 == StageView::Preparing { text: trim(run.0) }
            &&& by_text.1.len() == if run.1 is Some { 2int } else { 1int }
            &&& by_text.1.last() == ActionView::NeedIds
        }),
{
}

/// A reply that the bot keeps silent leaves no trace: after a successful
/// run whose text is silent, nothing is shown or stored and the reply ends
/// with no message; only the session may be remembered.
pub proof fn law_silent_reply_leaves_no_trace(
    stage: StageView,
    group: Seq<char>,
    selected: SelectedBot,
    prompt: Seq<char>,
    input: InputView,
    run: (Seq<char>, Option<Seq<char>>),
)
    requires
        (stage is Generating && input == InputView::StreamResult(Ok(run))) || (stage is TextFallback
            && input == InputView::TextResult(Ok(run))),
        reply_spec(run.0, selected.bot.nickname@) is None,
    ensures
        ({
            let (next, acts) = reply_step_spec(stage, group, selected, prompt, input);
            &&& next == StageView::Ended
            &&& acts.len() > 0
            &&& acts.last() == ActionView::Done(None)
            &&& forall|j: int|
                0 <= j < acts.len() ==> !(#[trigger] acts[j] is Emit) && !(acts[j] is Store)
        }),
{
}

/// The placeholder that shows the bot typing is never stored: every stored
/// message is a finished reply or a failure.
pub proof fn law_placeholder_never_stored(
    stage: StageView,
    group: Seq<char>,
    selected: SelectedBot,
    prompt: Seq<char>,
    input: InputView,
)
    ensures
        ({
            let acts = reply_step_spec(stage, group, selected, prompt, input).1;
            forall|j: int|
                0 <= j < acts.len() ==> (#[trigger] acts[j] matches ActionView::Store(m) ==> (
                m.status == "done"@ || m.status == "error"@) && m.status != "streaming"@)
        }),
{
    reveal_strlit("done");
    reveal_strlit("error");
    reveal_strlit("streaming");
    assert("done"@.len() == 4 && "error"@.len() == 5 && "streaming"@.len() == 9);
    let acts = reply_step_spec(stage, group, selected, prompt, input).1;
    assert forall|j: int| 0 <= j < acts.len() implies (#[trigger] acts[j] matches ActionView::Store(
        m,
    ) ==> (m.status == "done"@ || m.status == "error"@) && m.status != "streaming"@) by {
        match stage {
            StageView::Failing { stream_error } => {},
            StageView::Showing { message_id, created_at, text } => {},
            _ => {},
        }
    }
}

/// A reply that is shown waits between the shortest and the longest typing
/// delay before it is stored.
pub proof fn law_typing_delay_in_range(
    text: Seq<char>,
    group: Seq<char>,
    selected: SelectedBot,
    prompt: Seq<char>,
    message_id: Seq<char>,
    created_at: Seq<char>,
    random: u128,
)
    ensures
        ({
            let acts = reply_step_spec(
                StageView::Preparing { text },
                group,
                selected,
                prompt,
                InputView::FreshIds { message_id, created_at, random },
            ).1;
            &&& acts.len() == 3
            &&& acts[2] matches ActionView::Sleep(ms) && TYPING_DELAY_MIN_MS <= ms
                <= TYPING_DELAY_MAX_MS
        }),
{
}

/// The first actions after a successful run.
fn finish_run(bot: &Bot, run: AgentResult) -> (r: (ReplyStage, Vec<ReplyAction>))
    ensures
        (r.0@, actions_view(r.1@)) == after_run(*bot, (run.text@, opt_view(run.chat_id))),
{
    let mut actions: Vec<ReplyAction> = Vec::new();
    if let Some(c) = run.chat_id {
        actions.push(ReplyAction::SaveChatId(c));
    }
    let ghost saved = actions_view(actions@);
    let stage = match reply_text(run.text.as_str(), bot.nickname.as_str()) {
        None => {
            actions.push(ReplyAction::Done(None));
            ReplyStage::Ended
        },
        Some(t) => {
            actions.push(ReplyAction::NeedIds);
            ReplyStage::Preparing { text: t }
        },
    };
    assert(actions_view(actions@) =~= after_run(*bot, (run.text@, opt_view(run.chat_id))).1);
    (stage, actions)
}

/// One step of a bot's reply: from where the reply stands and what the
/// caller hands back, where it stands next and what the caller is to do,
/// in order.
pub fn reply_step(
    stage: ReplyStage,
    group_id: &str,
    selected: &SelectedBot,
    prompt: &str,
    input: ReplyInput,
) -> (r: (ReplyStage, Vec<ReplyAction>))
    ensures
        (r.0@, actions_view(r.1@)) == reply_step_spec(stage@, group_id@, *selected, prompt@, input@),
{
    let bot = &selected.bot;
    if let ReplyInput::Cancelled = input {
        if let ReplyStage::Ended = stage {
            let r = (stage, Vec::new());
            assert(actions_view(r.1@) =~= Seq::<ActionView>::empty());
            return r;
        }
        let mut actions: Vec<ReplyAction> = Vec::new();
        actions.push(ReplyAction::Done(None));
        assert(actions_view(actions@) =~= seq![ActionView::Done(None)]);
        return (ReplyStage::Ended, actions);
    }
    let mut actions: Vec<ReplyAction> = Vec::new();
    match stage {
        ReplyStage::Generating => match input {
            ReplyInput::Started => {
                actions.push(
                    ReplyAction::RunStream(
                        String::from_str(prompt),
                        copy_opt(&bot.model),
                        copy_opt(&bot.cursor_chat_id),
                    ),
                );
                assert(actions_view(actions@) =~= reply_step_spec(
                    stage@,
                    group_id@,
                    *selected,
                    prompt@,
                    input@,
                ).1);
                (ReplyStage::Generating, actions)
            },
            ReplyInput::StreamResult(Ok(run)) => finish_run(bot, run),
            ReplyInput::StreamResult(Err(e)) => {
                actions.push(
                    ReplyAction::RunText(
                        String::from_str(prompt),
                        copy_opt(&bot.model),
                        copy_opt(&bot.cursor_chat_id),
                    ),
                );
                assert(actions_view(actions@) =~= reply_step_spec(
                    stage@,
                    group_id@,
                    *selected,
                    prompt@,
                    input@,
                ).1);
                (ReplyStage::TextFallback { stream_error: e }, actions)
            },
            _ => {
                assert(actions_view(actions@) =~= Seq::<ActionView>::empty());
                (ReplyStage::Generating, actions)
            },
        },
        ReplyStage::TextFallback { stream_error } => match input {
            ReplyInput::TextResult(Ok(run)) => finish_run(bot, run),
            ReplyInput::TextResult(Err(_)) => {
                actions.push(ReplyAction::NeedIds);
                assert(actions_view(actions@) =~= seq![ActionView::NeedIds]);
                (ReplyStage::Failing { stream_error }, actions)
            },
            _ => {
                assert(actions_view(actions@) =~= Seq::<ActionView>::empty());
                (ReplyStage::TextFallback { stream_error }, actions)
            },
        },
        ReplyStage::Failing { stream_error } => match input {
            ReplyInput::FreshIds { message_id, created_at, random: _ } => {
                let m = failure_message(
                    message_id.as_str(),
                    group_id,
                    bot,
                    created_at.as_str(),
                    stream_error.as_str(),
                );
                let ev = crate::orchestrator::reply_failure_event(
                    group_id,
                    m.duplicate(),
                    bot.id.as_str(),
                    stream_error.as_str(),
                );
                let kept = m.duplicate();
                actions.push(ReplyAction::Store(m));
                actions.push(ReplyAction::Emit(ev));
                actions.push(ReplyAction::Done(Some(kept)));
                assert(actions_view(actions@) =~= reply_step_spec(
                    stage@,
                    group_id@,
                    *selected,
                    prompt@,
                    input@,
                ).1);
                (ReplyStage::Ended, actions)
            },
            _ => {
                assert(actions_view(actions@) =~= Seq::<ActionView>::empty());
                (ReplyStage::Failing { stream_error }, actions)
            },
        },
        ReplyStage::Preparing { text } => match input {
            ReplyInput::FreshIds { message_id, created_at, random } => {
                let typing = typing_message(message_id.as_str(), group_id, bot, created_at.as_str());
                let shown = message_event(group_id, typing.duplicate());
                let ev = bot_message_event("bot_typing", group_id, typing, bot.id.as_str());
                let delay = typing_delay_from(random);
                actions.push(ReplyAction::Emit(ev));
                actions.push(ReplyAction::Emit(shown));
                actions.push(ReplyAction::Sleep(delay));
                assert(actions_view(actions@) =~= reply_step_spec(
                    stage@,
                    group_id@,
                    *selected,
                    prompt@,
                    input@,
                ).1);
                (ReplyStage::Showing { message_id, created_at, text }, actions)
            },
            _ => {
                assert(actions_view(actions@) =~= Seq::<ActionView>::empty());
                (ReplyStage::Preparing { text }, actions)
            },
        },
        ReplyStage::Showing { message_id, created_at, text } => match input {
            ReplyInput::TypingOver => {
                let done = done_message(
                    message_id.as_str(),
                    group_id,
                    bot,
                    created_at.as_str(),
                    text.as_str(),
                );
                let ev = bot_message_event("bot_done", group_id, done.duplicate(), bot.id.as_str());
                let kept = done.duplicate();
                actions.push(ReplyAction::Store(done));
                actions.push(ReplyAction::Emit(ev));
                actions.push(ReplyAction::Done(Some(kept)));
                assert(actions_view(actions@) =~= reply_step_spec(
                    stage@,
                    group_id@,
                    *selected,
                    prompt@,
                    input@,
                ).1);
                (ReplyStage::Ended, actions)
            },
            _ => {
                assert(actions_view(actions@) =~= Seq::<ActionView>::empty());
                (ReplyStage::Showing { message_id, created_at, text }, actions)
            },
        },
        ReplyStage::Ended => {
            assert(actions_view(actions@) =~= Seq::<ActionView>::empty());
            (ReplyStage::Ended, actions)
        },
    }
}

} // verus!
