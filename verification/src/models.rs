use vstd::prelude::*;

verus! {

/// A group chat and the ids of the bots in it.
#[derive(Debug, Clone)]
pub struct Group {
    pub id: String,
    pub name: String,
    pub created_at: String,
    pub bot_ids: Vec<String>,
}

/// A bot member of a group, with its persona and its agent session.
#[derive(Debug, Clone)]
pub struct Bot {
    pub id: String,
    pub group_id: String,
    pub nickname: String,
    pub avatar: String,
    pub persona: String,
    pub model: Option<String>,
    pub cursor_chat_id: Option<String>,
}

/// One chat message, from the user or from a bot.
#[derive(Debug, Clone)]
pub struct Message {
    pub id: String,
    pub group_id: String,
    pub sender_type: String,
    pub sender_id: Option<String>,
    pub bot_id: Option<String>,
    pub nickname: String,
    pub avatar: Option<String>,
    pub content: String,
    pub created_at: String,
    pub status: String,
}

/// A group together with its bots.
#[derive(Debug, Clone)]
pub struct GroupDetail {
    pub group: Group,
    pub bots: Vec<Bot>,
}

/// What is known of the local `cursor-agent` installation.
#[derive(Debug, Clone)]
pub struct CursorStatus {
    pub available: bool,
    pub logged_in: bool,
    pub binary: Option<String>,
    pub model: Option<String>,
    pub message: String,
}

/// Fields of a bot to be created; absent or blank ones take defaults.
#[derive(Debug, Clone)]
pub struct CreateBotInput {
    pub nickname: Option<String>,
    pub avatar: Option<String>,
    pub persona: Option<String>,
    pub model: Option<String>,
}

/// Changes to a bot; absent fields are left as they are.
#[derive(Debug, Clone)]
pub struct UpdateBotInput {
    pub nickname: Option<String>,
    pub avatar: Option<String>,
    pub persona: Option<String>,
    pub model: Option<String>,
    pub clear_model: Option<bool>,
}

/// The user's own display name and avatar.
#[derive(Debug, Clone)]
pub struct UserProfile {
    pub nickname: String,
    pub avatar: String,
}

/// Changes to the user's profile; absent fields are left as they are.
#[derive(Debug, Clone)]
pub struct UpdateUserProfileInput {
    pub nickname: Option<String>,
    pub avatar: Option<String>,
}

/// An event pushed to the user interface.
#[derive(Debug, Clone)]
pub struct ChatEvent {
    pub event_type: String,
    pub group_id: Option<String>,
    pub message: Option<Message>,
    pub bot_id: Option<String>,
    pub message_id: Option<String>,
    pub delta: Option<String>,
    pub content: Option<String>,
    pub error: Option<String>,
    pub action: Option<String>,
}

/// A message as plain values.
pub struct MessageView {
    pub id: Seq<char>,
    pub group_id: Seq<char>,
    pub sender_type: Seq<char>,
    pub sender_id: Option<Seq<char>>,
    pub bot_id: Option<Seq<char>>,
    pub nickname: Seq<char>,
    pub avatar: Option<Seq<char>>,
    pub content: Seq<char>,
    pub created_at: Seq<char>,
    pub status: Seq<char>,
}

impl View for Message {
    type V = MessageView;

    open spec fn view(&self) -> MessageView {
        MessageView {
            id: self.id@,
            group_id: self.group_id@,
            sender_type: self.sender_type@,
            sender_id: opt_view(self.sender_id),
            bot_id: opt_view(self.bot_id),
            nickname: self.nickname@,
            avatar: opt_view(self.avatar),
            content: self.content@,
            created_at: self.created_at@,
            status: self.status@,
        }
    }
}

/// An event as plain values.
pub struct EventView {
    pub event_type: Seq<char>,
    pub group_id: Option<Seq<char>>,
    pub message: Option<MessageView>,
    pub bot_id: Option<Seq<char>>,
    pub message_id: Option<Seq<char>>,
    pub delta: Option<Seq<char>>,
    pub content: Option<Seq<char>>,
    pub error: Option<Seq<char>>,
    pub action: Option<Seq<char>>,
}

impl View for ChatEvent {
    type V = EventView;

    open spec fn view(&self) -> EventView {
        EventView {
            event_type: self.event_type@,
            group_id: opt_view(self.group_id),
            message: match self.message {
                Some(m) => Some(m@),
                None => None,
            },
            bot_id: opt_view(self.bot_id),
            message_id: opt_view(self.message_id),
            delta: opt_view(self.delta),
            content: opt_view(self.content),
            error: opt_view(self.error),
            action: opt_view(self.action),
        }
    }
}

/// The characters of an optional string.
pub open spec fn opt_view(o: Option<String>) -> Option<Seq<char>> {
    match o {
        Some(s) => Some(s@),
        None => None,
    }
}

/// A copy of an optional string.
pub fn copy_opt(o: &Option<String>) -> (r: Option<String>)
    ensures
        r == *o,
{
    match o {
        Some(s) => Some(s.clone()),
        None => None,
    }
}

impl Bot {
    /// A field-by-field copy of this bot.
    pub fn duplicate(&self) -> (r: Bot)
        ensures
            r == *self,
    {
        Bot {
            id: self.id.clone(),
            group_id: self.group_id.clone(),
            nickname: self.nickname.clone(),
            avatar: self.avatar.clone(),
            persona: self.persona.clone(),
            model: copy_opt(&self.model),
            cursor_chat_id: copy_opt(&self.cursor_chat_id),
        }
    }
}

impl Message {
    /// A field-by-field copy of this message.
    pub fn duplicate(&self) -> (r: Message)
        ensures
            r == *self,
    {
        Message {
            id: self.id.clone(),
            group_id: self.group_id.clone(),
            sender_type: self.sender_type.clone(),
            sender_id: copy_opt(&self.sender_id),
            bot_id: copy_opt(&self.bot_id),
            nickname: self.nickname.clone(),
            avatar: copy_opt(&self.avatar),
            content: self.content.clone(),
            created_at: self.created_at.clone(),
            status: self.status.clone(),
        }
    }
}

} // verus!
