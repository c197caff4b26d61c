//! The transport-free views of the updates handlers receive: [`Request`]
//! for commands and the message, inline, and callback request types.

use crate::case::{lowercased, to_lowercase};
use crate::text::{find_from, find_str};
use vstd::prelude::*;

verus! {

/// The kind of chat a request came from.
#[derive(Debug, Clone, Copy, PartialEq, Eq, Structural)]
#[non_exhaustive]
pub enum ChatKind {
    Private,
    Group,
    Supergroup,
    Channel,
}

/// Everything a handler knows about the update it is handling.
#[derive(Debug, Clone)]
pub struct Request {
    /// Telegram chat id the update came from.
    pub chat_id: i64,
    /// Telegram user id, when the update is from a private user.
    pub user_id: Option<i64>,
    /// The user's `@username`, when known.
    pub username: Option<String>,
    /// What kind of chat this is.
    pub chat_kind: ChatKind,
    /// The message being replied to, when any.
    pub reply_to_message_id: Option<i32>,
}

impl Request {
    /// A request for tests and callers that don't have a real update: a
    /// private chat, no username, not a reply.
    pub fn new(chat_id: i64, user_id: Option<i64>) -> (r: Request)
        ensures
            r.chat_id == chat_id,
            r.user_id == user_id,
            r.username is None,
            r.chat_kind == ChatKind::Private,
            r.reply_to_message_id is None,
    {
        Request { chat_id, user_id, username: None, chat_kind: ChatKind::Private, reply_to_message_id: None }
    }
}

/// A transport-free view of a free-form text message: the shared
/// [`Request`] context plus the message-specific fields.
#[derive(Debug, Clone)]
pub struct MessageRequest {
    /// The shared update context (chat, user, chat kind, reply target).
    pub request: Request,
    /// The full message text.
    pub text: String,
    /// Whether the text mentions the bot (contains `@botname`).
    pub mentioned: bool,
    /// Whether this message replies to one of the bot's own messages.
    pub replied_to_bot: bool,
}

impl MessageRequest {
    /// A request for tests and callers that don't have a real update.
    pub fn new(text: &str, chat_id: i64, user_id: Option<i64>) -> (r: MessageRequest)
        ensures
            r.request.chat_id == chat_id,
            r.request.user_id == user_id,
            r.request.username is None,
            r.request.chat_kind == ChatKind::Private,
            r.request.reply_to_message_id is None,
            r.text@ == text@,
            !r.mentioned,
            !r.replied_to_bot,
    {
        MessageRequest {
            request: Request::new(chat_id, user_id),
            text: text.to_owned(),
            mentioned: false,
            replied_to_bot: false,
        }
    }
}

/// `text` mentions the bot: its lower-cased text contains `@` and the
/// bot's lower-cased name (a bot without a username is never mentioned).
pub open spec fn mentions_spec(text: Seq<char>, bot_name: Option<Seq<char>>) -> bool {
    match bot_name {
        Some(name) => find_from(lowercased(text), lowercased(seq!['@'] + name), 0) is Some,
        None => false,
    }
}

/// Whether `text` mentions the bot named `bot_name`.
pub fn mentions(text: &str, bot_name: Option<&str>) -> (r: bool)
    ensures
        r == mentions_spec(text@, match bot_name {
            Some(n) => Some(n@),
            None => None,
        }),
{
    match bot_name {
        Some(name) => {
            let mut handle = "@".to_owned();
            handle.append(name);
            proof {
                reveal_strlit("@");
            }
            assert(handle@ =~= seq!['@'] + name@);
            let hay = to_lowercase(text);
            let pat = to_lowercase(handle.as_str());
            find_str(hay.as_str(), pat.as_str()).is_some()
        },
        None => false,
    }
}

/// The text a message carries: its text, else its caption.
pub fn message_text<'a>(text: Option<&'a str>, caption: Option<&'a str>) -> (r: Option<&'a str>)
    ensures
        r == (match text {
            Some(t) => Some(t),
            None => caption,
        }),
{
    match text {
        Some(t) => Some(t),
        None => caption,
    }
}

impl MessageRequest {
    /// The request for a text message: `mentioned` when the text mentions
    /// the bot, `replied_to_bot` when it replies to a message whose author
    /// (`reply_author`) is the bot itself (`bot_id`).
    pub fn from_update(
        request: Request,
        text: String,
        bot_name: Option<&str>,
        reply_author: Option<u64>,
        bot_id: u64,
    ) -> (r: MessageRequest)
        ensures
            r.request == request,
            r.text == text,
            r.mentioned == mentions_spec(text@, match bot_name {
                Some(n) => Some(n@),
                None => None,
            }),
            r.replied_to_bot == (reply_author == Some(bot_id)),
    {
        let mentioned = mentions(text.as_str(), bot_name);
        let replied_to_bot = match reply_author {
            Some(a) => a == bot_id,
            None => false,
        };
        MessageRequest { request, text, mentioned, replied_to_bot }
    }
}

/// A transport-free view of an inline query.
#[derive(Debug, Clone)]
pub struct InlineRequest {
    /// The query text (everything after `@botname `).
    pub query: String,
    /// The user who issued the query.
    pub user_id: Option<i64>,
    /// The user's `@username`, when known.
    pub username: Option<String>,
}

impl InlineRequest {
    /// A request for tests and callers that don't have a real query.
    pub fn new(query: &str, user_id: Option<i64>) -> (r: InlineRequest)
        ensures
            r.query@ == query@,
            r.user_id == user_id,
            r.username is None,
    {
        InlineRequest { query: query.to_owned(), user_id, username: None }
    }
}

/// A transport-free view of a button tap.
#[derive(Debug, Clone)]
pub struct CallbackRequest {
    /// The button's callback data.
    pub data: String,
    /// The chat the button's message lives in, when any.
    pub chat_id: Option<i64>,
    /// The user who tapped.
    pub user_id: Option<i64>,
    /// The message the button was on, when accessible (for editing).
    pub message_id: Option<i32>,
}

impl CallbackRequest {
    /// A request for tests and callers that don't have a real query.
    pub fn new(data: &str, chat_id: Option<i64>, message_id: Option<i32>) -> (r: CallbackRequest)
        ensures
            r.data@ == data@,
            r.chat_id == chat_id,
            r.user_id is None,
            r.message_id == message_id,
    {
        CallbackRequest { data: data.to_owned(), chat_id, user_id: None, message_id }
    }
}

} // verus!
