//! The reply model: what a command wants the bot to do. A reply is text,
//! a photo, an edit of the acknowledgement placeholder, or a background
//! job; the job itself (a closure and its deadline) is whatever the caller
//! carries in `J`.

use crate::blocks::Block;
use crate::markup::Markup;
use crate::text::push_char;
use vstd::prelude::*;
use vstd::string::*;

verus! {

/// Telegram's photo caption length limit, in characters.
pub const MAX_CAPTION_LEN: usize = 1024;

/// Telegram's text message length limit, in display columns.
pub const MAX_MESSAGE_LEN: usize = 4096;

/// What a command wants the bot to do.
pub enum Reply<J> {
    /// Send this block as a text message, optionally with an inline
    /// keyboard (capped at [`MAX_MESSAGE_LEN`]).
    Text { block: Block, markup: Option<Markup> },
    /// Deliver a photo with an optional caption and keyboard (the caption
    /// capped at [`MAX_CAPTION_LEN`]).
    Photo { bytes: Vec<u8>, caption: Option<String>, markup: Option<Markup> },
    /// Edit the acknowledgement placeholder in place (background jobs
    /// only). In the direct path it falls back to a normal text message.
    Edit(Block),
    /// Acknowledge with `placeholder`, run `job` in the background under
    /// supervision, then deliver its reply (or a uniform error).
    Background { placeholder: String, job: J },
}

/// A caption cut to Telegram's limit: a caption longer than the limit
/// keeps its first `MAX_CAPTION_LEN - 1` characters and ends in `…`.
pub open spec fn capped_caption(s: Seq<char>) -> Seq<char> {
    if s.len() > MAX_CAPTION_LEN {
        s.take(MAX_CAPTION_LEN - 1).push('\u{2026}')
    } else {
        s
    }
}

impl<J> Reply<J> {
    /// A text reply.
    pub fn text(block: Block) -> (r: Reply<J>)
        ensures
            r == (Reply::<J>::Text { block, markup: None }),
    {
        Reply::Text { block, markup: None }
    }

    /// A photo reply.
    pub fn photo(bytes: Vec<u8>, caption: Option<String>) -> (r: Reply<J>)
        ensures
            r == (Reply::<J>::Photo { bytes, caption, markup: None }),
    {
        Reply::Photo { bytes, caption, markup: None }
    }

    /// Attach an inline keyboard to a text or photo reply; other replies
    /// are returned unchanged.
    pub fn with_markup(self, markup: Markup) -> (r: Reply<J>)
        ensures
            r == (match self {
                Reply::Text { block, .. } => Reply::Text { block, markup: Some(markup) },
                Reply::Photo { bytes, caption, .. } => Reply::Photo { bytes, caption, markup: Some(markup) },
                other => other,
            }),
    {
        match self {
            Reply::Text { block, .. } => Reply::Text { block, markup: Some(markup) },
            Reply::Photo { bytes, caption, .. } => Reply::Photo { bytes, caption, markup: Some(markup) },
            other => other,
        }
    }

    /// Cap a caption at Telegram's limit.
    pub fn cap_caption(caption: String) -> (r: String)
        ensures
            r@ == capped_caption(caption@),
    {
        let n = caption.as_str().unicode_len();
        if n > MAX_CAPTION_LEN {
            let head = caption.as_str().substring_char(0, MAX_CAPTION_LEN - 1);
            let mut out = head.to_owned();
            push_char(&mut out, '\u{2026}');
            assert(head@ =~= caption@.take(MAX_CAPTION_LEN - 1));
            out
        } else {
            caption
        }
    }
}

/// A capped caption fits Telegram's limit; a caption that already fits is
/// kept as it is, and a longer one keeps its beginning and ends in `…`.
pub proof fn law_capped_caption_fits(s: Seq<char>)
    ensures
        capped_caption(s).len() <= MAX_CAPTION_LEN,
        s.len() <= MAX_CAPTION_LEN ==> capped_caption(s) == s,
        s.len() > MAX_CAPTION_LEN ==> capped_caption(s).last() == '\u{2026}' && capped_caption(s).drop_last()
            == s.take(MAX_CAPTION_LEN - 1),
{
    if s.len() > MAX_CAPTION_LEN {
        assert(capped_caption(s).drop_last() =~= s.take(MAX_CAPTION_LEN - 1));
    }
}

/// Everything a background job gets to finish the interaction.
#[derive(Debug, Clone, Copy, PartialEq, Eq, Structural)]
pub struct JobCtx {
    pub chat_id: i64,
    pub user_id: Option<i64>,
}

impl JobCtx {
    /// The context of a job started for `chat_id` on behalf of `user_id`.
    pub fn new(chat_id: i64, user_id: Option<i64>) -> (c: JobCtx)
        ensures
            c == (JobCtx { chat_id, user_id }),
    {
        JobCtx { chat_id, user_id }
    }
}

/// How a supervised job ended.
pub enum JobEnd<J> {
    /// It ran to completion with this result.
    Finished(Result<Reply<J>, String>),
    /// Its task panicked.
    Panicked,
    /// It overran its deadline and was aborted.
    TimedOut,
}

/// Normalize how a job ended into the reply to deliver: its own result,
/// or an error for a panic or a timeout.
pub fn job_outcome<J>(end: JobEnd<J>) -> (r: Result<Reply<J>, String>)
    ensures
        match end {
            JobEnd::Finished(x) => r == x,
            JobEnd::Panicked => r matches Err(e) && e@ == "background job panicked"@,
            JobEnd::TimedOut => r matches Err(e) && e@ == "background job timed out"@,
        },
{
    match end {
        JobEnd::Finished(x) => x,
        JobEnd::Panicked => Err("background job panicked".to_owned()),
        JobEnd::TimedOut => Err("background job timed out".to_owned()),
    }
}

} // verus!
