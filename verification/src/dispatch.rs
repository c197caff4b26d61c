//! The single send point: what each reply, job outcome, and handler
//! result turns into on the wire. Every function here decides; the caller
//! performs the Telegram calls it names and reports back.
//!
//! Text is capped at [`MAX_MESSAGE_LEN`], errors render as a uniform
//! `⚠️ <error>` message, and a background job's placeholder is always
//! cleaned up: replaced by an edit, or deleted after delivery.

use crate::blocks::{render_plain, truncate_spec, Block, LineView};
use crate::inline::{InlineAnswer, InlineResult};
use crate::markup::Markup;
use crate::metrics::{bump_command, Metrics, MetricsView};
use crate::reply::{job_outcome, JobEnd, Reply, MAX_MESSAGE_LEN};
use crate::request::CallbackRequest;
use vstd::prelude::*;
use vstd::string::*;
use vstd::wrapping::{u64_specs, usize_specs};

verus! {

/// One message operation for Telegram.
pub enum Outbound {
    /// Send a text message, with an optional keyboard.
    Text { text: String, markup: Option<Markup> },
    /// Send a photo replying to the triggering message.
    Photo { bytes: Vec<u8>, caption: Option<String>, markup: Option<Markup> },
    /// Replace the text of the acknowledgement placeholder.
    Edit { text: String },
}

/// The text a block is sent as: truncated to [`MAX_MESSAGE_LEN`], then
/// rendered plain.
pub open spec fn message_text(b: Seq<LineView>) -> Seq<char> {
    render_plain(truncate_spec(b, MAX_MESSAGE_LEN as int))
}

/// The uniform error message: `⚠️ ` and the error.
pub open spec fn warning_spec(m: Seq<char>) -> Seq<char> {
    seq!['\u{26A0}', '\u{FE0F}', ' '] + m
}

/// The text a block is sent as.
pub fn message_text_of(block: Block) -> (r: String)
    ensures
        r@ == message_text(block@),
{
    block.truncate(MAX_MESSAGE_LEN).build()
}

/// The uniform error message for `message`.
pub fn warning(message: &str) -> (r: String)
    ensures
        r@ == warning_spec(message@),
{
    let mut out = "\u{26A0}\u{FE0F} ".to_owned();
    proof {
        reveal_strlit("\u{26A0}\u{FE0F} ");
    }
    out.append(message);
    out
}

/// `o` sends `text` with no keyboard.
pub open spec fn is_plain_text(o: Outbound, text: Seq<char>) -> bool {
    o matches Outbound::Text { text: t, markup: m } && t@ == text && m is None
}

// ---------------------------------------------------------------------------
// The direct path
// ---------------------------------------------------------------------------

/// What the send point does with a command's outcome.
pub enum Dispatch<J> {
    /// Hand this message to Telegram.
    Deliver(Outbound),
    /// Send `placeholder`, then run `job` in the background.
    StartJob { placeholder: String, job: J },
}

/// The send point's decision for an outcome: text and edits are sent as
/// capped text (an edit has no placeholder to replace here), photos as
/// they are, background replies start their job, and errors are sent as
/// the uniform warning.
pub open spec fn dispatch_spec<J>(outcome: Result<Reply<J>, String>, d: Dispatch<J>) -> bool {
    match outcome {
        Ok(Reply::Text { block, markup }) => d matches Dispatch::Deliver(Outbound::Text { text, markup: m })
            && text@ == message_text(block@) && m == markup,
        Ok(Reply::Photo { bytes, caption, markup }) => d == Dispatch::<J>::Deliver(
            Outbound::Photo { bytes, caption, markup },
        ),
        Ok(Reply::Edit(block)) => d matches Dispatch::Deliver(o) && is_plain_text(o, message_text(block@)),
        Ok(Reply::Background { placeholder, job }) => d == Dispatch::StartJob { placeholder, job },
        Err(e) => d matches Dispatch::Deliver(o) && is_plain_text(o, warning_spec(e@)),
    }
}

/// The metrics after one dispatched command at time `now`.
pub open spec fn command_noted(m: MetricsView, now: i64) -> MetricsView {
    MetricsView { last_command: now, commands_total: u64_specs::wrapping_add(m.commands_total, 1), ..m }
}

/// The single send point: count the command (at `now`) and decide what
/// its outcome turns into.
pub fn dispatch<J>(metrics: &mut Metrics, now: i64, outcome: Result<Reply<J>, String>) -> (d: Dispatch<J>)
    ensures
        final(metrics)@ == command_noted(old(metrics)@, now),
        dispatch_spec(outcome, d),
{
    metrics.note_command_at(now);
    match outcome {
        Ok(Reply::Text { block, markup }) => Dispatch::Deliver(
            Outbound::Text { text: message_text_of(block), markup },
        ),
        Ok(Reply::Photo { bytes, caption, markup }) => Dispatch::Deliver(
            Outbound::Photo { bytes, caption, markup },
        ),
        Ok(Reply::Edit(block)) => Dispatch::Deliver(Outbound::Text { text: message_text_of(block), markup: None }),
        Ok(Reply::Background { placeholder, job }) => Dispatch::StartJob { placeholder, job },
        Err(e) => Dispatch::Deliver(Outbound::Text { text: warning(e.as_str()), markup: None }),
    }
}

// ---------------------------------------------------------------------------
// The background path
// ---------------------------------------------------------------------------

/// How a finished job's outcome is delivered: an optional message, then
/// whether the placeholder is deleted.
pub struct Delivery {
    pub message: Option<Outbound>,
    pub delete_placeholder: bool,
}

/// The delivery of a job's outcome: an edit replaces the placeholder (so
/// nothing is deleted); text and photos are sent and errors sent as the
/// uniform warning, a background reply sends nothing; in all of these the
/// placeholder is then deleted.
pub open spec fn delivery_spec<J>(outcome: Result<Reply<J>, String>, d: Delivery) -> bool {
    match outcome {
        Ok(Reply::Edit(block)) => !d.delete_placeholder && (d.message matches Some(Outbound::Edit { text })
            && text@ == message_text(block@)),
        Ok(Reply::Text { block, markup }) => d.delete_placeholder && (d.message matches Some(
            Outbound::Text { text, markup: m },
        ) && text@ == message_text(block@) && m == markup),
        Ok(Reply::Photo { bytes, caption, markup }) => d.delete_placeholder && d.message == Some(
            Outbound::Photo { bytes, caption, markup },
        ),
        Ok(Reply::Background { .. }) => d.delete_placeholder && d.message is None,
        Err(e) => d.delete_placeholder && (d.message matches Some(o) && is_plain_text(o, warning_spec(e@))),
    }
}

/// Deliver a job's outcome.
pub fn deliver<J>(outcome: Result<Reply<J>, String>) -> (d: Delivery)
    ensures
        delivery_spec(outcome, d),
{
    match outcome {
        Ok(Reply::Edit(block)) => Delivery {
            message: Some(Outbound::Edit { text: message_text_of(block) }),
            delete_placeholder: false,
        },
        Ok(Reply::Text { block, markup }) => Delivery {
            message: Some(Outbound::Text { text: message_text_of(block), markup }),
            delete_placeholder: true,
        },
        Ok(Reply::Photo { bytes, caption, markup }) => Delivery {
            message: Some(Outbound::Photo { bytes, caption, markup }),
            delete_placeholder: true,
        },
        Ok(Reply::Background { .. }) => Delivery { message: None, delete_placeholder: true },
        Err(e) => Delivery {
            message: Some(Outbound::Text { text: warning(e.as_str()), markup: None }),
            delete_placeholder: true,
        },
    }
}

/// What is sent when a job's photo could not be delivered: the uniform
/// warning with the delivery error.
pub fn photo_failed(error: &str) -> (o: Outbound)
    ensures
        is_plain_text(o, warning_spec(error@)),
{
    Outbound::Text { text: warning(error), markup: None }
}

/// The metrics after a job finished; `failed` marks an error, a panic, or
/// a timeout.
pub open spec fn job_noted(m: MetricsView, failed: bool) -> MetricsView {
    MetricsView {
        jobs_active: usize_specs::wrapping_sub(m.jobs_active, 1),
        jobs_failed: if failed {
            u64_specs::wrapping_add(m.jobs_failed, 1)
        } else {
            m.jobs_failed
        },
        ..m
    }
}

/// Close a supervised job: its outcome (its own result, or an error for a
/// panic or a timeout), counted as finished and, unless it succeeded, as
/// failed.
pub fn finish_job<J>(metrics: &mut Metrics, end: JobEnd<J>) -> (r: Result<Reply<J>, String>)
    ensures
        final(metrics)@ == job_noted(old(metrics)@, r is Err),
        match end {
            JobEnd::Finished(x) => r == x,
            JobEnd::Panicked => r matches Err(e) && e@ == "background job panicked"@,
            JobEnd::TimedOut => r matches Err(e) && e@ == "background job timed out"@,
        },
{
    let r = job_outcome(end);
    let failed = r.is_err();
    metrics.job_finished(failed);
    r
}

// ---------------------------------------------------------------------------
// Handlers' results
// ---------------------------------------------------------------------------

/// What happens after a command's guard ran.
pub enum GuardStep<J> {
    /// Send this outcome instead of running the command.
    Dispatch(Result<Reply<J>, String>),
    /// Run the command.
    RunCommand,
}

/// What a guard decided: a reply of its own stops the command and is sent; an
/// error is sent as the outcome; otherwise the command runs and is counted
/// under its name.
pub fn after_guard<J>(metrics: &mut Metrics, name: &'static str, check: Result<Option<Reply<J>>, String>) -> (s:
    GuardStep<J>)
    ensures
        match check {
            Ok(Some(reply)) => s == GuardStep::Dispatch(Ok::<Reply<J>, String>(reply)) && final(metrics)@
                == old(metrics)@,
            Ok(None) => s is RunCommand && final(metrics)@ == (MetricsView {
                commands: bump_command(old(metrics)@.commands, name, false),
                ..old(metrics)@
            }),
            Err(e) => s == GuardStep::<J>::Dispatch(Err(e)) && final(metrics)@ == old(metrics)@,
        },
{
    match check {
        Ok(Some(reply)) => GuardStep::Dispatch(Ok(reply)),
        Ok(None) => {
            metrics.note_command_named(name);
            GuardStep::RunCommand
        },
        Err(e) => GuardStep::Dispatch(Err(e)),
    }
}

/// A command's result, counted as a failure of the named command when it
/// is an error; the result is then dispatched as it is.
pub fn after_command<J>(metrics: &mut Metrics, name: &'static str, result: Result<Reply<J>, String>) -> (r:
    Result<Reply<J>, String>)
    ensures
        r == result,
        final(metrics)@ == (if result is Err {
            MetricsView { commands: bump_command(old(metrics)@.commands, name, true), ..old(metrics)@ }
        } else {
            old(metrics)@
        }),
{
    if result.is_err() {
        metrics.note_command_error(name);
    }
    result
}

/// A free-form message handler's result: silence sends nothing; a reply
/// or an error is counted under `message` (an error also as a failure) and
/// dispatched.
pub fn after_message<J>(metrics: &mut Metrics, outcome: Result<Option<Reply<J>>, String>) -> (r: Option<
    Result<Reply<J>, String>,
>)
    ensures
        match outcome {
            Ok(Some(reply)) => r == Some(Ok::<Reply<J>, String>(reply)) && final(metrics)@ == (MetricsView {
                commands: bump_command(old(metrics)@.commands, "message", false),
                ..old(metrics)@
            }),
            Ok(None) => r is None && final(metrics)@ == old(metrics)@,
            Err(e) => r == Some(Err::<Reply<J>, String>(e)) && final(metrics)@ == (MetricsView {
                commands: bump_command(
                    bump_command(old(metrics)@.commands, "message", false),
                    "message",
                    true,
                ),
                ..old(metrics)@
            }),
        },
{
    match outcome {
        Ok(Some(reply)) => {
            metrics.note_command_named("message");
            Some(Ok(reply))
        },
        Ok(None) => None,
        Err(e) => {
            metrics.note_command_named("message");
            metrics.note_command_error("message");
            Some(Err(e))
        },
    }
}

/// The message a button tap came from: its chat and message ids, when
/// both are known (taps on inline-mode messages carry neither).
pub fn callback_target(req: &CallbackRequest) -> (r: Option<(i64, i32)>)
    ensures
        match (req.chat_id, req.message_id) {
            (Some(c), Some(m)) => r == Some((c, m)),
            _ => r is None,
        },
{
    match (req.chat_id, req.message_id) {
        (Some(c), Some(m)) => Some((c, m)),
        _ => None,
    }
}

/// What a button tap's reply turns into.
pub enum CallbackStep<J> {
    /// Edit the tapped message to this text.
    EditMessage { text: String },
    /// Send this reply through the send point.
    Dispatch(Reply<J>),
    /// Send this warning to the chat.
    Warn { text: String },
}

/// A callback handler's result: an edit rewrites the tapped message
/// (capped), another reply goes through the send point, an error is sent
/// as the uniform warning. The tap is acknowledged in every case.
pub fn after_callback<J>(outcome: Result<Reply<J>, String>) -> (s: CallbackStep<J>)
    ensures
        match outcome {
            Ok(Reply::Edit(block)) => s matches CallbackStep::EditMessage { text } && text@ == message_text(
                block@,
            ),
            Ok(reply) => s == CallbackStep::Dispatch(reply),
            Err(e) => s matches CallbackStep::Warn { text } && text@ == warning_spec(e@),
        },
{
    match outcome {
        Ok(Reply::Edit(block)) => CallbackStep::EditMessage { text: message_text_of(block) },
        Ok(reply) => CallbackStep::Dispatch(reply),
        Err(e) => CallbackStep::Warn { text: warning(e.as_str()) },
    }
}

/// An inline handler's result: its results, or none when it failed.
pub fn inline_results(outcome: Result<InlineAnswer, String>) -> (r: Vec<InlineResult>)
    ensures
        match outcome {
            Ok(a) => r == a.results,
            Err(_) => r@.len() == 0,
        },
{
    match outcome {
        Ok(a) => a.results,
        Err(_) => Vec::new(),
    }
}

/// The guard that never stops a command.
#[derive(Debug, Clone, Copy, Default)]
pub struct NoGuard;

impl NoGuard {
    /// Always proceeds.
    pub fn check<R>(&self) -> (r: Result<Option<R>, String>)
        ensures
            r matches Ok(None),
    {
        Ok(None)
    }
}

/// Guards compose left to right: the first guard's answer is final when
/// it stops the command (or fails); `None` asks the second guard.
pub fn after_first_guard<R>(first: Result<Option<R>, String>) -> (r: Option<Result<Option<R>, String>>)
    ensures
        match first {
            Ok(None) => r is None,
            _ => r == Some(first),
        },
{
    match first {
        Ok(None) => None,
        other => Some(other),
    }
}

/// Every job outcome's delivery cleans up the placeholder: it is replaced
/// by an edit, or deleted.
pub proof fn law_placeholder_always_cleaned_up<J>(outcome: Result<Reply<J>, String>, d: Delivery)
    requires
        delivery_spec(outcome, d),
    ensures
        d.delete_placeholder || d.message matches Some(Outbound::Edit { .. }),
{
}

/// Every error, on either path, reaches the chat as the uniform warning.
pub proof fn law_errors_render_as_warnings<J>(e: String, d: Dispatch<J>, del: Delivery)
    requires
        dispatch_spec(Err::<Reply<J>, String>(e), d),
        delivery_spec(Err::<Reply<J>, String>(e), del),
    ensures
        d matches Dispatch::Deliver(o) && is_plain_text(o, warning_spec(e@)),
        del.message matches Some(o) && is_plain_text(o, warning_spec(e@)),
{
}

} // verus!
