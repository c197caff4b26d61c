use telebots::blocks::Block;
use telebots::dispatch::{
    after_callback, after_command, after_first_guard, after_guard, after_message, callback_target, deliver,
    dispatch, finish_job, inline_results, photo_failed, warning, CallbackStep, Dispatch, GuardStep, NoGuard,
    Outbound,
};
use telebots::inline::{InlineAnswer, InlineResult};
use telebots::markup::{Button, Markup};
use telebots::metrics::Metrics;
use telebots::reply::{job_outcome, JobCtx, JobEnd, Reply, MAX_CAPTION_LEN, MAX_MESSAGE_LEN};
use telebots::request::CallbackRequest;

/// A job as these tests carry it: just a label.
type Job = &'static str;

fn block(text: &str) -> Block {
    let mut b = Block::new();
    b.line(text);
    b
}

fn text_of(o: &Outbound) -> &str {
    match o {
        Outbound::Text { text, .. } => text,
        Outbound::Edit { text } => text,
        Outbound::Photo { .. } => panic!("expected text"),
    }
}

#[test]
fn caption_capped_at_telegram_limit() {
    let long = "x".repeat(MAX_CAPTION_LEN + 10);
    let capped = Reply::<Job>::cap_caption(long);
    assert!(capped.chars().count() <= MAX_CAPTION_LEN);
    assert!(capped.ends_with('…'));

    let short = "ok".to_string();
    assert_eq!(Reply::<Job>::cap_caption(short), "ok");
}

#[test]
fn caption_at_the_limit_is_kept() {
    let exact = "y".repeat(MAX_CAPTION_LEN);
    assert_eq!(Reply::<Job>::cap_caption(exact.clone()), exact);
    let over = "é".repeat(MAX_CAPTION_LEN + 1);
    let capped = Reply::<Job>::cap_caption(over);
    assert_eq!(capped.chars().count(), MAX_CAPTION_LEN);
    assert_eq!(capped.chars().filter(|c| *c == 'é').count(), MAX_CAPTION_LEN - 1);
}

#[test]
fn text_can_carry_markup() {
    let markup = Markup::new().row(vec![Button::callback("Go", "go")]);
    let reply = Reply::<Job>::text(block("hi")).with_markup(markup);
    match reply {
        Reply::Text { markup: Some(markup), .. } => assert!(!markup.is_empty()),
        _ => panic!("expected text reply with markup"),
    }
}

#[test]
fn markup_leaves_edits_alone() {
    let markup = Markup::new().row(vec![Button::callback("Go", "go")]);
    let reply = Reply::<Job>::Edit(block("hi")).with_markup(markup);
    assert!(matches!(reply, Reply::Edit(_)));
    let photo = Reply::<Job>::photo(vec![1, 2], Some("cap".into()))
        .with_markup(Markup::new().row(vec![Button::callback("A", "a")]));
    match photo {
        Reply::Photo { bytes, caption, markup: Some(_) } => {
            assert_eq!(bytes, vec![1, 2]);
            assert_eq!(caption.as_deref(), Some("cap"));
        }
        _ => panic!("expected photo with markup"),
    }
}

#[test]
fn dispatch_sends_text() {
    let mut metrics = Metrics::new("test", "0.1.0");
    let d = dispatch(&mut metrics, 100, Ok(Reply::<Job>::text(block("hello"))));
    match d {
        Dispatch::Deliver(o) => assert_eq!(text_of(&o), "hello"),
        _ => panic!("expected a message"),
    }
    assert_eq!(metrics.health_at(100, 0).commands_total, 1);
}

#[test]
fn dispatch_renders_errors() {
    let mut metrics = Metrics::new("test", "0.1.0");
    let d = dispatch::<Job>(&mut metrics, 100, Err("boom".to_string()));
    match d {
        Dispatch::Deliver(Outbound::Text { text, markup: None }) => assert_eq!(text, "⚠️ boom"),
        _ => panic!("expected the warning"),
    }
}

#[test]
fn dispatch_caps_long_text_and_sends_edits_as_text() {
    let mut metrics = Metrics::new("test", "0.1.0");
    let mut big = Block::new();
    for _ in 0..100 {
        big.line(&"z".repeat(60));
    }
    let d = dispatch(&mut metrics, 1, Ok(Reply::<Job>::Edit(big)));
    match d {
        Dispatch::Deliver(Outbound::Text { text, markup: None }) => {
            assert!(text.chars().count() <= MAX_MESSAGE_LEN);
            assert!(text.ends_with('…'));
        }
        _ => panic!("expected capped text"),
    }
}

#[test]
fn background_job_delivers_and_cleans_up() {
    let mut metrics = Metrics::new("test", "0.1.0");
    let mut sent: Vec<String> = Vec::new();
    let d = dispatch(
        &mut metrics,
        1,
        Ok(Reply::Background { placeholder: "working…".to_string(), job: "generate" }),
    );
    let job = match d {
        Dispatch::StartJob { placeholder, job } => {
            sent.push(placeholder);
            job
        }
        _ => panic!("expected a job"),
    };
    assert_eq!(job, "generate");
    let ctx = JobCtx::new(1, Some(42));
    assert_eq!(ctx.user_id, Some(42));
    metrics.job_started();
    let outcome = finish_job(&mut metrics, JobEnd::Finished(Ok(Reply::<Job>::text(block("done")))));
    let delivery = deliver(outcome);
    sent.push(text_of(delivery.message.as_ref().unwrap()).to_string());
    assert!(delivery.delete_placeholder);
    assert_eq!(sent, vec!["working…".to_string(), "done".to_string()]);
    let h = metrics.health_at(1, 0);
    assert_eq!(h.jobs_active, 0);
    assert_eq!(h.jobs_failed_total, 0);
}

#[test]
fn edits_replace_the_placeholder() {
    let delivery = deliver(Ok(Reply::<Job>::Edit(block("final"))));
    assert!(!delivery.delete_placeholder);
    match delivery.message {
        Some(Outbound::Edit { text }) => assert_eq!(text, "final"),
        _ => panic!("expected an edit"),
    }
    let nothing = deliver(Ok(Reply::<Job>::Background { placeholder: "p".into(), job: "j" }));
    assert!(nothing.message.is_none());
    assert!(nothing.delete_placeholder);
}

#[test]
fn job_outcome_maps_timeout_and_panic() {
    match job_outcome::<Job>(JobEnd::Finished(Err("boom".to_string()))) {
        Err(e) => assert_eq!(e, "boom"),
        Ok(_) => panic!("expected the job's error"),
    }
    let msg = job_outcome::<Job>(JobEnd::TimedOut).err().unwrap();
    assert!(msg.contains("timed out"));
    let msg = job_outcome::<Job>(JobEnd::Panicked).err().unwrap();
    assert!(msg.contains("panicked"));
}

#[test]
fn failed_jobs_are_counted_and_reported() {
    let mut metrics = Metrics::new("test", "0.1.0");
    metrics.job_started();
    let outcome = finish_job::<Job>(&mut metrics, JobEnd::TimedOut);
    let delivery = deliver(outcome);
    assert_eq!(text_of(delivery.message.as_ref().unwrap()), "⚠️ background job timed out");
    assert!(delivery.delete_placeholder);
    let h = metrics.health_at(1, 0);
    assert_eq!(h.jobs_active, 0);
    assert_eq!(h.jobs_failed_total, 1);
    assert_eq!(text_of(&photo_failed("too big")), "⚠️ too big");
}

#[test]
fn no_guard_proceeds() {
    assert!(NoGuard.check::<Reply<Job>>().unwrap().is_none());
}

#[test]
fn tuples_short_circuit_left_to_right() {
    // First blocks: the second never runs.
    let stop: Result<Option<&str>, String> = Ok(Some("blocked"));
    assert_eq!(after_first_guard(stop), Some(Ok(Some("blocked"))));
    // First proceeds: the second decides.
    let go: Result<Option<&str>, String> = Ok(None);
    assert_eq!(after_first_guard(go), None);
    // A failing guard stops too.
    let fail: Result<Option<&str>, String> = Err("nope".into());
    assert_eq!(after_first_guard(fail), Some(Err("nope".to_string())));
}

#[test]
fn guard_and_command_results_are_counted() {
    let mut metrics = Metrics::new("test", "0.1.0");
    match after_guard::<Job>(&mut metrics, "price", Ok(None)) {
        GuardStep::RunCommand => {}
        _ => panic!("expected the command to run"),
    }
    let result = after_command::<Job>(&mut metrics, "price", Err("down".into()));
    assert!(result.is_err());
    let c = metrics.health_at(1, 0).command("price").unwrap();
    assert_eq!((c.total, c.errors), (1, 1));

    match after_guard::<Job>(&mut metrics, "price", Ok(Some(Reply::text(block("slow down"))))) {
        GuardStep::Dispatch(Ok(Reply::Text { .. })) => {}
        _ => panic!("expected the guard's reply"),
    }
    assert_eq!(metrics.health_at(1, 0).command("price").unwrap().total, 1);
}

#[test]
fn message_results_are_counted_under_message() {
    let mut metrics = Metrics::new("test", "0.1.0");
    assert!(after_message::<Job>(&mut metrics, Ok(None)).is_none());
    assert!(metrics.health_at(1, 0).command("message").is_none());
    let r = after_message::<Job>(&mut metrics, Err("bad".into()));
    assert!(matches!(r, Some(Err(_))));
    let c = metrics.health_at(1, 0).command("message").unwrap();
    assert_eq!((c.total, c.errors), (1, 1));
}

#[test]
fn callbacks_edit_dispatch_or_warn() {
    assert_eq!(callback_target(&CallbackRequest::new("x", Some(5), Some(9))), Some((5, 9)));
    assert_eq!(callback_target(&CallbackRequest::new("x", None, Some(9))), None);
    match after_callback::<Job>(Ok(Reply::Edit(block("new")))) {
        CallbackStep::EditMessage { text } => assert_eq!(text, "new"),
        _ => panic!("expected an edit"),
    }
    assert!(matches!(
        after_callback::<Job>(Ok(Reply::text(block("t")))),
        CallbackStep::Dispatch(Reply::Text { .. })
    ));
    match after_callback::<Job>(Err("oops".into())) {
        CallbackStep::Warn { text } => assert_eq!(text, "⚠️ oops"),
        _ => panic!("expected a warning"),
    }
}

#[test]
fn failed_inline_queries_show_nothing() {
    let answer = InlineAnswer::new().with(InlineResult::Article {
        id: "btc".into(),
        title: "Bitcoin".into(),
        description: None,
        message: "card".into(),
    });
    assert_eq!(inline_results(Ok(answer)).len(), 1);
    assert!(inline_results(Err("down".into())).is_empty());
    assert_eq!(warning("x"), "⚠️ x");
}
