use telebots::config::Secret;
use telebots::inline::{InlineAnswer, InlineResult};
use telebots::markup::{Button, Markup};
use telebots::request::{mentions, message_text, CallbackRequest, ChatKind, InlineRequest, MessageRequest, Request};

#[test]
fn debug_redacts() {
    let secret = Secret::new("hunter2".to_string());
    assert_eq!(secret.redacted(), "<redacted>");
    assert_eq!(secret.expose(), "hunter2");
    assert_eq!(secret.into_inner(), "hunter2");
}

#[test]
fn from_str_constructs_string_secret() {
    let secret: Secret<String> = "tok".into();
    assert_eq!(secret.expose(), "tok");
}

#[test]
fn secret_converts_both_ways() {
    let secret: Secret<u32> = 7.into();
    assert_eq!(*secret.expose(), 7);
    let s: String = Secret::new("k".to_string()).into();
    assert_eq!(s, "k");
}

#[test]
fn message_message_request_new() {
    let req = MessageRequest::new("hello", 1, Some(42));
    assert_eq!(req.text, "hello");
    assert_eq!(req.request.chat_id, 1);
    assert_eq!(req.request.user_id, Some(42));
    assert!(!req.mentioned);
    assert!(!req.replied_to_bot);
    assert_eq!(req.request.chat_kind, ChatKind::Private);
}

#[test]
fn inline_request_new() {
    let req = InlineRequest::new("btc eth", Some(42));
    assert_eq!(req.query, "btc eth");
    assert_eq!(req.user_id, Some(42));
    assert_eq!(req.username, None);
}

#[test]
fn request_and_callback_request_new() {
    let req = Request::new(5, None);
    assert_eq!(req.chat_id, 5);
    assert_eq!(req.reply_to_message_id, None);
    let cb = CallbackRequest::new("refresh", Some(3), Some(9));
    assert_eq!(cb.data, "refresh");
    assert_eq!(cb.chat_id, Some(3));
    assert_eq!(cb.user_id, None);
    assert_eq!(cb.message_id, Some(9));
}

#[test]
fn empty_answer_is_default() {
    assert!(InlineAnswer::new().results.is_empty());
    assert!(InlineAnswer::default().results.is_empty());
}

#[test]
fn answers_collect_results_in_order() {
    let card = |id: &str| InlineResult::Article {
        id: id.to_string(),
        title: "t".to_string(),
        description: None,
        message: "m".to_string(),
    };
    let mut a = InlineAnswer::new().with(card("1"));
    a.push(card("2")).push(card("3"));
    let ids: Vec<String> = a
        .results
        .iter()
        .map(|r| match r {
            InlineResult::Article { id, .. } => id.clone(),
            _ => unreachable!(),
        })
        .collect();
    assert_eq!(ids, ["1", "2", "3"]);
}

#[test]
fn markup_rows_and_emptiness() {
    assert!(Markup::new().is_empty());
    assert!(Markup::new().row(vec![]).is_empty());
    let markup = Markup::new()
        .row(vec![Button::callback("Refresh", "refresh")])
        .row(vec![Button::callback("A", "a"), Button::callback("B", "b")]);
    assert!(!markup.is_empty());
    assert_eq!(markup.rows().len(), 2);
    assert_eq!(markup.rows()[0][0].text(), "Refresh");
    assert_eq!(markup.rows()[1][1].data(), "b");
}

#[test]
fn mentions_are_found_case_insensitively() {
    assert!(mentions("hey @DegenBot what's up", Some("degenbot")));
    assert!(mentions("HEY @degenbot", Some("DegenBot")));
    assert!(!mentions("hey degenbot", Some("degenbot")));
    assert!(!mentions("hey @degenbot", None));
}

#[test]
fn message_requests_from_updates() {
    let req = MessageRequest::from_update(
        Request::new(5, Some(7)),
        "@Bot price btc".to_string(),
        Some("bot"),
        Some(99),
        99,
    );
    assert!(req.mentioned);
    assert!(req.replied_to_bot);
    assert_eq!(req.text, "@Bot price btc");
    let other = MessageRequest::from_update(Request::new(5, None), "hi".to_string(), Some("bot"), Some(1), 99);
    assert!(!other.mentioned);
    assert!(!other.replied_to_bot);
    assert_eq!(message_text(None, Some("caption")), Some("caption"));
    assert_eq!(message_text(Some("text"), Some("caption")), Some("text"));
    assert_eq!(message_text(None, None), None);
}
