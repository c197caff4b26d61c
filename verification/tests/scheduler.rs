use telebots::blocks::Block;
use telebots::scheduler::{DeliveryRound, SchedAction, ScheduledMessage};

fn item(id: i64, chat_id: i64, text: &str) -> ScheduledMessage {
    let mut block = Block::new();
    block.line(text);
    ScheduledMessage { id, chat_id, block }
}

/// Run a round against a transport whose sends succeed unless the chat is
/// listed in `failing`; returns what was sent and what was marked.
fn run(items: Vec<ScheduledMessage>, failing: &[i64]) -> (Vec<(i64, String)>, Vec<i64>) {
    let mut sent = Vec::new();
    let mut delivered = Vec::new();
    let mut round = DeliveryRound::new(items);
    let mut action = round.start();
    loop {
        action = match action {
            SchedAction::Send { chat_id, text } => {
                let ok = !failing.contains(&chat_id);
                if ok {
                    sent.push((chat_id, text));
                }
                round.on_sent(ok)
            }
            SchedAction::MarkDelivered { id } => {
                delivered.push(id);
                round.on_marked()
            }
            SchedAction::Done => break,
        };
    }
    (sent, delivered)
}

#[test]
fn run_once_sends_and_marks_delivered() {
    let (sent, delivered) = run(vec![item(7, 1, "hello")], &[]);
    assert_eq!(sent, vec![(1, "hello".to_string())]);
    assert_eq!(delivered, vec![7]);
}

#[test]
fn failed_sends_stay_due() {
    let items = vec![item(1, 10, "a"), item(2, 20, "b"), item(3, 30, "c")];
    let (sent, delivered) = run(items, &[20]);
    assert_eq!(sent, vec![(10, "a".to_string()), (30, "c".to_string())]);
    assert_eq!(delivered, vec![1, 3]);
}

#[test]
fn nothing_due_finishes_at_once() {
    let mut round = DeliveryRound::new(Vec::new());
    assert!(matches!(round.start(), SchedAction::Done));
}

#[test]
fn scheduled_text_is_capped() {
    let mut block = Block::new();
    for _ in 0..200 {
        block.line(&"w".repeat(40));
    }
    let (sent, _) = run(vec![ScheduledMessage { id: 1, chat_id: 5, block }], &[]);
    assert!(sent[0].1.chars().count() <= 4096);
}
