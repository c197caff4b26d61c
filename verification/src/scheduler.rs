//! Proactive delivery: one round of the periodic loop that sends the
//! messages a bot says are due. The round is a state machine; the caller
//! fetches the due items, performs each action it returns (send a message,
//! mark an item delivered) and reports how it went.
//!
//! An item is marked delivered only after its message reached Telegram;
//! an item whose send failed stays due and is retried on a later round.

use crate::blocks::{Block, LineView};
use crate::dispatch::{message_text, message_text_of};
use vstd::prelude::*;

verus! {

/// One message the scheduler must deliver.
#[derive(Debug, Clone)]
pub struct ScheduledMessage {
    /// Bot-defined id, passed back when the item is marked delivered.
    pub id: i64,
    /// Telegram chat to send the message to.
    pub chat_id: i64,
    /// The message body.
    pub block: Block,
}

/// What the caller does next.
#[derive(Debug)]
pub enum SchedAction {
    /// Send `text` to `chat_id`, then report with `on_sent`.
    Send { chat_id: i64, text: String },
    /// Mark item `id` delivered, then report with `on_marked`.
    MarkDelivered { id: i64 },
    /// The round is over.
    Done,
}

/// Where a round stands.
#[derive(Debug, Clone, Copy, PartialEq, Eq, Structural)]
pub enum Phase {
    /// Not started.
    Ready,
    /// The current item's message is being sent.
    Sending,
    /// The current item is being marked delivered.
    Marking,
    /// Every item was handled.
    Finished,
}

/// One round over the due items.
pub struct DeliveryRound {
    items: Vec<ScheduledMessage>,
    pos: usize,
    phase: Phase,
}

/// A due item as the round sees it: id, chat, body.
pub open spec fn item_view(m: ScheduledMessage) -> (i64, i64, Seq<LineView>) {
    (m.id, m.chat_id, m.block@)
}

/// What a round holds: the items, the current position, and the phase.
pub struct RoundView {
    pub items: Seq<(i64, i64, Seq<LineView>)>,
    pub pos: int,
    pub phase: Phase,
}

impl View for DeliveryRound {
    type V = RoundView;

    closed spec fn view(&self) -> RoundView {
        RoundView {
            items: self.items@.map_values(|m: ScheduledMessage| item_view(m)),
            pos: self.pos as int,
            phase: self.phase,
        }
    }
}

/// `a` sends item `i` of `items`: to its chat, as its capped text.
pub open spec fn sends_item(items: Seq<(i64, i64, Seq<LineView>)>, i: int, a: SchedAction) -> bool {
    a matches SchedAction::Send { chat_id, text } && chat_id == items[i].1 && text@ == message_text(items[i].2)
}

/// After moving to position `pos`: item `pos` is sent, or, past the last
/// item, the round is over.
pub open spec fn moved_to(r: RoundView, pos: int, a: SchedAction) -> bool {
    &&& r.pos == pos
    &&& if pos < r.items.len() {
        r.phase == Phase::Sending && sends_item(r.items, pos, a)
    } else {
        r.phase == Phase::Finished && a is Done
    }
}

impl DeliveryRound {
    /// A round over `items`, in the order given.
    pub fn new(items: Vec<ScheduledMessage>) -> (r: DeliveryRound)
        ensures
            r@.items == items@.map_values(|m: ScheduledMessage| item_view(m)),
            r@.pos == 0,
            r@.phase == Phase::Ready,
    {
        DeliveryRound { items, pos: 0, phase: Phase::Ready }
    }

    /// The action for position `pos`.
    fn move_to(&mut self, pos: usize) -> (a: SchedAction)
        requires
            pos <= old(self)@.items.len(),
        ensures
            final(self)@.items == old(self)@.items,
            moved_to(final(self)@, pos as int, a),
    {
        self.pos = pos;
        if pos < self.items.len() {
            self.phase = Phase::Sending;
            let item = &self.items[pos];
            let text = message_text_of(item.block.duplicate());
            SchedAction::Send { chat_id: item.chat_id, text }
        } else {
            self.phase = Phase::Finished;
            SchedAction::Done
        }
    }

    /// Start the round: send the first item, or finish at once when
    /// nothing is due.
    pub fn start(&mut self) -> (a: SchedAction)
        requires
            old(self)@.phase == Phase::Ready,
            old(self)@.pos == 0,
        ensures
            final(self)@.items == old(self)@.items,
            moved_to(final(self)@, 0, a),
    {
        self.move_to(0)
    }

    /// The current item's send finished: on success mark it delivered; on
    /// failure leave it due and send the next one.
    pub fn on_sent(&mut self, ok: bool) -> (a: SchedAction)
        requires
            old(self)@.phase == Phase::Sending,
            0 <= old(self)@.pos < old(self)@.items.len(),
        ensures
            final(self)@.items == old(self)@.items,
            ok ==> final(self)@.pos == old(self)@.pos && final(self)@.phase == Phase::Marking && a == (
            SchedAction::MarkDelivered { id: old(self)@.items[old(self)@.pos].0 }),
            !ok ==> moved_to(final(self)@, old(self)@.pos + 1, a),
    {
        proof {
            assert(self@.items[self.pos as int] == item_view(self.items@[self.pos as int]));
        }
        if ok {
            self.phase = Phase::Marking;
            SchedAction::MarkDelivered { id: self.items[self.pos].id }
        } else {
            assert(self.items@.len() == self@.items.len());
        assert(self.pos < self.items.len());
            let next = self.pos + 1;
            self.move_to(next)
        }
    }

    /// The current item was marked delivered (or marking failed, which
    /// leaves it due): send the next one.
    pub fn on_marked(&mut self) -> (a: SchedAction)
        requires
            old(self)@.phase == Phase::Marking,
            0 <= old(self)@.pos < old(self)@.items.len(),
        ensures
            final(self)@.items == old(self)@.items,
            moved_to(final(self)@, old(self)@.pos + 1, a),
    {
        assert(self.items@.len() == self@.items.len());
        assert(self.pos < self.items.len());
        let next = self.pos + 1;
        self.move_to(next)
    }
}

} // verus!
