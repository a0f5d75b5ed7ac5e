//! The relay over time: what holds of every state that the dispatcher can reach, whatever
//! is read, stored, replayed and written, and in whatever order.

use crate::auth::acceptable_key;
use crate::codec::frame_of;
use crate::connection::{history_frames, ConnectionView};
use crate::registry::changed_at;
use crate::server::{table_after_event, table_after_store, ReadEventView};
use crate::store::{Message, MessageView};
use vstd::prelude::*;

verus! {

/// One thing that happens to the relay: each stands for one call of the dispatcher.
pub enum Step {
    /// A connection was accepted at `address`.
    Accept { address: u64 },
    /// The kept messages `history` were queued for the connection at `address`.
    Replay { address: u64, history: Seq<Message> },
    /// The read task of the connection at `address` reported `event`.
    Read { address: u64, event: ReadEventView },
    /// The store answered for `message`.
    Store { message: MessageView, stored: bool },
    /// The write task of the connection at `address` took a frame.
    Write { address: u64 },
}

/// The registry after one step.
pub open spec fn after(table: Map<u64, ConnectionView>, step: Step) -> Map<u64, ConnectionView> {
    match step {
        Step::Accept { address } => table.insert(address, ConnectionView::fresh()),
        Step::Replay { address, history } => changed_at(
            table,
            address,
            |connection: ConnectionView| connection.queue_all(history_frames(history)),
        ),
        Step::Read { address, event } => table_after_event(table, address, event),
        Step::Store { message, stored } => table_after_store(table, message, stored),
        Step::Write { address } => changed_at(
            table,
            address,
            |connection: ConnectionView| connection.advance(),
        ),
    }
}

/// The registry after `steps`, taken in their order from a relay without connections.
pub open spec fn after_all(steps: Seq<Step>) -> Map<u64, ConnectionView>
    decreases steps.len(),
{
    if steps.len() == 0 {
        Map::empty()
    } else {
        after(after_all(steps.drop_last()), steps.last())
    }
}

/// Whether `step` hands `frame` to connections: as the frame of a message that was
/// stored, or as one of a history.
pub open spec fn offers(step: Step, frame: Seq<char>) -> bool {
    match step {
        Step::Replay { history, .. } => history_frames(history).contains(frame),
        Step::Store { message, stored } => stored && frame == frame_of(message.packet()),
        _ => false,
    }
}

/// Whether one of `steps` hands `frame` to connections.
pub open spec fn offered(steps: Seq<Step>, frame: Seq<char>) -> bool {
    exists|k: int| 0 <= k < steps.len() && offers(#[trigger] steps[k], frame)
}

/// What holds of a connection after `steps`: its queue is within its capacity, its key,
/// if it has one, is acceptable, and every frame that waits for it was handed out by one
/// of the steps.
pub open spec fn sound(steps: Seq<Step>, connection: ConnectionView) -> bool {
    &&& connection.bounded()
    &&& connection.key matches Some(pem) ==> acceptable_key(pem)
    &&& forall|i: int|
        0 <= i < connection.outbound.len() ==> offered(steps, #[trigger] connection.outbound[i])
}

/// What was handed out by some steps was handed out by those steps and one more.
proof fn lemma_offered_grows(steps: Seq<Step>, frame: Seq<char>)
    requires
        steps.len() > 0,
        offered(steps.drop_last(), frame),
    ensures
        offered(steps, frame),
{
    let k = choose|k: int|
        0 <= k < steps.drop_last().len() && offers(#[trigger] steps.drop_last()[k], frame);
    assert(steps[k] == steps.drop_last()[k]);
}

/// A connection that was sound before the last step, and that the last step has left
/// alone, is sound after it.
proof fn lemma_sound_grows(steps: Seq<Step>, connection: ConnectionView)
    requires
        steps.len() > 0,
        sound(steps.drop_last(), connection),
    ensures
        sound(steps, connection),
{
    assert forall|i: int| 0 <= i < connection.outbound.len() implies offered(
        steps,
        #[trigger] connection.outbound[i],
    ) by {
        lemma_offered_grows(steps, connection.outbound[i]);
    }
}

/// Nothing reaches a client but what was stored or replayed: after any steps, every
/// connection holds at most as many frames as its queue has room for, has no key but
/// an acceptable one, and has no frame waiting that is not the frame of a message that
/// the store has taken or given back. No frame read from a client is queued as it
/// came, and no message that the store refused is queued at all.
pub proof fn lemma_every_state_is_sound(steps: Seq<Step>, address: u64)
    requires
        after_all(steps).contains_key(address),
    ensures
        sound(steps, after_all(steps)[address]),
    decreases steps.len(),
{
    if steps.len() > 0 {
        let earlier = steps.drop_last();
        let before = after_all(earlier);
        let last = steps.last();
        let now = after_all(steps)[address];
        if before.contains_key(address) {
            lemma_every_state_is_sound(earlier, address);
            lemma_sound_grows(steps, before[address]);
        }
        assert forall|i: int| 0 <= i < now.outbound.len() implies offered(
            steps,
            #[trigger] now.outbound[i],
        ) by {
            // A frame that did not wait before the last step was queued by it.
            if !before.contains_key(address) || i >= before[address].outbound.len() {
                assert(offers(last, now.outbound[i]));
            }
        }
    }
}

/// Whether the store has answered for checked messages only: each message of a `Store`
/// step bears the signature of its text under the key that it names. The dispatcher
/// takes the store's answer for no other kind of message.
pub open spec fn checked(steps: Seq<Step>) -> bool {
    forall|k: int|
        0 <= k < steps.len() ==> (#[trigger] steps[k] matches Step::Store { message, .. }
            ==> message.signed())
}

/// No message reaches a client unchecked: a frame that waits for a connection is the
/// frame of a message from a history, or of a message that was stored and that is signed
/// by the key that it names.
pub proof fn lemma_no_unsigned_message_waits(steps: Seq<Step>, address: u64, i: int)
    requires
        checked(steps),
        after_all(steps).contains_key(address),
        0 <= i < after_all(steps)[address].outbound.len(),
    ensures
        exists|k: int|
            0 <= k < steps.len() && match #[trigger] steps[k] {
                Step::Replay { history, .. } => history_frames(history).contains(
                    after_all(steps)[address].outbound[i],
                ),
                Step::Store { message, stored } => stored && message.signed() && after_all(
                    steps,
                )[address].outbound[i] == frame_of(message.packet()),
                _ => false,
            },
{
    lemma_every_state_is_sound(steps, address);
    let frame = after_all(steps)[address].outbound[i];
    let k = choose|k: int| 0 <= k < steps.len() && offers(#[trigger] steps[k], frame);
    assert(offers(steps[k], frame));
}

} // verus!
