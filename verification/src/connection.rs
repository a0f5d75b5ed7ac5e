//! One live connection as the relay sees it: its address, what it has proved of
//! itself, and the frames that wait to be written to it.

use crate::auth::{
    acceptable_key, key_after_handshake, signed_by, verdict, AuthError, AuthState, KeyError,
    VerifiedMessage,
};
use crate::codec::{frame_of, MessagePacket, Packet};
use crate::store::{Message, MessageView};
use std::collections::VecDeque;
use vstd::prelude::*;

verus! {

/// The number of frames that can wait for one connection.
pub const OUTBOUND_CAPACITY: usize = 16;

/// A connection as plain values: its key, and the frames that wait, oldest first.
pub struct ConnectionView {
    pub key: Option<Seq<u8>>,
    pub outbound: Seq<Seq<char>>,
}

/// A queue after an attempt to add `frame` at its end: a full queue stays as it is, and
/// the frame is lost.
pub open spec fn enqueued(queue: Seq<Seq<char>>, frame: Seq<char>) -> Seq<Seq<char>> {
    if queue.len() < OUTBOUND_CAPACITY {
        queue.push(frame)
    } else {
        queue
    }
}

/// A queue after an attempt to add each of `frames` in turn: those that find room are
/// added in their order, the others are lost.
pub open spec fn enqueued_all(queue: Seq<Seq<char>>, frames: Seq<Seq<char>>) -> Seq<Seq<char>> {
    let room = OUTBOUND_CAPACITY - queue.len();
    if room <= 0 {
        queue
    } else if frames.len() <= room {
        queue + frames
    } else {
        queue + frames.take(room)
    }
}

/// The frames that carry `history` to a client, in the order of `history`.
pub open spec fn history_frames(history: Seq<Message>) -> Seq<Seq<char>> {
    history.map_values(|message: Message| frame_of(message@.packet()))
}

/// Adding one frame more to those that were offered is adding it to the queue that
/// they have left.
pub proof fn lemma_enqueued_all_step(queue: Seq<Seq<char>>, frames: Seq<Seq<char>>, i: int)
    requires
        0 <= i < frames.len(),
    ensures
        enqueued_all(queue, frames.take(i + 1)) == enqueued(
            enqueued_all(queue, frames.take(i)),
            frames[i],
        ),
{
}

/// A queue is served in the order of arrival: what was offered to it stands behind what
/// waited before, in the order of the offer, and is a part of the offer without gaps.
pub proof fn lemma_enqueued_all_keeps_order(queue: Seq<Seq<char>>, frames: Seq<Seq<char>>)
    ensures
        queue.is_prefix_of(enqueued_all(queue, frames)),
        enqueued_all(queue, frames).skip(queue.len() as int).is_prefix_of(frames),
        queue.len() + frames.len() <= OUTBOUND_CAPACITY ==> enqueued_all(queue, frames) == queue
            + frames,
{
}

/// What is offered later stands behind what was offered earlier: offering `first` and
/// then `second` is offering the two in a row. So a history that is queued before, or
/// between, live frames keeps its own order among them.
pub proof fn lemma_enqueued_all_in_turn(
    queue: Seq<Seq<char>>,
    first: Seq<Seq<char>>,
    second: Seq<Seq<char>>,
)
    ensures
        enqueued_all(enqueued_all(queue, first), second) == enqueued_all(queue, first + second),
{
}

impl ConnectionView {
    /// A connection that has sent no handshake and has nothing waiting.
    pub open spec fn fresh() -> ConnectionView {
        ConnectionView { key: None, outbound: Seq::empty() }
    }

    /// This connection after an attempt to queue `frame`.
    pub open spec fn queue(self, frame: Seq<char>) -> ConnectionView {
        ConnectionView { key: self.key, outbound: enqueued(self.outbound, frame) }
    }

    /// This connection after an attempt to queue each of `frames` in turn.
    pub open spec fn queue_all(self, frames: Seq<Seq<char>>) -> ConnectionView {
        ConnectionView { key: self.key, outbound: enqueued_all(self.outbound, frames) }
    }

    /// This connection after a handshake with `pem`.
    pub open spec fn handshake(self, pem: Seq<u8>) -> ConnectionView {
        ConnectionView { key: key_after_handshake(self.key, pem), outbound: self.outbound }
    }

    /// This connection after its oldest waiting frame was taken.
    pub open spec fn advance(self) -> ConnectionView {
        ConnectionView {
            key: self.key,
            outbound: if self.outbound.len() > 0 {
                self.outbound.drop_first()
            } else {
                self.outbound
            },
        }
    }

    /// No more frames wait than the queue has room for.
    pub open spec fn bounded(self) -> bool {
        self.outbound.len() <= OUTBOUND_CAPACITY
    }
}

/// The state that the relay keeps for one connection.
pub struct Connection {
    address: u64,
    auth: AuthState,
    outbound: VecDeque<String>,
}

impl View for Connection {
    type V = ConnectionView;

    closed spec fn view(&self) -> ConnectionView {
        ConnectionView {
            key: self.auth@,
            outbound: self.outbound@.map_values(|frame: String| frame@),
        }
    }
}

impl Connection {
    /// What holds of every connection: no more frames wait than the queue has room for.
    pub open spec fn wf(&self) -> bool {
        self@.bounded()
    }

    /// The address that this connection was made with.
    pub closed spec fn spec_address(&self) -> u64 {
        self.address
    }

    /// A connection at `address` that has sent no handshake and has nothing waiting.
    pub fn new(address: u64) -> (connection: Connection)
        ensures
            connection.wf(),
            connection.spec_address() == address,
            connection@ == ConnectionView::fresh(),
    {
        let connection = Connection { address, auth: AuthState::new(), outbound: VecDeque::new() };
        assert(connection@.outbound =~= Seq::empty());
        connection
    }

    /// The address that this connection was made with.
    #[verifier::when_used_as_spec(spec_address)]
    pub fn address(&self) -> (address: u64)
        ensures
            address == self.spec_address(),
    {
        self.address
    }

    /// Queues `frame` for writing. Where the queue is full the frame is lost, and the
    /// caller is not told.
    pub(crate) fn queue_frame(&mut self, frame: String)
        requires
            old(self).wf(),
        ensures
            final(self).wf(),
            final(self).spec_address() == old(self).spec_address(),
            final(self)@ == old(self)@.queue(frame@),
    {
        if self.outbound.len() < OUTBOUND_CAPACITY {
            self.outbound.push_back(frame);
            assert(final(self)@.outbound =~= old(self)@.outbound.push(frame@));
        }
    }

    /// Queues the frame of `packet` for writing. Where the queue is full the packet is
    /// lost, and the caller is not told.
    pub fn queue_packet(&mut self, packet: &Packet)
        requires
            old(self).wf(),
        ensures
            final(self).wf(),
            final(self).spec_address() == old(self).spec_address(),
            final(self)@ == old(self)@.queue(frame_of(packet@)),
    {
        self.queue_frame(packet.network_encode());
    }

    /// Queues the packets that carry `history`, in the order of `history`. Those that
    /// find no room are lost.
    pub fn replay(&mut self, history: &Vec<Message>)
        requires
            old(self).wf(),
        ensures
            final(self).wf(),
            final(self).spec_address() == old(self).spec_address(),
            final(self)@ == old(self)@.queue_all(history_frames(history@)),
    {
        let ghost frames = history_frames(history@);
        let mut i: usize = 0;
        while i < history.len()
            invariant
                i <= history@.len(),
                frames == history_frames(history@),
                self.wf(),
                self.spec_address() == old(self).spec_address(),
                self@ == old(self)@.queue_all(frames.take(i as int)),
            decreases history@.len() - i,
        {
            let packet = history[i].packet();
            proof {
                lemma_enqueued_all_step(old(self)@.outbound, frames, i as int);
            }
            self.queue_packet(&packet);
            i = i + 1;
        }
        assert(frames.take(history@.len() as int) =~= frames);
    }

    /// Takes the frame that has waited longest, if any waits.
    pub fn next_outbound(&mut self) -> (frame: Option<String>)
        requires
            old(self).wf(),
        ensures
            final(self).wf(),
            final(self).spec_address() == old(self).spec_address(),
            final(self)@ == old(self)@.advance(),
            match frame {
                Some(frame) => old(self)@.outbound.len() > 0 && frame@ == old(self)@.outbound[0],
                None => old(self)@.outbound.len() == 0,
            },
    {
        let frame = self.outbound.pop_front();
        assert(final(self)@.outbound =~= old(self)@.advance().outbound);
        frame
    }

    /// The number of frames that wait.
    pub fn pending(&self) -> (count: usize)
        ensures
            count == self@.outbound.len(),
    {
        self.outbound.len()
    }

    /// Whether this connection has a public key.
    pub fn has_public_key(&self) -> (present: bool)
        ensures
            present == self@.key.is_some(),
    {
        self.auth.has_key()
    }

    /// Replaces the key of this connection by `pem` where `pem` is a PEM-encoded public
    /// key, and changes nothing where it is not.
    pub fn set_public_key(&mut self, pem: &[u8]) -> (result: Result<(), KeyError>)
        ensures
            final(self).wf() == old(self).wf(),
            final(self).spec_address() == old(self).spec_address(),
            final(self)@ == old(self)@.handshake(pem@),
            result is Ok <==> acceptable_key(pem@),
    {
        self.auth.set_public_key(pem)
    }

    /// Checks a chat message against the key of this connection. The message is taken
    /// where its signature is that of the bytes of its text under this key; a connection
    /// without a key has nothing taken.
    pub fn accept_message(&self, message: MessagePacket) -> (result: Result<
        VerifiedMessage,
        AuthError,
    >)
        ensures
            verdict(self@.key, message.content@, message.signature@) == match result {
                Ok(verified) => Ok::<MessageView, AuthError>(verified@),
                Err(error) => Err(error),
            },
    {
        self.auth.accept(message)
    }

    /// Whether `signature` is the signature of `data` under the key of this connection.
    /// A connection without a key has signed nothing.
    pub fn verify_signature(&self, data: &[u8], signature: &[u8]) -> (ok: bool)
        ensures
            ok == signed_by(self@.key, data@, signature@),
    {
        self.auth.verify(data, signature)
    }
}

} // verus!
