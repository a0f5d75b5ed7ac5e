//! The dispatcher: the one place where frames from all connections are taken in turn,
//! checked, and turned into changes of the registry and orders for the message store.

use crate::auth::{acceptable_key, signed_by, verdict, AuthError, KeyError, VerifiedMessage};
use crate::codec::{
    frame_of, packet_in, split_frame, MessagePacket, Packet, PacketView, ProtocolError,
    ProtocolErrorView, ServerboundHandshake, HANDSHAKE_ID, MESSAGE_ID, SEPARATOR,
};
use crate::connection::{history_frames, Connection, ConnectionView};
use crate::crypto::signature_valid;
use crate::registry::{broadcast_to, changed_at, ConnectionRegistry};
use crate::store::{Message, MessageView};
use crate::trace::{after, Step};
use vstd::prelude::*;
use vstd::string::StringSliceAdditionalSpecFns;
use vstd::utf8::encode_utf8;

verus! {

/// Why something read from a connection had no effect.
#[derive(Debug, Clone, PartialEq, Eq)]
pub enum Rejection {
    /// No connection is registered under the address.
    UnknownConnection,
    /// What was read is not a text frame.
    NotText,
    /// The frame is not a packet.
    Protocol(ProtocolError),
    /// The handshake's key was not taken.
    Key(KeyError),
    /// The chat message was not taken.
    Auth(AuthError),
}

/// What the dispatcher made of something read from a connection.
#[derive(Debug, PartialEq, Eq)]
pub enum Reaction {
    /// Nothing has changed.
    Ignored(Rejection),
    /// The connection has a new key.
    KeyInstalled,
    /// A chat message was accepted. It is to be handed to the store, and the store's
    /// answer to `Server::complete_message`.
    Persist(VerifiedMessage),
    /// The connection is gone from the registry.
    Closed,
}

/// What the read task of a connection reports.
#[derive(Debug, Clone, PartialEq, Eq)]
pub enum ReadEvent {
    /// A text frame was read.
    Text(String),
    /// Something other than a text frame was read.
    NotText,
    /// The transport failed or came to its end.
    Closed,
}

/// A `Rejection` as plain values.
pub enum RejectionView {
    UnknownConnection,
    NotText,
    Protocol(ProtocolErrorView),
    Key(KeyError),
    Auth(AuthError),
}

/// A `Reaction` as plain values.
pub enum ReactionView {
    Ignored(RejectionView),
    KeyInstalled,
    Persist(MessageView),
    Closed,
}

/// A `ReadEvent` as plain values.
pub enum ReadEventView {
    Text(Seq<char>),
    NotText,
    Closed,
}

impl View for Rejection {
    type V = RejectionView;

    open spec fn view(&self) -> RejectionView {
        match self {
            Rejection::UnknownConnection => RejectionView::UnknownConnection,
            Rejection::NotText => RejectionView::NotText,
            Rejection::Protocol(error) => RejectionView::Protocol(error@),
            Rejection::Key(error) => RejectionView::Key(*error),
            Rejection::Auth(error) => RejectionView::Auth(*error),
        }
    }
}

impl View for Reaction {
    type V = ReactionView;

    open spec fn view(&self) -> ReactionView {
        match self {
            Reaction::Ignored(rejection) => ReactionView::Ignored(rejection@),
            Reaction::KeyInstalled => ReactionView::KeyInstalled,
            Reaction::Persist(message) => ReactionView::Persist(message@),
            Reaction::Closed => ReactionView::Closed,
        }
    }
}

impl View for ReadEvent {
    type V = ReadEventView;

    open spec fn view(&self) -> ReadEventView {
        match self {
            ReadEvent::Text(raw) => ReadEventView::Text(raw@),
            ReadEvent::NotText => ReadEventView::NotText,
            ReadEvent::Closed => ReadEventView::Closed,
        }
    }
}

/// What the dispatcher makes of a chat message from `sender`: it is accepted where the
/// sender has a key and the signature is that of the text's bytes under this key.
pub open spec fn reaction_to_message(
    sender: ConnectionView,
    content: Seq<char>,
    signature: Seq<u8>,
) -> ReactionView {
    match verdict(sender.key, content, signature) {
        Ok(message) => ReactionView::Persist(message),
        Err(error) => ReactionView::Ignored(RejectionView::Auth(error)),
    }
}

/// What the dispatcher makes of a handshake: the key is taken where its bytes are a
/// PEM-encoded public key.
pub open spec fn reaction_to_handshake(public_key: Seq<char>) -> ReactionView {
    if acceptable_key(encode_utf8(public_key)) {
        ReactionView::KeyInstalled
    } else {
        ReactionView::Ignored(RejectionView::Key(KeyError::InvalidEncoding))
    }
}

/// What the dispatcher makes of the frame `raw` from the connection at `address`.
pub open spec fn reaction_to_frame(
    table: Map<u64, ConnectionView>,
    address: u64,
    raw: Seq<char>,
) -> ReactionView {
    if !table.contains_key(address) {
        ReactionView::Ignored(RejectionView::UnknownConnection)
    } else {
        match packet_in(raw) {
            Err(error) => ReactionView::Ignored(RejectionView::Protocol(error)),
            Ok(PacketView::Handshake { public_key }) => reaction_to_handshake(public_key),
            Ok(PacketView::ChatMessage { content, signature }) => reaction_to_message(
                table[address],
                content,
                signature,
            ),
        }
    }
}

/// The registry after the frame `raw` from the connection at `address`: only a handshake
/// changes it, and only the key of its sender.
pub open spec fn table_after_frame(
    table: Map<u64, ConnectionView>,
    address: u64,
    raw: Seq<char>,
) -> Map<u64, ConnectionView> {
    match packet_in(raw) {
        Ok(PacketView::Handshake { public_key }) => changed_at(
            table,
            address,
            |connection: ConnectionView| connection.handshake(encode_utf8(public_key)),
        ),
        _ => table,
    }
}

/// What the dispatcher makes of `event` from the connection at `address`.
pub open spec fn reaction_to_event(
    table: Map<u64, ConnectionView>,
    address: u64,
    event: ReadEventView,
) -> ReactionView {
    if !table.contains_key(address) {
        ReactionView::Ignored(RejectionView::UnknownConnection)
    } else {
        match event {
            ReadEventView::Text(raw) => reaction_to_frame(table, address, raw),
            ReadEventView::NotText => ReactionView::Ignored(RejectionView::NotText),
            ReadEventView::Closed => ReactionView::Closed,
        }
    }
}

/// The registry after `event` from the connection at `address`.
pub open spec fn table_after_event(
    table: Map<u64, ConnectionView>,
    address: u64,
    event: ReadEventView,
) -> Map<u64, ConnectionView> {
    match event {
        ReadEventView::Text(raw) => table_after_frame(table, address, raw),
        ReadEventView::NotText => table,
        ReadEventView::Closed => table.remove(address),
    }
}

/// The registry after the store has answered for `message`: the message goes out to
/// every connection where it was stored, and to none where it was not.
pub open spec fn table_after_store(
    table: Map<u64, ConnectionView>,
    message: MessageView,
    stored: bool,
) -> Map<u64, ConnectionView> {
    if stored {
        broadcast_to(table, frame_of(message.packet()))
    } else {
        table
    }
}

/// A frame queues nothing: whatever is read from a connection, the same connections are
/// registered afterwards, the same frames wait for each of them, no connection but the
/// sender has changed at all, and no connection has lost its key.
pub proof fn lemma_frame_queues_nothing(
    table: Map<u64, ConnectionView>,
    address: u64,
    raw: Seq<char>,
    other: u64,
)
    requires
        table.contains_key(other),
    ensures
        table_after_frame(table, address, raw).dom() == table.dom(),
        table_after_frame(table, address, raw)[other].outbound == table[other].outbound,
        other != address ==> table_after_frame(table, address, raw)[other] == table[other],
        table[other].key is Some ==> table_after_frame(table, address, raw)[other].key is Some,
{
}

/// Whether `raw` is a chat message that the connection at `address` has signed with the
/// key that it has now.
pub open spec fn signed_message_from(
    table: Map<u64, ConnectionView>,
    address: u64,
    raw: Seq<char>,
) -> bool {
    table.contains_key(address) && match packet_in(raw) {
        Ok(PacketView::ChatMessage { content, signature }) => signed_by(
            table[address].key,
            encode_utf8(content),
            signature,
        ),
        _ => false,
    }
}

/// A chat message is handed to the store if and only if its sender is registered, has a
/// key, and the signature is that of the text's bytes under this very key. The message
/// that is handed on names that key.
pub proof fn lemma_persist_iff_signed(
    table: Map<u64, ConnectionView>,
    address: u64,
    raw: Seq<char>,
)
    ensures
        reaction_to_frame(table, address, raw) is Persist <==> signed_message_from(
            table,
            address,
            raw,
        ),
        reaction_to_frame(table, address, raw) matches ReactionView::Persist(message) ==> packet_in(
            raw,
        ) == Ok::<PacketView, ProtocolErrorView>(message.packet()) && table[address].key == Some(
            message.public_key,
        ),
{
}

/// A chat message from a connection without a key is dropped: nothing is handed to the
/// store, and the registry stays as it is.
pub proof fn lemma_message_without_key_is_dropped(
    table: Map<u64, ConnectionView>,
    address: u64,
    raw: Seq<char>,
)
    requires
        table.contains_key(address),
        table[address].key is None,
        packet_in(raw) matches Ok(PacketView::ChatMessage { .. }),
    ensures
        reaction_to_frame(table, address, raw) == ReactionView::Ignored(
            RejectionView::Auth(AuthError::NoKey),
        ),
        table_after_frame(table, address, raw) == table,
{
}

/// After a handshake with an acceptable key, a chat message of the same connection is
/// accepted if and only if it is signed with that key: a signature made with the key of
/// an earlier handshake, or with any other key, does not count.
pub proof fn lemma_message_is_checked_with_last_key(
    table: Map<u64, ConnectionView>,
    address: u64,
    handshake: Seq<char>,
    message: Seq<char>,
)
    requires
        table.contains_key(address),
        packet_in(handshake) matches Ok(PacketView::Handshake { public_key }) && acceptable_key(
            encode_utf8(public_key),
        ),
        packet_in(message) matches Ok(PacketView::ChatMessage { .. }),
    ensures
        reaction_to_frame(table, address, handshake) == ReactionView::KeyInstalled,
        ({
            let after = table_after_frame(table, address, handshake);
            let key = encode_utf8(packet_in(handshake)->Ok_0->public_key);
            let content = packet_in(message)->Ok_0->content;
            let signature = packet_in(message)->Ok_0->signature;
            reaction_to_frame(after, address, message) == if signature_valid(
                key,
                encode_utf8(content),
                signature,
            ) {
                ReactionView::Persist(MessageView { content, signature, public_key: key })
            } else {
                ReactionView::Ignored(RejectionView::Auth(AuthError::BadSignature))
            }
        }),
{
}

/// A frame with an identifier that no packet kind has is reported with that identifier
/// and changes nothing: the connection stays registered as it was.
pub proof fn lemma_unknown_identifier_is_dropped(
    table: Map<u64, ConnectionView>,
    address: u64,
    raw: Seq<char>,
)
    requires
        table.contains_key(address),
        split_frame(raw) matches Some((id, _)) && id != HANDSHAKE_ID@ && id != MESSAGE_ID@,
    ensures
        split_frame(raw) matches Some((id, _)) && reaction_to_frame(table, address, raw)
            == ReactionView::Ignored(
            RejectionView::Protocol(ProtocolErrorView::UnknownVariant(id)),
        ),
        table_after_frame(table, address, raw) == table,
{
}

/// A frame without a separator is reported as malformed and changes nothing.
pub proof fn lemma_malformed_frame_is_dropped(
    table: Map<u64, ConnectionView>,
    address: u64,
    raw: Seq<char>,
)
    requires
        table.contains_key(address),
        !raw.contains(SEPARATOR),
    ensures
        reaction_to_frame(table, address, raw) == ReactionView::Ignored(
            RejectionView::Protocol(ProtocolErrorView::Malformed),
        ),
        table_after_frame(table, address, raw) == table,
{
    raw.index_of_first_ensures(SEPARATOR);
}

/// The relay's state: the registry of its live connections.
pub struct Server {
    registry: ConnectionRegistry,
}

impl View for Server {
    type V = Map<u64, ConnectionView>;

    closed spec fn view(&self) -> Map<u64, ConnectionView> {
        self.registry@
    }
}

impl Server {
    /// What holds of every server: its registry is well formed.
    pub closed spec fn wf(&self) -> bool {
        self.registry.wf()
    }

    /// In a well-formed server no connection has more frames waiting than its queue has
    /// room for.
    pub proof fn lemma_bounded(&self, address: u64)
        requires
            self.wf(),
            self@.contains_key(address),
        ensures
            self@[address].bounded(),
    {
        self.registry.lemma_bounded(address);
    }

    /// A server without connections.
    pub fn new() -> (server: Server)
        ensures
            server.wf(),
            server@ == Map::<u64, ConnectionView>::empty(),
    {
        Server { registry: ConnectionRegistry::new() }
    }

    /// The registry of this server.
    pub fn registry(&self) -> (registry: &ConnectionRegistry)
        requires
            self.wf(),
        ensures
            registry.wf(),
            registry@ == self@,
    {
        &self.registry
    }

    /// Registers a connection that was accepted at `address`: it has no key, and
    /// nothing waits for it. A connection registered there before is replaced.
    pub fn accept(&mut self, address: u64)
        requires
            old(self).wf(),
        ensures
            final(self).wf(),
            final(self)@ == old(self)@.insert(address, ConnectionView::fresh()),
            final(self)@ == after(old(self)@, (Step::Accept { address })),
    {
        self.registry.insert(Connection::new(address));
    }

    /// Queues the messages of `history` for the connection at `address`, in the order
    /// of `history`: what a client is sent when it has joined. Tells whether such a
    /// connection is registered, not whether its queue had room.
    pub fn replay(&mut self, address: u64, history: &Vec<Message>) -> (present: bool)
        requires
            old(self).wf(),
        ensures
            final(self).wf(),
            present == old(self)@.contains_key(address),
            final(self)@ == changed_at(
                old(self)@,
                address,
                |connection: ConnectionView| connection.queue_all(history_frames(history@)),
            ),
            final(self)@ == after(old(self)@, (Step::Replay { address, history: history@ })),
    {
        self.registry.replay(address, history)
    }

    /// Takes the connection at `address` out of the registry, with all that waits for
    /// it. Tells whether there was one.
    pub fn disconnect(&mut self, address: u64) -> (present: bool)
        requires
            old(self).wf(),
        ensures
            final(self).wf(),
            present == old(self)@.contains_key(address),
            final(self)@ == old(self)@.remove(address),
            final(self)@ == after(
                old(self)@,
                (Step::Read { address, event: ReadEventView::Closed }),
            ),
    {
        self.registry.remove(address)
    }

    /// Checks a chat message from `sender`. The message is accepted where the sender has
    /// a key and the signature is that of the text's bytes under this key.
    pub fn handle_message(sender: &Connection, message: MessagePacket) -> (reaction: Reaction)
        ensures
            reaction@ == reaction_to_message(sender@, message.content@, message.signature@),
    {
        match sender.accept_message(message) {
            Ok(verified) => Reaction::Persist(verified),
            Err(error) => Reaction::Ignored(Rejection::Auth(error)),
        }
    }

    /// Hands the key of a handshake to the connection at `sender`.
    pub fn handle_serverbound_handshake(
        &mut self,
        sender: u64,
        handshake: ServerboundHandshake,
    ) -> (reaction: Reaction)
        requires
            old(self).wf(),
        ensures
            final(self).wf(),
            final(self)@ == changed_at(
                old(self)@,
                sender,
                |connection: ConnectionView| connection.handshake(encode_utf8(handshake.public_key@)),
            ),
            reaction@ == if old(self)@.contains_key(sender) {
                reaction_to_handshake(handshake.public_key@)
            } else {
                ReactionView::Ignored(RejectionView::UnknownConnection)
            },
    {
        match self.registry.set_public_key(sender, handshake.public_key.as_str().as_bytes()) {
            Some(Ok(())) => Reaction::KeyInstalled,
            Some(Err(error)) => Reaction::Ignored(Rejection::Key(error)),
            None => Reaction::Ignored(Rejection::UnknownConnection),
        }
    }

    /// Takes the text frame `raw` that was read from the connection at `client_address`.
    /// A handshake with a good key changes the key of its sender. A chat message changes
    /// nothing here: where it is accepted it is handed back for the store.
    pub fn packet_received(&mut self, client_address: u64, raw: &str) -> (reaction: Reaction)
        requires
            old(self).wf(),
        ensures
            final(self).wf(),
            reaction@ == reaction_to_frame(old(self)@, client_address, raw@),
            final(self)@ == table_after_frame(old(self)@, client_address, raw@),
            final(self)@ == after(
                old(self)@,
                (Step::Read { address: client_address, event: ReadEventView::Text(raw@) }),
            ),
    {
        if !self.registry.contains(client_address) {
            return Reaction::Ignored(Rejection::UnknownConnection);
        }
        match Packet::from_frame(raw) {
            Err(error) => Reaction::Ignored(Rejection::Protocol(error)),
            Ok(Packet::Handshake(handshake)) => self.handle_serverbound_handshake(
                client_address,
                handshake,
            ),
            Ok(Packet::ChatMessage(message)) => match self.registry.get(client_address) {
                Some(sender) => Server::handle_message(sender, message),
                None => Reaction::Ignored(Rejection::UnknownConnection),
            },
        }
    }

    /// Takes what the read task of the connection at `address` reports. A text frame is
    /// dispatched; anything else that was read is dropped; the end of the transport
    /// takes the connection out of the registry.
    pub fn read_event(&mut self, address: u64, event: &ReadEvent) -> (reaction: Reaction)
        requires
            old(self).wf(),
        ensures
            final(self).wf(),
            reaction@ == reaction_to_event(old(self)@, address, event@),
            final(self)@ == table_after_event(old(self)@, address, event@),
            final(self)@ == after(old(self)@, (Step::Read { address, event: event@ })),
    {
        if !self.registry.contains(address) {
            return Reaction::Ignored(Rejection::UnknownConnection);
        }
        match event {
            ReadEvent::Text(raw) => self.packet_received(address, raw.as_str()),
            ReadEvent::NotText => Reaction::Ignored(Rejection::NotText),
            ReadEvent::Closed => {
                self.registry.remove(address);
                Reaction::Closed
            },
        }
    }

    /// Takes the store's answer for a message that `packet_received` handed out. A
    /// message that was stored goes out to every connection, its sender among them; one
    /// that was not goes out to none.
    pub fn complete_message(&mut self, message: VerifiedMessage, stored: bool)
        requires
            old(self).wf(),
        ensures
            final(self).wf(),
            final(self)@ == table_after_store(old(self)@, message@, stored),
            final(self)@ == after(old(self)@, (Step::Store { message: message@, stored })),
            message@.signed(),
    {
        let kept = message.message();
        if stored {
            self.registry.broadcast(&kept.packet());
        }
    }

    /// Takes the frame that has waited longest for the connection at `address`, if there
    /// is such a connection and a frame waits for it.
    pub fn next_outbound(&mut self, address: u64) -> (frame: Option<String>)
        requires
            old(self).wf(),
        ensures
            final(self).wf(),
            final(self)@ == changed_at(
                old(self)@,
                address,
                |connection: ConnectionView| connection.advance(),
            ),
            final(self)@ == after(old(self)@, (Step::Write { address })),
            match frame {
                Some(frame) => old(self)@.contains_key(address) && old(self)@[address].outbound.len()
                    > 0 && frame@ == old(self)@[address].outbound[0],
                None => !old(self)@.contains_key(address) || old(self)@[address].outbound.len()
                    == 0,
            },
    {
        self.registry.next_outbound(address)
    }
}

} // verus!
