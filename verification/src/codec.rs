//! The wire format: one text frame is a packet identifier, a separator and a body.

use crate::json::{
    json_bytes_member, json_of_bytes, json_of_text, json_text_member, read_bytes_member,
    read_text_member, write_bytes, write_text,
};
use vstd::prelude::*;
use vstd::std_specs::iter::IteratorSpec;
use vstd::string::StringExecFns;

verus! {

/// The character that parts a packet's identifier from its body.
pub const SEPARATOR: char = '|';

/// Why a frame was not turned into a packet.
#[derive(Debug, Clone, PartialEq, Eq)]
pub enum ProtocolError {
    /// The frame holds no separator, or its body is not the JSON object that its
    /// identifier announces.
    Malformed,
    /// The frame is well formed, but no packet kind has this identifier.
    UnknownVariant(String),
}

/// What a `ProtocolError` says, with the identifier as a sequence of characters.
pub enum ProtocolErrorView {
    Malformed,
    UnknownVariant(Seq<char>),
}

impl View for ProtocolError {
    type V = ProtocolErrorView;

    open spec fn view(&self) -> ProtocolErrorView {
        match self {
            ProtocolError::Malformed => ProtocolErrorView::Malformed,
            ProtocolError::UnknownVariant(id) => ProtocolErrorView::UnknownVariant(id@),
        }
    }
}

/// The identifier and the body of a frame: what stands before the first separator, and
/// all that stands behind it. `None` where the frame holds no separator.
pub open spec fn split_frame(raw: Seq<char>) -> Option<(Seq<char>, Seq<char>)> {
    match raw.index_of_first(SEPARATOR) {
        Some(at) => Some((raw.take(at), raw.skip(at + 1))),
        None => None,
    }
}

/// The position of the first separator in `raw`, counted in characters.
fn separator_position(raw: &str, len: usize) -> (at: Option<usize>)
    requires
        len == raw@.len(),
    ensures
        at matches Some(i) ==> raw@.index_of_first(SEPARATOR) == Some(i as int),
        at is None ==> raw@.index_of_first(SEPARATOR) is None,
{
    let mut chars = raw.chars();
    let mut seen: usize = 0;
    loop
        invariant
            len == raw@.len(),
            seen <= len,
            chars.obeys_prophetic_iter_laws(),
            chars.remaining() == raw@.skip(seen as int),
            forall|j: int| 0 <= j < seen ==> raw@[j] != SEPARATOR,
        decreases len - seen,
    {
        match chars.next() {
            Some(c) => {
                if c == SEPARATOR {
                    proof {
                        raw@.index_of_first_ensures(SEPARATOR);
                    }
                    return Some(seen);
                }
                seen = seen + 1;
            },
            None => {
                proof {
                    raw@.index_of_first_ensures(SEPARATOR);
                }
                return None;
            },
        }
    }
}

/// Splits a frame at its first separator into the packet's identifier and its body.
/// The body may itself hold separators. A frame without a separator is malformed.
pub fn network_decode(raw: &str) -> (result: Result<(&str, &str), ProtocolError>)
    ensures
        match result {
            Ok((id, body)) => split_frame(raw@) == Some((id@, body@)) && raw@ == id@
                + seq![SEPARATOR] + body@ && !id@.contains(SEPARATOR),
            Err(e) => e == ProtocolError::Malformed && split_frame(raw@) is None
                && !raw@.contains(SEPARATOR),
        },
{
    let len = raw.unicode_len();
    proof {
        raw@.index_of_first_ensures(SEPARATOR);
        lemma_split_frame(raw@);
    }
    match separator_position(raw, len) {
        Some(at) => {
            let id = raw.substring_char(0, at);
            let body = raw.substring_char(at + 1, len);
            Ok((id, body))
        },
        None => Err(ProtocolError::Malformed),
    }
}

/// The identifier of a handshake on the wire.
pub const HANDSHAKE_ID: &'static str = "handshake";

/// The identifier of a chat message on the wire.
pub const MESSAGE_ID: &'static str = "message";

/// A client's opening packet: the public key that its later messages are checked with.
#[derive(Debug, Clone, PartialEq, Eq)]
pub struct ServerboundHandshake {
    /// The key, PEM-encoded.
    pub public_key: String,
}

/// One chat message with the signature of its author.
#[derive(Debug, Clone, PartialEq, Eq)]
pub struct MessagePacket {
    /// The text of the message.
    pub content: String,
    /// The signature over the bytes of `content`.
    pub signature: Vec<u8>,
}

/// All that can travel in a frame.
#[derive(Debug, Clone, PartialEq, Eq)]
pub enum Packet {
    /// From a client to the relay: the key of the client.
    Handshake(ServerboundHandshake),
    /// From a client to the relay, and from the relay to every client: a signed text.
    ChatMessage(MessagePacket),
}

/// A packet as plain values.
pub enum PacketView {
    Handshake { public_key: Seq<char> },
    ChatMessage { content: Seq<char>, signature: Seq<u8> },
}

impl View for ServerboundHandshake {
    type V = PacketView;

    open spec fn view(&self) -> PacketView {
        PacketView::Handshake { public_key: self.public_key@ }
    }
}

impl View for MessagePacket {
    type V = PacketView;

    open spec fn view(&self) -> PacketView {
        PacketView::ChatMessage { content: self.content@, signature: self.signature@ }
    }
}

impl View for Packet {
    type V = PacketView;

    open spec fn view(&self) -> PacketView {
        match self {
            Packet::Handshake(handshake) => handshake@,
            Packet::ChatMessage(message) => message@,
        }
    }
}

/// The identifier that a packet travels under.
pub open spec fn id_of(packet: PacketView) -> Seq<char> {
    match packet {
        PacketView::Handshake { .. } => HANDSHAKE_ID@,
        PacketView::ChatMessage { .. } => MESSAGE_ID@,
    }
}

/// The body of a packet: a JSON object with one member for each field.
pub open spec fn body_of(packet: PacketView) -> Seq<char> {
    match packet {
        PacketView::Handshake { public_key } => "{\"public_key\":"@ + json_of_text(public_key)
            + "}"@,
        PacketView::ChatMessage { content, signature } => "{\"content\":"@ + json_of_text(content)
            + ",\"signature\":"@ + json_of_bytes(signature) + "}"@,
    }
}

/// The frame of a packet: its identifier, the separator, its body.
pub open spec fn frame_of(packet: PacketView) -> Seq<char> {
    id_of(packet) + seq![SEPARATOR] + body_of(packet)
}

/// The name of the handshake's only member.
pub const PUBLIC_KEY_MEMBER: &'static str = "public_key";

/// The name of the member that holds a message's text.
pub const CONTENT_MEMBER: &'static str = "content";

/// The name of the member that holds a message's signature.
pub const SIGNATURE_MEMBER: &'static str = "signature";

/// The packet that an identifier and a body stand for. An identifier that no packet kind
/// has is reported as such, whatever the body holds.
pub open spec fn packet_of(id: Seq<char>, body: Seq<char>) -> Result<PacketView, ProtocolErrorView> {
    if id == HANDSHAKE_ID@ {
        match json_text_member(body, PUBLIC_KEY_MEMBER@) {
            Some(public_key) => Ok(PacketView::Handshake { public_key }),
            None => Err(ProtocolErrorView::Malformed),
        }
    } else if id == MESSAGE_ID@ {
        match (json_text_member(body, CONTENT_MEMBER@), json_bytes_member(body, SIGNATURE_MEMBER@)) {
            (Some(content), Some(signature)) => Ok(PacketView::ChatMessage { content, signature }),
            _ => Err(ProtocolErrorView::Malformed),
        }
    } else {
        Err(ProtocolErrorView::UnknownVariant(id))
    }
}

/// The packet that a frame stands for.
pub open spec fn packet_in(raw: Seq<char>) -> Result<PacketView, ProtocolErrorView> {
    match split_frame(raw) {
        Some((id, body)) => packet_of(id, body),
        None => Err(ProtocolErrorView::Malformed),
    }
}

/// The chat message that a frame brings to a client. Towards a client only chat messages
/// travel: any other identifier, that of a handshake too, is unknown there.
pub open spec fn clientbound_in(raw: Seq<char>) -> Result<PacketView, ProtocolErrorView> {
    match split_frame(raw) {
        Some((id, body)) => if id == MESSAGE_ID@ {
            packet_of(id, body)
        } else {
            Err(ProtocolErrorView::UnknownVariant(id))
        },
        None => Err(ProtocolErrorView::Malformed),
    }
}

/// The outcome of reading a packet, as plain values.
pub open spec fn outcome_view(outcome: Result<Packet, ProtocolError>) -> Result<
    PacketView,
    ProtocolErrorView,
> {
    match outcome {
        Ok(packet) => Ok(packet@),
        Err(error) => Err(error@),
    }
}

/// Whether two texts hold the same characters.
fn same_text(a: &str, b: &str) -> (same: bool)
    ensures
        same == (a@ == b@),
{
    let mut left = a.chars();
    let mut right = b.chars();
    let ghost mut seen: int = 0;
    loop
        invariant
            left.obeys_prophetic_iter_laws(),
            right.obeys_prophetic_iter_laws(),
            0 <= seen <= a@.len(),
            seen <= b@.len(),
            left.remaining() == a@.skip(seen),
            right.remaining() == b@.skip(seen),
            a@.take(seen) == b@.take(seen),
        decreases a@.len() - seen,
    {
        let x = left.next();
        let y = right.next();
        match (x, y) {
            (Some(x), Some(y)) => {
                if x != y {
                    return false;
                }
                proof {
                    seen = seen + 1;
                }
            },
            (None, None) => {
                assert(a@ == a@.take(seen));
                assert(b@ == b@.take(seen));
                return true;
            },
            _ => {
                return false;
            },
        }
    }
}

impl MessagePacket {
    /// Reads the chat message that the frame `raw` brings to a client.
    pub fn from_clientbound_frame(raw: &str) -> (outcome: Result<MessagePacket, ProtocolError>)
        ensures
            clientbound_in(raw@) == match outcome {
                Ok(message) => Ok::<PacketView, ProtocolErrorView>(message@),
                Err(error) => Err(error@),
            },
    {
        proof {
            lemma_identifiers_differ();
        }
        let (id, body) = match network_decode(raw) {
            Ok(parts) => parts,
            Err(error) => return Err(error),
        };
        if !same_text(id, MESSAGE_ID) {
            return Err(ProtocolError::UnknownVariant(id.to_owned()));
        }
        match Packet::from_parts(id, body) {
            Ok(Packet::ChatMessage(message)) => Ok(message),
            Ok(Packet::Handshake(_)) => Err(ProtocolError::Malformed),
            Err(error) => Err(error),
        }
    }
}

impl Packet {
    /// Reads the packet that the identifier `id` and the body `body` stand for.
    pub fn from_parts(id: &str, body: &str) -> (outcome: Result<Packet, ProtocolError>)
        ensures
            outcome_view(outcome) == packet_of(id@, body@),
    {
        if same_text(id, HANDSHAKE_ID) {
            match read_text_member(body, PUBLIC_KEY_MEMBER) {
                Some(public_key) => Ok(Packet::Handshake(ServerboundHandshake { public_key })),
                None => Err(ProtocolError::Malformed),
            }
        } else if same_text(id, MESSAGE_ID) {
            let content = read_text_member(body, CONTENT_MEMBER);
            let signature = read_bytes_member(body, SIGNATURE_MEMBER);
            match (content, signature) {
                (Some(content), Some(signature)) => Ok(
                    Packet::ChatMessage(MessagePacket { content, signature }),
                ),
                _ => Err(ProtocolError::Malformed),
            }
        } else {
            Err(ProtocolError::UnknownVariant(id.to_owned()))
        }
    }

    /// Reads the packet that the frame `raw` carries.
    pub fn from_frame(raw: &str) -> (outcome: Result<Packet, ProtocolError>)
        ensures
            outcome_view(outcome) == packet_in(raw@),
    {
        match network_decode(raw) {
            Ok((id, body)) => Packet::from_parts(id, body),
            Err(error) => Err(error),
        }
    }

    /// The identifier that this packet travels under.
    pub fn id(&self) -> (id: &'static str)
        ensures
            id@ == id_of(self@),
    {
        match self {
            Packet::Handshake(_) => HANDSHAKE_ID,
            Packet::ChatMessage(_) => MESSAGE_ID,
        }
    }

    /// The body of this packet, as JSON.
    pub fn body(&self) -> (body: String)
        ensures
            body@ == body_of(self@),
    {
        match self {
            Packet::Handshake(handshake) => {
                let mut body = String::from_str("{\"public_key\":");
                let key = write_text(handshake.public_key.as_str());
                body.append(key.as_str());
                body.append("}");
                body
            },
            Packet::ChatMessage(message) => {
                let mut body = String::from_str("{\"content\":");
                let content = write_text(message.content.as_str());
                body.append(content.as_str());
                body.append(",\"signature\":");
                let signature = write_bytes(message.signature.as_slice());
                body.append(signature.as_str());
                body.append("}");
                body
            },
        }
    }

    /// The frame that carries this packet.
    pub fn network_encode(&self) -> (frame: String)
        ensures
            frame@ == frame_of(self@),
    {
        let mut frame = String::from_str(self.id());
        let body = self.body();
        proof {
            reveal_strlit("|");
        }
        frame.append("|");
        frame.append(body.as_str());
        frame
    }
}

/// The two identifiers are not the same.
pub proof fn lemma_identifiers_differ()
    ensures
        HANDSHAKE_ID@ != MESSAGE_ID@,
{
    reveal_strlit("handshake");
    reveal_strlit("message");
    assert(HANDSHAKE_ID@.len() == 9 && MESSAGE_ID@.len() == 7);
}

/// No identifier holds the separator.
pub proof fn lemma_id_has_no_separator(packet: PacketView)
    ensures
        !id_of(packet).contains(SEPARATOR),
{
    reveal_strlit("handshake");
    reveal_strlit("message");
}

/// What `split_frame` gives, said without positions: the frame is the identifier, the
/// separator and the body, and the identifier holds no separator. A frame is not split
/// only where it holds no separator at all.
pub proof fn lemma_split_frame(raw: Seq<char>)
    ensures
        match split_frame(raw) {
            Some((id, body)) => raw == id + seq![SEPARATOR] + body && !id.contains(SEPARATOR),
            None => !raw.contains(SEPARATOR),
        },
{
    raw.index_of_first_ensures(SEPARATOR);
}

/// An identifier without a separator, the separator and a body make a frame that is
/// split into just these two, whatever the body holds.
pub proof fn lemma_split_frame_joined(id: Seq<char>, body: Seq<char>)
    requires
        !id.contains(SEPARATOR),
    ensures
        split_frame(id + seq![SEPARATOR] + body) == Some((id, body)),
{
    let frame = id + seq![SEPARATOR] + body;
    frame.index_of_first_ensures(SEPARATOR);
    assert(frame[id.len() as int] == SEPARATOR);
}

/// Decoding undoes encoding: splitting the frame of a packet gives the packet's
/// identifier and its body.
pub proof fn lemma_decode_undoes_encode(packet: PacketView)
    ensures
        split_frame(frame_of(packet)) == Some((id_of(packet), body_of(packet))),
        packet_in(frame_of(packet)) == packet_of(id_of(packet), body_of(packet)),
{
    lemma_id_has_no_separator(packet);
    lemma_split_frame_joined(id_of(packet), body_of(packet));
}

} // verus!
