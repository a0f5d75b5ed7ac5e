//! What the relay hands to the message store, and takes back from it on replay.

use crate::codec::{MessagePacket, Packet, PacketView};
use crate::crypto::signature_valid;
use vstd::prelude::*;
use vstd::utf8::encode_utf8;

verus! {

/// The form of the timestamps that name a kept message: date, time with an optional
/// fraction of a second, and the offset from UTC.
pub const TIMESTAMP_FORMAT: &'static str = "%Y-%m-%d %H:%M:%S%.f%z";

/// The instant that `chrono` reads from `text` by the format `format`, in milliseconds
/// since the first of January 1970, UTC: `None` where `text` is not of that form.
pub uninterp spec fn timestamp_millis(text: Seq<char>, format: Seq<char>) -> Option<i64>;

/// Calls `chrono::DateTime::parse_from_str`, moves the result to UTC with
/// `DateTime::with_timezone` and counts its milliseconds with
/// `DateTime::timestamp_millis`. Trusted: the result is a function of the two texts
/// alone, called `timestamp_millis` here.
#[verifier::external_body]
fn parse_timestamp(text: &str, format: &str) -> (millis: Option<i64>)
    ensures
        millis == timestamp_millis(text@, format@),
{
    match chrono::DateTime::parse_from_str(text, format) {
        Ok(moment) => Some(moment.with_timezone(&chrono::Utc).timestamp_millis()),
        Err(_) => None,
    }
}

/// Why the store was not asked.
#[derive(Debug, Clone, Copy, PartialEq, Eq)]
pub enum StoreError {
    /// The timestamp is not of the form `TIMESTAMP_FORMAT`.
    InvalidTimestamp,
}

/// The timestamp of a kept message as the store counts it: in milliseconds since the
/// first of January 1970, UTC.
pub fn store_timestamp(timestamp: &str) -> (result: Result<i64, StoreError>)
    ensures
        result == match timestamp_millis(timestamp@, TIMESTAMP_FORMAT@) {
            Some(millis) => Ok::<i64, StoreError>(millis),
            None => Err(StoreError::InvalidTimestamp),
        },
{
    match parse_timestamp(timestamp, TIMESTAMP_FORMAT) {
        Some(millis) => Ok(millis),
        None => Err(StoreError::InvalidTimestamp),
    }
}

/// One message as it is kept: its text, its signature, and the key that the signature
/// was checked with.
#[derive(Debug, Clone, PartialEq, Eq)]
pub struct Message {
    /// The text of the message.
    pub content: String,
    /// The signature over the bytes of `content`.
    pub signature: Vec<u8>,
    /// The PEM-encoded public key of the author.
    pub public_key: Vec<u8>,
}

/// A kept message as plain values.
pub struct MessageView {
    pub content: Seq<char>,
    pub signature: Seq<u8>,
    pub public_key: Seq<u8>,
}

impl View for Message {
    type V = MessageView;

    open spec fn view(&self) -> MessageView {
        MessageView {
            content: self.content@,
            signature: self.signature@,
            public_key: self.public_key@,
        }
    }
}

impl MessageView {
    /// Whether the signature is that of the text's bytes under the key that is named.
    pub open spec fn signed(self) -> bool {
        signature_valid(self.public_key, encode_utf8(self.content), self.signature)
    }

    /// The packet that carries this message to the clients: its text and its signature.
    pub open spec fn packet(self) -> PacketView {
        PacketView::ChatMessage { content: self.content, signature: self.signature }
    }
}

impl Message {
    /// The packet that carries this message to the clients: its text and its signature.
    pub fn packet(&self) -> (packet: Packet)
        ensures
            packet@ == self@.packet(),
    {
        Packet::ChatMessage(
            MessagePacket { content: self.content.clone(), signature: self.signature.clone() },
        )
    }
}

} // verus!
