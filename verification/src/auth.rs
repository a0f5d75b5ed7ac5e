//! What a connection has proved of itself: the public key of its last accepted
//! handshake, if there was one.

use crate::codec::MessagePacket;
use crate::crypto::{
    accepts_sha256_signature, pem_is_public_key, reads_as_public_key, signature_valid, MAX_PEM_LEN,
};
use crate::store::{Message, MessageView};
use vstd::prelude::*;
use vstd::slice::slice_to_vec;
use vstd::string::StringSliceAdditionalSpecFns;
use vstd::utf8::encode_utf8;

verus! {

/// Why a public key was not taken.
#[derive(Debug, Clone, Copy, PartialEq, Eq)]
pub enum KeyError {
    /// The bytes are not a PEM-encoded public key.
    InvalidEncoding,
}

/// Why a chat message was not taken.
#[derive(Debug, Clone, Copy, PartialEq, Eq)]
pub enum AuthError {
    /// The connection has sent no handshake that was accepted.
    NoKey,
    /// The signature is not that of the text under the connection's key.
    BadSignature,
}

/// Whether `pem` can become the key of a connection.
pub open spec fn acceptable_key(pem: Seq<u8>) -> bool {
    pem.len() <= MAX_PEM_LEN && pem_is_public_key(pem)
}

/// The key of a connection after a handshake with `pem`: `pem` itself where it is
/// acceptable, the earlier key where it is not.
pub open spec fn key_after_handshake(key: Option<Seq<u8>>, pem: Seq<u8>) -> Option<Seq<u8>> {
    if acceptable_key(pem) {
        Some(pem)
    } else {
        key
    }
}

/// Whether a connection with the key `key` has signed `data` with `signature`. Without a
/// key nothing is signed.
pub open spec fn signed_by(key: Option<Seq<u8>>, data: Seq<u8>, signature: Seq<u8>) -> bool {
    match key {
        Some(pem) => signature_valid(pem, data, signature),
        None => false,
    }
}

/// What becomes of a chat message from a connection with the key `key`: it is taken,
/// and named with that key, where the signature is that of the text's bytes under it.
pub open spec fn verdict(key: Option<Seq<u8>>, content: Seq<char>, signature: Seq<u8>) -> Result<
    MessageView,
    AuthError,
> {
    match key {
        None => Err(AuthError::NoKey),
        Some(pem) => if signature_valid(pem, encode_utf8(content), signature) {
            Ok(MessageView { content, signature, public_key: pem })
        } else {
            Err(AuthError::BadSignature)
        },
    }
}

/// A chat message whose signature was checked: the only kind that the relay stores and
/// sends on. Only `AuthState::accept` makes one.
#[derive(Debug, PartialEq, Eq)]
pub struct VerifiedMessage {
    message: Message,
}

impl View for VerifiedMessage {
    type V = MessageView;

    closed spec fn view(&self) -> MessageView {
        self.message@
    }
}

impl VerifiedMessage {
    #[verifier::type_invariant]
    spec fn signature_checked(self) -> bool {
        self.message@.signed()
    }

    /// The message as it is to be kept. Its signature is that of its text under the key
    /// that it names.
    pub fn message(&self) -> (message: &Message)
        ensures
            message@ == self@,
            self@.signed(),
    {
        proof {
            use_type_invariant(self);
        }
        &self.message
    }
}

/// A second handshake replaces the key of the first: whatever was there before, after a
/// handshake with an acceptable key signatures are checked with that key and no other.
pub proof fn lemma_handshake_replaces_key(
    key: Option<Seq<u8>>,
    pem: Seq<u8>,
    data: Seq<u8>,
    signature: Seq<u8>,
)
    requires
        acceptable_key(pem),
    ensures
        key_after_handshake(key, pem) == Some(pem),
        signed_by(key_after_handshake(key, pem), data, signature) == signature_valid(
            pem,
            data,
            signature,
        ),
{
}

/// A connection has a key only by a handshake that was accepted: where the key that is
/// present is acceptable, so is the key after any handshake.
pub proof fn lemma_key_stays_acceptable(key: Option<Seq<u8>>, pem: Seq<u8>)
    requires
        key matches Some(present) ==> acceptable_key(present),
    ensures
        key_after_handshake(key, pem) matches Some(present) ==> acceptable_key(present),
{
}

/// A key, once present, is never lost: a handshake replaces it or leaves it.
pub proof fn lemma_key_stays(key: Option<Seq<u8>>, pem: Seq<u8>)
    requires
        key is Some,
    ensures
        key_after_handshake(key, pem) is Some,
{
}

/// The key of one connection, PEM-encoded: none at first, then that of the last
/// handshake that was accepted.
pub struct AuthState {
    key: Option<Vec<u8>>,
}

impl View for AuthState {
    type V = Option<Seq<u8>>;

    closed spec fn view(&self) -> Option<Seq<u8>> {
        match self.key {
            Some(pem) => Some(pem@),
            None => None,
        }
    }
}

impl AuthState {
    #[verifier::type_invariant]
    spec fn holds_acceptable_key(self) -> bool {
        self.key matches Some(pem) ==> acceptable_key(pem@)
    }

    /// The state of a connection that has sent no handshake.
    pub fn new() -> (state: AuthState)
        ensures
            state@ is None,
    {
        AuthState { key: None }
    }

    /// Whether a key is present.
    pub fn has_key(&self) -> (present: bool)
        ensures
            present == self@.is_some(),
    {
        self.key.is_some()
    }

    /// Replaces the key by `pem` where `pem` is a PEM-encoded public key, and leaves the
    /// state as it is where it is not.
    pub fn set_public_key(&mut self, pem: &[u8]) -> (result: Result<(), KeyError>)
        ensures
            final(self)@ == key_after_handshake(old(self)@, pem@),
            result is Ok <==> acceptable_key(pem@),
    {
        if pem.len() <= MAX_PEM_LEN && reads_as_public_key(pem) {
            self.key = Some(slice_to_vec(pem));
            Ok(())
        } else {
            Err(KeyError::InvalidEncoding)
        }
    }

    /// Checks a chat message against the key that is present. The message is taken
    /// where its signature is that of the bytes of its text under this key; a connection
    /// without a key has nothing taken.
    pub fn accept(&self, message: MessagePacket) -> (result: Result<VerifiedMessage, AuthError>)
        ensures
            verdict(self@, message.content@, message.signature@) == match result {
                Ok(verified) => Ok::<MessageView, AuthError>(verified@),
                Err(error) => Err(error),
            },
    {
        proof {
            use_type_invariant(self);
        }
        match &self.key {
            None => Err(AuthError::NoKey),
            Some(pem) => {
                let data = message.content.as_str().as_bytes();
                if accepts_sha256_signature(pem.as_slice(), data, message.signature.as_slice()) {
                    let public_key = pem.clone();
                    Ok(
                        VerifiedMessage {
                            message: Message {
                                content: message.content,
                                signature: message.signature,
                                public_key,
                            },
                        },
                    )
                } else {
                    Err(AuthError::BadSignature)
                }
            },
        }
    }

    /// Whether `signature` is the signature of `data` under the key that is present.
    /// Without a key the answer is no.
    pub fn verify(&self, data: &[u8], signature: &[u8]) -> (ok: bool)
        ensures
            ok == signed_by(self@, data@, signature@),
    {
        proof {
            use_type_invariant(self);
        }
        match &self.key {
            Some(pem) => accepts_sha256_signature(pem.as_slice(), data, signature),
            None => false,
        }
    }
}

} // verus!
