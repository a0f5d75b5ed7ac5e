//! The client's side of the protocol: a key pair, the handshake that announces its
//! public half, and chat messages signed with its private half.

use crate::auth::{acceptable_key, key_after_handshake, verdict, AuthError};
use crate::codec::{MessagePacket, Packet, PacketView, ServerboundHandshake};
use crate::crypto::{
    accepts_sha256_signature, reads_as_public_key, signature_valid, MAX_PEM_LEN,
};
use crate::store::MessageView;
use openssl::hash::MessageDigest;
use openssl::pkey::{PKey, Private};
use openssl::rsa::Rsa;
use openssl::sign::Signer;
use vstd::prelude::*;
use vstd::string::StringSliceAdditionalSpecFns;
use vstd::utf8::encode_utf8;

verus! {

/// OpenSSL's mark of a key that has a private half.
#[verifier::external_type_specification]
#[verifier::external_body]
pub struct ExPrivate(openssl::pkey::Private);

/// OpenSSL's key. Nothing is known here of what is in it.
#[verifier::external_type_specification]
#[verifier::external_body]
#[verifier::reject_recursive_types(T)]
pub struct ExPKey<T>(openssl::pkey::PKey<T>);

/// The length of a client's key, in bits.
pub const KEY_BITS: u32 = 2048;

/// Makes an RSA key of `bits` bits with `Rsa::generate` and wraps it with
/// `PKey::from_rsa`. The key is drawn at random: nothing is promised of it. Only
/// lengths that OpenSSL is known to take are asked for.
#[verifier::external_body]
fn new_key(bits: u32) -> (key: Option<PKey<Private>>)
    requires
        512 <= bits <= 16384,
{
    let Ok(rsa) = Rsa::generate(bits) else { return None };
    PKey::from_rsa(rsa).ok()
}

/// Writes the public half of `key` as PEM with `PKey::public_key_to_pem`, as text.
/// Nothing is promised of the text.
#[verifier::external_body]
fn export_public_key(key: &PKey<Private>) -> (pem: Option<String>) {
    let Ok(pem) = key.public_key_to_pem() else { return None };
    String::from_utf8(pem).ok()
}

/// Signs the SHA-256 digest of `data` with `key`: `Signer::new`, `Signer::update`,
/// `Signer::sign_to_vec`. Nothing is promised of the signature.
#[verifier::external_body]
fn sign_sha256(key: &PKey<Private>, data: &[u8]) -> (signature: Option<Vec<u8>>) {
    let Ok(mut signer) = Signer::new(MessageDigest::sha256(), key) else { return None };
    let Ok(()) = signer.update(data) else { return None };
    signer.sign_to_vec().ok()
}

/// The chat message with the text `content` and the signature `signature`, where there
/// is a signature.
pub fn message_with(content: String, signature: Option<Vec<u8>>) -> (packet: Option<Packet>)
    ensures
        match signature {
            Some(signature) => packet matches Some(packet) && packet@ == (PacketView::ChatMessage {
                content: content@,
                signature: signature@,
            }),
            None => packet is None,
        },
{
    match signature {
        Some(signature) => Some(Packet::ChatMessage(MessagePacket { content, signature })),
        None => None,
    }
}

/// A packet that may be missing, as plain values.
pub open spec fn packet_view(packet: Option<Packet>) -> Option<PacketView> {
    match packet {
        Some(packet) => Some(packet@),
        None => None,
    }
}

/// The chat message that an identity with the public key `public_key` sends for the
/// text `content`, given what signing came to: the message with the signature, where
/// there is one and it is that of the bytes of the text under `public_key`.
pub open spec fn signed_message_of(
    public_key: Seq<char>,
    content: Seq<char>,
    signature: Option<Seq<u8>>,
) -> Option<PacketView> {
    match signature {
        Some(signature) => if signature_valid(
            encode_utf8(public_key),
            encode_utf8(content),
            signature,
        ) {
            Some(PacketView::ChatMessage { content, signature })
        } else {
            None
        },
        None => None,
    }
}

/// The relay takes what an identity signs: a connection that was sent a handshake with
/// an acceptable key takes every chat message whose signature is that of the bytes of
/// its text under this key, and keeps it under this key.
pub proof fn lemma_relay_takes_signed_message(
    key: Option<Seq<u8>>,
    public_key: Seq<char>,
    content: Seq<char>,
    signature: Seq<u8>,
)
    requires
        acceptable_key(encode_utf8(public_key)),
        signed_message_of(public_key, content, Some(signature)) is Some,
    ensures
        verdict(key_after_handshake(key, encode_utf8(public_key)), content, signature) == Ok::<
            MessageView,
            AuthError,
        >(MessageView { content, signature, public_key: encode_utf8(public_key) }),
{
}

/// A client's key pair: the private half as OpenSSL holds it, and the public half as
/// the PEM text that the relay is sent. The view is that text.
pub struct Identity {
    key: PKey<Private>,
    public_key: String,
}

impl View for Identity {
    type V = Seq<char>;

    closed spec fn view(&self) -> Seq<char> {
        self.public_key@
    }
}

impl Identity {
    #[verifier::type_invariant]
    spec fn announces_acceptable_key(self) -> bool {
        acceptable_key(encode_utf8(self.public_key@))
    }

    /// The private half of this key pair.
    pub closed spec fn private_key(&self) -> PKey<Private> {
        self.key
    }

    /// The key pair of the private key `key` and the PEM text `public_key`, where both
    /// are there and the bytes of the text are a PEM-encoded public key.
    pub fn with_key(key: Option<PKey<Private>>, public_key: Option<String>) -> (identity: Option<
        Identity,
    >)
        ensures
            match (key, public_key) {
                (Some(key), Some(text)) => if acceptable_key(encode_utf8(text@)) {
                    identity matches Some(identity) && identity.private_key() == key
                        && identity@ == text@
                } else {
                    identity is None
                },
                _ => identity is None,
            },
    {
        match (key, public_key) {
            (Some(key), Some(public_key)) => {
                let pem = public_key.as_str().as_bytes();
                let acceptable = pem.len() <= MAX_PEM_LEN && reads_as_public_key(pem);
                if acceptable {
                    Some(Identity { key, public_key })
                } else {
                    None
                }
            },
            _ => None,
        }
    }

    /// A new key pair, where OpenSSL can make one and write its public half. The
    /// public half is a key that the relay takes in a handshake.
    pub fn generate() -> (identity: Option<Identity>)
        ensures
            identity matches Some(identity) ==> acceptable_key(encode_utf8(identity@)),
    {
        match new_key(KEY_BITS) {
            Some(key) => {
                let public_key = export_public_key(&key);
                Identity::with_key(Some(key), public_key)
            },
            None => None,
        }
    }

    /// The handshake that announces the public half of this key pair. The relay takes
    /// the key.
    pub fn handshake(&self) -> (packet: Packet)
        ensures
            packet@ == (PacketView::Handshake { public_key: self@ }),
            acceptable_key(encode_utf8(self@)),
    {
        proof {
            use_type_invariant(self);
        }
        Packet::Handshake(ServerboundHandshake { public_key: self.public_key.clone() })
    }

    /// The chat message with the text `content` and the signature `signature`, where
    /// there is a signature and it is one that the relay takes from this identity: that
    /// of the bytes of the text under the key that the handshake announces.
    pub fn signed_message(&self, content: String, signature: Option<Vec<u8>>) -> (packet: Option<
        Packet,
    >)
        ensures
            packet_view(packet) == signed_message_of(
                self@,
                content@,
                match signature {
                    Some(signature) => Some(signature@),
                    None => None,
                },
            ),
    {
        proof {
            use_type_invariant(self);
        }
        match signature {
            Some(signature) => {
                let valid = accepts_sha256_signature(
                    self.public_key.as_str().as_bytes(),
                    content.as_str().as_bytes(),
                    signature.as_slice(),
                );
                if valid {
                    message_with(content, Some(signature))
                } else {
                    None
                }
            },
            None => None,
        }
    }

    /// The chat message with the text `content`, signed over the bytes of the text with
    /// the private half of this key pair, where OpenSSL can sign. The signature is
    /// checked before it is handed out: the relay takes the message from a connection
    /// that has sent the handshake of this identity.
    pub fn sign(&self, content: String) -> (packet: Option<Packet>)
        ensures
            packet matches Some(packet) ==> packet@ matches PacketView::ChatMessage {
                content: text,
                signature,
            } && text == content@ && signature_valid(
                encode_utf8(self@),
                encode_utf8(content@),
                signature,
            ),
    {
        let signature = sign_sha256(&self.key, content.as_str().as_bytes());
        self.signed_message(content, signature)
    }
}

} // verus!
