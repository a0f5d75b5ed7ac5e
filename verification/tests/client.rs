use chat_relay::auth::AuthError;
use chat_relay::client::{message_with, Identity, KEY_BITS};
use chat_relay::codec::{MessagePacket, Packet, ServerboundHandshake};
use chat_relay::server::{Reaction, Rejection, Server};
use openssl::hash::MessageDigest;
use openssl::pkey::{PKey, Private};
use openssl::rsa::Rsa;
use openssl::sign::{Signer, Verifier};

fn openssl_key() -> PKey<Private> {
    PKey::from_rsa(Rsa::generate(2048).unwrap()).unwrap()
}

fn pem_of(key: &PKey<Private>) -> String {
    String::from_utf8(key.public_key_to_pem().unwrap()).unwrap()
}

fn openssl_signature(key: &PKey<Private>, data: &[u8]) -> Vec<u8> {
    let mut signer = Signer::new(MessageDigest::sha256(), key).unwrap();
    signer.update(data).unwrap();
    signer.sign_to_vec().unwrap()
}

#[test]
fn identity_announces_a_public_key_in_pem() {
    let identity = Identity::generate().unwrap();
    let Packet::Handshake(handshake) = identity.handshake() else {
        panic!("no handshake");
    };
    assert!(handshake.public_key.starts_with("-----BEGIN PUBLIC KEY-----"));
    let key = PKey::public_key_from_pem(handshake.public_key.as_bytes()).unwrap();
    assert_eq!(key.bits(), 2048);
    assert_eq!(KEY_BITS, 2048);
    assert_eq!(identity.handshake(), Packet::Handshake(handshake));
}

#[test]
fn identity_signs_the_bytes_of_the_text() {
    let identity = Identity::generate().unwrap();
    let Packet::Handshake(handshake) = identity.handshake() else {
        panic!("no handshake");
    };
    let Some(Packet::ChatMessage(message)) = identity.sign("grüße".to_string()) else {
        panic!("no message");
    };
    assert_eq!(message.content, "grüße");
    let key = PKey::public_key_from_pem(handshake.public_key.as_bytes()).unwrap();
    let mut verifier = Verifier::new(MessageDigest::sha256(), &key).unwrap();
    verifier.update("grüße".as_bytes()).unwrap();
    assert!(verifier.verify(&message.signature).unwrap());
}

#[test]
fn identities_do_not_share_keys() {
    let one = Identity::generate().unwrap();
    let other = Identity::generate().unwrap();
    assert_ne!(one.handshake(), other.handshake());
}

#[test]
fn relay_accepts_what_an_identity_has_signed() {
    let alice = Identity::generate().unwrap();
    let mallory = Identity::generate().unwrap();
    let mut server = Server::new();
    server.accept(1);
    let hello = alice.handshake().network_encode();
    assert_eq!(server.packet_received(1, &hello), Reaction::KeyInstalled);
    let forged = mallory.sign("from alice".to_string()).unwrap().network_encode();
    assert_eq!(
        server.packet_received(1, &forged),
        Reaction::Ignored(Rejection::Auth(AuthError::BadSignature))
    );
    let honest = alice.sign("from alice".to_string()).unwrap().network_encode();
    let Reaction::Persist(verified) = server.packet_received(1, &honest) else {
        panic!("not accepted");
    };
    assert_eq!(verified.message().content, "from alice");
    server.complete_message(verified, true);
    assert_eq!(server.next_outbound(1), Some(honest));
}

#[test]
fn packets_are_made_of_what_openssl_gave() {
    assert_eq!(message_with("text".to_string(), None), None);
    assert_eq!(
        message_with("text".to_string(), Some(vec![1, 2])),
        Some(Packet::ChatMessage(MessagePacket {
            content: "text".to_string(),
            signature: vec![1, 2],
        }))
    );
}

#[test]
fn handlers_answer_for_one_packet_each() {
    let alice = Identity::generate().unwrap();
    let mut server = Server::new();
    server.accept(4);
    let Packet::Handshake(handshake) = alice.handshake() else {
        panic!("no handshake");
    };
    let Some(Packet::ChatMessage(message)) = alice.sign("direct".to_string()) else {
        panic!("no message");
    };
    assert_eq!(
        Server::handle_message(server.registry().get(4).unwrap(), message.clone()),
        Reaction::Ignored(Rejection::Auth(AuthError::NoKey))
    );
    assert_eq!(
        server.handle_serverbound_handshake(5, handshake.clone()),
        Reaction::Ignored(Rejection::UnknownConnection)
    );
    assert_eq!(server.handle_serverbound_handshake(4, handshake), Reaction::KeyInstalled);
    let reaction = Server::handle_message(server.registry().get(4).unwrap(), message.clone());
    let Reaction::Persist(verified) = reaction else {
        panic!("not accepted: {:?}", reaction);
    };
    assert_eq!(verified.message().packet(), Packet::ChatMessage(message));
}

#[test]
fn packet_knows_its_identifier_and_body() {
    let handshake = Packet::Handshake(ServerboundHandshake { public_key: "K".to_string() });
    assert_eq!(handshake.id(), "handshake");
    assert_eq!(handshake.body(), "{\"public_key\":\"K\"}");
    let message = Packet::ChatMessage(MessagePacket { content: "c".to_string(), signature: vec![] });
    assert_eq!(message.id(), "message");
    assert_eq!(message.body(), "{\"content\":\"c\",\"signature\":[]}");
}

#[test]
fn identity_is_made_of_a_key_and_its_public_pem() {
    let key = openssl_key();
    let pem = pem_of(&key);
    let identity = Identity::with_key(Some(key), Some(pem.clone())).unwrap();
    assert_eq!(
        identity.handshake(),
        Packet::Handshake(ServerboundHandshake { public_key: pem })
    );
    let Some(Packet::ChatMessage(message)) = identity.sign("mine".to_string()) else {
        panic!("no message");
    };
    assert_eq!(message.content, "mine");
    assert!(!message.signature.is_empty());
}

#[test]
fn identity_needs_a_key_and_a_public_pem() {
    let pem = pem_of(&openssl_key());
    assert!(Identity::with_key(None, Some(pem)).is_none());
    assert!(Identity::with_key(Some(openssl_key()), None).is_none());
    assert!(Identity::with_key(None, None).is_none());
    assert!(Identity::with_key(Some(openssl_key()), Some("no pem".to_string())).is_none());
    assert!(Identity::with_key(Some(openssl_key()), Some(String::new())).is_none());
    let private = openssl_key();
    let private_pem = String::from_utf8(private.private_key_to_pem_pkcs8().unwrap()).unwrap();
    assert!(Identity::with_key(Some(private), Some(private_pem)).is_none());
}

#[test]
fn identity_hands_out_no_signature_that_its_public_key_refuses() {
    let announced = pem_of(&openssl_key());
    let mismatched = Identity::with_key(Some(openssl_key()), Some(announced)).unwrap();
    assert_eq!(mismatched.sign("text".to_string()), None);
    assert_eq!(mismatched.sign(String::new()), None);
}

#[test]
fn signed_message_takes_the_right_signature_only() {
    let key = openssl_key();
    let other = openssl_key();
    let identity = Identity::with_key(Some(openssl_key()), Some(pem_of(&key))).unwrap();
    let good = openssl_signature(&key, "text".as_bytes());
    assert_eq!(
        identity.signed_message("text".to_string(), Some(good.clone())),
        Some(Packet::ChatMessage(MessagePacket {
            content: "text".to_string(),
            signature: good.clone(),
        }))
    );
    assert_eq!(identity.signed_message("other text".to_string(), Some(good)), None);
    let foreign = openssl_signature(&other, "text".as_bytes());
    assert_eq!(identity.signed_message("text".to_string(), Some(foreign)), None);
    assert_eq!(identity.signed_message("text".to_string(), Some(vec![])), None);
    assert_eq!(identity.signed_message("text".to_string(), None), None);
}

#[test]
fn identity_takes_no_public_pem_that_announces_encryption() {
    let encrypted = "-----BEGIN PUBLIC KEY-----\nProc-Type: 4,ENCRYPTED\nDEK-Info: AES-128-CBC,00000000000000000000000000000000\n\nAAAAAAAAAAAAAAAAAAAAAA==\n-----END PUBLIC KEY-----\n";
    assert!(Identity::with_key(Some(openssl_key()), Some(encrypted.to_string())).is_none());
}
