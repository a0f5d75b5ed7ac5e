use chat_relay::auth::{AuthError, AuthState, KeyError};
use chat_relay::codec::{MessagePacket, Packet, ProtocolError, ServerboundHandshake};
use chat_relay::connection::{Connection, OUTBOUND_CAPACITY};
use chat_relay::registry::ConnectionRegistry;
use chat_relay::store::Message;
use openssl::hash::MessageDigest;
use openssl::pkey::{PKey, Private};
use openssl::rsa::Rsa;
use openssl::sign::Signer;

fn fresh_key() -> PKey<Private> {
    PKey::from_rsa(Rsa::generate(2048).unwrap()).unwrap()
}

fn signature(key: &PKey<Private>, data: &[u8]) -> Vec<u8> {
    let mut signer = Signer::new(MessageDigest::sha256(), key).unwrap();
    signer.update(data).unwrap();
    signer.sign_to_vec().unwrap()
}

fn text(content: &str) -> Packet {
    Packet::ChatMessage(MessagePacket { content: content.to_string(), signature: vec![1] })
}

#[test]
fn auth_state_starts_without_key_and_fails_closed() {
    let state = AuthState::new();
    assert!(!state.has_key());
    let key = fresh_key();
    assert!(!state.verify(b"data", &signature(&key, b"data")));
    assert_eq!(
        state.accept(MessagePacket { content: "data".to_string(), signature: vec![] }),
        Err(AuthError::NoKey)
    );
}

#[test]
fn auth_state_takes_a_pem_key_and_verifies_with_it() {
    let key = fresh_key();
    let pem = key.public_key_to_pem().unwrap();
    let mut state = AuthState::new();
    assert_eq!(state.set_public_key(&pem), Ok(()));
    assert!(state.has_key());
    assert!(state.verify(b"data", &signature(&key, b"data")));
    assert!(!state.verify(b"datum", &signature(&key, b"data")));
    assert!(!state.verify(b"data", b"no signature"));
    assert!(!state.verify(b"data", b""));
}

#[test]
fn auth_state_refuses_what_is_no_public_key() {
    let key = fresh_key();
    let mut state = AuthState::new();
    assert_eq!(state.set_public_key(b""), Err(KeyError::InvalidEncoding));
    assert_eq!(state.set_public_key(b"-----BEGIN PUBLIC KEY-----"), Err(KeyError::InvalidEncoding));
    let private = key.private_key_to_pem_pkcs8().unwrap();
    assert_eq!(state.set_public_key(&private), Err(KeyError::InvalidEncoding));
    assert!(!state.has_key());
    let pem = key.public_key_to_pem().unwrap();
    assert_eq!(state.set_public_key(&pem), Ok(()));
    assert_eq!(state.set_public_key(b"junk"), Err(KeyError::InvalidEncoding));
    assert!(state.verify(b"data", &signature(&key, b"data")));
}

#[test]
fn auth_state_verifies_with_the_last_key_only() {
    let k1 = fresh_key();
    let k2 = fresh_key();
    let mut state = AuthState::new();
    state.set_public_key(&k1.public_key_to_pem().unwrap()).unwrap();
    state.set_public_key(&k2.public_key_to_pem().unwrap()).unwrap();
    assert!(!state.verify(b"data", &signature(&k1, b"data")));
    assert!(state.verify(b"data", &signature(&k2, b"data")));
}

#[test]
fn accepted_message_names_the_key_it_was_checked_with() {
    let key = fresh_key();
    let pem = key.public_key_to_pem().unwrap();
    let mut state = AuthState::new();
    state.set_public_key(&pem).unwrap();
    let good = MessagePacket {
        content: "signed".to_string(),
        signature: signature(&key, b"signed"),
    };
    let verified = state.accept(good.clone()).unwrap();
    assert_eq!(
        verified.message(),
        &Message { content: good.content, signature: good.signature, public_key: pem }
    );
    let bad = MessagePacket { content: "signed".to_string(), signature: vec![0; 256] };
    assert_eq!(state.accept(bad), Err(AuthError::BadSignature));
}

#[test]
fn connection_queue_is_first_in_first_out() {
    let mut connection = Connection::new(5);
    assert_eq!(connection.address(), 5);
    assert_eq!(connection.pending(), 0);
    assert_eq!(connection.next_outbound(), None);
    connection.queue_packet(&text("one"));
    connection.queue_packet(&text("two"));
    connection.queue_packet(&text("three"));
    assert_eq!(connection.pending(), 3);
    assert_eq!(connection.next_outbound(), Some(text("one").network_encode()));
    assert_eq!(connection.next_outbound(), Some(text("two").network_encode()));
    assert_eq!(connection.next_outbound(), Some(text("three").network_encode()));
    assert_eq!(connection.next_outbound(), None);
}

#[test]
fn connection_queue_holds_sixteen_frames() {
    let mut connection = Connection::new(5);
    for n in 0..40 {
        connection.queue_packet(&text(&format!("{}", n)));
    }
    assert_eq!(connection.pending(), 16);
    assert_eq!(connection.next_outbound(), Some(text("0").network_encode()));
    connection.queue_packet(&text("late"));
    connection.queue_packet(&text("lost"));
    let mut frames = Vec::new();
    while let Some(frame) = connection.next_outbound() {
        frames.push(frame);
    }
    let mut expected: Vec<String> =
        (1..16).map(|n| text(&format!("{}", n)).network_encode()).collect();
    expected.push(text("late").network_encode());
    assert_eq!(frames, expected);
    assert_eq!(OUTBOUND_CAPACITY, 16);
}

#[test]
fn connection_checks_signatures_with_its_key() {
    let key = fresh_key();
    let mut connection = Connection::new(1);
    assert!(!connection.has_public_key());
    assert!(!connection.verify_signature(b"x", &signature(&key, b"x")));
    assert_eq!(connection.set_public_key(b"nothing"), Err(KeyError::InvalidEncoding));
    assert_eq!(connection.set_public_key(&key.public_key_to_pem().unwrap()), Ok(()));
    assert!(connection.has_public_key());
    assert!(connection.verify_signature(b"x", &signature(&key, b"x")));
    assert!(!connection.verify_signature(b"y", &signature(&key, b"x")));
    connection.queue_packet(&text("kept"));
    assert_eq!(connection.set_public_key(b"nothing"), Err(KeyError::InvalidEncoding));
    assert_eq!(connection.pending(), 1);
}

#[test]
fn connection_replays_history_behind_what_waits() {
    let record = |content: &str| Message {
        content: content.to_string(),
        signature: vec![7],
        public_key: vec![],
    };
    let mut connection = Connection::new(1);
    connection.queue_packet(&text("first"));
    connection.replay(&vec![record("x"), record("y")]);
    connection.replay(&vec![]);
    assert_eq!(connection.next_outbound(), Some(text("first").network_encode()));
    assert_eq!(connection.next_outbound(), Some(record("x").packet().network_encode()));
    assert_eq!(connection.next_outbound(), Some(record("y").packet().network_encode()));
    assert_eq!(connection.next_outbound(), None);
}

#[test]
fn registry_inserts_finds_and_removes() {
    let mut registry = ConnectionRegistry::new();
    assert_eq!(registry.len(), 0);
    assert!(!registry.contains(3));
    assert!(registry.get(3).is_none());
    registry.insert(Connection::new(3));
    registry.insert(Connection::new(4));
    assert_eq!(registry.len(), 2);
    assert!(registry.contains(3));
    assert_eq!(registry.get(4).unwrap().address(), 4);
    assert!(registry.remove(3));
    assert!(!registry.remove(3));
    assert!(!registry.contains(3));
    assert!(registry.contains(4));
    assert_eq!(registry.len(), 1);
}

#[test]
fn registry_insert_replaces_the_connection_at_the_address() {
    let mut registry = ConnectionRegistry::new();
    let mut old = Connection::new(3);
    old.queue_packet(&text("waiting"));
    registry.insert(old);
    registry.insert(Connection::new(9));
    registry.insert(Connection::new(3));
    assert_eq!(registry.len(), 2);
    assert_eq!(registry.get(3).unwrap().pending(), 0);
    assert_eq!(registry.next_outbound(3), None);
}

#[test]
fn registry_broadcast_reaches_everyone_once() {
    let mut registry = ConnectionRegistry::new();
    registry.broadcast(&text("nobody"));
    for address in [10, 20, 30] {
        registry.insert(Connection::new(address));
    }
    registry.broadcast(&text("a"));
    assert!(registry.queue_packet(20, &text("only 20")));
    assert!(!registry.queue_packet(21, &text("nowhere")));
    registry.broadcast(&text("b"));
    for address in [10, 30] {
        assert_eq!(registry.next_outbound(address), Some(text("a").network_encode()));
        assert_eq!(registry.next_outbound(address), Some(text("b").network_encode()));
        assert_eq!(registry.next_outbound(address), None);
    }
    assert_eq!(registry.next_outbound(20), Some(text("a").network_encode()));
    assert_eq!(registry.next_outbound(20), Some(text("only 20").network_encode()));
    assert_eq!(registry.next_outbound(20), Some(text("b").network_encode()));
    assert_eq!(registry.next_outbound(20), None);
}

#[test]
fn registry_broadcast_skips_a_full_queue_only() {
    let mut registry = ConnectionRegistry::new();
    registry.insert(Connection::new(1));
    registry.insert(Connection::new(2));
    for n in 0..16 {
        registry.queue_packet(1, &text(&format!("{}", n)));
    }
    registry.broadcast(&text("news"));
    assert_eq!(registry.get(1).unwrap().pending(), 16);
    assert_eq!(registry.next_outbound(1), Some(text("0").network_encode()));
    assert_eq!(registry.next_outbound(2), Some(text("news").network_encode()));
}

#[test]
fn registry_hands_keys_to_the_connection_at_the_address() {
    let key = fresh_key();
    let pem = key.public_key_to_pem().unwrap();
    let mut registry = ConnectionRegistry::new();
    registry.insert(Connection::new(1));
    registry.insert(Connection::new(2));
    assert_eq!(registry.set_public_key(7, &pem), None);
    assert_eq!(registry.set_public_key(1, b"junk"), Some(Err(KeyError::InvalidEncoding)));
    assert_eq!(registry.set_public_key(1, &pem), Some(Ok(())));
    assert!(registry.get(1).unwrap().has_public_key());
    assert!(!registry.get(2).unwrap().has_public_key());
    assert!(registry.get(1).unwrap().verify_signature(b"m", &signature(&key, b"m")));
}

#[test]
fn clientbound_frames_carry_chat_messages_only() {
    let message = MessagePacket { content: "to you".to_string(), signature: vec![4, 5] };
    let frame = Packet::ChatMessage(message.clone()).network_encode();
    assert_eq!(MessagePacket::from_clientbound_frame(&frame), Ok(message));
    let handshake =
        Packet::Handshake(ServerboundHandshake { public_key: "K".to_string() }).network_encode();
    assert_eq!(
        MessagePacket::from_clientbound_frame(&handshake),
        Err(ProtocolError::UnknownVariant("handshake".to_string()))
    );
    assert_eq!(
        MessagePacket::from_clientbound_frame("bogus|{}"),
        Err(ProtocolError::UnknownVariant("bogus".to_string()))
    );
    assert_eq!(MessagePacket::from_clientbound_frame("message"), Err(ProtocolError::Malformed));
    assert_eq!(MessagePacket::from_clientbound_frame("message|[]"), Err(ProtocolError::Malformed));
}

/// A PEM block that announces in its header that it is encrypted.
fn pem_with_encryption_header(body: &str) -> String {
    format!(
        "-----BEGIN PUBLIC KEY-----\nProc-Type: 4,ENCRYPTED\nDEK-Info: AES-128-CBC,{}\n\n{}\n-----END PUBLIC KEY-----\n",
        "00000000000000000000000000000000", body
    )
}

/// The lines between the first and the last of a PEM block.
fn pem_body(pem: &str) -> String {
    let lines: Vec<&str> = pem.lines().collect();
    lines[1..lines.len() - 1].join("\n")
}

#[test]
fn auth_state_refuses_a_pem_that_announces_encryption() {
    let mut state = AuthState::new();
    let fixed = pem_with_encryption_header("AAAAAAAAAAAAAAAAAAAAAA==");
    assert_eq!(state.set_public_key(fixed.as_bytes()), Err(KeyError::InvalidEncoding));
    assert!(!state.has_key());
    let key = fresh_key();
    let plain = String::from_utf8(key.public_key_to_pem().unwrap()).unwrap();
    let dressed = pem_with_encryption_header(&pem_body(&plain));
    assert_eq!(state.set_public_key(dressed.as_bytes()), Err(KeyError::InvalidEncoding));
    assert!(!state.has_key());
    assert_eq!(state.set_public_key(plain.as_bytes()), Ok(()));
    assert_eq!(state.set_public_key(dressed.as_bytes()), Err(KeyError::InvalidEncoding));
    assert!(state.verify(b"data", &signature(&key, b"data")));
}

#[test]
fn auth_state_refuses_an_encrypted_private_key() {
    let key = fresh_key();
    let cipher = openssl::symm::Cipher::aes_128_cbc();
    let locked = key.private_key_to_pem_pkcs8_passphrase(cipher, b"secret").unwrap();
    let mut state = AuthState::new();
    assert_eq!(state.set_public_key(&locked), Err(KeyError::InvalidEncoding));
    let traditional = key.rsa().unwrap().private_key_to_pem_passphrase(cipher, b"secret").unwrap();
    assert!(String::from_utf8_lossy(&traditional).contains("ENCRYPTED"));
    assert_eq!(state.set_public_key(&traditional), Err(KeyError::InvalidEncoding));
    assert!(!state.has_key());
}
