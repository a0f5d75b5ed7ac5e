use chat_relay::codec::{
    network_decode, MessagePacket, Packet, ProtocolError, ServerboundHandshake,
};

#[test]
fn decode_splits_at_the_first_separator() {
    assert_eq!(network_decode("message|{\"a\":\"b|c\"}"), Ok(("message", "{\"a\":\"b|c\"}")));
    assert_eq!(network_decode("|"), Ok(("", "")));
    assert_eq!(network_decode("a||"), Ok(("a", "|")));
}

#[test]
fn decode_rejects_a_frame_without_separator() {
    assert_eq!(network_decode("no-separator-here"), Err(ProtocolError::Malformed));
    assert_eq!(network_decode(""), Err(ProtocolError::Malformed));
}

#[test]
fn decode_counts_characters_not_bytes() {
    assert_eq!(network_decode("héllo|wörld→|"), Ok(("héllo", "wörld→|")));
}

#[test]
fn decode_takes_an_unknown_identifier() {
    assert_eq!(network_decode("bogus|{}"), Ok(("bogus", "{}")));
    assert_eq!(
        Packet::from_frame("bogus|{}"),
        Err(ProtocolError::UnknownVariant("bogus".to_string()))
    );
}

#[test]
fn encode_writes_identifier_separator_and_json() {
    let message = Packet::ChatMessage(MessagePacket {
        content: "hi \"there\"|x".to_string(),
        signature: vec![0, 7, 255],
    });
    assert_eq!(
        message.network_encode(),
        "message|{\"content\":\"hi \\\"there\\\"|x\",\"signature\":[0,7,255]}"
    );
    let handshake = Packet::Handshake(ServerboundHandshake { public_key: "K\nL".to_string() });
    assert_eq!(handshake.network_encode(), "handshake|{\"public_key\":\"K\\nL\"}");
}

#[test]
fn decode_of_encode_gives_identifier_and_body() {
    let packets = vec![
        Packet::ChatMessage(MessagePacket { content: "a|b".to_string(), signature: vec![1, 2] }),
        Packet::ChatMessage(MessagePacket { content: String::new(), signature: vec![] }),
        Packet::Handshake(ServerboundHandshake { public_key: "-----BEGIN".to_string() }),
    ];
    for packet in packets {
        let frame = packet.network_encode();
        let body = packet.body();
        assert_eq!(network_decode(&frame), Ok((packet.id(), body.as_str())));
        assert_eq!(Packet::from_frame(&frame), Ok(packet));
    }
}

#[test]
fn a_body_that_is_not_the_announced_object_is_malformed() {
    assert_eq!(Packet::from_frame("message|{}"), Err(ProtocolError::Malformed));
    assert_eq!(Packet::from_frame("message|not json"), Err(ProtocolError::Malformed));
    assert_eq!(
        Packet::from_frame("message|{\"content\":\"hi\",\"signature\":\"...\"}"),
        Err(ProtocolError::Malformed)
    );
    assert_eq!(
        Packet::from_frame("message|{\"content\":\"hi\",\"signature\":[256]}"),
        Err(ProtocolError::Malformed)
    );
    assert_eq!(Packet::from_frame("handshake|{\"public_key\":5}"), Err(ProtocolError::Malformed));
}

#[test]
fn any_text_survives_the_trip_through_a_frame() {
    let texts = [
        "",
        "|",
        "||a|b||",
        "quote \" backslash \\ slash /",
        "line\nbreak\ttab\r\u{0}\u{1f}",
        "ünïcödé → 日本語 🦀",
        "{\"content\":\"nested\",\"signature\":[1]}",
        "message|handshake|",
    ];
    for text in texts {
        let message = Packet::ChatMessage(MessagePacket {
            content: text.to_string(),
            signature: (0..=255).collect(),
        });
        assert_eq!(Packet::from_frame(&message.network_encode()), Ok(message));
        let handshake = Packet::Handshake(ServerboundHandshake { public_key: text.to_string() });
        assert_eq!(Packet::from_frame(&handshake.network_encode()), Ok(handshake));
    }
}

#[test]
fn members_are_found_wherever_they_stand_in_the_body() {
    let expected = Packet::ChatMessage(MessagePacket {
        content: "hi".to_string(),
        signature: vec![1, 2],
    });
    assert_eq!(
        Packet::from_frame("message|{\"signature\":[1,2],\"content\":\"hi\"}"),
        Ok(expected.clone())
    );
    assert_eq!(
        Packet::from_frame("message| { \"extra\" : null, \"content\" : \"hi\", \"signature\" : [ 1 , 2 ] } "),
        Ok(expected)
    );
    assert_eq!(
        Packet::from_frame("handshake|{\"public_key\":\"K\",\"content\":\"ignored\"}"),
        Ok(Packet::Handshake(ServerboundHandshake { public_key: "K".to_string() }))
    );
}

#[test]
fn members_of_another_kind_make_the_body_malformed() {
    let bodies = [
        "\"text\"",
        "[\"hi\",[1]]",
        "null",
        "{\"content\":\"hi\"}",
        "{\"signature\":[1]}",
        "{\"content\":5,\"signature\":[1]}",
        "{\"content\":\"hi\",\"signature\":[-1]}",
        "{\"content\":\"hi\",\"signature\":[1.5]}",
        "{\"content\":\"hi\",\"signature\":[\"1\"]}",
        "{\"content\":\"hi\",\"signature\":{}}",
        "{\"content\":\"hi\",\"signature\":[1]",
        "",
    ];
    for body in bodies {
        let frame = format!("message|{}", body);
        assert_eq!(Packet::from_frame(&frame), Err(ProtocolError::Malformed), "{}", frame);
    }
}

#[test]
fn identifiers_are_matched_exactly() {
    for id in ["Message", "message ", " message", "messag", "messages", "", "hand|shake"] {
        let frame = format!("{}|{{\"content\":\"hi\",\"signature\":[]}}", id);
        let first = id.split('|').next().unwrap().to_string();
        assert_eq!(Packet::from_frame(&frame), Err(ProtocolError::UnknownVariant(first)), "{}", id);
    }
}
