use cs262::wire::{Message, ProtocolError, MAX_TEXT_LEN};
use cs262::WIRE_PORT;

fn encoded(message: &Message) -> Vec<u8> {
    assert!(message.fits());
    let mut bytes = Vec::new();
    message.encode(&mut bytes);
    bytes
}

fn round_trip(message: Message) -> Message {
    let bytes = encoded(&message);
    let (decoded, used) = Message::decode(&bytes).expect("decodes");
    assert_eq!(used, bytes.len());
    decoded
}

fn text_of_len(len: usize) -> String {
    let mut s = String::new();
    for i in 0..len {
        s.push((b'a' + (i % 26) as u8) as char);
    }
    s
}

#[test]
fn the_port_is_fixed() {
    assert_eq!(WIRE_PORT, 5722);
}

#[test]
fn encodes_create_byte_for_byte() {
    assert_eq!(encoded(&Message::Create("bob".to_string())), vec![1, 3, b'b', b'o', b'b']);
}

#[test]
fn encodes_each_variant_with_its_discriminant() {
    assert_eq!(encoded(&Message::Create("a".to_string())), vec![1, 1, b'a']);
    assert_eq!(encoded(&Message::List("".to_string())), vec![2, 0]);
    assert_eq!(
        encoded(&Message::Send("a".to_string(), "hi".to_string())),
        vec![3, 1, b'a', 2, b'h', b'i']
    );
    assert_eq!(encoded(&Message::Deliver("a".to_string())), vec![4, 1, b'a']);
    assert_eq!(encoded(&Message::Delete("a".to_string())), vec![5, 1, b'a']);
    assert_eq!(encoded(&Message::Response(Ok("ok".to_string()))), vec![242, 2, b'o', b'k']);
    assert_eq!(encoded(&Message::Response(Err("no".to_string()))), vec![243, 2, b'n', b'o']);
}

#[test]
fn encode_appends_to_what_the_stream_holds() {
    let mut bytes = vec![7, 7];
    Message::List("x".to_string()).encode(&mut bytes);
    assert_eq!(bytes, vec![7, 7, 2, 1, b'x']);
}

#[test]
fn encode_len_uses_one_byte_below_255_and_five_from_there() {
    let mut bytes = Vec::new();
    Message::encode_len(&mut bytes, 0);
    Message::encode_len(&mut bytes, 254);
    assert_eq!(bytes, vec![0, 254]);
    let mut bytes = Vec::new();
    Message::encode_len(&mut bytes, 255);
    assert_eq!(bytes, vec![255, 0, 0, 0, 255]);
    let mut bytes = Vec::new();
    Message::encode_len(&mut bytes, 256);
    assert_eq!(bytes, vec![255, 0, 0, 1, 0]);
    let mut bytes = Vec::new();
    Message::encode_len(&mut bytes, 0x0102_0304);
    assert_eq!(bytes, vec![255, 1, 2, 3, 4]);
    let mut bytes = Vec::new();
    Message::encode_len(&mut bytes, MAX_TEXT_LEN);
    assert_eq!(bytes, vec![255, 255, 255, 255, 255]);
}

#[test]
fn decode_len_reads_both_forms() {
    assert_eq!(Message::decode_len(&[0]), Ok((0, 1)));
    assert_eq!(Message::decode_len(&[254, 9]), Ok((254, 1)));
    assert_eq!(Message::decode_len(&[255, 0, 0, 1, 0, 9]), Ok((256, 5)));
    assert_eq!(Message::decode_len(&[255, 1, 2, 3, 4]), Ok((0x0102_0304, 5)));
    assert_eq!(Message::decode_len(&[255, 0, 0, 0, 7]), Ok((7, 5)));
    assert_eq!(Message::decode_len(&[]), Err(ProtocolError::Truncated(1)));
    assert_eq!(Message::decode_len(&[255]), Err(ProtocolError::Truncated(4)));
    assert_eq!(Message::decode_len(&[255, 0, 0]), Err(ProtocolError::Truncated(2)));
}

#[test]
fn encode_str_and_decode_str_agree() {
    let mut bytes = Vec::new();
    Message::encode_str(&mut bytes, "h\u{e9}llo");
    assert_eq!(bytes, vec![6, b'h', 0xc3, 0xa9, b'l', b'l', b'o']);
    let (text, used) = Message::decode_str(&bytes).unwrap();
    assert_eq!(text, "h\u{e9}llo");
    assert_eq!(used, 7);
}

#[test]
fn decode_str_reports_what_is_missing() {
    assert_eq!(Message::decode_str(&[]).unwrap_err(), ProtocolError::Truncated(1));
    assert_eq!(Message::decode_str(&[3, b'a']).unwrap_err(), ProtocolError::Truncated(2));
    assert_eq!(
        Message::decode_str(&[255, 0, 0, 1, 0, b'a']).unwrap_err(),
        ProtocolError::Truncated(255)
    );
}

#[test]
fn round_trip_of_text_lengths_around_the_threshold() {
    for len in [0usize, 1, 254, 255, 256, 65_535, 65_536, 70_000] {
        let text = text_of_len(len);
        match round_trip(Message::Send("alice".to_string(), text.clone())) {
            Message::Send(name, got) => {
                assert_eq!(name, "alice");
                assert_eq!(got, text);
            }
            other => panic!("wrong variant: {:?}", other),
        }
        match round_trip(Message::Response(Ok(text.clone()))) {
            Message::Response(Ok(got)) => assert_eq!(got, text),
            other => panic!("wrong variant: {:?}", other),
        }
    }
}

#[test]
fn round_trip_of_every_variant() {
    assert!(matches!(round_trip(Message::Create("a b".to_string())), Message::Create(ref t) if t == "a b"));
    assert!(matches!(round_trip(Message::List("*".to_string())), Message::List(ref t) if t == "*"));
    assert!(matches!(round_trip(Message::Deliver("\u{1f600}".to_string())), Message::Deliver(ref t) if t == "\u{1f600}"));
    assert!(matches!(round_trip(Message::Delete("".to_string())), Message::Delete(ref t) if t.is_empty()));
    assert!(matches!(round_trip(Message::Response(Err("e".to_string()))), Message::Response(Err(ref t)) if t == "e"));
    assert!(matches!(
        round_trip(Message::Send("".to_string(), "".to_string())),
        Message::Send(ref n, ref t) if n.is_empty() && t.is_empty()
    ));
}

#[test]
fn unknown_discriminant_is_a_protocol_error() {
    let r = Message::decode(&[99, 0]);
    assert!(matches!(r, Err(ProtocolError::UnknownDiscriminant(99))));
    assert!(matches!(Message::decode(&[99]), Err(ProtocolError::UnknownDiscriminant(99))));
    assert!(matches!(Message::decode(&[0, 0]), Err(ProtocolError::UnknownDiscriminant(0))));
    assert!(matches!(Message::decode(&[6, 0]), Err(ProtocolError::UnknownDiscriminant(6))));
    assert!(matches!(Message::decode(&[241, 0]), Err(ProtocolError::UnknownDiscriminant(241))));
}

#[test]
fn invalid_utf8_is_a_protocol_error() {
    assert!(matches!(Message::decode(&[1, 2, 0xff, 0xfe]), Err(ProtocolError::InvalidText)));
    assert!(matches!(Message::decode(&[1, 1, 0x80]), Err(ProtocolError::InvalidText)));
    // An invalid first text is reported even when the second text is missing.
    assert!(matches!(Message::decode(&[3, 1, 0xff]), Err(ProtocolError::InvalidText)));
}

#[test]
fn every_proper_prefix_is_truncated_and_asks_for_no_more_than_is_left() {
    for message in [
        Message::Send("alice".to_string(), text_of_len(300)),
        Message::Create(text_of_len(255)),
        Message::List("".to_string()),
    ] {
        let bytes = encoded(&message);
        for cut in 0..bytes.len() {
            match Message::decode(&bytes[..cut]) {
                Err(ProtocolError::Truncated(missing)) => {
                    assert!(missing >= 1);
                    assert!(missing <= bytes.len() - cut);
                }
                other => panic!("prefix of {} bytes gave {:?}", cut, other),
            }
        }
    }
}

#[test]
fn the_reader_can_follow_the_missing_counts() {
    let bytes = encoded(&Message::Send("bob".to_string(), text_of_len(1000)));
    let mut have = 0;
    let mut rounds = 0;
    loop {
        match Message::decode(&bytes[..have]) {
            Ok((Message::Send(name, text), used)) => {
                assert_eq!(name, "bob");
                assert_eq!(text.len(), 1000);
                assert_eq!(used, bytes.len());
                break;
            }
            Err(ProtocolError::Truncated(missing)) => have += missing,
            other => panic!("unexpected: {:?}", other),
        }
        rounds += 1;
    }
    assert_eq!(have, bytes.len());
    assert_eq!(rounds, 6);
}

#[test]
fn decode_takes_one_message_and_leaves_the_rest() {
    let mut bytes = encoded(&Message::Create("a".to_string()));
    let first = bytes.len();
    Message::Delete("b".to_string()).encode(&mut bytes);
    let (message, used) = Message::decode(&bytes).unwrap();
    assert!(matches!(message, Message::Create(ref t) if t == "a"));
    assert_eq!(used, first);
    let (message, used) = Message::decode(&bytes[first..]).unwrap();
    assert!(matches!(message, Message::Delete(ref t) if t == "b"));
    assert_eq!(used, bytes.len() - first);
}

#[test]
fn decode_accepts_a_long_form_length_for_a_short_text() {
    let (message, used) = Message::decode(&[4, 255, 0, 0, 0, 2, b'h', b'i']).unwrap();
    assert!(matches!(message, Message::Deliver(ref t) if t == "hi"));
    assert_eq!(used, 8);
}

#[test]
fn fits_accepts_ordinary_messages() {
    assert!(Message::Create("alice".to_string()).fits());
    assert!(Message::Send("a".to_string(), text_of_len(100_000)).fits());
}

#[test]
fn protocol_errors_have_their_words() {
    assert_eq!(ProtocolError::Truncated(3).message(), "wire message was cut short");
    assert_eq!(ProtocolError::UnknownDiscriminant(99).message(), "wire message had invalid type");
    assert_eq!(ProtocolError::InvalidText.message(), "wire message had invalid UTF-8");
    assert_eq!(ProtocolError::UnexpectedMessage.message(), "wire message of unexpected shape");
}
