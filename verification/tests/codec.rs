use zbus::error::Error as ConnectionError;
use zbus::message::{
    Body, Message, MessageFlags, MessagePrimaryHeader, MessageType, UNASSIGNED_SERIAL,
};
use zbus::message_field::{is_valid_path, MessageField};
use zbus::error::{IoError, IoErrorKind};
use zbus::variant::{Error, Source, Utf8Error};
use zbus::wire::{padding_for_8_bytes, read_u32, write_u32, EndianSig};

/// The bytes of the call of `Test` on `/` under the serial number one.
fn test_call_bytes() -> Vec<u8> {
    vec![
        0x6c, 0x01, 0x00, 0x01, // little-endian, method call, no flags, version 1
        0x00, 0x00, 0x00, 0x00, // body length
        0x01, 0x00, 0x00, 0x00, // serial number
        0x1d, 0x00, 0x00, 0x00, // length of the fields
        0x01, 0x01, 0x6f, 0x00, 0x01, 0x00, 0x00, 0x00, 0x2f, 0x00, // path "/"
        0x00, 0x00, 0x00, 0x00, 0x00, 0x00, // padding
        0x03, 0x01, 0x73, 0x00, 0x04, 0x00, 0x00, 0x00, 0x54, 0x65, 0x73, 0x74,
        0x00, // member "Test"
        0x00, 0x00, 0x00, // padding before the body
    ]
}

fn test_call() -> Message {
    let mut m = Message::method(None, None, "/", None, "Test", Body::empty()).unwrap();
    m.set_serial_num(1).unwrap();
    m
}

#[test]
fn msg() {
    let mut m = Message::method(
        None,
        Some("org.freedesktop.DBus"),
        "/org/freedesktop/DBus",
        Some("org.freedesktop.DBus.Peer"),
        "GetMachineId",
        Body::empty(),
    )
    .unwrap();
    m.set_flags(MessageFlags::NoAutoStart.bit());
    m.set_serial_num(11).unwrap();
    let primary = m.primary_header();
    assert!(primary.serial_num() == 11);
    assert!(primary.flags() == MessageFlags::NoAutoStart.bit());
    assert!(primary.has_flag(MessageFlags::NoAutoStart));
    assert!(!primary.has_flag(MessageFlags::NoReplyExpected));
}

#[test]
fn new_message_is_unnumbered_little_endian() {
    let m = Message::method(None, None, "/", None, "Test", Body::empty()).unwrap();
    assert_eq!(
        *m.primary_header(),
        MessagePrimaryHeader {
            endian_sig: EndianSig::Little,
            msg_type: MessageType::MethodCall,
            flags: 0,
            protocol_version: 1,
            body_len: 0,
            serial_num: UNASSIGNED_SERIAL,
        }
    );
    assert_eq!(
        m.fields(),
        &vec![MessageField::Path("/".to_string()), MessageField::Member("Test".to_string())]
    );
}

#[test]
fn encode_gives_the_exact_bytes() {
    assert_eq!(test_call().encode(), test_call_bytes());
}

#[test]
fn decode_gives_the_message_and_the_counts() {
    let bytes = test_call_bytes();
    let (m, consumed, fds) = Message::decode(&bytes, &[]).unwrap();
    assert_eq!(m, test_call());
    assert_eq!(consumed, 48);
    assert_eq!(fds, 0);
    assert_eq!(m.path(), Some("/"));
    assert_eq!(m.member(), Some("Test"));
    assert_eq!(m.interface(), None);
    assert_eq!(m.reply_serial(), None);
}

#[test]
fn decode_undoes_encode() {
    let body = Body { signature: "su".to_string(), bytes: vec![1, 2, 3, 4, 5], fds: vec![7, 9] };
    let mut m = Message::signal(
        Some(":1.7"),
        Some("org.example.Peer"),
        "/org/example/Object_1",
        "org.example.Iface",
        "Changed",
        body,
    )
    .unwrap();
    m.set_serial_num(0xdead_beef).unwrap();
    m.set_flags(MessageFlags::NoReplyExpected.bit() | MessageFlags::AllowInteractiveAuth.bit());
    let mut bytes = m.encode();
    let encoded_len = bytes.len();
    bytes.extend_from_slice(&[0xaa, 0xbb, 0xcc]);
    let (back, consumed, fds) = Message::decode(&bytes, &[7, 9, 11]).unwrap();
    assert_eq!(back, m);
    assert_eq!(consumed, encoded_len);
    assert_eq!(fds, 2);
    assert_eq!(back.fds(), &vec![7, 9]);
    assert_eq!(back.body(), &vec![1, 2, 3, 4, 5]);
    assert_eq!(back.body_signature(), Some("su"));
    assert_eq!(encoded_len % 8, 5);
}

#[test]
fn decode_reads_big_endian() {
    let mut bytes = test_call_bytes();
    bytes[0] = 0x42;
    bytes[8..12].copy_from_slice(&[0, 0, 0, 1]);
    bytes[12..16].copy_from_slice(&[0, 0, 0, 0x1d]);
    bytes[20..24].copy_from_slice(&[0, 0, 0, 1]);
    bytes[36..40].copy_from_slice(&[0, 0, 0, 4]);
    let (m, consumed, _) = Message::decode(&bytes, &[]).unwrap();
    assert_eq!(consumed, 48);
    assert_eq!(m.primary_header().endian_sig(), EndianSig::Big);
    assert_eq!(m.serial_num(), 1);
    assert_eq!(m.member(), Some("Test"));
    assert_eq!(m.encode(), bytes);
}

#[test]
fn decode_wants_the_whole_message() {
    let bytes = test_call_bytes();
    for cut in 0..bytes.len() {
        assert_eq!(Message::decode(&bytes[..cut], &[]), Err(Error::InsufficientData));
    }
}

#[test]
fn decode_refuses_malformed_headers() {
    let good = test_call_bytes();

    let mut bytes = good.clone();
    bytes[0] = 0x6d;
    assert_eq!(Message::decode(&bytes, &[]), Err(Error::IncorrectType));

    let mut bytes = good.clone();
    bytes[1] = 5;
    assert_eq!(Message::decode(&bytes, &[]), Err(Error::IncorrectType));

    let mut bytes = good.clone();
    bytes[3] = 2;
    assert_eq!(Message::decode(&bytes, &[]), Err(Error::IncorrectType));

    let mut bytes = good.clone();
    bytes[8] = 0;
    assert_eq!(Message::decode(&bytes, &[]), Err(Error::IncorrectType));

    let mut bytes = good.clone();
    bytes[16] = 10;
    assert_eq!(Message::decode(&bytes, &[]), Err(Error::IncorrectType));

    let mut bytes = good.clone();
    bytes[18] = 0x73;
    assert_eq!(Message::decode(&bytes, &[]), Err(Error::IncorrectType));

    let mut bytes = good.clone();
    bytes[24] = 0x61;
    assert_eq!(Message::decode(&bytes, &[]), Err(Error::IncorrectType));

    let mut bytes = good.clone();
    bytes[44] = 1;
    assert_eq!(Message::decode(&bytes, &[]), Err(Error::IncorrectType));
}

#[test]
fn decode_refuses_padding_that_is_not_zero() {
    let mut bytes = test_call_bytes();
    bytes[27] = 1;
    assert_eq!(Message::decode(&bytes, &[]), Err(Error::PaddingNot0));

    let mut bytes = test_call_bytes();
    bytes[46] = 1;
    assert_eq!(Message::decode(&bytes, &[]), Err(Error::PaddingNot0));
}

#[test]
fn decode_refuses_text_that_is_not_utf8() {
    let mut bytes = test_call_bytes();
    bytes[42] = 0xff;
    assert_eq!(
        Message::decode(&bytes, &[]),
        Err(Error::Utf8(Utf8Error { valid_up_to: 2 }))
    );
}

#[test]
fn decode_takes_the_announced_descriptors() {
    let body = Body { signature: "h".to_string(), bytes: vec![0, 0, 0, 0], fds: vec![5] };
    let mut m = Message::method_reply(None, &test_call(), body).unwrap();
    m.set_serial_num(2).unwrap();
    let bytes = m.encode();
    assert_eq!(Message::decode(&bytes, &[]), Err(Error::UnknownFd));
    let (back, _, taken) = Message::decode(&bytes, &[5, 6]).unwrap();
    assert_eq!(taken, 1);
    assert_eq!(back.fds(), &vec![5]);
    assert_eq!(back.reply_serial(), Some(1));
}

#[test]
fn builders_refuse_what_cannot_be_written() {
    assert_eq!(
        Message::method(None, None, "no/slash", None, "Test", Body::empty()),
        Err(ConnectionError::InvalidMessage)
    );
    assert_eq!(
        Message::method(None, None, "/trailing/", None, "Test", Body::empty()),
        Err(ConnectionError::InvalidMessage)
    );
    assert_eq!(
        Message::method(None, None, "/a//b", None, "Test", Body::empty()),
        Err(ConnectionError::InvalidMessage)
    );
    assert_eq!(
        Message::method(None, None, "", None, "Test", Body::empty()),
        Err(ConnectionError::InvalidMessage)
    );
    assert_eq!(
        Message::method(None, None, "/a-b", None, "Test", Body::empty()),
        Err(ConnectionError::InvalidMessage)
    );
    let unsigned = Body { signature: String::new(), bytes: vec![1], fds: vec![] };
    assert_eq!(
        Message::method(None, None, "/", None, "Test", unsigned),
        Err(ConnectionError::InvalidMessage)
    );
    let long = Body { signature: "i".repeat(256), bytes: vec![], fds: vec![] };
    assert_eq!(
        Message::method(None, None, "/", None, "Test", long),
        Err(ConnectionError::InvalidMessage)
    );
    assert!(Message::method(None, None, "/a/B_9", None, "Test", Body::empty()).is_ok());
}

#[test]
fn object_paths_follow_their_grammar() {
    assert!(is_valid_path(b"/"));
    assert!(is_valid_path(b"/org/freedesktop/DBus"));
    assert!(is_valid_path(b"/a_1/B"));
    assert!(!is_valid_path(b""));
    assert!(!is_valid_path(b"a"));
    assert!(!is_valid_path(b"//"));
    assert!(!is_valid_path(b"/a/"));
    assert!(!is_valid_path(b"/a//b"));
    assert!(!is_valid_path(b"/a.b"));
}

#[test]
fn messages_name_what_their_kind_requires() {
    let call = test_call();
    assert!(call.has_required_fields());
    let signal = Message::signal(None, None, "/", "org.I", "Rang", Body::empty()).unwrap();
    assert!(signal.has_required_fields());
    assert!(Message::method_reply(None, &call, Body::empty()).unwrap().has_required_fields());
    assert!(Message::method_error(None, &call, "org.E", Body::empty())
        .unwrap()
        .has_required_fields());

    // The same header under another kind lacks what that kind requires.
    let mut bytes = test_call_bytes();
    bytes[1] = 4;
    let (as_signal, _, _) = Message::decode(&bytes, &[]).unwrap();
    assert!(!as_signal.has_required_fields());
    bytes[1] = 2;
    let (as_return, _, _) = Message::decode(&bytes, &[]).unwrap();
    assert!(!as_return.has_required_fields());
    bytes[1] = 0;
    let (invalid, _, _) = Message::decode(&bytes, &[]).unwrap();
    assert_eq!(invalid.message_type(), MessageType::Invalid);
    assert!(invalid.has_required_fields());
    assert_eq!(invalid.description(), "Unknown message");
}

#[test]
fn zero_is_no_serial_number() {
    let mut m = test_call();
    assert_eq!(m.set_serial_num(0), Err(ConnectionError::InvalidMessage));
    assert_eq!(m.serial_num(), 1);
}

#[test]
fn replies_name_the_call() {
    let mut call =
        Message::method(Some(":1.5"), None, "/", Some("org.zbus.p2p"), "Test", Body::empty())
            .unwrap();
    call.set_serial_num(42).unwrap();
    let reply = Message::method_reply(Some(":1.9"), &call, Body::text("yay").unwrap()).unwrap();
    assert_eq!(reply.message_type(), MessageType::MethodReturn);
    assert_eq!(reply.reply_serial(), Some(42));
    assert_eq!(reply.destination(), Some(":1.5"));
    assert_eq!(reply.sender(), Some(":1.9"));
    assert_eq!(reply.body_signature(), Some("s"));
    assert_eq!(reply.body_text(), Some("yay".to_string()));
    assert_eq!(reply.body(), &vec![3, 0, 0, 0, 0x79, 0x61, 0x79, 0]);

    let error = Message::method_error(
        None,
        &call,
        "org.zbus.Error.Failed",
        Body::text("it failed").unwrap(),
    )
    .unwrap();
    assert_eq!(error.message_type(), MessageType::Error);
    assert_eq!(error.reply_serial(), Some(42));
    assert_eq!(error.error_name(), Some("org.zbus.Error.Failed"));
    assert_eq!(error.body_text(), Some("it failed".to_string()));
}

#[test]
fn descriptions_name_kind_member_and_sender() {
    let mut call =
        Message::method(Some(":1.5"), None, "/", Some("org.zbus.p2p"), "Test", Body::empty())
            .unwrap();
    call.set_serial_num(3).unwrap();
    assert_eq!(call.description(), "Method call Test from :1.5");
    let reply = Message::method_reply(None, &call, Body::empty()).unwrap();
    assert_eq!(reply.description(), "Method return");
    let error = Message::method_error(None, &call, "org.E", Body::text("bad").unwrap()).unwrap();
    assert_eq!(error.description(), "Error org.E: bad");
    let signal = Message::signal(None, None, "/", "org.I", "Rang", Body::empty()).unwrap();
    assert_eq!(signal.description(), "Signal Rang");
}

#[test]
fn numbers_are_written_in_both_byte_orders() {
    let mut out = Vec::new();
    write_u32(&mut out, 0x0102_0304, EndianSig::Little);
    write_u32(&mut out, 0x0102_0304, EndianSig::Big);
    assert_eq!(out, vec![4, 3, 2, 1, 1, 2, 3, 4]);
    assert_eq!(read_u32(&out, 0, EndianSig::Little), 0x0102_0304);
    assert_eq!(read_u32(&out, 4, EndianSig::Big), 0x0102_0304);
    assert_eq!(read_u32(&out, 2, EndianSig::Little), 0x0201_0102);
}

#[test]
fn padding_reaches_the_next_multiple_of_eight() {
    assert_eq!(padding_for_8_bytes(0), 0);
    assert_eq!(padding_for_8_bytes(1), 7);
    assert_eq!(padding_for_8_bytes(26), 6);
    assert_eq!(padding_for_8_bytes(45), 3);
    assert_eq!(padding_for_8_bytes(48), 0);
}

#[test]
fn codec_errors_describe_themselves() {
    assert_eq!(Error::IncorrectType.description(), "incorrect type");
    assert_eq!(Error::InsufficientData.description(), "insufficient data");
    assert_eq!(Error::PaddingNot0.description(), "non-0 padding byte(s)");
    assert_eq!(Error::UnknownFd.description(), "File descriptor not in the given FD index");
    assert_eq!(Error::custom("odd").description(), "odd");
    assert_eq!(Error::custom("odd"), Error::Message("odd".to_string()));
    assert_eq!(Error::IncorrectType.source(), None);
    let eof = IoError::new(IoErrorKind::UnexpectedEof);
    assert_eq!(Error::Io(eof).source(), Some(Source::Io(eof)));
    assert_eq!(Error::Io(eof).description(), "I/O error");
    let bad = Utf8Error { valid_up_to: 3 };
    assert_eq!(Error::Utf8(bad).source(), Some(Source::Utf8(bad)));
    assert_eq!(Error::Utf8(bad).description(), "invalid UTF-8");
}

#[test]
fn decoded_messages_are_consistent() {
    let (m, _, _) = Message::decode(&test_call_bytes(), &[]).unwrap();
    assert!(m.is_wf());
    assert!(test_call().is_wf());
}
