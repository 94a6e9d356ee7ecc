use zbus::ascii::{
    ascii_bytes, ascii_string, bytes_eq, decimal, hex_digit, hex_encode, is_lower_hex,
    starts_with,
};
use zbus::error::Error;
use zbus::guid::{is_guid, Guid};
use zbus::handshake::{
    find_line, uid_payload, Authenticated, ClientHandshake, HandshakeStep, ServerHandshake,
};

const GUID: &str = "0123456789abcdef0123456789abcdef";

fn guid() -> Guid {
    Guid::parse(GUID).unwrap()
}

/// Moves what the client has to write to the server, and back, until neither
/// has anything to write.
fn run(client: &mut ClientHandshake, server: &mut ServerHandshake) -> Result<(), Error> {
    loop {
        let to_server = client.pending_output().to_vec();
        client.advance_output(to_server.len());
        server.feed(&to_server);
        server.advance()?;
        let to_client = server.pending_output().to_vec();
        server.advance_output(to_client.len());
        client.feed(&to_client);
        client.advance()?;
        if to_server.is_empty() && to_client.is_empty() {
            return Ok(());
        }
    }
}

fn finish_client(client: ClientHandshake) -> Authenticated {
    client.try_finish().ok().unwrap()
}

#[test]
fn guid_is_thirty_two_lower_case_hex_digits() {
    assert!(is_guid(GUID.as_bytes()));
    assert!(!is_guid(b"0123456789abcdef0123456789abcde"));
    assert!(!is_guid(b"0123456789abcdef0123456789abcdef0"));
    assert!(!is_guid(b"0123456789ABCDEF0123456789abcdef"));
    assert!(!is_guid(b"0123456789abcdeg0123456789abcdef"));
    assert!(Guid::parse("0123456789abcdef0123456789abcde").is_none());
    assert!(Guid::from_ascii(b"g123456789abcdef0123456789abcdef").is_none());
    assert_eq!(guid().as_str(), GUID);
    assert_eq!(guid().as_bytes(), GUID.as_bytes());
}

#[test]
fn guid_of_bytes_is_their_hex() {
    let g = Guid::from_bytes(&[
        0x00, 0x01, 0x0a, 0x0f, 0x10, 0x7f, 0x80, 0xff, 0xde, 0xad, 0xbe, 0xef, 0x12, 0x34, 0x56,
        0x78,
    ]);
    assert_eq!(g.as_str(), "00010a0f107f80ffdeadbeef12345678");
    assert_eq!(g, Guid::parse("00010a0f107f80ffdeadbeef12345678").unwrap());
}

#[test]
fn uid_is_sent_as_the_hex_of_its_digits() {
    assert_eq!(uid_payload(1000), b"31303030".to_vec());
    assert_eq!(uid_payload(0), b"30".to_vec());
    assert_eq!(uid_payload(4294967295), b"34323934393637323935".to_vec());
}

#[test]
fn lines_end_with_carriage_return_and_line_feed() {
    assert_eq!(find_line(b"OK\r\nrest"), Some(2));
    assert_eq!(find_line(b"\r\n"), Some(0));
    assert_eq!(find_line(b"a\rb\nc\r\n\r\n"), Some(5));
    assert_eq!(find_line(b"no end\r"), None);
    assert_eq!(find_line(b""), None);
}

#[test]
fn client_opens_with_zero_byte_and_auth_external() {
    let client = ClientHandshake::new(1000);
    assert_eq!(client.pending_output(), b"\0AUTH EXTERNAL 31303030\r\n");
}

#[test]
fn client_walks_through_the_handshake() {
    let mut client = ClientHandshake::new(1000);
    assert_eq!(client.advance(), Ok(HandshakeStep::NeedsWrite));
    let n = client.pending_output().len();
    client.advance_output(n);
    assert_eq!(client.advance(), Ok(HandshakeStep::NeedsRead));

    client.feed(b"OK 0123456789abcdef");
    assert_eq!(client.advance(), Ok(HandshakeStep::NeedsRead));
    client.feed(b"0123456789abcdef\r\n");
    assert_eq!(client.advance(), Ok(HandshakeStep::NeedsWrite));
    assert_eq!(client.pending_output(), b"NEGOTIATE_UNIX_FD\r\n");
    client.advance_output(19);

    client.feed(b"AGREE_UNIX_FD\r\n");
    assert_eq!(client.advance(), Ok(HandshakeStep::NeedsWrite));
    assert_eq!(client.pending_output(), b"BEGIN\r\n");
    let client = client.try_finish().err().unwrap();
    let mut client = client;
    client.advance_output(3);
    assert_eq!(client.pending_output(), b"IN\r\n");
    client.advance_output(100);
    assert_eq!(client.advance(), Ok(HandshakeStep::Done));

    let auth = finish_client(client);
    assert_eq!(auth.server_guid.as_str(), GUID);
    assert!(auth.cap_unix_fd);
    assert!(auth.conn.is_flushed());
}

#[test]
fn client_without_agreement_cannot_pass_descriptors() {
    let mut client = ClientHandshake::new(0);
    client.advance_output(100);
    client.feed(b"OK 0123456789abcdef0123456789abcdef\r\nERROR not here\r\n");
    assert_eq!(client.advance(), Ok(HandshakeStep::NeedsWrite));
    assert_eq!(client.pending_output(), b"NEGOTIATE_UNIX_FD\r\nBEGIN\r\n");
    client.advance_output(100);
    assert_eq!(client.advance(), Ok(HandshakeStep::Done));
    let auth = finish_client(client);
    assert!(!auth.cap_unix_fd);
    assert_eq!(auth.server_guid.as_str().len(), 32);
}

#[test]
fn client_tries_anonymous_once() {
    let mut client = ClientHandshake::new(0);
    client.advance_output(100);
    client.feed(b"REJECTED EXTERNAL\r\n");
    assert_eq!(client.advance(), Ok(HandshakeStep::NeedsWrite));
    assert_eq!(client.pending_output(), b"AUTH ANONYMOUS\r\n");
    client.advance_output(100);
    client.feed(b"REJECTED EXTERNAL\r\n");
    assert_eq!(
        client.advance(),
        Err(Error::Handshake("the server rejected the authentication".to_string()))
    );
}

#[test]
fn client_refuses_unexpected_lines() {
    let mut client = ClientHandshake::new(0);
    client.feed(b"AGREE_UNIX_FD\r\n");
    assert_eq!(client.advance(), Err(Error::Handshake("unexpected response to AUTH".to_string())));

    let mut client = ClientHandshake::new(0);
    client.feed(b"OK 0123456789ABCDEF0123456789abcdef\r\n");
    assert_eq!(
        client.advance(),
        Err(Error::Handshake("invalid GUID in the server's OK".to_string()))
    );

    let mut client = ClientHandshake::new(0);
    client.feed(b"OK 0123456789abcdef0123456789abcdef\r\nOK\r\n");
    assert_eq!(
        client.advance(),
        Err(Error::Handshake("unexpected response to NEGOTIATE_UNIX_FD".to_string()))
    );

    let mut client = ClientHandshake::new(0);
    assert_eq!(
        client.handle_line(b"OK 0123456789abcdef0123456789abcdef"),
        Ok(())
    );
    assert_eq!(client.handle_line(b"AGREE_UNIX_FD"), Ok(()));
    assert_eq!(
        client.handle_line(b"AGREE_UNIX_FD"),
        Err(Error::Handshake("unexpected line after BEGIN".to_string()))
    );
}

#[test]
fn server_walks_through_the_handshake() {
    let mut server = ServerHandshake::new(guid(), 1000);
    assert_eq!(server.advance(), Ok(HandshakeStep::NeedsRead));
    server.feed(b"\0AUTH EXTERNAL 31303030\r\n");
    assert_eq!(server.advance(), Ok(HandshakeStep::NeedsWrite));
    assert_eq!(server.pending_output(), b"OK 0123456789abcdef0123456789abcdef\r\n");
    server.advance_output(100);
    server.feed(b"NEGOTIATE_UNIX_FD\r\n");
    assert_eq!(server.advance(), Ok(HandshakeStep::NeedsWrite));
    assert_eq!(server.pending_output(), b"AGREE_UNIX_FD\r\n");
    server.advance_output(100);
    server.feed(b"BEGIN\r\nl\x01");
    assert_eq!(server.advance(), Ok(HandshakeStep::Done));
    let auth = server.try_finish().ok().unwrap();
    assert!(auth.cap_unix_fd);
    assert_eq!(auth.server_guid, guid());
    assert!(auth.conn.is_flushed());
}

#[test]
fn server_answers_what_it_does_not_accept() {
    let mut server = ServerHandshake::new(guid(), 1000);
    server.feed(b"\0AUTH\r\nAUTH DBUS_COOKIE_SHA1 abc\r\nDATA\r\n");
    assert_eq!(server.advance(), Ok(HandshakeStep::NeedsWrite));
    assert_eq!(
        server.pending_output(),
        b"REJECTED EXTERNAL\r\nREJECTED EXTERNAL\r\nERROR Unsupported command\r\n"
    );
    server.advance_output(1000);
    server.feed(b"AUTH EXTERNAL 31303030\r\nCANCEL\r\nBEGIN\r\n");
    assert_eq!(server.advance(), Ok(HandshakeStep::NeedsWrite));
    assert_eq!(
        server.pending_output(),
        b"OK 0123456789abcdef0123456789abcdef\r\nERROR Unsupported command\r\n"
    );
    server.advance_output(1000);
    assert_eq!(server.advance(), Ok(HandshakeStep::Done));
    let auth = server.try_finish().ok().unwrap();
    assert!(!auth.cap_unix_fd);
}

#[test]
fn server_ends_the_handshake_on_violations() {
    let mut server = ServerHandshake::new(guid(), 1000);
    server.feed(b"AUTH EXTERNAL 31303030\r\n");
    assert_eq!(
        server.advance(),
        Err(Error::Handshake("the client did not start with a zero byte".to_string()))
    );

    let mut server = ServerHandshake::new(guid(), 1000);
    server.feed(b"\0AUTH EXTERNAL 30\r\n");
    assert_eq!(
        server.advance(),
        Err(Error::Handshake("the client does not name the user of the peer".to_string()))
    );

    let mut server = ServerHandshake::new(guid(), 1000);
    server.feed(b"\0BEGIN\r\n");
    assert_eq!(
        server.advance(),
        Err(Error::Handshake("BEGIN before the authentication".to_string()))
    );

    let mut server = ServerHandshake::new(guid(), 1000);
    assert_eq!(
        server.handle_line(b"BEGIN"),
        Err(Error::Handshake("a line before the zero byte".to_string()))
    );
}

#[test]
fn client_and_server_agree() {
    let mut client = ClientHandshake::new(1000);
    let mut server = ServerHandshake::new(guid(), 1000);
    run(&mut client, &mut server).unwrap();
    let client = finish_client(client);
    let server = server.try_finish().ok().unwrap();
    assert_eq!(client.server_guid.as_str(), GUID);
    assert!(client.server_guid.as_str().bytes().all(|b| b.is_ascii_digit() || (b'a'..=b'f').contains(&b)));
    assert!(client.cap_unix_fd);
    assert!(server.cap_unix_fd);
}

#[test]
fn client_of_another_user_is_turned_away() {
    let mut client = ClientHandshake::new(1001);
    let mut server = ServerHandshake::new(guid(), 1000);
    assert!(run(&mut client, &mut server).is_err());
    assert!(client.try_finish().is_err());
}

#[test]
fn ascii_text_and_bytes_correspond() {
    assert_eq!(ascii_bytes("BEGIN\r\n"), b"BEGIN\r\n");
    assert_eq!(ascii_string(b"OK 01"), "OK 01");
    assert_eq!(ascii_string(b""), "");
    assert!(starts_with(b"REJECTED EXTERNAL", b"REJECTED"));
    assert!(starts_with(b"OK", b""));
    assert!(!starts_with(b"OK", b"OK "));
    assert!(!starts_with(b"ERROR", b"ERRoR"));
    assert!(bytes_eq(b"BEGIN", b"BEGIN"));
    assert!(!bytes_eq(b"BEGIN", b"BEGIN "));
    assert!(!bytes_eq(b"BEGIN", b"BEGIM"));
}

#[test]
fn numbers_are_spelled_in_decimal_and_hex() {
    assert_eq!(decimal(0), b"0");
    assert_eq!(decimal(7), b"7");
    assert_eq!(decimal(10), b"10");
    assert_eq!(decimal(1000), b"1000");
    assert_eq!(decimal(4294967295), b"4294967295");
    assert_eq!(hex_encode(&[0x00, 0x9a, 0xff]), b"009aff");
    assert_eq!(hex_encode(&[]), b"");
    assert_eq!(hex_digit(9), b'9');
    assert_eq!(hex_digit(10), b'a');
    assert_eq!(hex_digit(15), b'f');
    assert!(is_lower_hex(b'0') && is_lower_hex(b'9') && is_lower_hex(b'a') && is_lower_hex(b'f'));
    assert!(!is_lower_hex(b'g') && !is_lower_hex(b'A') && !is_lower_hex(b'/') && !is_lower_hex(b':'));
}
