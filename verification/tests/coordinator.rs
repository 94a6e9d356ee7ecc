use zbus::connection::{CallProgress, Connection, MethodCall, DEFAULT_MAX_QUEUED};
use zbus::error::{Error, IoError, IoErrorKind};
use zbus::guid::Guid;
use zbus::handshake::{Authenticated, ClientHandshake, ServerHandshake};
use zbus::message::{Body, Message, MessageType};
use zbus::raw::RawConnection;
use zbus::variant;

type Hook = fn(Message) -> Option<Message>;
type Conn = Connection<Hook>;

const GUID: &str = "0123456789abcdef0123456789abcdef";

/// A connection that no handshake has preceded.
fn peer(cap_unix_fd: bool) -> Conn {
    Connection::new_authenticated_unix(Authenticated {
        conn: RawConnection::new(),
        server_guid: Guid::parse(GUID).unwrap(),
        cap_unix_fd,
    })
}

/// The two ends of a connection that a handshake in memory has established: the
/// client's and the server's.
fn pair() -> (Conn, Conn) {
    let mut client = ClientHandshake::new(1000);
    let mut server = ServerHandshake::new(Guid::from_bytes(&[7; 16]), 1000);
    loop {
        let to_server = client.pending_output().to_vec();
        client.advance_output(to_server.len());
        server.feed(&to_server);
        server.advance().unwrap();
        let to_client = server.pending_output().to_vec();
        server.advance_output(to_client.len());
        client.feed(&to_client);
        client.advance().unwrap();
        if to_server.is_empty() && to_client.is_empty() {
            break;
        }
    }
    (
        Connection::new_authenticated_unix(client.try_finish().ok().unwrap()),
        Connection::new_authenticated_unix(server.try_finish().ok().unwrap()),
    )
}

/// Writes out what `from` has pending and lets `to` receive it.
fn deliver(from: &mut Conn, to: &mut Conn) {
    let (bytes, fds) = from.pending_output();
    let (bytes, fds) = (bytes.to_vec(), fds.to_vec());
    from.advance_output(bytes.len());
    assert!(from.is_flushed());
    to.feed(&bytes, &fds);
}

fn signal(name: &str) -> Message {
    Message::signal(None, None, "/", "org.zbus.Test", name, Body::empty()).unwrap()
}

fn done(progress: CallProgress) -> Result<Message, Error> {
    match progress {
        CallProgress::Done(r) => r,
        CallProgress::Pending => panic!("the call is still awaited"),
    }
}

fn is_pending(progress: &CallProgress) -> bool {
    matches!(progress, CallProgress::Pending)
}

fn would_need_more(r: Result<Message, Error>) -> bool {
    r == Err(Error::Variant(variant::Error::InsufficientData))
}

#[test]
fn unix_p2p() {
    let (mut c, mut server) = pair();

    let mut call: MethodCall =
        server.call_method(None, "/", Some("org.zbus.p2p"), "Test", Body::empty()).unwrap();
    assert!(is_pending(&server.resume_call(&mut call)));
    deliver(&mut server, &mut c);

    let m = c.receive_message().unwrap();
    assert_eq!(m.description(), "Method call Test");
    c.reply(&m, Body::text("yay").unwrap()).unwrap();
    deliver(&mut c, &mut server);

    let reply = done(server.resume_call(&mut call)).unwrap();
    assert_eq!(reply.description(), "Method return");
    let val: String = reply.body_text().unwrap();
    assert_eq!(val, "yay");
}

#[test]
fn serial_monotonically_increases() {
    let mut c = peer(false);
    let serial = c.next_serial() + 1;

    for next in serial..serial + 10 {
        assert_eq!(next, c.next_serial());
    }
}

#[test]
fn first_serial_is_one_and_sends_count_up() {
    let mut c = peer(false);
    let mut last = 0;
    for expected in 1..=20u32 {
        let serial = c.send_message(signal("Tick")).unwrap();
        assert_eq!(serial, expected);
        assert!(serial != 0 && serial > last);
        last = serial;
    }
}

#[test]
fn sent_message_carries_its_serial() {
    let (mut client, mut server) = pair();
    assert_eq!(client.next_serial(), 1);
    let serial = client.send_message(signal("Tick")).unwrap();
    assert_eq!(serial, 2);
    deliver(&mut client, &mut server);
    let m = server.receive_message().unwrap();
    assert_eq!(m.serial_num(), 2);
    assert_eq!(m.message_type(), MessageType::Signal);
    assert_eq!(m.member(), Some("Tick"));
}

#[test]
fn fresh_connection_is_as_the_handshake_left_it() {
    let (client, server) = pair();
    assert_eq!(client.server_guid(), "07070707070707070707070707070707");
    assert_eq!(server.server_guid(), "07070707070707070707070707070707");
    assert!(client.cap_unix_fd());
    assert_eq!(client.unique_name(), None);
    assert_eq!(client.max_queued(), DEFAULT_MAX_QUEUED);
    assert_eq!(client.max_queued(), 32);
    assert_eq!(client.closed(), None);
    assert!(client.is_flushed());
    let mut client = client.set_max_queued(30);
    assert_eq!(client.max_queued(), 30);
    client.limit_queue(0);
    assert_eq!(client.max_queued(), 0);
}

#[test]
fn unique_name_is_given_once() {
    let mut c = peer(false);
    assert_eq!(c.set_unique_name(":1.42".to_string()), Ok(()));
    assert_eq!(c.unique_name(), Some(":1.42"));
    assert_eq!(c.set_unique_name(":1.43".to_string()), Err(":1.43".to_string()));
    assert_eq!(c.unique_name(), Some(":1.42"));
    c.emit_signal(None, "/", "org.zbus.Test", "Named", Body::empty()).unwrap();
    let (bytes, _) = c.pending_output();
    let (m, _, _) = Message::decode(bytes, &[]).unwrap();
    assert_eq!(m.sender(), Some(":1.42"));
}

#[test]
fn descriptors_need_the_agreement_of_the_peer() {
    let mut c = peer(false);
    c.send_message(signal("Before")).unwrap();
    let pending = c.pending_output().0.to_vec();
    let with_fd = Message::signal(
        None,
        None,
        "/",
        "org.zbus.Test",
        "WithFd",
        Body { signature: "h".to_string(), bytes: vec![0, 0, 0, 0], fds: vec![3] },
    )
    .unwrap();
    assert_eq!(c.send_message(with_fd.clone()), Err(Error::Unsupported));
    assert_eq!(c.pending_output().0, &pending[..]);
    assert!(c.pending_output().1.is_empty());
    assert_eq!(c.next_serial(), 2);

    let mut agreed = peer(true);
    assert_eq!(agreed.send_message(with_fd), Ok(1));
    assert_eq!(agreed.pending_output().1, &[3]);
}

#[test]
fn descriptors_go_out_with_the_first_bytes() {
    let mut c = peer(true);
    let body = Body { signature: "h".to_string(), bytes: vec![0, 0, 0, 0], fds: vec![3, 4] };
    c.emit_signal(None, "/", "org.zbus.Test", "WithFds", body).unwrap();
    c.advance_output(0);
    assert_eq!(c.pending_output().1, &[3, 4]);
    let len = c.pending_output().0.len();
    c.advance_output(1);
    assert_eq!(c.pending_output().0.len(), len - 1);
    assert!(c.pending_output().1.is_empty());
    assert!(!c.is_flushed());
    c.advance_output(len);
    assert!(c.is_flushed());
}

#[test]
fn fdpass_systemd() {
    let (mut connection, mut bus) = pair();

    let mut call = connection
        .call_method(
            Some("org.freedesktop.systemd1"),
            "/org/freedesktop/systemd1",
            Some("org.freedesktop.systemd1.Manager"),
            "DumpByFileDescriptor",
            Body::empty(),
        )
        .unwrap();
    deliver(&mut connection, &mut bus);
    let request = bus.receive_message().unwrap();
    assert_eq!(request.member(), Some("DumpByFileDescriptor"));
    let dump = Body { signature: "h".to_string(), bytes: vec![0, 0, 0, 0], fds: vec![17] };
    bus.reply(&request, dump).unwrap();
    deliver(&mut bus, &mut connection);

    let reply = done(connection.resume_call(&mut call)).unwrap();
    assert!(reply.body_signature().map(|s| s == "h").unwrap());
    assert_eq!(reply.fds().len(), 1);
    assert!(reply.fds()[0] >= 0);
    assert_eq!(reply.fds()[0], 17);
}

#[test]
fn basic_connection() {
    let (mut connection, mut bus) = pair();

    let mut hello = connection.hello().unwrap();
    deliver(&mut connection, &mut bus);
    let request = bus.receive_message().unwrap();
    assert_eq!(request.description(), "Method call Hello");
    assert_eq!(request.destination(), Some("org.freedesktop.DBus"));
    assert_eq!(request.path(), Some("/org/freedesktop/DBus"));
    assert_eq!(request.interface(), Some("org.freedesktop.DBus"));
    bus.reply(&request, Body::text(":1.42").unwrap()).unwrap();
    deliver(&mut bus, &mut connection);
    let reply = done(connection.resume_call(&mut hello));
    assert_eq!(connection.finish_hello(reply), Ok(()));
    assert_eq!(connection.unique_name(), Some(":1.42"));

    // Hello has been called when the connection was made, so a second call is
    // expected to fail, but only with an error of the bus.
    let mut again = connection
        .call_method(
            Some("org.freedesktop.DBus"),
            "/org/freedesktop/DBus",
            Some("org.freedesktop.DBus"),
            "Hello",
            Body::empty(),
        )
        .unwrap();
    deliver(&mut connection, &mut bus);
    let request = bus.receive_message().unwrap();
    assert_eq!(request.sender(), Some(":1.42"));
    bus.reply_error(
        &request,
        "org.freedesktop.DBus.Error.Failed",
        Body::text("Already handled an Hello message").unwrap(),
    )
    .unwrap();
    deliver(&mut bus, &mut connection);
    match done(connection.resume_call(&mut again)) {
        Err(Error::MethodError(name, description, raw)) => {
            assert_eq!(name, "org.freedesktop.DBus.Error.Failed");
            assert_eq!(description, Some("Already handled an Hello message".to_string()));
            assert_eq!(raw.reply_serial(), Some(again.serial()));
        }
        Err(e) => panic!("{:?}", e),
        _ => panic!(),
    };
}

#[test]
fn hello_without_a_name_fails_the_handshake() {
    let (mut connection, mut bus) = pair();
    let mut hello = connection.hello().unwrap();
    deliver(&mut connection, &mut bus);
    let request = bus.receive_message().unwrap();
    bus.reply(&request, Body::empty()).unwrap();
    deliver(&mut bus, &mut connection);
    let reply = done(connection.resume_call(&mut hello));
    assert_eq!(
        connection.finish_hello(reply),
        Err(Error::Handshake("Hello failed: the reply holds no name".to_string()))
    );
    assert_eq!(
        connection.finish_hello(Err(Error::Unsupported)),
        Err(Error::Handshake("Hello failed".to_string()))
    );
    assert_eq!(connection.unique_name(), None);
}

#[test]
fn freedesktop_api() {
    fn count(msg: Message) -> Option<Message> {
        // The handler sees every message and hands each back.
        println!("Received while waiting for a reply: {}", msg.description());
        Some(msg)
    }
    let (mut connection, mut bus) = pair();
    connection.set_unique_name(":1.7".to_string()).unwrap();
    connection.set_default_message_handler(count);

    let mut ask = |connection: &mut Conn, member: &str, body: Body, answer: Body| -> Message {
        let mut call = connection
            .call_method(
                Some("org.freedesktop.DBus"),
                "/org/freedesktop/DBus",
                Some("org.freedesktop.DBus"),
                member,
                body,
            )
            .unwrap();
        deliver(connection, &mut bus);
        let request = bus.receive_message().unwrap();
        assert_eq!(request.member(), Some(member));
        bus.reply(&request, answer).unwrap();
        deliver(&mut bus, connection);
        done(connection.resume_call(&mut call)).unwrap()
    };

    let number = |n: u32| Body {
        signature: "u".to_string(),
        bytes: n.to_le_bytes().to_vec(),
        fds: vec![],
    };
    let mut request_name = Body::text("org.freedesktop.zbus").unwrap();
    request_name.signature = "su".to_string();
    request_name.bytes.extend_from_slice(&[0, 0, 0, 2, 0, 0, 0]);

    let reply = ask(&mut connection, "RequestName", request_name, number(1));
    assert!(reply.body_signature().map(|s| s == "u").unwrap());
    assert_eq!(reply.body(), &vec![1, 0, 0, 0]);

    let reply = ask(&mut connection, "GetId", Body::empty(), Body::text(GUID).unwrap());
    assert!(reply.body_signature().map(|s| s == "s").unwrap());
    let id = reply.body_text().unwrap();
    println!("Unique ID of the bus: {}", id);

    let reply = ask(
        &mut connection,
        "NameHasOwner",
        Body::text("org.freedesktop.zbus").unwrap(),
        Body { signature: "b".to_string(), bytes: vec![1, 0, 0, 0], fds: vec![] },
    );
    assert!(reply.body_signature().map(|s| s == "b").unwrap());
    assert_eq!(reply.body(), &vec![1, 0, 0, 0]);

    let reply = ask(
        &mut connection,
        "GetNameOwner",
        Body::text("org.freedesktop.zbus").unwrap(),
        Body::text(":1.7").unwrap(),
    );
    assert!(reply.body_signature().map(|s| s == "s").unwrap());
    assert_eq!(reply.body_text().as_deref(), connection.unique_name());

    let reply = ask(
        &mut connection,
        "GetConnectionCredentials",
        Body::text("org.freedesktop.DBus").unwrap(),
        Body { signature: "a{sv}".to_string(), bytes: vec![0, 0, 0, 0, 0, 0, 0, 0], fds: vec![] },
    );
    assert!(reply.body_signature().map(|s| s == "a{sv}").unwrap());
    assert_eq!(reply.body().len(), 8);
}

#[test]
fn issue_68() {
    // While a call is awaited, the messages that arrive before its reply must
    // not be lost.
    let (mut conn, mut bus) = pair();

    // A message reaches the service before it starts to process messages.
    let mut ping =
        Message::method(Some(":1.9"), None, "/org/freedesktop/Issue68", Some("org.freedesktop.Issue68"), "Ping", Body::empty())
            .unwrap();
    ping.set_serial_num(77).unwrap();
    let serial = bus.send_message(ping).unwrap();
    deliver(&mut bus, &mut conn);

    let mut get_id = conn
        .call_method(
            Some("org.freedesktop.DBus"),
            "/org/freedesktop/DBus",
            Some("org.freedesktop.DBus"),
            "GetId",
            Body::empty(),
        )
        .unwrap();
    assert!(is_pending(&conn.resume_call(&mut get_id)));
    assert_eq!(get_id.staged_len(), 1);
    deliver(&mut conn, &mut bus);
    let request = bus.receive_message().unwrap();
    bus.reply(&request, Body::text(GUID).unwrap()).unwrap();
    deliver(&mut bus, &mut conn);
    done(conn.resume_call(&mut get_id)).unwrap();

    loop {
        let msg = conn.receive_message().unwrap();

        if msg.primary_header().serial_num() == serial {
            break;
        }
    }
    assert!(would_need_more(conn.receive_message()));
}

#[test]
fn signals_between_call_and_reply_are_kept_in_order() {
    let (mut client, mut server) = pair();
    let mut call = client.call_method(None, "/", None, "A", Body::empty()).unwrap();
    deliver(&mut client, &mut server);
    let request = server.receive_message().unwrap();
    assert_eq!(request.serial_num(), call.serial());
    server.send_message(signal("One")).unwrap();
    server.send_message(signal("Two")).unwrap();
    deliver(&mut server, &mut client);
    assert!(is_pending(&client.resume_call(&mut call)));
    server.send_message(signal("Three")).unwrap();
    server.reply(&request, Body::text("done").unwrap()).unwrap();
    server.send_message(signal("Late")).unwrap();
    deliver(&mut server, &mut client);

    let reply = done(client.resume_call(&mut call)).unwrap();
    assert_eq!(reply.reply_serial(), Some(call.serial()));
    assert_eq!(reply.body_text(), Some("done".to_string()));
    assert_eq!(call.staged_len(), 0);
    assert_eq!(client.receive_message().unwrap().member(), Some("One"));
    assert_eq!(client.receive_message().unwrap().member(), Some("Two"));
    assert_eq!(client.receive_message().unwrap().member(), Some("Three"));
    assert_eq!(client.receive_message().unwrap().member(), Some("Late"));
    assert!(would_need_more(client.receive_message()));
}

#[test]
fn only_as_many_messages_are_kept_as_may_be() {
    let (client, mut server) = pair();
    let mut client = client.set_max_queued(4);
    let mut call = client.call_method(None, "/", None, "A", Body::empty()).unwrap();
    deliver(&mut client, &mut server);
    let request = server.receive_message().unwrap();
    for i in 0..10 {
        server.send_message(signal(&format!("S{}", i))).unwrap();
    }
    server.reply(&request, Body::empty()).unwrap();
    deliver(&mut server, &mut client);

    done(client.resume_call(&mut call)).unwrap();
    for i in 0..4 {
        let m = client.receive_message().unwrap();
        assert_eq!(m.member(), Some(format!("S{}", i).as_str()));
    }
    assert!(would_need_more(client.receive_message()));
}

#[test]
fn replies_to_other_calls_are_kept_too() {
    let (mut client, mut server) = pair();
    let mut first = client.call_method(None, "/", None, "First", Body::empty()).unwrap();
    let mut second = client.call_method(None, "/", None, "Second", Body::empty()).unwrap();
    deliver(&mut client, &mut server);
    let first_request = server.receive_message().unwrap();
    let second_request = server.receive_message().unwrap();
    server.reply(&second_request, Body::text("two").unwrap()).unwrap();
    server.reply(&first_request, Body::text("one").unwrap()).unwrap();
    deliver(&mut server, &mut client);

    let reply = done(client.resume_call(&mut first)).unwrap();
    assert_eq!(reply.body_text(), Some("one".to_string()));
    let reply = done(client.resume_call(&mut second)).unwrap();
    assert_eq!(reply.body_text(), Some("two".to_string()));
}

#[test]
fn other_messages_under_the_reply_serial_are_dropped() {
    let (mut client, mut server) = pair();
    let mut call = client.call_method(None, "/", None, "A", Body::empty()).unwrap();
    deliver(&mut client, &mut server);
    let request = server.receive_message().unwrap();
    server.send_message(signal("Kept")).unwrap();
    // A method call that names the awaited call as the one replied to.
    let mut noise = Message::method_reply(None, &request, Body::empty()).unwrap();
    noise.set_serial_num(5).unwrap();
    let mut bytes = noise.encode();
    bytes[1] = 1;
    server.advance_output(0);
    let pending = server.pending_output().0.to_vec();
    server.advance_output(pending.len());
    client.feed(&pending, &[]);
    client.feed(&bytes, &[]);

    assert!(is_pending(&client.resume_call(&mut call)));
    assert_eq!(call.staged_len(), 1);
    server.reply(&request, Body::empty()).unwrap();
    deliver(&mut server, &mut client);
    done(client.resume_call(&mut call)).unwrap();
    assert_eq!(client.receive_message().unwrap().member(), Some("Kept"));
    assert!(would_need_more(client.receive_message()));
}

#[test]
fn error_reply_without_a_name_is_invalid() {
    let (mut client, mut server) = pair();
    let mut call = client.call_method(None, "/", None, "A", Body::empty()).unwrap();
    deliver(&mut client, &mut server);
    let request = server.receive_message().unwrap();
    let mut reply = Message::method_reply(None, &request, Body::empty()).unwrap();
    reply.set_serial_num(9).unwrap();
    let mut bytes = reply.encode();
    bytes[1] = 3;
    client.feed(&bytes, &[]);
    assert_eq!(done(client.resume_call(&mut call)), Err(Error::InvalidMessage));
}

#[test]
fn handler_sees_what_the_transport_delivers() {
    fn only_signals(msg: Message) -> Option<Message> {
        if msg.message_type() == MessageType::Signal {
            Some(msg)
        } else {
            None
        }
    }
    let (mut client, mut server) = pair();
    client.set_default_message_handler(only_signals);
    server.call_method(None, "/", None, "Swallowed", Body::empty()).unwrap();
    server.send_message(signal("Passed")).unwrap();
    server.call_method(None, "/", None, "SwallowedToo", Body::empty()).unwrap();
    deliver(&mut server, &mut client);
    assert_eq!(client.receive_message().unwrap().member(), Some("Passed"));
    assert!(would_need_more(client.receive_message()));

    client.reset_default_message_handler();
    server.call_method(None, "/", None, "Seen", Body::empty()).unwrap();
    deliver(&mut server, &mut client);
    assert_eq!(client.receive_message().unwrap().member(), Some("Seen"));
}

#[test]
fn handler_does_not_see_what_was_kept() {
    fn nothing(_: Message) -> Option<Message> {
        None
    }
    let (mut client, mut server) = pair();
    let mut call = client.call_method(None, "/", None, "A", Body::empty()).unwrap();
    deliver(&mut client, &mut server);
    let request = server.receive_message().unwrap();
    server.send_message(signal("Kept")).unwrap();
    server.reply(&request, Body::empty()).unwrap();
    deliver(&mut server, &mut client);
    done(client.resume_call(&mut call)).unwrap();
    client.set_default_message_handler(nothing);
    assert_eq!(client.receive_message().unwrap().member(), Some("Kept"));
}

#[test]
fn receiving_waits_for_the_whole_message() {
    let (mut client, mut server) = pair();
    client.send_message(signal("Split")).unwrap();
    let bytes = client.pending_output().0.to_vec();
    server.feed(&bytes[..20], &[]);
    assert!(would_need_more(server.receive_message()));
    server.feed(&bytes[20..], &[]);
    assert_eq!(server.receive_message().unwrap().member(), Some("Split"));
}

#[test]
fn malformed_input_is_reported() {
    let mut c = peer(false);
    c.feed(&[0x6d; 16], &[]);
    assert_eq!(c.receive_message(), Err(Error::Variant(variant::Error::IncorrectType)));
    let mut call = c.call_method(None, "/", None, "A", Body::empty()).unwrap();
    assert_eq!(
        done(c.resume_call(&mut call)),
        Err(Error::Variant(variant::Error::IncorrectType))
    );
}

#[test]
fn a_failed_socket_closes_the_connection() {
    let mut c = peer(false);
    let wait = IoError::new(IoErrorKind::WouldBlock);
    let broken = IoError { kind: IoErrorKind::Other, raw_os_error: Some(32) };
    assert!(wait.is_would_block());
    assert!(!broken.is_would_block());

    assert_eq!(c.flushed_after_send(5, Ok(())), Ok(5));
    assert_eq!(c.flushed_after_send(5, Err(wait)), Ok(5));
    assert_eq!(c.io_failed(wait), Error::Io(wait));
    assert_eq!(c.closed(), None);
    assert_eq!(c.send_message(signal("Fine")), Ok(1));

    assert_eq!(c.flushed_after_send(1, Err(broken)), Err(Error::Io(broken)));
    assert_eq!(c.closed(), Some(broken));
    assert_eq!(c.io_failed(IoError::new(IoErrorKind::UnexpectedEof)), Error::Io(IoError::new(IoErrorKind::UnexpectedEof)));
    assert_eq!(c.closed(), Some(broken));
    assert_eq!(c.send_message(signal("Lost")), Err(Error::Io(broken)));
    assert_eq!(c.receive_message(), Err(Error::Io(broken)));
    assert_eq!(
        c.call_method(None, "/", None, "A", Body::empty()).map(|call| call.serial()),
        Err(Error::Io(broken))
    );
    assert_eq!(c.next_serial(), 2);
}

#[test]
fn calls_that_cannot_be_built_change_nothing() {
    let mut c = peer(false);
    assert_eq!(
        c.call_method(None, "not a path", None, "A", Body::empty()).map(|call| call.serial()),
        Err(Error::InvalidMessage)
    );
    assert_eq!(
        c.emit_signal(None, "//", "org.zbus.Test", "A", Body::empty()),
        Err(Error::InvalidMessage)
    );
    assert!(c.is_flushed());
    assert_eq!(c.next_serial(), 1);
}

#[test]
fn transport_buffers_queue_and_take() {
    let mut raw = RawConnection::new();
    assert!(raw.is_flushed());
    let mut m = signal("One");
    m.set_serial_num(1).unwrap();
    raw.enqueue_message(&m);
    raw.enqueue_message(&m);
    let (bytes, fds) = raw.pending_output();
    assert_eq!(bytes.len(), 2 * m.encode().len());
    assert!(fds.is_empty());
    let bytes = bytes.to_vec();
    raw.feed(&bytes, &[]);
    assert_eq!(raw.try_receive_message(), Ok(m.clone()));
    assert_eq!(raw.try_receive_message(), Ok(m));
    assert_eq!(raw.try_receive_message(), Err(variant::Error::InsufficientData));
    raw.advance_output(bytes.len() + 10);
    assert!(raw.is_flushed());
}
