//! The connection coordinator: it numbers outgoing messages, keeps the messages
//! that arrive while a caller waits for a particular reply, and lets a handler
//! see what the transport delivers.
//!
//! The connection owns the buffers of the transport, not the socket. Whoever
//! owns the socket writes what [`Connection::pending_output`] hands out, reports
//! the outcome, and feeds what it reads to [`Connection::feed`].

use crate::cell::{cell_get, cell_new, cell_set, spec_cell_text};
use crate::error::{Error, ErrorView, IoError, IoErrorKind};
use crate::guid::Guid;
use crate::handshake::Authenticated;
use crate::message::{
    build_matches, spec_body_text, spec_can_build, spec_decode, spec_method_fields,
    spec_new_message, spec_opt_text, spec_reply_fields, Body, BodyView, Message,
    MessagePrimaryHeader, MessageType, MessageView,
};
use crate::message_field::{
    spec_find_number, spec_find_text, CODE_ERROR_NAME, CODE_REPLY_SERIAL, CODE_SENDER,
};
use crate::raw::{
    lemma_decode_consumes, spec_enqueue, spec_fed, spec_taken, spec_written, RawConnection,
    RawView,
};
use crate::variant;
use once_cell::unsync::OnceCell;
use vstd::prelude::*;

verus! {

/// The number of messages that a connection keeps for later unless told
/// otherwise.
pub const DEFAULT_MAX_QUEUED: usize = 32;

/// The messages of a queue as mathematical values.
pub open spec fn spec_message_views(queue: Seq<Message>) -> Seq<MessageView> {
    Seq::new(queue.len(), |i: int| queue[i]@)
}

/// A connection to a bus or to a peer, after the handshake.
///
/// `H` is the type of the handler that may be installed to see every message
/// that the transport delivers.
pub struct Connection<H> {
    server_guid: Guid,
    cap_unix_fd: bool,
    unique_name: OnceCell<String>,
    raw_conn: RawConnection,
    serial: u32,
    incoming_queue: Vec<Message>,
    max_queued: usize,
    default_msg_handler: Option<H>,
    closed: Option<IoError>,
}

/// A connection as a mathematical value.
pub struct ConnectionView {
    /// The GUID of the server, as ASCII.
    pub server_guid: Seq<u8>,
    /// Whether the peer has agreed to the passing of file descriptors.
    pub cap_unix_fd: bool,
    /// The name that the bus has given the connection.
    pub unique_name: Option<Seq<char>>,
    /// The buffers of the transport.
    pub raw: RawView,
    /// The serial number of the next outgoing message.
    pub serial: u32,
    /// The messages kept for later, oldest first.
    pub queue: Seq<MessageView>,
    /// The number of messages that are kept for later at most.
    pub max_queued: usize,
    /// The failure that has closed the connection.
    pub closed: Option<IoError>,
}

/// The serial number that follows `serial`: the next number, and after the
/// largest one the number one, since zero is no serial number.
pub open spec fn spec_next_serial(serial: u32) -> u32 {
    if serial == u32::MAX {
        1
    } else {
        (serial + 1) as u32
    }
}

/// The serial number that is `n` steps after `serial`.
pub open spec fn spec_nth_serial(serial: u32, n: nat) -> u32
    decreases n,
{
    if n == 0 {
        serial
    } else {
        spec_next_serial(spec_nth_serial(serial, (n - 1) as nat))
    }
}

/// Serial numbers are never zero.
pub proof fn lemma_serial_not_zero(serial: u32, n: nat)
    requires
        serial != 0,
    ensures
        spec_nth_serial(serial, n) != 0,
    decreases n,
{
    if n > 0 {
        lemma_serial_not_zero(serial, (n - 1) as nat);
    }
}

/// On a fresh connection, whose first serial number is one, the serial numbers
/// count up from one until they wrap around.
pub proof fn lemma_serial_counts(n: nat)
    requires
        n < u32::MAX,
    ensures
        spec_nth_serial(1, n) == n + 1,
    decreases n,
{
    if n > 0 {
        lemma_serial_counts((n - 1) as nat);
    }
}

/// The serial numbers that a fresh connection hands out are not zero, and each
/// is greater than those handed out before it, until they wrap around after the
/// largest number.
pub proof fn lemma_serials_increase(i: nat, j: nat)
    requires
        i < j < u32::MAX,
    ensures
        spec_nth_serial(1, i) != 0,
        spec_nth_serial(1, j) != 0,
        spec_nth_serial(1, i) < spec_nth_serial(1, j),
{
    lemma_serial_counts(i);
    lemma_serial_counts(j);
}

/// The message `m` with the serial number `serial`.
pub open spec fn spec_numbered(m: MessageView, serial: u32) -> MessageView {
    MessageView { primary: MessagePrimaryHeader { serial_num: serial, ..m.primary }, ..m }
}

/// What sending the message `m` does to a connection. A closed connection
/// reports the failure that closed it; a message that carries file descriptors
/// is refused as unsupported unless the peer has agreed to their passing.
/// Otherwise the message is queued for writing under the next serial number.
pub open spec fn spec_send(v: ConnectionView, m: MessageView) -> Result<ConnectionView, ErrorView> {
    match v.closed {
        Some(e) => Err(ErrorView::Io(e)),
        None => if m.fds.len() > 0 && !v.cap_unix_fd {
            Err(ErrorView::Unsupported)
        } else {
            Ok(
                ConnectionView {
                    serial: spec_next_serial(v.serial),
                    raw: spec_enqueue(v.raw, spec_numbered(m, v.serial)),
                    ..v
                },
            )
        },
    }
}

/// What sending a message that is yet to be built does to a connection: where
/// no message can be built from the parts given, that is reported; otherwise
/// the message is sent.
pub open spec fn spec_send_built(v: ConnectionView, can_build: bool, m: MessageView) -> Result<
    ConnectionView,
    ErrorView,
> {
    if can_build {
        spec_send(v, m)
    } else {
        Err(ErrorView::InvalidMessage)
    }
}

/// The buffers after the first `n` messages of the input have been taken out
/// of it, as far as the input holds complete messages.
pub open spec fn spec_taken_n(raw: RawView, n: nat) -> RawView
    decreases n,
{
    if n == 0 {
        raw
    } else {
        spec_taken(spec_taken_n(raw, (n - 1) as nat))
    }
}

/// Taking messages out of the input does not make the input longer.
pub proof fn lemma_taken_n_shrinks(raw: RawView, n: nat)
    ensures
        spec_taken_n(raw, n).incoming.len() <= raw.incoming.len(),
        spec_taken_n(raw, n).outgoing == raw.outgoing,
        spec_taken_n(raw, n).outgoing_fds == raw.outgoing_fds,
    decreases n,
{
    if n > 0 {
        lemma_taken_n_shrinks(raw, (n - 1) as nat);
        let before = spec_taken_n(raw, (n - 1) as nat);
        lemma_decode_consumes(before.incoming, before.incoming_fds);
    }
}

/// Whether the handler may answer the message `m` with `out`.
pub open spec fn spec_handler_says<H: Fn(Message) -> Option<Message>>(
    handler: H,
    m: MessageView,
    out: Option<Message>,
) -> bool {
    exists|g: Message| g@ == m && call_ensures(handler, (g,), out)
}

/// Whether the input starts with a message that the handler may keep to itself.
pub open spec fn spec_swallowed<H: Fn(Message) -> Option<Message>>(
    raw: RawView,
    handler: Option<H>,
) -> bool {
    &&& spec_decode(raw.incoming, raw.incoming_fds) matches Ok((m, _, _))
    &&& handler matches Some(h)
    &&& spec_handler_says(h, m, None)
}

/// Whether `r` is what the start of the input delivers: the error that decoding
/// gives; without a handler, the first message; with a handler, a message that
/// the handler may return for the first message.
pub open spec fn spec_delivered<H: Fn(Message) -> Option<Message>>(
    raw: RawView,
    handler: Option<H>,
    r: Result<Message, Error>,
) -> bool {
    match spec_decode(raw.incoming, raw.incoming_fds) {
        Ok((m, _, _)) => match handler {
            Some(h) => r matches Ok(g) && spec_handler_says(h, m, Some(g)),
            None => r matches Ok(g) && g@ == m,
        },
        Err(x) => r matches Err(e) && e@ == ErrorView::Variant(x),
    }
}

/// Whether `r` and `after` are what receiving from the transport can give when
/// the handler keeps the first `k` messages to itself.
pub open spec fn spec_received<H: Fn(Message) -> Option<Message>>(
    before: ConnectionView,
    handler: Option<H>,
    k: nat,
    r: Result<Message, Error>,
    after: ConnectionView,
) -> bool {
    &&& forall|j: nat| j < k ==> spec_swallowed(#[trigger] spec_taken_n(before.raw, j), handler)
    &&& spec_delivered(spec_taken_n(before.raw, k), handler, r)
    &&& after == (ConnectionView { raw: spec_taken_n(before.raw, k + 1), ..before })
}

/// Whether `r` and `after` are what fetching the next message can give: on a
/// closed connection the failure that closed it; else the oldest of the
/// messages kept for later; else what receiving from the transport gives when
/// the handler keeps some number of messages to itself.
pub open spec fn spec_fetched<H: Fn(Message) -> Option<Message>>(
    before: ConnectionView,
    handler: Option<H>,
    r: Result<Message, Error>,
    after: ConnectionView,
) -> bool {
    match before.closed {
        Some(e) => r matches Err(x) && x@ == ErrorView::Io(e) && after == before,
        None => if before.queue.len() > 0 {
            r matches Ok(m) && m@ == before.queue[0] && after == (ConnectionView {
                queue: before.queue.drop_first(),
                ..before
            })
        } else {
            exists|k: nat| spec_received(before, handler, k, r, after)
        },
    }
}

impl<H: Fn(Message) -> Option<Message>> View for Connection<H> {
    type V = ConnectionView;

    closed spec fn view(&self) -> ConnectionView {
        ConnectionView {
            server_guid: self.server_guid@,
            cap_unix_fd: self.cap_unix_fd,
            unique_name: spec_cell_text(self.unique_name),
            raw: self.raw_conn@,
            serial: self.serial,
            queue: spec_message_views(self.incoming_queue@),
            max_queued: self.max_queued,
            closed: self.closed,
        }
    }
}

impl<H: Fn(Message) -> Option<Message>> Connection<H> {
    /// The handler that sees what the transport delivers, if one is installed.
    pub closed spec fn handler(&self) -> Option<H> {
        self.default_msg_handler
    }

    /// Whether the value is what its type promises: the GUID is one, the next
    /// serial number is not zero, and the handler accepts every message.
    pub closed spec fn wf(&self) -> bool {
        &&& self.server_guid.wf()
        &&& self.serial != 0
        &&& self.default_msg_handler matches Some(h) ==> forall|m: Message| call_requires(h, (m,))
    }

    /// The next serial number of a connection is not zero, and its GUID is
    /// thirty-two lower-case hexadecimal digits.
    pub proof fn lemma_wf(&self)
        requires
            self.wf(),
        ensures
            self@.serial != 0,
            crate::guid::spec_is_guid(self@.server_guid),
    {
        self.server_guid.lemma_text();
    }

    /// The connection that a completed handshake has established: its first
    /// serial number is one, it keeps up to thirty-two messages for later and
    /// holds none yet, and it has neither a name nor a handler.
    pub fn new_authenticated_unix(auth: Authenticated) -> (c: Connection<H>)
        requires
            auth.server_guid.wf(),
        ensures
            c.wf(),
            c.handler() is None,
            c@ == (ConnectionView {
                server_guid: auth.server_guid@,
                cap_unix_fd: auth.cap_unix_fd,
                unique_name: None,
                raw: auth.conn@,
                serial: 1,
                queue: Seq::empty(),
                max_queued: DEFAULT_MAX_QUEUED,
                closed: None,
            }),
    {
        let c = Connection {
            server_guid: auth.server_guid,
            cap_unix_fd: auth.cap_unix_fd,
            unique_name: cell_new(),
            raw_conn: auth.conn,
            serial: 1,
            incoming_queue: Vec::new(),
            max_queued: DEFAULT_MAX_QUEUED,
            default_msg_handler: None,
            closed: None,
        };
        assert(c@.queue =~= Seq::<MessageView>::empty());
        c
    }

    /// The number of messages that are kept for later at most.
    pub fn max_queued(&self) -> (n: usize)
        ensures
            n == self@.max_queued,
    {
        self.max_queued
    }

    /// Sets the number of messages that are kept for later at most.
    pub fn set_max_queued(self, max: usize) -> (c: Connection<H>)
        requires
            self.wf(),
        ensures
            c.wf(),
            c.handler() == self.handler(),
            c@ == (ConnectionView { max_queued: max, ..self@ }),
    {
        let mut c = self;
        c.limit_queue(max);
        c
    }

    /// Sets the number of messages that are kept for later at most, on a
    /// connection that stays where it is.
    pub fn limit_queue(&mut self, max: usize)
        requires
            old(self).wf(),
        ensures
            final(self).wf(),
            final(self).handler() == old(self).handler(),
            final(self)@ == (ConnectionView { max_queued: max, ..old(self)@ }),
    {
        self.max_queued = max;
    }

    /// The GUID of the server: thirty-two lower-case hexadecimal digits.
    pub fn server_guid(&self) -> (s: &str)
        requires
            self.wf(),
        ensures
            s@ == crate::ascii::spec_ascii_chars(self@.server_guid),
            crate::guid::spec_is_guid(self@.server_guid),
            s@.len() == 32,
    {
        proof {
            self.server_guid.lemma_text();
        }
        self.server_guid.as_str()
    }

    /// Whether the peer has agreed to the passing of file descriptors.
    pub fn cap_unix_fd(&self) -> (r: bool)
        ensures
            r == self@.cap_unix_fd,
    {
        self.cap_unix_fd
    }

    /// The name that the bus has given the connection, if it has given one.
    pub fn unique_name(&self) -> (r: Option<&str>)
        ensures
            spec_opt_text(r) == self@.unique_name,
    {
        match cell_get(&self.unique_name) {
            Some(s) => Some(s.as_str()),
            None => None,
        }
    }

    /// Gives the connection its name. The name is given once: while the
    /// connection has one, the new name is handed back and nothing changes.
    pub fn set_unique_name(&mut self, name: String) -> (r: Result<(), String>)
        requires
            old(self).wf(),
        ensures
            final(self).wf(),
            final(self).handler() == old(self).handler(),
            match old(self)@.unique_name {
                None => r is Ok && final(self)@ == (ConnectionView {
                    unique_name: Some(name@),
                    ..old(self)@
                }),
                Some(_) => r == Err::<(), String>(name) && final(self)@ == old(self)@,
            },
    {
        cell_set(&mut self.unique_name, name)
    }

    /// The failure that has closed the connection, if one has.
    pub fn closed(&self) -> (r: Option<IoError>)
        ensures
            r == self@.closed,
    {
        self.closed
    }

    /// Hands out the serial number of the next outgoing message and moves on to
    /// the one after it.
    pub fn next_serial(&mut self) -> (serial: u32)
        requires
            old(self).wf(),
        ensures
            final(self).wf(),
            final(self).handler() == old(self).handler(),
            serial == old(self)@.serial,
            serial != 0,
            final(self)@ == (ConnectionView {
                serial: spec_next_serial(old(self)@.serial),
                ..old(self)@
            }),
    {
        let serial: u32 = self.serial;
        self.serial = if serial == u32::MAX {
            1
        } else {
            serial + 1
        };
        serial
    }

    /// Installs the handler that sees every message that the transport delivers,
    /// in place of the one installed before.
    pub fn set_default_message_handler(&mut self, handler: H)
        requires
            old(self).wf(),
            forall|m: Message| call_requires(handler, (m,)),
        ensures
            final(self).wf(),
            final(self).handler() == Some(handler),
            final(self)@ == old(self)@,
    {
        self.default_msg_handler = Some(handler);
    }

    /// Removes the handler.
    pub fn reset_default_message_handler(&mut self)
        requires
            old(self).wf(),
        ensures
            final(self).wf(),
            final(self).handler() is None,
            final(self)@ == old(self)@,
    {
        self.default_msg_handler = None;
    }

    /// Sends a message: gives it the next serial number and queues it for
    /// writing. Returns the serial number.
    ///
    /// A closed connection reports the failure that closed it. A message that
    /// carries file descriptors is refused with `Unsupported` unless the peer has
    /// agreed to their passing. In both cases nothing changes.
    pub fn send_message(&mut self, msg: Message) -> (r: Result<u32, Error>)
        requires
            old(self).wf(),
            msg.wf(),
        ensures
            final(self).wf(),
            final(self).handler() == old(self).handler(),
            match spec_send(old(self)@, msg@) {
                Ok(v) => r == Ok::<u32, Error>(old(self)@.serial) && final(self)@ == v,
                Err(x) => r matches Err(e) && e@ == x && final(self)@ == old(self)@,
            },
    {
        if let Some(e) = self.closed {
            return Err(Error::Io(e));
        }
        if msg.fds().len() > 0 && !self.cap_unix_fd {
            return Err(Error::Unsupported);
        }
        let mut msg = msg;
        let serial: u32 = self.next_serial();
        let _ = msg.set_serial_num(serial);
        self.raw_conn.enqueue_message(&msg);
        Ok(serial)
    }

    /// The bytes that wait to be written, and the file descriptors to send with
    /// the first of them.
    pub fn pending_output(&self) -> (r: (&[u8], &[i32]))
        ensures
            r.0@ == self@.raw.outgoing,
            r.1@ == self@.raw.outgoing_fds,
    {
        self.raw_conn.pending_output()
    }

    /// Whether nothing waits to be written.
    pub fn is_flushed(&self) -> (r: bool)
        ensures
            r == (self@.raw.outgoing.len() == 0 && self@.raw.outgoing_fds.len() == 0),
    {
        self.raw_conn.is_flushed()
    }

    /// Records that `written` bytes of the pending output have been written.
    pub fn advance_output(&mut self, written: usize)
        requires
            old(self).wf(),
        ensures
            final(self).wf(),
            final(self).handler() == old(self).handler(),
            final(self)@ == (ConnectionView {
                raw: spec_written(old(self)@.raw, written as int),
                ..old(self)@
            }),
    {
        self.raw_conn.advance_output(written);
    }

    /// Takes in bytes and file descriptors that were received.
    pub fn feed(&mut self, bytes: &[u8], fds: &[i32])
        requires
            old(self).wf(),
        ensures
            final(self).wf(),
            final(self).handler() == old(self).handler(),
            final(self)@ == (ConnectionView {
                raw: spec_fed(old(self)@.raw, bytes@, fds@),
                ..old(self)@
            }),
    {
        self.raw_conn.feed(bytes, fds);
    }

    /// Takes note of a failed socket operation and says what to report. A
    /// failure other than `WouldBlock` closes the connection, unless a failure
    /// has closed it already.
    pub fn io_failed(&mut self, e: IoError) -> (r: Error)
        requires
            old(self).wf(),
        ensures
            final(self).wf(),
            final(self).handler() == old(self).handler(),
            r@ == ErrorView::Io(e),
            final(self)@ == (ConnectionView {
                closed: if e.kind == IoErrorKind::WouldBlock || old(self)@.closed is Some {
                    old(self)@.closed
                } else {
                    Some(e)
                },
                ..old(self)@
            }),
    {
        if !e.is_would_block() && self.closed.is_none() {
            self.closed = Some(e);
        }
        Error::Io(e)
    }

    /// What sending a message reports after the attempt to write it out: that
    /// the socket was not ready is no failure of the sending, since the message
    /// stays queued; any other failure is reported and closes the connection.
    pub fn flushed_after_send(&mut self, serial: u32, outcome: Result<(), IoError>) -> (r: Result<
        u32,
        Error,
    >)
        requires
            old(self).wf(),
        ensures
            final(self).wf(),
            final(self).handler() == old(self).handler(),
            match outcome {
                Ok(()) => r == Ok::<u32, Error>(serial) && final(self)@ == old(self)@,
                Err(e) => if e.kind == IoErrorKind::WouldBlock {
                    r == Ok::<u32, Error>(serial) && final(self)@ == old(self)@
                } else {
                    r matches Err(x) && x@ == ErrorView::Io(e) && final(self)@ == (ConnectionView {
                        closed: if old(self)@.closed is Some {
                            old(self)@.closed
                        } else {
                            Some(e)
                        },
                        ..old(self)@
                    })
                },
            },
    {
        match outcome {
            Ok(()) => Ok(serial),
            Err(e) => {
                if e.is_would_block() {
                    Ok(serial)
                } else {
                    Err(self.io_failed(e))
                }
            },
        }
    }

    /// Fetches the next message.
    ///
    /// A closed connection reports the failure that closed it. Otherwise the
    /// oldest of the messages kept for later is returned, if there is one.
    /// Otherwise the messages of the input are decoded one after the other: with
    /// no handler installed the first one is returned; an installed handler sees
    /// each message, and the first message that it hands back is returned. When
    /// the input does not start with a complete message the error of the decoder
    /// is reported: after `InsufficientData`, more has to be received first.
    pub fn receive_message(&mut self) -> (r: Result<Message, Error>)
        requires
            old(self).wf(),
        ensures
            final(self).wf(),
            final(self).handler() == old(self).handler(),
            spec_fetched(old(self)@, old(self).handler(), r, final(self)@),
            final(self)@.raw.incoming.len() <= old(self)@.raw.incoming.len(),
            r is Ok && old(self)@.queue.len() == 0 ==> final(self)@.raw.incoming.len() < old(
                self,
            )@.raw.incoming.len(),
    {
        if let Some(e) = self.closed {
            return Err(Error::Io(e));
        }
        if self.incoming_queue.len() > 0 {
            let m: Message = self.incoming_queue.remove(0);
            assert(self@.queue =~= old(self)@.queue.drop_first());
            return Ok(m);
        }
        let ghost mut k: nat = 0;
        loop
            invariant
                self.wf(),
                self.handler() == old(self).handler(),
                old(self)@.queue.len() == 0,
                old(self)@.closed is None,
                self@ == (ConnectionView { raw: spec_taken_n(old(self)@.raw, k), ..old(self)@ }),
                forall|j: nat|
                    j < k ==> spec_swallowed(
                        #[trigger] spec_taken_n(old(self)@.raw, j),
                        old(self).handler(),
                    ),
                k > 0 ==> self@.raw.incoming.len() < old(self)@.raw.incoming.len(),
            decreases self@.raw.incoming.len(),
        {
            let ghost before = self@.raw;
            proof {
                lemma_decode_consumes(before.incoming, before.incoming_fds);
                lemma_taken_n_shrinks(old(self)@.raw, k);
                assert(spec_taken_n(old(self)@.raw, k + 1) == spec_taken(before));
            }
            let incoming: Message = match self.raw_conn.try_receive_message() {
                Ok(m) => m,
                Err(x) => {
                    let r = Err(Error::Variant(x));
                    assert(spec_received(old(self)@, old(self).handler(), k, r, self@));
                    return r;
                },
            };
            match &self.default_msg_handler {
                Some(handler) => {
                    let answer: Option<Message> = handler(incoming);
                    assert(spec_handler_says(*handler, incoming@, answer));
                    match answer {
                        Some(m) => {
                            let r = Ok(m);
                            assert(spec_received(old(self)@, old(self).handler(), k, r, self@));
                            return r;
                        },
                        None => {
                            proof {
                                assert(spec_swallowed(before, old(self).handler()));
                                k = k + 1;
                            }
                        },
                    }
                },
                None => {
                    let r = Ok(incoming);
                    assert(spec_received(old(self)@, old(self).handler(), k, r, self@));
                    return r;
                },
            }
        }
    }
}

/// A method call whose reply is awaited: the serial number of the call, and the
/// messages that have arrived in the meantime and are not the reply.
#[derive(Debug)]
pub struct MethodCall {
    serial: u32,
    staged: Vec<Message>,
}

/// An awaited method call as a mathematical value.
pub struct MethodCallView {
    pub serial: u32,
    pub staged: Seq<MessageView>,
}

impl View for MethodCall {
    type V = MethodCallView;

    closed spec fn view(&self) -> MethodCallView {
        MethodCallView { serial: self.serial, staged: spec_message_views(self.staged@) }
    }
}

/// How far an awaited method call has come.
#[derive(Debug)]
pub enum CallProgress {
    /// The reply has not arrived; more has to be received first.
    Pending,
    /// The call is over: the peer's return message, or the error.
    Done(Result<Message, Error>),
}

/// Whether the message is a reply to the message with the given serial number.
pub open spec fn spec_replies_to(m: MessageView, serial: u32) -> bool {
    spec_find_number(m.fields, CODE_REPLY_SERIAL) == Some(serial)
}

/// What a reply to an awaited call means for the caller: an error reply is the
/// error that it names, with the description found in its body, and without a
/// name an invalid message; a return message is the result; any other message is
/// nothing to the caller.
pub open spec fn spec_reply_outcome(m: MessageView) -> Option<Result<MessageView, ErrorView>> {
    match m.primary.msg_type {
        MessageType::Error => match spec_find_text(m.fields, CODE_ERROR_NAME) {
            Some(name) => Some(Err(ErrorView::MethodError(name, spec_body_text(m), m))),
            None => Some(Err(ErrorView::InvalidMessage)),
        },
        MessageType::MethodReturn => Some(Ok(m)),
        _ => None,
    }
}

/// The messages kept for later after a message has arrived while a call was
/// awaited: a reply to the call moves what has been set aside behind the
/// messages kept for later; nothing else changes them.
pub open spec fn spec_queue_after(
    queue: Seq<MessageView>,
    call: MethodCallView,
    m: MessageView,
) -> Seq<MessageView> {
    if spec_replies_to(m, call.serial) {
        queue + call.staged
    } else {
        queue
    }
}

/// The messages set aside after a message has arrived while a call was awaited:
/// a reply to the call leaves none set aside; any other message is set aside
/// behind the others, unless as many messages are held already, set aside or
/// kept for later, as may be kept.
pub open spec fn spec_staged_after(
    queue: Seq<MessageView>,
    max_queued: usize,
    call: MethodCallView,
    m: MessageView,
) -> Seq<MessageView> {
    if spec_replies_to(m, call.serial) {
        Seq::empty()
    } else if queue.len() + call.staged.len() < max_queued {
        call.staged.push(m)
    } else {
        call.staged
    }
}

/// What a message that has arrived while a call was awaited means for the
/// caller.
pub open spec fn spec_outcome_after(call: MethodCallView, m: MessageView) -> Option<
    Result<MessageView, ErrorView>,
> {
    if spec_replies_to(m, call.serial) {
        spec_reply_outcome(m)
    } else {
        None
    }
}

/// Whether what the caller is told is what it was to be told.
pub open spec fn outcome_matches(
    r: Option<Result<Message, Error>>,
    expected: Option<Result<MessageView, ErrorView>>,
) -> bool {
    match expected {
        Some(Ok(m)) => r matches Some(Ok(g)) && g@ == m,
        Some(Err(x)) => r matches Some(Err(e)) && e@ == x,
        None => r is None,
    }
}

/// A connection and a call that is awaited on it, as mathematical values.
pub struct CallState {
    pub conn: ConnectionView,
    pub call: MethodCallView,
}

/// The connection and the call after the message `m` has been handled.
pub open spec fn spec_handled(conn: ConnectionView, call: MethodCallView, m: MessageView) -> CallState {
    CallState {
        conn: ConnectionView { queue: spec_queue_after(conn.queue, call, m), ..conn },
        call: MethodCallView {
            staged: spec_staged_after(conn.queue, conn.max_queued, call, m),
            ..call
        },
    }
}

/// Whether an awaited call can go from `before` to `after` by one message that
/// does not end it: the message is fetched and handled, and it means nothing to
/// the caller.
pub open spec fn spec_call_continues<H: Fn(Message) -> Option<Message>>(
    before: CallState,
    handler: Option<H>,
    after: CallState,
) -> bool {
    exists|m: Message, mid: ConnectionView|
        {
            &&& #[trigger] spec_fetched(before.conn, handler, Ok::<Message, Error>(m), mid)
            &&& spec_outcome_after(before.call, m@) is None
            &&& after == spec_handled(mid, before.call, m@)
        }
}

/// Whether an awaited call can stop in `before` with the result `r`, leaving
/// `after`: a message is fetched and handled and ends the call; or no message
/// can be fetched, which leaves the call pending where only more input is
/// needed and ends it with the error otherwise.
pub open spec fn spec_call_stops<H: Fn(Message) -> Option<Message>>(
    before: CallState,
    handler: Option<H>,
    r: CallProgress,
    after: CallState,
) -> bool {
    exists|fetched: Result<Message, Error>, mid: ConnectionView|
        {
            &&& #[trigger] spec_fetched(before.conn, handler, fetched, mid)
            &&& match fetched {
                Ok(m) => {
                    &&& after == spec_handled(mid, before.call, m@)
                    &&& r matches CallProgress::Done(x)
                    &&& outcome_matches(Some(x), spec_outcome_after(before.call, m@))
                },
                Err(e) => {
                    &&& after == (CallState { conn: mid, call: before.call })
                    &&& if e@ == ErrorView::Variant(variant::Error::InsufficientData) {
                        r is Pending
                    } else {
                        r matches CallProgress::Done(Err(x)) && x@ == e@
                    }
                },
            }
        }
}

/// Whether an awaited call can go from `before` to `after` with the result `r`
/// through the states `states`: the first state is `before`, each state leads to
/// the next by a message that does not end the call, and the call stops in the
/// last state.
pub open spec fn spec_resumed<H: Fn(Message) -> Option<Message>>(
    before: CallState,
    handler: Option<H>,
    r: CallProgress,
    after: CallState,
    states: Seq<CallState>,
) -> bool {
    &&& states.len() > 0
    &&& states[0] == before
    &&& forall|i: int|
        0 <= i < states.len() - 1 ==> spec_call_continues(
            #[trigger] states[i],
            handler,
            states[i + 1],
        )
    &&& spec_call_stops(states.last(), handler, r, after)
}

/// The number of messages of the queue that reply to the given serial number.
pub open spec fn spec_count_replies(queue: Seq<MessageView>, serial: u32) -> nat
    decreases queue.len(),
{
    if queue.len() == 0 {
        0
    } else {
        spec_count_replies(queue.drop_last(), serial) + if spec_replies_to(queue.last(), serial) {
            1nat
        } else {
            0nat
        }
    }
}

/// Whether none of the messages replies to the given serial number.
pub open spec fn spec_no_replies(queue: Seq<MessageView>, serial: u32) -> bool {
    forall|i: int| 0 <= i < queue.len() ==> !spec_replies_to(#[trigger] queue[i], serial)
}

/// Messages of which none replies hold no reply.
proof fn lemma_count_no_replies(queue: Seq<MessageView>, serial: u32)
    requires
        spec_no_replies(queue, serial),
    ensures
        spec_count_replies(queue, serial) == 0,
    decreases queue.len(),
{
    if queue.len() > 0 {
        assert(!spec_replies_to(queue[queue.len() - 1], serial));
        assert forall|i: int| 0 <= i < queue.drop_last().len() implies !spec_replies_to(
            #[trigger] queue.drop_last()[i],
            serial,
        ) by {
            assert(queue.drop_last()[i] == queue[i]);
        }
        lemma_count_no_replies(queue.drop_last(), serial);
    }
}

/// The replies of two queues, one after the other, are those of both.
proof fn lemma_count_concat(a: Seq<MessageView>, b: Seq<MessageView>, serial: u32)
    ensures
        spec_count_replies(a + b, serial) == spec_count_replies(a, serial) + spec_count_replies(
            b,
            serial,
        ),
    decreases b.len(),
{
    if b.len() == 0 {
        assert(a + b == a);
    } else {
        assert((a + b).drop_last() == a + b.drop_last());
        assert((a + b).last() == b.last());
        lemma_count_concat(a, b.drop_last(), serial);
    }
}

/// The replies of a queue are those of its first message and of the rest.
proof fn lemma_count_drop_first(queue: Seq<MessageView>, serial: u32)
    requires
        queue.len() > 0,
    ensures
        spec_count_replies(queue, serial) == spec_count_replies(queue.drop_first(), serial)
            + if spec_replies_to(queue[0], serial) {
            1nat
        } else {
            0nat
        },
{
    let head = seq![queue[0]];
    assert(queue == head + queue.drop_first());
    lemma_count_concat(head, queue.drop_first(), serial);
    assert(head.drop_last() == Seq::<MessageView>::empty());
    assert(spec_count_replies(head.drop_last(), serial) == 0);
    assert(head.last() == queue[0]);
}

impl MethodCall {
    /// Whether the value is what its type promises: none of the messages set
    /// aside is a reply to the call.
    pub open spec fn wf(&self) -> bool {
        spec_no_replies(self@.staged, self@.serial)
    }

    /// The serial number of the call.
    pub fn serial(&self) -> (n: u32)
        ensures
            n == self@.serial,
    {
        self.serial
    }

    /// The number of messages that have been set aside.
    pub fn staged_len(&self) -> (n: usize)
        ensures
            n == self@.staged.len(),
    {
        self.staged.len()
    }
}

/// The error that an error reply is to the caller.
fn method_error(m: Message) -> (r: Error)
    requires
        m@.primary.msg_type == MessageType::Error,
    ensures
        spec_reply_outcome(m@) == Some(Err::<MessageView, ErrorView>(r@)),
{
    let name: Option<String> = match m.error_name() {
        Some(name) => Some(name.to_owned()),
        None => None,
    };
    match name {
        Some(name) => {
            let description: Option<String> = m.body_text();
            Error::MethodError(name, description, m)
        },
        None => Error::InvalidMessage,
    }
}

impl<H: Fn(Message) -> Option<Message>> Connection<H> {
    /// Decides what a message that was received while a call is awaited means.
    ///
    /// A message that does not reply to the call is set aside, or dropped when as
    /// many messages are held already as may be kept. A reply to the call first
    /// moves what has been set aside behind the messages kept for later; then an
    /// error reply or a return message ends the call, and any other message is
    /// dropped.
    pub fn handle_reply(&mut self, call: &mut MethodCall, m: Message) -> (r: Option<
        Result<Message, Error>,
    >)
        requires
            old(self).wf(),
            old(call).wf(),
        ensures
            final(self).wf(),
            final(call).wf(),
            final(self).handler() == old(self).handler(),
            final(self)@ == (ConnectionView {
                queue: spec_queue_after(old(self)@.queue, old(call)@, m@),
                ..old(self)@
            }),
            final(call)@ == (MethodCallView {
                staged: spec_staged_after(
                    old(self)@.queue,
                    old(self)@.max_queued,
                    old(call)@,
                    m@,
                ),
                ..old(call)@
            }),
            outcome_matches(r, spec_outcome_after(old(call)@, m@)),
    {
        let replies: bool = match m.reply_serial() {
            Some(n) => n == call.serial,
            None => false,
        };
        if !replies {
            if self.incoming_queue.len() < self.max_queued && call.staged.len() < self.max_queued
                - self.incoming_queue.len() {
                call.staged.push(m);
                assert(call@.staged =~= old(call)@.staged.push(m@));
            }
            return None;
        }
        self.incoming_queue.append(&mut call.staged);
        assert(self@.queue =~= old(self)@.queue + old(call)@.staged);
        assert(call@.staged =~= Seq::<MessageView>::empty());
        match m.message_type() {
            MessageType::Error => Some(Err(method_error(m))),
            MessageType::MethodReturn => Some(Ok(m)),
            _ => None,
        }
    }

    /// Carries an awaited call on with what has been received: every message
    /// that can be fetched is handled as [`Connection::handle_reply`] says,
    /// until one ends the call or none can be fetched.
    ///
    /// The call is `Pending` when no message is kept for later any more and the
    /// input holds no complete message. It is `Done` with the return message or
    /// the error of the peer, or with the error that fetching a message gave.
    #[verifier::rlimit(40)]
    pub fn resume_call(&mut self, call: &mut MethodCall) -> (r: CallProgress)
        requires
            old(self).wf(),
            old(call).wf(),
        ensures
            final(self).wf(),
            final(call).wf(),
            final(self).handler() == old(self).handler(),
            exists|states: Seq<CallState>|
                spec_resumed(
                    CallState { conn: old(self)@, call: old(call)@ },
                    old(self).handler(),
                    r,
                    CallState { conn: final(self)@, call: final(call)@ },
                    states,
                ),
            final(call)@.serial == old(call)@.serial,
            final(self)@.server_guid == old(self)@.server_guid,
            final(self)@.cap_unix_fd == old(self)@.cap_unix_fd,
            final(self)@.unique_name == old(self)@.unique_name,
            final(self)@.serial == old(self)@.serial,
            final(self)@.max_queued == old(self)@.max_queued,
            final(self)@.closed == old(self)@.closed,
            final(self)@.raw.outgoing == old(self)@.raw.outgoing,
            final(self)@.raw.outgoing_fds == old(self)@.raw.outgoing_fds,
            final(self)@.raw.incoming.len() <= old(self)@.raw.incoming.len(),
            match r {
                CallProgress::Pending => {
                    &&& final(self)@.closed is None
                    &&& final(self)@.queue.len() == 0
                    &&& spec_decode(final(self)@.raw.incoming, final(self)@.raw.incoming_fds)
                        == Err::<(MessageView, int, int), variant::Error>(
                        variant::Error::InsufficientData,
                    )
                },
                CallProgress::Done(Ok(m)) => {
                    &&& spec_replies_to(m@, old(call)@.serial)
                    &&& m@.primary.msg_type == MessageType::MethodReturn
                    &&& final(call)@.staged.len() == 0
                },
                CallProgress::Done(Err(e)) => {
                    ||| old(self)@.closed matches Some(x) && e@ == ErrorView::Io(x) && final(self)@
                        == old(self)@ && final(call)@ == old(call)@
                    ||| e@ matches ErrorView::Variant(x) && x != variant::Error::InsufficientData
                        && spec_decode(final(self)@.raw.incoming, final(self)@.raw.incoming_fds)
                        == Err::<(MessageView, int, int), variant::Error>(x)
                    ||| exists|m: MessageView|
                        spec_replies_to(m, old(call)@.serial) && m.primary.msg_type
                            == MessageType::Error && #[trigger] spec_reply_outcome(m) == Some(
                            Err::<MessageView, ErrorView>(e@),
                        ) && final(call)@.staged.len() == 0
                },
            },
    {
        let ghost first = CallState { conn: self@, call: call@ };
        let ghost mut states: Seq<CallState> = seq![first];
        loop
            invariant
                self.wf(),
                call.wf(),
                self.handler() == old(self).handler(),
                first == (CallState { conn: old(self)@, call: old(call)@ }),
                states.len() > 0,
                states[0] == first,
                states.last() == (CallState { conn: self@, call: call@ }),
                forall|i: int|
                    0 <= i < states.len() - 1 ==> spec_call_continues(
                        #[trigger] states[i],
                        old(self).handler(),
                        states[i + 1],
                    ),
                call@.serial == old(call)@.serial,
                self@.server_guid == old(self)@.server_guid,
                self@.cap_unix_fd == old(self)@.cap_unix_fd,
                self@.unique_name == old(self)@.unique_name,
                self@.serial == old(self)@.serial,
                self@.max_queued == old(self)@.max_queued,
                self@.closed == old(self)@.closed,
                self@.raw.outgoing == old(self)@.raw.outgoing,
                self@.raw.outgoing_fds == old(self)@.raw.outgoing_fds,
                self@.raw.incoming.len() <= old(self)@.raw.incoming.len(),
                self@.closed is Some ==> self@ == old(self)@ && call@ == old(call)@,
            decreases
                    self@.raw.incoming.len(),
                    spec_count_replies(self@.queue, call@.serial),
                    self@.queue.len(),
        {
            let ghost before = self@;
            let ghost call_before = call@;
            let ghost here = CallState { conn: before, call: call_before };
            let fetched: Result<Message, Error> = self.receive_message();
            let ghost mid = self@;
            let ghost got = fetched;
            proof {
                if before.closed is None && before.queue.len() == 0 {
                    let k = choose|k: nat| spec_received(before, self.handler(), k, fetched, mid);
                    lemma_taken_n_shrinks(before.raw, k + 1);
                    lemma_taken_n_shrinks(before.raw, k);
                    if fetched is Err {
                        let at = spec_taken_n(before.raw, k);
                        assert(spec_taken(at) == at);
                        assert(spec_taken_n(before.raw, k + 1) == spec_taken(at));
                    }
                }
            }
            match fetched {
                Ok(m) => {
                    proof {
                        if before.queue.len() > 0 {
                            lemma_count_drop_first(before.queue, call@.serial);
                            if spec_replies_to(m@, call@.serial) {
                                lemma_count_concat(mid.queue, call@.staged, call@.serial);
                                lemma_count_no_replies(call@.staged, call@.serial);
                            }
                        }
                    }
                    let ghost mv = m;
                    let handled: Option<Result<Message, Error>> = self.handle_reply(call, m);
                    let ghost there = CallState { conn: self@, call: call@ };
                    assert(there == spec_handled(mid, call_before, mv@));
                    match handled {
                        Some(outcome) => {
                            let r = CallProgress::Done(outcome);
                            proof {
                                assert(spec_fetched(here.conn, old(self).handler(), got, mid));
                                assert(spec_call_stops(here, old(self).handler(), r, there));
                                assert(spec_resumed(
                                    first,
                                    old(self).handler(),
                                    r,
                                    there,
                                    states,
                                ));
                            }
                            return r;
                        },
                        None => {
                            proof {
                                assert(spec_fetched(
                                    here.conn,
                                    old(self).handler(),
                                    Ok::<Message, Error>(mv),
                                    mid,
                                ));
                                assert(spec_call_continues(here, old(self).handler(), there));
                                let longer = states.push(there);
                                assert forall|i: int| 0 <= i < longer.len() - 1 implies spec_call_continues(
                                    #[trigger] longer[i],
                                    old(self).handler(),
                                    longer[i + 1],
                                ) by {
                                    if i < states.len() - 1 {
                                        assert(longer[i] == states[i]);
                                        assert(longer[i + 1] == states[i + 1]);
                                    } else {
                                        assert(longer[i] == here);
                                        assert(longer[i + 1] == there);
                                    }
                                }
                                states = longer;
                            }
                        },
                    }
                },
                Err(e) => {
                    let ghost there = CallState { conn: mid, call: call_before };
                    match e {
                        Error::Variant(variant::Error::InsufficientData) => {
                            let r = CallProgress::Pending;
                            proof {
                                assert(spec_fetched(here.conn, old(self).handler(), got, mid));
                                assert(spec_call_stops(here, old(self).handler(), r, there));
                                assert(spec_resumed(
                                    first,
                                    old(self).handler(),
                                    r,
                                    there,
                                    states,
                                ));
                            }
                            return r;
                        },
                        e => {
                            let r = CallProgress::Done(Err(e));
                            proof {
                                assert(spec_fetched(here.conn, old(self).handler(), got, mid));
                                assert(spec_call_stops(here, old(self).handler(), r, there));
                                assert(spec_resumed(
                                    first,
                                    old(self).handler(),
                                    r,
                                    there,
                                    states,
                                ));
                            }
                            return r;
                        },
                    }
                },
            }
        }
    }
}

/// The method call by which a connection introduces itself to the bus.
pub open spec fn spec_hello(sender: Option<Seq<char>>) -> MessageView {
    spec_new_message(
        MessageType::MethodCall,
        spec_method_fields(
            sender,
            Some("org.freedesktop.DBus"@),
            "/org/freedesktop/DBus"@,
            Some("org.freedesktop.DBus"@),
            "Hello"@,
        ),
        BodyView { signature: Seq::empty(), bytes: Seq::empty(), fds: Seq::empty() },
    )
}

/// Whether the method call by which a connection introduces itself to the bus
/// can be built.
pub open spec fn spec_can_hello(sender: Option<Seq<char>>) -> bool {
    spec_can_build(
        MessageType::MethodCall,
        spec_method_fields(
            sender,
            Some("org.freedesktop.DBus"@),
            "/org/freedesktop/DBus"@,
            Some("org.freedesktop.DBus"@),
            "Hello"@,
        ),
        BodyView { signature: Seq::empty(), bytes: Seq::empty(), fds: Seq::empty() },
    )
}

/// Whether a call that was started is the one that was to be started, and the
/// connection as it was to become, or the error the one that was to be
/// reported, and the connection unchanged.
pub open spec fn call_matches(
    r: Result<MethodCall, Error>,
    before: ConnectionView,
    after: ConnectionView,
    expected: Result<ConnectionView, ErrorView>,
) -> bool {
    match expected {
        Ok(v) => r matches Ok(c) && c.wf() && c@ == (MethodCallView {
            serial: before.serial,
            staged: Seq::empty(),
        }) && after == v,
        Err(x) => r matches Err(e) && e@ == x && after == before,
    }
}

/// Whether the serial number that was returned is the one that the message was
/// to get, and the connection as it was to become, or the error the one that
/// was to be reported, and the connection unchanged.
pub open spec fn sent_matches(
    r: Result<u32, Error>,
    before: ConnectionView,
    after: ConnectionView,
    expected: Result<ConnectionView, ErrorView>,
) -> bool {
    match expected {
        Ok(v) => r == Ok::<u32, Error>(before.serial) && after == v,
        Err(x) => r matches Err(e) && e@ == x && after == before,
    }
}

impl<H: Fn(Message) -> Option<Message>> Connection<H> {
    /// Sends a message that was built from the parts that a caller gave.
    fn send_built(&mut self, built: Result<Message, Error>, Ghost(expected): Ghost<MessageView>, Ghost(can): Ghost<bool>) -> (r: Result<u32, Error>)
        requires
            old(self).wf(),
            build_matches(built, expected, can),
        ensures
            final(self).wf(),
            final(self).handler() == old(self).handler(),
            sent_matches(r, old(self)@, final(self)@, spec_send_built(old(self)@, can, expected)),
    {
        match built {
            Ok(m) => self.send_message(m),
            Err(e) => Err(e),
        }
    }

    /// Starts a method call: builds the call under the name of the connection,
    /// sends it, and hands back the call to await. Nothing has been set aside
    /// for it yet.
    pub fn call_method(
        &mut self,
        destination: Option<&str>,
        path: &str,
        iface: Option<&str>,
        method_name: &str,
        body: Body,
    ) -> (r: Result<MethodCall, Error>)
        requires
            old(self).wf(),
        ensures
            final(self).wf(),
            final(self).handler() == old(self).handler(),
            call_matches(
                r,
                old(self)@,
                final(self)@,
                spec_send_built(
                    old(self)@,
                    spec_can_build(
                        MessageType::MethodCall,
                        spec_method_fields(
                            old(self)@.unique_name,
                            spec_opt_text(destination),
                            path@,
                            spec_opt_text(iface),
                            method_name@,
                        ),
                        body@,
                    ),
                    spec_new_message(
                        MessageType::MethodCall,
                        spec_method_fields(
                            old(self)@.unique_name,
                            spec_opt_text(destination),
                            path@,
                            spec_opt_text(iface),
                            method_name@,
                        ),
                        body@,
                    ),
                ),
            ),
    {
        let ghost fields = spec_method_fields(
            self@.unique_name,
            spec_opt_text(destination),
            path@,
            spec_opt_text(iface),
            method_name@,
        );
        let ghost expected = spec_new_message(MessageType::MethodCall, fields, body@);
        let ghost can = spec_can_build(MessageType::MethodCall, fields, body@);
        let built = Message::method(
            self.unique_name(),
            destination,
            path,
            iface,
            method_name,
            body,
        );
        match self.send_built(built, Ghost(expected), Ghost(can)) {
            Ok(serial) => {
                let call = MethodCall { serial, staged: Vec::new() };
                assert(call@.staged =~= Seq::<MessageView>::empty());
                Ok(call)
            },
            Err(e) => Err(e),
        }
    }

    /// Starts the method call by which a connection introduces itself to the
    /// bus.
    pub fn hello(&mut self) -> (r: Result<MethodCall, Error>)
        requires
            old(self).wf(),
        ensures
            final(self).wf(),
            final(self).handler() == old(self).handler(),
            call_matches(
                r,
                old(self)@,
                final(self)@,
                spec_send_built(
                    old(self)@,
                    spec_can_hello(old(self)@.unique_name),
                    spec_hello(old(self)@.unique_name),
                ),
            ),
    {
        self.call_method(
            Some("org.freedesktop.DBus"),
            "/org/freedesktop/DBus",
            Some("org.freedesktop.DBus"),
            "Hello",
            Body::empty(),
        )
    }

    /// Takes the name that the bus has given the connection from the reply to
    /// its introduction. A failed call, and a reply that holds no name, are a
    /// failure of the handshake.
    pub fn finish_hello(&mut self, reply: Result<Message, Error>) -> (r: Result<(), Error>)
        requires
            old(self).wf(),
            old(self)@.unique_name is None,
        ensures
            final(self).wf(),
            final(self).handler() == old(self).handler(),
            match reply {
                Ok(m) => match spec_body_text(m@) {
                    Some(name) => r is Ok && final(self)@ == (ConnectionView {
                        unique_name: Some(name),
                        ..old(self)@
                    }),
                    None => r matches Err(e) && e@ == ErrorView::Handshake(
                        "Hello failed: the reply holds no name"@,
                    ) && final(self)@ == old(self)@,
                },
                Err(_) => r matches Err(e) && e@ == ErrorView::Handshake("Hello failed"@)
                    && final(self)@ == old(self)@,
            },
    {
        match reply {
            Ok(m) => match m.body_text() {
                Some(name) => {
                    let _ = self.set_unique_name(name);
                    Ok(())
                },
                None => Err(Error::handshake("Hello failed: the reply holds no name")),
            },
            Err(_) => Err(Error::handshake("Hello failed")),
        }
    }

    /// Emits a signal under the name of the connection.
    pub fn emit_signal(
        &mut self,
        destination: Option<&str>,
        path: &str,
        iface: &str,
        signal_name: &str,
        body: Body,
    ) -> (r: Result<(), Error>)
        requires
            old(self).wf(),
        ensures
            final(self).wf(),
            final(self).handler() == old(self).handler(),
            match spec_send_built(
                old(self)@,
                spec_can_build(
                    MessageType::Signal,
                    spec_method_fields(
                        old(self)@.unique_name,
                        spec_opt_text(destination),
                        path@,
                        Some(iface@),
                        signal_name@,
                    ),
                    body@,
                ),
                spec_new_message(
                    MessageType::Signal,
                    spec_method_fields(
                        old(self)@.unique_name,
                        spec_opt_text(destination),
                        path@,
                        Some(iface@),
                        signal_name@,
                    ),
                    body@,
                ),
            ) {
                Ok(v) => r is Ok && final(self)@ == v,
                Err(x) => r matches Err(e) && e@ == x && final(self)@ == old(self)@,
            },
    {
        let ghost fields = spec_method_fields(
            self@.unique_name,
            spec_opt_text(destination),
            path@,
            Some(iface@),
            signal_name@,
        );
        let ghost expected = spec_new_message(MessageType::Signal, fields, body@);
        let ghost can = spec_can_build(MessageType::Signal, fields, body@);
        let built = Message::signal(
            self.unique_name(),
            destination,
            path,
            iface,
            signal_name,
            body,
        );
        match self.send_built(built, Ghost(expected), Ghost(can)) {
            Ok(_) => Ok(()),
            Err(e) => Err(e),
        }
    }

    /// Replies to a method call: the reply names the serial number of the call
    /// and goes to the sender of the call. Returns the serial number of the
    /// reply.
    pub fn reply(&mut self, call: &Message, body: Body) -> (r: Result<u32, Error>)
        requires
            old(self).wf(),
        ensures
            final(self).wf(),
            final(self).handler() == old(self).handler(),
            sent_matches(
                r,
                old(self)@,
                final(self)@,
                spec_send_built(
                    old(self)@,
                    spec_can_build(
                        MessageType::MethodReturn,
                        spec_reply_fields(
                            old(self)@.unique_name,
                            call@.primary.serial_num,
                            spec_find_text(call@.fields, CODE_SENDER),
                            None,
                        ),
                        body@,
                    ),
                    spec_new_message(
                        MessageType::MethodReturn,
                        spec_reply_fields(
                            old(self)@.unique_name,
                            call@.primary.serial_num,
                            spec_find_text(call@.fields, CODE_SENDER),
                            None,
                        ),
                        body@,
                    ),
                ),
            ),
    {
        let ghost fields = spec_reply_fields(
            self@.unique_name,
            call@.primary.serial_num,
            spec_find_text(call@.fields, CODE_SENDER),
            None,
        );
        let ghost expected = spec_new_message(MessageType::MethodReturn, fields, body@);
        let ghost can = spec_can_build(MessageType::MethodReturn, fields, body@);
        let built = Message::method_reply(self.unique_name(), call, body);
        self.send_built(built, Ghost(expected), Ghost(can))
    }

    /// Replies to a method call with an error of the given name.
    pub fn reply_error(&mut self, call: &Message, error_name: &str, body: Body) -> (r: Result<
        u32,
        Error,
    >)
        requires
            old(self).wf(),
        ensures
            final(self).wf(),
            final(self).handler() == old(self).handler(),
            sent_matches(
                r,
                old(self)@,
                final(self)@,
                spec_send_built(
                    old(self)@,
                    spec_can_build(
                        MessageType::Error,
                        spec_reply_fields(
                            old(self)@.unique_name,
                            call@.primary.serial_num,
                            spec_find_text(call@.fields, CODE_SENDER),
                            Some(error_name@),
                        ),
                        body@,
                    ),
                    spec_new_message(
                        MessageType::Error,
                        spec_reply_fields(
                            old(self)@.unique_name,
                            call@.primary.serial_num,
                            spec_find_text(call@.fields, CODE_SENDER),
                            Some(error_name@),
                        ),
                        body@,
                    ),
                ),
            ),
    {
        let ghost fields = spec_reply_fields(
            self@.unique_name,
            call@.primary.serial_num,
            spec_find_text(call@.fields, CODE_SENDER),
            Some(error_name@),
        );
        let ghost expected = spec_new_message(MessageType::Error, fields, body@);
        let ghost can = spec_can_build(MessageType::Error, fields, body@);
        let built = Message::method_error(self.unique_name(), call, error_name, body);
        self.send_built(built, Ghost(expected), Ghost(can))
    }
}

/// The messages kept for later and the call after the messages `arrived` have
/// been handled one after the other while the call was awaited.
pub open spec fn spec_arrivals(
    queue: Seq<MessageView>,
    max_queued: usize,
    call: MethodCallView,
    arrived: Seq<MessageView>,
) -> (Seq<MessageView>, MethodCallView)
    decreases arrived.len(),
{
    if arrived.len() == 0 {
        (queue, call)
    } else {
        let (q, c) = spec_arrivals(queue, max_queued, call, arrived.drop_last());
        (
            spec_queue_after(q, c, arrived.last()),
            MethodCallView { staged: spec_staged_after(q, max_queued, c, arrived.last()), ..c },
        )
    }
}

/// The number of messages of which `arriving` arrive that can still be set
/// aside when `held` messages are held and `max_queued` may be kept.
pub open spec fn spec_room(held: nat, max_queued: usize, arriving: nat) -> nat {
    if held >= max_queued {
        0
    } else if max_queued - held >= arriving {
        arriving
    } else {
        (max_queued - held) as nat
    }
}

/// Messages that arrive while a call is awaited and do not reply to it are set
/// aside in the order of their arrival, as long as fewer messages are held than
/// may be kept; the others are dropped. The messages kept for later stay as they
/// are.
pub proof fn lemma_unrelated_set_aside(
    queue: Seq<MessageView>,
    max_queued: usize,
    call: MethodCallView,
    unrelated: Seq<MessageView>,
)
    requires
        spec_no_replies(unrelated, call.serial),
    ensures
        spec_arrivals(queue, max_queued, call, unrelated) == (
            queue,
            MethodCallView {
                staged: call.staged + unrelated.take(
                    spec_room(queue.len() + call.staged.len(), max_queued, unrelated.len()) as int,
                ),
                ..call
            },
        ),
    decreases unrelated.len(),
{
    let held = queue.len() + call.staged.len();
    if unrelated.len() == 0 {
        assert(call.staged + unrelated.take(0) == call.staged);
    } else {
        let before = unrelated.drop_last();
        let m = unrelated.last();
        assert forall|i: int| 0 <= i < before.len() implies !spec_replies_to(
            #[trigger] before[i],
            call.serial,
        ) by {
            assert(before[i] == unrelated[i]);
        }
        lemma_unrelated_set_aside(queue, max_queued, call, before);
        assert(!spec_replies_to(unrelated[unrelated.len() - 1], call.serial));
        let k0 = spec_room(held, max_queued, before.len());
        let k = spec_room(held, max_queued, unrelated.len());
        let staged0 = call.staged + before.take(k0 as int);
        if held + staged0.len() - call.staged.len() < max_queued {
            assert(k0 == before.len());
            assert(k == unrelated.len());
            assert(before.take(k0 as int) == before);
            assert(unrelated.take(k as int) == unrelated);
            assert(staged0.push(m) == call.staged + unrelated);
        } else {
            assert(k == k0);
            assert(unrelated.take(k as int) == before.take(k0 as int));
        }
    }
}

/// While a call is awaited on a connection that holds no messages, the
/// messages that arrive before the reply and do not reply to the call are not
/// lost: when the reply has been handled, the first of them, as many as may be
/// kept, are the messages kept for later, in the order of their arrival, so that
/// the next calls of `receive_message` return them; the others have been
/// dropped. Nothing is set aside any more, and the caller is told what the reply
/// means.
pub proof fn lemma_unrelated_messages_kept(
    max_queued: usize,
    serial: u32,
    unrelated: Seq<MessageView>,
    reply: MessageView,
)
    requires
        spec_no_replies(unrelated, serial),
        spec_replies_to(reply, serial),
    ensures
        ({
            let call = MethodCallView { serial, staged: Seq::empty() };
            let (q, c) = spec_arrivals(Seq::empty(), max_queued, call, unrelated);
            &&& spec_queue_after(q, c, reply) == unrelated.take(
                spec_room(0, max_queued, unrelated.len()) as int,
            )
            &&& spec_staged_after(q, max_queued, c, reply).len() == 0
            &&& spec_outcome_after(c, reply) == spec_reply_outcome(reply)
            &&& spec_room(0, max_queued, unrelated.len()) == if unrelated.len() <= max_queued {
                unrelated.len()
            } else {
                max_queued as nat
            }
        }),
{
    let call = MethodCallView { serial, staged: Seq::empty() };
    lemma_unrelated_set_aside(Seq::empty(), max_queued, call, unrelated);
    let k = spec_room(0, max_queued, unrelated.len());
    assert(Seq::<MessageView>::empty() + (Seq::<MessageView>::empty() + unrelated.take(k as int))
        == unrelated.take(k as int));
}

} // verus!
