//! The authentication handshake: a line protocol that precedes all messages.
//!
//! Each side is a state machine that takes the bytes received and says which
//! bytes to write. [`spec_client_line`] and [`spec_server_line`] say what one
//! line does to a side; [`ClientHandshake::advance`] and
//! [`ServerHandshake::advance`] apply them to every complete line received.

use crate::ascii::{
    bytes_eq, decimal, hex_encode, spec_ascii_bytes, spec_decimal, spec_hex_encode,
    spec_starts_with, starts_with,
};
use crate::error::{Error, ErrorView};
use crate::guid::{spec_is_guid, Guid};
use crate::raw::{RawConnection, RawView};
use vstd::prelude::*;
use vstd::slice::slice_subrange;
use vstd::utf8::*;

verus! {

/// What a handshake needs next.
#[derive(Debug, Clone, Copy, PartialEq, Eq, Structural)]
pub enum HandshakeStep {
    /// Bytes wait to be written.
    NeedsWrite,
    /// More bytes have to be received.
    NeedsRead,
    /// The handshake is complete and everything has been written.
    Done,
}

/// What a completed handshake hands over: the buffers of the connection, the
/// GUID of the server, and whether the passing of file descriptors was agreed.
#[derive(Debug)]
pub struct Authenticated {
    pub conn: RawConnection,
    pub server_guid: Guid,
    pub cap_unix_fd: bool,
}

/// Whether `i` is the offset of the first carriage return that a line feed
/// follows.
pub open spec fn spec_is_line_end(buf: Seq<u8>, i: int) -> bool {
    &&& 0 <= i
    &&& i + 1 < buf.len()
    &&& buf[i] == 13u8
    &&& buf[i + 1] == 10u8
    &&& forall|j: int| 0 <= j < i ==> !(buf[j] == 13u8 && #[trigger] buf[j + 1] == 10u8)
}

/// The length of the first line of the buffer, if the buffer holds a complete
/// line.
pub open spec fn spec_line_len(buf: Seq<u8>) -> Option<int> {
    if exists|i: int| spec_is_line_end(buf, i) {
        Some(choose|i: int| spec_is_line_end(buf, i))
    } else {
        None
    }
}

/// The first line ends in one place only.
pub proof fn lemma_line_end_unique(buf: Seq<u8>, i: int)
    requires
        spec_is_line_end(buf, i),
    ensures
        spec_line_len(buf) == Some(i),
{
    let k = choose|k: int| spec_is_line_end(buf, k);
    assert(spec_is_line_end(buf, k));
    if k < i {
        assert(!(buf[k] == 13u8 && buf[k + 1] == 10u8));
    }
    if i < k {
        assert(!(buf[i] == 13u8 && buf[i + 1] == 10u8));
    }
}

/// The length of the first line of the buffer, if the buffer holds a complete
/// line.
pub fn find_line(buf: &[u8]) -> (r: Option<usize>)
    ensures
        match r {
            Some(i) => spec_line_len(buf@) == Some(i as int) && i + 2 <= buf@.len(),
            None => spec_line_len(buf@) is None,
        },
{
    let mut i: usize = 0;
    if buf.len() < 2 {
        assert(spec_line_len(buf@) is None) by {
            if exists|k: int| spec_is_line_end(buf@, k) {
                let k = choose|k: int| spec_is_line_end(buf@, k);
            }
        }
        return None;
    }
    while i < buf.len() - 1
        invariant
            buf@.len() >= 2,
            forall|j: int| 0 <= j < i ==> !(buf@[j] == 13u8 && #[trigger] buf@[j + 1] == 10u8),
        decreases buf@.len() - i,
    {
        if buf[i] == 13 && buf[i + 1] == 10 {
            proof {
                lemma_line_end_unique(buf@, i as int);
            }
            return Some(i);
        }
        i = i + 1;
    }
    assert(spec_line_len(buf@) is None) by {
        if exists|k: int| spec_is_line_end(buf@, k) {
            let k = choose|k: int| spec_is_line_end(buf@, k);
            assert(!(buf@[k] == 13u8 && buf@[k + 1] == 10u8));
        }
    }
    None
}

/// Whether the line is the given ASCII text.
fn line_is(line: &[u8], s: &str) -> (r: bool)
    requires
        is_ascii_chars(s@),
    ensures
        r == (line@ == spec_ascii_bytes(s@)),
{
    bytes_eq(line, crate::ascii::ascii_bytes(s))
}

/// Whether the line begins with the given ASCII text.
fn line_starts_with(line: &[u8], s: &str) -> (r: bool)
    requires
        is_ascii_chars(s@),
    ensures
        r == spec_starts_with(line@, spec_ascii_bytes(s@)),
{
    starts_with(line, crate::ascii::ascii_bytes(s))
}

/// Appends the given ASCII text.
fn push_ascii(out: &mut Vec<u8>, s: &str)
    requires
        is_ascii_chars(s@),
    ensures
        final(out)@ == old(out)@ + spec_ascii_bytes(s@),
{
    out.extend_from_slice(crate::ascii::ascii_bytes(s));
    assert(out@ =~= old(out)@ + spec_ascii_bytes(s@));
}

/// The payload by which a client names its user in `AUTH EXTERNAL`: the decimal
/// digits of the user's number, each digit written as two hexadecimal digits.
pub open spec fn spec_uid_payload(uid: u32) -> Seq<u8> {
    spec_hex_encode(spec_decimal(uid as nat))
}

/// The payload by which a client names its user in `AUTH EXTERNAL`.
pub fn uid_payload(uid: u32) -> (out: Vec<u8>)
    ensures
        out@ == spec_uid_payload(uid),
{
    let digits: Vec<u8> = decimal(uid);
    hex_encode(digits.as_slice())
}

/// Where a client stands in the handshake.
#[derive(Debug, Clone, Copy, PartialEq, Eq, Structural)]
pub enum ClientPhase {
    /// `AUTH` has been sent; the server's `OK` is awaited.
    WaitingForOk,
    /// `NEGOTIATE_UNIX_FD` has been sent; the server's answer is awaited.
    WaitingForAgreeUnixFd,
    /// `BEGIN` has been sent.
    Done,
}

/// A client's side of the handshake as a mathematical value.
pub struct ClientView {
    pub phase: ClientPhase,
    pub tried_anonymous: bool,
    pub server_guid: Option<Seq<u8>>,
    pub cap_unix_fd: bool,
    pub incoming: Seq<u8>,
    pub outgoing: Seq<u8>,
}

/// A client's side of the handshake.
#[derive(Debug)]
pub struct ClientHandshake {
    phase: ClientPhase,
    tried_anonymous: bool,
    server_guid: Option<Guid>,
    cap_unix_fd: bool,
    incoming: Vec<u8>,
    outgoing: Vec<u8>,
}

/// The client before anything has been written: the zero byte that lets the
/// server look up the credentials of its peer and the `AUTH EXTERNAL` line for
/// the given user wait to be written.
pub open spec fn spec_client_initial(uid: u32) -> ClientView {
    ClientView {
        phase: ClientPhase::WaitingForOk,
        tried_anonymous: false,
        server_guid: None,
        cap_unix_fd: false,
        incoming: Seq::empty(),
        outgoing: seq![0u8] + spec_ascii_bytes("AUTH EXTERNAL "@) + spec_uid_payload(uid)
            + spec_ascii_bytes("\r\n"@),
    }
}

/// What a line from the server does to a client.
///
/// While `OK` is awaited: `OK` followed by a GUID is answered with
/// `NEGOTIATE_UNIX_FD`; the first `REJECTED` is answered with `AUTH ANONYMOUS`,
/// a second one ends the handshake. While the answer to `NEGOTIATE_UNIX_FD` is
/// awaited: `AGREE_UNIX_FD` grants the passing of file descriptors, `ERROR`
/// refuses it, and both are answered with `BEGIN`. Every other line ends the
/// handshake with an error; the text of the error is the result.
pub open spec fn spec_client_line(v: ClientView, line: Seq<u8>) -> Result<ClientView, Seq<char>> {
    match v.phase {
        ClientPhase::WaitingForOk => {
            if spec_starts_with(line, spec_ascii_bytes("OK "@)) {
                let guid = line.subrange(3, line.len() as int);
                if spec_is_guid(guid) {
                    Ok(
                        ClientView {
                            phase: ClientPhase::WaitingForAgreeUnixFd,
                            server_guid: Some(guid),
                            outgoing: v.outgoing + spec_ascii_bytes("NEGOTIATE_UNIX_FD\r\n"@),
                            ..v
                        },
                    )
                } else {
                    Err("invalid GUID in the server's OK"@)
                }
            } else if spec_starts_with(line, spec_ascii_bytes("REJECTED"@)) {
                if v.tried_anonymous {
                    Err("the server rejected the authentication"@)
                } else {
                    Ok(
                        ClientView {
                            tried_anonymous: true,
                            outgoing: v.outgoing + spec_ascii_bytes("AUTH ANONYMOUS\r\n"@),
                            ..v
                        },
                    )
                }
            } else {
                Err("unexpected response to AUTH"@)
            }
        },
        ClientPhase::WaitingForAgreeUnixFd => {
            if line == spec_ascii_bytes("AGREE_UNIX_FD"@) {
                Ok(
                    ClientView {
                        phase: ClientPhase::Done,
                        cap_unix_fd: true,
                        outgoing: v.outgoing + spec_ascii_bytes("BEGIN\r\n"@),
                        ..v
                    },
                )
            } else if spec_starts_with(line, spec_ascii_bytes("ERROR"@)) {
                Ok(
                    ClientView {
                        phase: ClientPhase::Done,
                        cap_unix_fd: false,
                        outgoing: v.outgoing + spec_ascii_bytes("BEGIN\r\n"@),
                        ..v
                    },
                )
            } else {
                Err("unexpected response to NEGOTIATE_UNIX_FD"@)
            }
        },
        ClientPhase::Done => Err("unexpected line after BEGIN"@),
    }
}

/// What the complete lines that a client has received do to it: each line in
/// turn is taken out of the input and handled, until no complete line is left,
/// the handshake is done, or a line ends it with an error.
pub open spec fn spec_client_advance(v: ClientView) -> Result<ClientView, Seq<char>>
    decreases v.incoming.len(),
{
    if v.phase == ClientPhase::Done {
        Ok(v)
    } else {
        match spec_line_len(v.incoming) {
            Some(n) => if 0 <= n && n + 2 <= v.incoming.len() {
                match spec_client_line(
                    ClientView {
                        incoming: v.incoming.subrange(n + 2, v.incoming.len() as int),
                        ..v
                    },
                    v.incoming.subrange(0, n),
                ) {
                    Ok(next) => if next.incoming.len() < v.incoming.len() {
                        spec_client_advance(next)
                    } else {
                        Ok(next)
                    },
                    Err(msg) => Err(msg),
                }
            } else {
                Ok(v)
            },
            None => Ok(v),
        }
    }
}

/// What a handshake whose output and phase are as given needs next.
pub open spec fn spec_step(done: bool, outgoing: Seq<u8>) -> HandshakeStep {
    if outgoing.len() > 0 {
        HandshakeStep::NeedsWrite
    } else if done {
        HandshakeStep::Done
    } else {
        HandshakeStep::NeedsRead
    }
}

impl View for ClientHandshake {
    type V = ClientView;

    closed spec fn view(&self) -> ClientView {
        ClientView {
            phase: self.phase,
            tried_anonymous: self.tried_anonymous,
            server_guid: match self.server_guid {
                Some(g) => Some(g@),
                None => None,
            },
            cap_unix_fd: self.cap_unix_fd,
            incoming: self.incoming@,
            outgoing: self.outgoing@,
        }
    }
}

impl ClientHandshake {
    /// Whether the value is what its type promises: a GUID that it holds is one.
    pub closed spec fn wf(&self) -> bool {
        self.server_guid matches Some(g) ==> g.wf()
    }

    /// Starts the handshake of a client that runs as the user `uid`.
    pub fn new(uid: u32) -> (h: ClientHandshake)
        ensures
            h.wf(),
            h@ == spec_client_initial(uid),
    {
        let mut outgoing: Vec<u8> = Vec::new();
        outgoing.push(0u8);
        assert(outgoing@ =~= seq![0u8]);
        proof {
            reveal_strlit("AUTH EXTERNAL ");
            reveal_strlit("\r\n");
        }
        push_ascii(&mut outgoing, "AUTH EXTERNAL ");
        let payload: Vec<u8> = uid_payload(uid);
        let ghost before = outgoing@;
        outgoing.extend_from_slice(payload.as_slice());
        assert(outgoing@ =~= before + payload@);
        push_ascii(&mut outgoing, "\r\n");
        ClientHandshake {
            phase: ClientPhase::WaitingForOk,
            tried_anonymous: false,
            server_guid: None,
            cap_unix_fd: false,
            incoming: Vec::new(),
            outgoing,
        }
    }

    /// The bytes that wait to be written.
    pub fn pending_output(&self) -> (b: &[u8])
        ensures
            b@ == self@.outgoing,
    {
        self.outgoing.as_slice()
    }

    /// Records that `written` bytes of the pending output have been written.
    pub fn advance_output(&mut self, written: usize)
        requires
            old(self).wf(),
        ensures
            final(self).wf(),
            final(self)@ == (ClientView {
                outgoing: old(self)@.outgoing.subrange(
                    if written <= old(self)@.outgoing.len() {
                        written as int
                    } else {
                        old(self)@.outgoing.len() as int
                    },
                    old(self)@.outgoing.len() as int,
                ),
                ..old(self)@
            }),
    {
        let n: usize = if written <= self.outgoing.len() {
            written
        } else {
            self.outgoing.len()
        };
        let rest: Vec<u8> = self.outgoing.split_off(n);
        self.outgoing = rest;
    }

    /// Takes in bytes that were received.
    pub fn feed(&mut self, bytes: &[u8])
        requires
            old(self).wf(),
        ensures
            final(self).wf(),
            final(self)@ == (ClientView {
                incoming: old(self)@.incoming + bytes@,
                ..old(self)@
            }),
    {
        self.incoming.extend_from_slice(bytes);
        assert(self.incoming@ =~= old(self).incoming@ + bytes@);
    }

    /// Handles one line from the server.
    pub fn handle_line(&mut self, line: &[u8]) -> (r: Result<(), Error>)
        requires
            old(self).wf(),
        ensures
            final(self).wf(),
            match spec_client_line(old(self)@, line@) {
                Ok(v) => r is Ok && final(self)@ == v,
                Err(msg) => r matches Err(e) && e@ == ErrorView::Handshake(msg) && final(self)@
                    == old(self)@,
            },
    {
        proof {
            reveal_strlit("OK ");
            reveal_strlit("REJECTED");
            reveal_strlit("AGREE_UNIX_FD");
            reveal_strlit("ERROR");
            reveal_strlit("NEGOTIATE_UNIX_FD\r\n");
            reveal_strlit("AUTH ANONYMOUS\r\n");
            reveal_strlit("BEGIN\r\n");
        }
        match self.phase {
            ClientPhase::WaitingForOk => {
                if line_starts_with(line, "OK ") {
                    match Guid::from_ascii(slice_subrange(line, 3, line.len())) {
                        Some(guid) => {
                            self.server_guid = Some(guid);
                            self.phase = ClientPhase::WaitingForAgreeUnixFd;
                            push_ascii(&mut self.outgoing, "NEGOTIATE_UNIX_FD\r\n");
                            Ok(())
                        },
                        None => Err(Error::handshake("invalid GUID in the server's OK")),
                    }
                } else if line_starts_with(line, "REJECTED") {
                    if self.tried_anonymous {
                        Err(Error::handshake("the server rejected the authentication"))
                    } else {
                        self.tried_anonymous = true;
                        push_ascii(&mut self.outgoing, "AUTH ANONYMOUS\r\n");
                        Ok(())
                    }
                } else {
                    Err(Error::handshake("unexpected response to AUTH"))
                }
            },
            ClientPhase::WaitingForAgreeUnixFd => {
                if line_is(line, "AGREE_UNIX_FD") {
                    self.cap_unix_fd = true;
                    self.phase = ClientPhase::Done;
                    push_ascii(&mut self.outgoing, "BEGIN\r\n");
                    Ok(())
                } else if line_starts_with(line, "ERROR") {
                    self.cap_unix_fd = false;
                    self.phase = ClientPhase::Done;
                    push_ascii(&mut self.outgoing, "BEGIN\r\n");
                    Ok(())
                } else {
                    Err(Error::handshake("unexpected response to NEGOTIATE_UNIX_FD"))
                }
            },
            ClientPhase::Done => Err(Error::handshake("unexpected line after BEGIN")),
        }
    }

    /// Handles every complete line that has been received and says what the
    /// handshake needs next. After an error the handshake cannot be carried on.
    pub fn advance(&mut self) -> (r: Result<HandshakeStep, Error>)
        requires
            old(self).wf(),
        ensures
            final(self).wf(),
            match spec_client_advance(old(self)@) {
                Ok(v) => r == Ok::<HandshakeStep, Error>(
                    spec_step(v.phase == ClientPhase::Done, v.outgoing),
                ) && final(self)@ == v,
                Err(msg) => r matches Err(e) && e@ == ErrorView::Handshake(msg),
            },
    {
        loop
            invariant
                self.wf(),
                spec_client_advance(old(self)@) == spec_client_advance(self@),
            ensures
                self.phase == ClientPhase::Done || spec_line_len(self.incoming@) is None,
            decreases self.incoming@.len(),
        {
            if self.phase == ClientPhase::Done {
                break ;
            }
            let found: Option<usize> = find_line(self.incoming.as_slice());
            if found.is_none() {
                break ;
            }
            let n: usize = found.unwrap();
            let ghost before = self@;
            let available: usize = self.incoming.len();
            assert(n + 2 <= available);
            let rest: Vec<u8> = self.incoming.split_off(n + 2);
            let mut line: Vec<u8> = rest;
            std::mem::swap(&mut line, &mut self.incoming);
            line.truncate(n);
            proof {
                assert(line@ =~= before.incoming.subrange(0, n as int));
                assert(self@ == (ClientView {
                    incoming: before.incoming.subrange(n + 2, before.incoming.len() as int),
                    ..before
                }));
            }
            match self.handle_line(line.as_slice()) {
                Ok(()) => {},
                Err(e) => {
                    return Err(e);
                },
            }
        }
        let done: bool = self.phase == ClientPhase::Done;
        if self.outgoing.len() > 0 {
            Ok(HandshakeStep::NeedsWrite)
        } else if done {
            Ok(HandshakeStep::Done)
        } else {
            Ok(HandshakeStep::NeedsRead)
        }
    }

    /// Hands over what the handshake has established, once it is done and all of
    /// its output has been written; until then the handshake is handed back.
    pub fn try_finish(self) -> (r: Result<Authenticated, ClientHandshake>)
        requires
            self.wf(),
        ensures
            match r {
                Ok(a) => self@.phase == ClientPhase::Done && self@.outgoing.len() == 0
                    && a.server_guid.wf() && Some(a.server_guid@) == self@.server_guid
                    && a.cap_unix_fd == self@.cap_unix_fd && a.conn@ == (RawView {
                    incoming: self@.incoming,
                    incoming_fds: Seq::empty(),
                    outgoing: Seq::empty(),
                    outgoing_fds: Seq::empty(),
                }),
                Err(h) => !(self@.phase == ClientPhase::Done && self@.outgoing.len() == 0
                    && self@.server_guid is Some) && h@ == self@ && h.wf(),
            },
    {
        if self.phase == ClientPhase::Done && self.outgoing.len() == 0 && self.server_guid.is_some() {
            let ClientHandshake { server_guid, cap_unix_fd, incoming, .. } = self;
            let mut conn = RawConnection::new();
            conn.feed(incoming.as_slice(), Vec::<i32>::new().as_slice());
            let ghost fed = conn@;
            assert(fed.incoming =~= incoming@);
            assert(fed.incoming_fds =~= Seq::<i32>::empty());
            Ok(Authenticated { conn, server_guid: server_guid.unwrap(), cap_unix_fd })
        } else {
            Err(self)
        }
    }
}

/// What a sequence of lines from the server does to a client, one line after
/// the other.
pub open spec fn spec_client_run(v: ClientView, lines: Seq<Seq<u8>>) -> Result<
    ClientView,
    Seq<char>,
>
    decreases lines.len(),
{
    if lines.len() == 0 {
        Ok(v)
    } else {
        match spec_client_run(v, lines.drop_last()) {
            Ok(w) => spec_client_line(w, lines.last()),
            Err(msg) => Err(msg),
        }
    }
}

/// Whether one of the lines is the given one.
pub open spec fn spec_saw(lines: Seq<Seq<u8>>, line: Seq<u8>) -> bool {
    exists|i: int| 0 <= i < lines.len() && #[trigger] lines[i] == line
}

/// What holds of a client after any lines that it accepted: it has a GUID once
/// it has left the first phase, and it has been granted the passing of file
/// descriptors exactly if it is done and has seen `AGREE_UNIX_FD`.
pub open spec fn spec_client_inv(v: ClientView, lines: Seq<Seq<u8>>) -> bool {
    let agreed = spec_saw(lines, spec_ascii_bytes("AGREE_UNIX_FD"@));
    match v.phase {
        ClientPhase::WaitingForOk => !v.cap_unix_fd && !agreed,
        ClientPhase::WaitingForAgreeUnixFd => !v.cap_unix_fd && !agreed && (v.server_guid matches Some(
            g,
        ) && spec_is_guid(g)),
        ClientPhase::Done => (v.cap_unix_fd <==> agreed) && (v.server_guid matches Some(g)
            && spec_is_guid(g)),
    }
}

/// What holds of a client holds after any lines that it accepts.
proof fn lemma_client_run_inv(uid: u32, lines: Seq<Seq<u8>>)
    ensures
        spec_client_run(spec_client_initial(uid), lines) matches Ok(v) ==> spec_client_inv(
            v,
            lines,
        ),
    decreases lines.len(),
{
    let agree = spec_ascii_bytes("AGREE_UNIX_FD"@);
    reveal_strlit("AGREE_UNIX_FD");
    reveal_strlit("OK ");
    reveal_strlit("REJECTED");
    reveal_strlit("ERROR");
    if lines.len() == 0 {
    } else {
        let before = lines.drop_last();
        let last = lines.last();
        lemma_client_run_inv(uid, before);
        match spec_client_run(spec_client_initial(uid), before) {
            Ok(w) => {
                match spec_client_line(w, last) {
                    Ok(v) => {
                        assert(spec_client_inv(w, before));
                        let saw_before = spec_saw(before, agree);
                        let saw = spec_saw(lines, agree);
                        if last == agree {
                            assert(lines[lines.len() - 1] == agree);
                            assert(saw);
                            assert(agree[0] == 0x41u8);
                            assert(spec_ascii_bytes("OK "@)[0] == 0x4fu8);
                            assert(spec_ascii_bytes("REJECTED"@)[0] == 0x52u8);
                            if w.phase == ClientPhase::WaitingForOk {
                                if spec_starts_with(last, spec_ascii_bytes("OK "@)) {
                                    assert(last.subrange(0, 3)[0] == last[0]);
                                }
                                if spec_starts_with(last, spec_ascii_bytes("REJECTED"@)) {
                                    assert(last.subrange(0, 8)[0] == last[0]);
                                }
                            }
                        } else {
                            if saw {
                                let i = choose|i: int| 0 <= i < lines.len() && #[trigger] lines[i] == agree;
                                assert(i < before.len());
                                assert(before[i] == agree);
                                assert(saw_before);
                            }
                            if saw_before {
                                let i = choose|i: int| 0 <= i < before.len() && #[trigger] before[i] == agree;
                                assert(lines[i] == agree);
                            }
                        }
                    },
                    Err(_) => {},
                }
            },
            Err(_) => {},
        }
    }
}

/// A client whose handshake is done holds a GUID of thirty-two lower-case
/// hexadecimal digits, and has been granted the passing of file descriptors if
/// and only if the server has answered `AGREE_UNIX_FD`.
pub proof fn lemma_client_done(uid: u32, lines: Seq<Seq<u8>>)
    ensures
        spec_client_run(spec_client_initial(uid), lines) matches Ok(v) ==> (v.phase
            == ClientPhase::Done ==> {
            &&& v.server_guid matches Some(g) && spec_is_guid(g)
            &&& v.cap_unix_fd <==> spec_saw(lines, spec_ascii_bytes("AGREE_UNIX_FD"@))
        }),
{
    lemma_client_run_inv(uid, lines);
}

/// Where a server stands in the handshake.
#[derive(Debug, Clone, Copy, PartialEq, Eq, Structural)]
pub enum ServerPhase {
    /// The zero byte that a client starts with is awaited.
    WaitingForNull,
    /// The client's `AUTH` is awaited.
    WaitingForAuth,
    /// The client is authenticated; its `BEGIN` is awaited.
    WaitingForBegin,
    /// `BEGIN` has been received.
    Done,
}

/// A server's side of the handshake as a mathematical value.
pub struct ServerView {
    pub phase: ServerPhase,
    pub client_uid: u32,
    pub server_guid: Seq<u8>,
    pub cap_unix_fd: bool,
    pub incoming: Seq<u8>,
    pub outgoing: Seq<u8>,
}

/// A server's side of the handshake.
#[derive(Debug)]
pub struct ServerHandshake {
    phase: ServerPhase,
    client_uid: u32,
    server_guid: Guid,
    cap_unix_fd: bool,
    incoming: Vec<u8>,
    outgoing: Vec<u8>,
}

/// The server before anything has been received.
pub open spec fn spec_server_initial(guid: Seq<u8>, client_uid: u32) -> ServerView {
    ServerView {
        phase: ServerPhase::WaitingForNull,
        client_uid,
        server_guid: guid,
        cap_unix_fd: false,
        incoming: Seq::empty(),
        outgoing: Seq::empty(),
    }
}

/// The server with one more line to write.
pub open spec fn spec_server_says(v: ServerView, line: Seq<u8>) -> ServerView {
    ServerView { outgoing: v.outgoing + line, ..v }
}

/// What a line from the client does to a server.
///
/// Before the client is authenticated: `AUTH EXTERNAL` with the payload of the
/// user that the socket names as the peer is answered with `OK` and the GUID;
/// with any other payload it ends the handshake; any other `AUTH` is answered
/// with `REJECTED EXTERNAL`; `BEGIN` ends the handshake. Afterwards: `BEGIN`
/// completes the handshake, and `NEGOTIATE_UNIX_FD` is answered with
/// `AGREE_UNIX_FD`. Any other line is answered with `ERROR`.
pub open spec fn spec_server_line(v: ServerView, line: Seq<u8>) -> Result<ServerView, Seq<char>> {
    match v.phase {
        ServerPhase::WaitingForNull => Err("a line before the zero byte"@),
        ServerPhase::WaitingForAuth => {
            if line == spec_ascii_bytes("AUTH EXTERNAL "@) + spec_uid_payload(v.client_uid) {
                Ok(
                    ServerView {
                        phase: ServerPhase::WaitingForBegin,
                        outgoing: v.outgoing + spec_ascii_bytes("OK "@) + v.server_guid
                            + spec_ascii_bytes("\r\n"@),
                        ..v
                    },
                )
            } else if spec_starts_with(line, spec_ascii_bytes("AUTH EXTERNAL "@)) {
                Err("the client does not name the user of the peer"@)
            } else if spec_starts_with(line, spec_ascii_bytes("AUTH"@)) {
                Ok(spec_server_says(v, spec_ascii_bytes("REJECTED EXTERNAL\r\n"@)))
            } else if line == spec_ascii_bytes("BEGIN"@) {
                Err("BEGIN before the authentication"@)
            } else {
                Ok(spec_server_says(v, spec_ascii_bytes("ERROR Unsupported command\r\n"@)))
            }
        },
        ServerPhase::WaitingForBegin => {
            if line == spec_ascii_bytes("BEGIN"@) {
                Ok(ServerView { phase: ServerPhase::Done, ..v })
            } else if line == spec_ascii_bytes("NEGOTIATE_UNIX_FD"@) {
                Ok(
                    ServerView {
                        cap_unix_fd: true,
                        outgoing: v.outgoing + spec_ascii_bytes("AGREE_UNIX_FD\r\n"@),
                        ..v
                    },
                )
            } else {
                Ok(spec_server_says(v, spec_ascii_bytes("ERROR Unsupported command\r\n"@)))
            }
        },
        ServerPhase::Done => Err("unexpected line after BEGIN"@),
    }
}

/// What the bytes that a server has received do to it: the zero byte that a
/// client starts with is taken out of the input, then each complete line in
/// turn, until no complete line is left, the handshake is done, or the handshake
/// ends with an error.
pub open spec fn spec_server_advance(v: ServerView) -> Result<ServerView, Seq<char>>
    decreases v.incoming.len(),
{
    if v.phase == ServerPhase::Done {
        Ok(v)
    } else if v.phase == ServerPhase::WaitingForNull {
        if v.incoming.len() == 0 {
            Ok(v)
        } else if v.incoming[0] != 0u8 {
            Err("the client did not start with a zero byte"@)
        } else {
            spec_server_advance(
                ServerView {
                    phase: ServerPhase::WaitingForAuth,
                    incoming: v.incoming.subrange(1, v.incoming.len() as int),
                    ..v
                },
            )
        }
    } else {
        match spec_line_len(v.incoming) {
            Some(n) => if 0 <= n && n + 2 <= v.incoming.len() {
                match spec_server_line(
                    ServerView {
                        incoming: v.incoming.subrange(n + 2, v.incoming.len() as int),
                        ..v
                    },
                    v.incoming.subrange(0, n),
                ) {
                    Ok(next) => if next.incoming.len() < v.incoming.len() {
                        spec_server_advance(next)
                    } else {
                        Ok(next)
                    },
                    Err(msg) => Err(msg),
                }
            } else {
                Ok(v)
            },
            None => Ok(v),
        }
    }
}

impl View for ServerHandshake {
    type V = ServerView;

    closed spec fn view(&self) -> ServerView {
        ServerView {
            phase: self.phase,
            client_uid: self.client_uid,
            server_guid: self.server_guid@,
            cap_unix_fd: self.cap_unix_fd,
            incoming: self.incoming@,
            outgoing: self.outgoing@,
        }
    }
}

impl ServerHandshake {
    /// Whether the value is what its type promises: its GUID is one.
    pub closed spec fn wf(&self) -> bool {
        self.server_guid.wf()
    }

    /// Starts the handshake of a server that calls itself `guid`, with a client
    /// that the socket says runs as the user `client_uid`.
    pub fn new(guid: Guid, client_uid: u32) -> (h: ServerHandshake)
        requires
            guid.wf(),
        ensures
            h.wf(),
            h@ == spec_server_initial(guid@, client_uid),
    {
        ServerHandshake {
            phase: ServerPhase::WaitingForNull,
            client_uid,
            server_guid: guid,
            cap_unix_fd: false,
            incoming: Vec::new(),
            outgoing: Vec::new(),
        }
    }

    /// The bytes that wait to be written.
    pub fn pending_output(&self) -> (b: &[u8])
        ensures
            b@ == self@.outgoing,
    {
        self.outgoing.as_slice()
    }

    /// Records that `written` bytes of the pending output have been written.
    pub fn advance_output(&mut self, written: usize)
        requires
            old(self).wf(),
        ensures
            final(self).wf(),
            final(self)@ == (ServerView {
                outgoing: old(self)@.outgoing.subrange(
                    if written <= old(self)@.outgoing.len() {
                        written as int
                    } else {
                        old(self)@.outgoing.len() as int
                    },
                    old(self)@.outgoing.len() as int,
                ),
                ..old(self)@
            }),
    {
        let n: usize = if written <= self.outgoing.len() {
            written
        } else {
            self.outgoing.len()
        };
        let rest: Vec<u8> = self.outgoing.split_off(n);
        self.outgoing = rest;
    }

    /// Takes in bytes that were received.
    pub fn feed(&mut self, bytes: &[u8])
        requires
            old(self).wf(),
        ensures
            final(self).wf(),
            final(self)@ == (ServerView {
                incoming: old(self)@.incoming + bytes@,
                ..old(self)@
            }),
    {
        self.incoming.extend_from_slice(bytes);
        assert(self.incoming@ =~= old(self).incoming@ + bytes@);
    }

    /// Whether the line is the `AUTH EXTERNAL` of the expected user.
    fn is_expected_auth(&self, line: &[u8]) -> (r: bool)
        ensures
            r == (line@ == spec_ascii_bytes("AUTH EXTERNAL "@) + spec_uid_payload(
                self@.client_uid,
            )),
    {
        proof {
            reveal_strlit("AUTH EXTERNAL ");
        }
        let mut expected: Vec<u8> = Vec::new();
        push_ascii(&mut expected, "AUTH EXTERNAL ");
        let payload: Vec<u8> = uid_payload(self.client_uid);
        expected.extend_from_slice(payload.as_slice());
        assert(expected@ =~= spec_ascii_bytes("AUTH EXTERNAL "@) + spec_uid_payload(
            self@.client_uid,
        ));
        bytes_eq(line, expected.as_slice())
    }

    /// Handles one line from the client.
    pub fn handle_line(&mut self, line: &[u8]) -> (r: Result<(), Error>)
        requires
            old(self).wf(),
        ensures
            final(self).wf(),
            match spec_server_line(old(self)@, line@) {
                Ok(v) => r is Ok && final(self)@ == v,
                Err(msg) => r matches Err(e) && e@ == ErrorView::Handshake(msg) && final(self)@
                    == old(self)@,
            },
    {
        proof {
            reveal_strlit("OK ");
            reveal_strlit("\r\n");
            reveal_strlit("AUTH EXTERNAL ");
            reveal_strlit("AUTH");
            reveal_strlit("BEGIN");
            reveal_strlit("NEGOTIATE_UNIX_FD");
            reveal_strlit("REJECTED EXTERNAL\r\n");
            reveal_strlit("ERROR Unsupported command\r\n");
            reveal_strlit("AGREE_UNIX_FD\r\n");
        }
        match self.phase {
            ServerPhase::WaitingForNull => Err(Error::handshake("a line before the zero byte")),
            ServerPhase::WaitingForAuth => {
                if self.is_expected_auth(line) {
                    self.phase = ServerPhase::WaitingForBegin;
                    push_ascii(&mut self.outgoing, "OK ");
                    let ghost head = self.outgoing@;
                    self.outgoing.extend_from_slice(self.server_guid.as_bytes());
                    assert(self.outgoing@ =~= head + self.server_guid@);
                    push_ascii(&mut self.outgoing, "\r\n");
                    Ok(())
                } else if line_starts_with(line, "AUTH EXTERNAL ") {
                    Err(Error::handshake("the client does not name the user of the peer"))
                } else if line_starts_with(line, "AUTH") {
                    push_ascii(&mut self.outgoing, "REJECTED EXTERNAL\r\n");
                    Ok(())
                } else if line_is(line, "BEGIN") {
                    Err(Error::handshake("BEGIN before the authentication"))
                } else {
                    push_ascii(&mut self.outgoing, "ERROR Unsupported command\r\n");
                    Ok(())
                }
            },
            ServerPhase::WaitingForBegin => {
                if line_is(line, "BEGIN") {
                    self.phase = ServerPhase::Done;
                    Ok(())
                } else if line_is(line, "NEGOTIATE_UNIX_FD") {
                    self.cap_unix_fd = true;
                    push_ascii(&mut self.outgoing, "AGREE_UNIX_FD\r\n");
                    Ok(())
                } else {
                    push_ascii(&mut self.outgoing, "ERROR Unsupported command\r\n");
                    Ok(())
                }
            },
            ServerPhase::Done => Err(Error::handshake("unexpected line after BEGIN")),
        }
    }

    /// Handles the bytes that have been received, as far as they are complete,
    /// and says what the handshake needs next. After an error the handshake
    /// cannot be carried on.
    pub fn advance(&mut self) -> (r: Result<HandshakeStep, Error>)
        requires
            old(self).wf(),
        ensures
            final(self).wf(),
            match spec_server_advance(old(self)@) {
                Ok(v) => r == Ok::<HandshakeStep, Error>(
                    spec_step(v.phase == ServerPhase::Done, v.outgoing),
                ) && final(self)@ == v,
                Err(msg) => r matches Err(e) && e@ == ErrorView::Handshake(msg),
            },
    {
        if self.phase == ServerPhase::WaitingForNull && self.incoming.len() > 0 {
            if self.incoming[0] != 0 {
                return Err(Error::handshake("the client did not start with a zero byte"));
            }
            let rest: Vec<u8> = self.incoming.split_off(1);
            self.incoming = rest;
            self.phase = ServerPhase::WaitingForAuth;
        }
        loop
            invariant
                self.wf(),
                spec_server_advance(old(self)@) == spec_server_advance(self@),
                self.phase == ServerPhase::WaitingForNull ==> self.incoming@.len() == 0,
            ensures
                self.phase == ServerPhase::Done || self.phase == ServerPhase::WaitingForNull
                    || spec_line_len(self.incoming@) is None,
            decreases self.incoming@.len(),
        {
            if self.phase == ServerPhase::Done || self.phase == ServerPhase::WaitingForNull {
                break ;
            }
            let found: Option<usize> = find_line(self.incoming.as_slice());
            if found.is_none() {
                break ;
            }
            let n: usize = found.unwrap();
            let ghost before = self@;
            let available: usize = self.incoming.len();
            assert(n + 2 <= available);
            let rest: Vec<u8> = self.incoming.split_off(n + 2);
            let mut line: Vec<u8> = rest;
            std::mem::swap(&mut line, &mut self.incoming);
            line.truncate(n);
            proof {
                assert(line@ =~= before.incoming.subrange(0, n as int));
                assert(self@ == (ServerView {
                    incoming: before.incoming.subrange(n + 2, before.incoming.len() as int),
                    ..before
                }));
            }
            match self.handle_line(line.as_slice()) {
                Ok(()) => {},
                Err(e) => {
                    return Err(e);
                },
            }
        }
        let done: bool = self.phase == ServerPhase::Done;
        if self.outgoing.len() > 0 {
            Ok(HandshakeStep::NeedsWrite)
        } else if done {
            Ok(HandshakeStep::Done)
        } else {
            Ok(HandshakeStep::NeedsRead)
        }
    }

    /// Hands over what the handshake has established, once it is done and all of
    /// its output has been written; until then the handshake is handed back.
    /// What the client has sent after `BEGIN` is the input of the connection.
    pub fn try_finish(self) -> (r: Result<Authenticated, ServerHandshake>)
        requires
            self.wf(),
        ensures
            match r {
                Ok(a) => self@.phase == ServerPhase::Done && self@.outgoing.len() == 0
                    && a.server_guid.wf() && a.server_guid@ == self@.server_guid && a.cap_unix_fd
                    == self@.cap_unix_fd && a.conn@ == (RawView {
                    incoming: self@.incoming,
                    incoming_fds: Seq::empty(),
                    outgoing: Seq::empty(),
                    outgoing_fds: Seq::empty(),
                }),
                Err(h) => !(self@.phase == ServerPhase::Done && self@.outgoing.len() == 0) && h@
                    == self@ && h.wf(),
            },
    {
        if self.phase == ServerPhase::Done && self.outgoing.len() == 0 {
            let ServerHandshake { server_guid, cap_unix_fd, incoming, .. } = self;
            let mut conn = RawConnection::new();
            conn.feed(incoming.as_slice(), Vec::<i32>::new().as_slice());
            let ghost fed = conn@;
            assert(fed.incoming =~= incoming@);
            assert(fed.incoming_fds =~= Seq::<i32>::empty());
            Ok(Authenticated { conn, server_guid, cap_unix_fd })
        } else {
            Err(self)
        }
    }
}

} // verus!
