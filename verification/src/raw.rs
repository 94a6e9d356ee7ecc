//! The buffers of the transport: what has been received and not yet decoded,
//! and what has been encoded and not yet written. The socket itself is the
//! caller's; this module says what to write and takes what was read.

use crate::message::{spec_decode, spec_encode, Message, MessageView};
use crate::variant::Error;
use vstd::prelude::*;

verus! {

/// The buffers of a connection before any message is decoded or after it is
/// encoded.
#[derive(Debug)]
pub struct RawConnection {
    incoming: Vec<u8>,
    incoming_fds: Vec<i32>,
    outgoing: Vec<u8>,
    outgoing_fds: Vec<i32>,
}

/// The buffers of a connection as mathematical values.
pub struct RawView {
    /// The bytes received and not yet decoded.
    pub incoming: Seq<u8>,
    /// The file descriptors received and not yet given to a message.
    pub incoming_fds: Seq<i32>,
    /// The bytes encoded and not yet written.
    pub outgoing: Seq<u8>,
    /// The file descriptors that go with the next write.
    pub outgoing_fds: Seq<i32>,
}

impl View for RawConnection {
    type V = RawView;

    closed spec fn view(&self) -> RawView {
        RawView {
            incoming: self.incoming@,
            incoming_fds: self.incoming_fds@,
            outgoing: self.outgoing@,
            outgoing_fds: self.outgoing_fds@,
        }
    }
}

/// The buffers after the message `m` has been queued for writing.
pub open spec fn spec_enqueue(raw: RawView, m: MessageView) -> RawView {
    RawView {
        outgoing: raw.outgoing + spec_encode(m),
        outgoing_fds: raw.outgoing_fds + m.fds,
        ..raw
    }
}

/// The buffers after `written` bytes of the pending output have been written:
/// these bytes are gone, and with the first bytes written the pending file
/// descriptors have gone out too.
pub open spec fn spec_written(raw: RawView, written: int) -> RawView {
    let n = if written <= raw.outgoing.len() {
        written
    } else {
        raw.outgoing.len() as int
    };
    RawView {
        outgoing: raw.outgoing.subrange(n, raw.outgoing.len() as int),
        outgoing_fds: if n > 0 {
            Seq::empty()
        } else {
            raw.outgoing_fds
        },
        ..raw
    }
}

/// The buffers after bytes and file descriptors have been received.
pub open spec fn spec_fed(raw: RawView, bytes: Seq<u8>, fds: Seq<i32>) -> RawView {
    RawView { incoming: raw.incoming + bytes, incoming_fds: raw.incoming_fds + fds, ..raw }
}

/// The buffers after the first message of the input has been taken out of it;
/// unchanged where the input does not start with a complete message.
pub open spec fn spec_taken(raw: RawView) -> RawView {
    match spec_decode(raw.incoming, raw.incoming_fds) {
        Ok((_, bytes, fds)) => RawView {
            incoming: raw.incoming.subrange(bytes, raw.incoming.len() as int),
            incoming_fds: raw.incoming_fds.subrange(fds, raw.incoming_fds.len() as int),
            ..raw
        },
        Err(_) => raw,
    }
}

/// Whether a message that was received is the one that the input started with,
/// or the error the one that decoding the input gives.
pub open spec fn received_matches(r: Result<Message, Error>, raw: RawView) -> bool {
    match spec_decode(raw.incoming, raw.incoming_fds) {
        Ok((m, _, _)) => r matches Ok(g) && g@ == m,
        Err(x) => r == Err::<Message, Error>(x),
    }
}

/// A complete message is at least as long as the fixed part of its header, and
/// no longer than the input that holds it.
pub proof fn lemma_decode_consumes(buf: Seq<u8>, fds: Seq<i32>)
    ensures
        spec_decode(buf, fds) matches Ok((_, bytes, n)) ==> 16 <= bytes <= buf.len() && 0 <= n
            <= fds.len(),
{
}

impl RawConnection {
    /// Buffers that hold nothing.
    pub fn new() -> (raw: RawConnection)
        ensures
            raw@ == (RawView {
                incoming: Seq::empty(),
                incoming_fds: Seq::empty(),
                outgoing: Seq::empty(),
                outgoing_fds: Seq::empty(),
            }),
    {
        RawConnection {
            incoming: Vec::new(),
            incoming_fds: Vec::new(),
            outgoing: Vec::new(),
            outgoing_fds: Vec::new(),
        }
    }

    /// Queues a message for writing: its bytes follow those already pending, its
    /// file descriptors those already pending.
    pub fn enqueue_message(&mut self, msg: &Message)
        requires
            msg.wf(),
        ensures
            final(self)@ == spec_enqueue(old(self)@, msg@),
    {
        let bytes: Vec<u8> = msg.encode();
        self.outgoing.extend_from_slice(bytes.as_slice());
        self.outgoing_fds.extend_from_slice(msg.fds().as_slice());
        assert(self.outgoing@ =~= old(self).outgoing@ + spec_encode(msg@));
        assert(self.outgoing_fds@ =~= old(self).outgoing_fds@ + msg@.fds);
    }

    /// The bytes that wait to be written, and the file descriptors to send with
    /// the first of them.
    pub fn pending_output(&self) -> (r: (&[u8], &[i32]))
        ensures
            r.0@ == self@.outgoing,
            r.1@ == self@.outgoing_fds,
    {
        (self.outgoing.as_slice(), self.outgoing_fds.as_slice())
    }

    /// Records that `written` bytes of the pending output have been written.
    pub fn advance_output(&mut self, written: usize)
        ensures
            final(self)@ == spec_written(old(self)@, written as int),
    {
        let n: usize = if written <= self.outgoing.len() {
            written
        } else {
            self.outgoing.len()
        };
        let rest: Vec<u8> = self.outgoing.split_off(n);
        self.outgoing = rest;
        if n > 0 {
            self.outgoing_fds.clear();
        }
    }

    /// Whether nothing waits to be written.
    pub fn is_flushed(&self) -> (r: bool)
        ensures
            r == (self@.outgoing.len() == 0 && self@.outgoing_fds.len() == 0),
    {
        self.outgoing.len() == 0 && self.outgoing_fds.len() == 0
    }

    /// Takes in bytes and file descriptors that were received.
    pub fn feed(&mut self, bytes: &[u8], fds: &[i32])
        ensures
            final(self)@ == spec_fed(old(self)@, bytes@, fds@),
    {
        self.incoming.extend_from_slice(bytes);
        self.incoming_fds.extend_from_slice(fds);
        assert(self.incoming@ =~= old(self).incoming@ + bytes@);
        assert(self.incoming_fds@ =~= old(self).incoming_fds@ + fds@);
    }

    /// Decodes the first message of the input and takes it out of the input.
    /// Where the input does not start with a complete message, the error says
    /// why, and the input stays as it is: after `InsufficientData`, more has to
    /// be received first.
    pub fn try_receive_message(&mut self) -> (r: Result<Message, Error>)
        ensures
            received_matches(r, old(self)@),
            final(self)@ == spec_taken(old(self)@),
            r matches Ok(m) ==> m.wf(),
    {
        match Message::decode(self.incoming.as_slice(), self.incoming_fds.as_slice()) {
            Ok((m, bytes, fds)) => {
                let rest: Vec<u8> = self.incoming.split_off(bytes);
                self.incoming = rest;
                let rest_fds: Vec<i32> = self.incoming_fds.split_off(fds);
                self.incoming_fds = rest_fds;
                Ok(m)
            },
            Err(x) => Err(x),
        }
    }
}

} // verus!
