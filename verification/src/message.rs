//! Messages and their wire format.
//!
//! A message is a primary header of twelve bytes, an array of typed header
//! fields, padding up to a multiple of eight, and a body. [`spec_encode`] says
//! which bytes a message is on the wire, [`spec_decode`] which message the start
//! of a byte buffer holds, and [`lemma_decode_encode`] that the second undoes the
//! first.

use crate::error::Error as ConnectionError;
use crate::message_field::{
    encode_fields, fields_are_wf, find_number, find_text, lemma_find_concat, lemma_find_single,
    lemma_parse_fields_bytes,
    lemma_parsed_fields_wf, parse_fields, spec_fd_count, spec_field_views, spec_fields_bytes,
    spec_find_number, spec_find_text, spec_parse_fields, CODE_DESTINATION, CODE_ERROR_NAME,
    CODE_INTERFACE, CODE_MEMBER, CODE_PATH, CODE_REPLY_SERIAL, CODE_SENDER, CODE_SIGNATURE,
    CODE_UNIX_FDS, FieldView, MessageField,
};
use crate::variant::Error;
use crate::wire::{
    all_zero, lemma_holds_index, lemma_holds_split, lemma_text_at_bytes, lemma_u32_at_bytes,
    lemma_u32_bytes_len, read_text, read_u32, spec_all_zero, spec_holds_at, spec_padding,
    spec_text_at, spec_u32_at, spec_u32_bytes, spec_zeros, write_padding_8, write_text, write_u32,
    EndianSig,
};
use vstd::prelude::*;
use vstd::slice::{slice_subrange, slice_to_vec};
use vstd::string::StringExecFns;
use vstd::utf8::*;

verus! {

/// The kind of a message.
#[derive(Debug, Clone, Copy, PartialEq, Eq, Structural)]
pub enum MessageType {
    Invalid,
    MethodCall,
    MethodReturn,
    Error,
    Signal,
}

impl MessageType {
    /// The byte that stands for this kind in the primary header.
    pub open spec fn spec_code(self) -> u8 {
        match self {
            MessageType::Invalid => 0,
            MessageType::MethodCall => 1,
            MessageType::MethodReturn => 2,
            MessageType::Error => 3,
            MessageType::Signal => 4,
        }
    }

    /// The byte that stands for this kind in the primary header.
    pub fn code(self) -> (c: u8)
        ensures
            c == self.spec_code(),
    {
        match self {
            MessageType::Invalid => 0,
            MessageType::MethodCall => 1,
            MessageType::MethodReturn => 2,
            MessageType::Error => 3,
            MessageType::Signal => 4,
        }
    }

    /// The kind that a byte of the primary header stands for, if any.
    pub open spec fn spec_from_code(c: u8) -> Option<MessageType> {
        if c == 0 {
            Some(MessageType::Invalid)
        } else if c == 1 {
            Some(MessageType::MethodCall)
        } else if c == 2 {
            Some(MessageType::MethodReturn)
        } else if c == 3 {
            Some(MessageType::Error)
        } else if c == 4 {
            Some(MessageType::Signal)
        } else {
            None
        }
    }

    /// The kind that a byte of the primary header stands for, if any.
    pub fn from_code(c: u8) -> (r: Option<MessageType>)
        ensures
            r == Self::spec_from_code(c),
    {
        if c == 0 {
            Some(MessageType::Invalid)
        } else if c == 1 {
            Some(MessageType::MethodCall)
        } else if c == 2 {
            Some(MessageType::MethodReturn)
        } else if c == 3 {
            Some(MessageType::Error)
        } else if c == 4 {
            Some(MessageType::Signal)
        } else {
            None
        }
    }
}

/// The flag bits of the primary header.
#[derive(Debug, Clone, Copy, PartialEq, Eq, Structural)]
pub enum MessageFlags {
    /// The sender does not wait for a reply.
    NoReplyExpected,
    /// The bus is not to start a service for this message.
    NoAutoStart,
    /// The caller is prepared to wait for interactive authorization.
    AllowInteractiveAuth,
}

impl MessageFlags {
    /// The bit of the flags byte that this flag occupies.
    pub open spec fn spec_bit(self) -> u8 {
        match self {
            MessageFlags::NoReplyExpected => 1,
            MessageFlags::NoAutoStart => 2,
            MessageFlags::AllowInteractiveAuth => 4,
        }
    }

    /// The bit of the flags byte that this flag occupies.
    pub fn bit(self) -> (b: u8)
        ensures
            b == self.spec_bit(),
    {
        match self {
            MessageFlags::NoReplyExpected => 1,
            MessageFlags::NoAutoStart => 2,
            MessageFlags::AllowInteractiveAuth => 4,
        }
    }
}

/// The version of the protocol that this library speaks.
pub const PROTOCOL_VERSION: u8 = 1;

/// The length of the fixed part of a header: the primary header and the length
/// of the array of fields.
pub const MIN_MESSAGE_SIZE: usize = 16;

/// The serial number that a message carries until a connection assigns one.
pub const UNASSIGNED_SERIAL: u32 = 0xffff_ffff;

/// The fixed first part of a message header.
#[derive(Debug, Clone, Copy, PartialEq, Eq, Structural)]
pub struct MessagePrimaryHeader {
    pub endian_sig: EndianSig,
    pub msg_type: MessageType,
    pub flags: u8,
    pub protocol_version: u8,
    pub body_len: u32,
    pub serial_num: u32,
}

impl MessagePrimaryHeader {
    /// The header of a message of the given kind and body length that no
    /// connection has numbered yet: little-endian, no flags.
    pub fn new(msg_type: MessageType, body_len: u32) -> (h: MessagePrimaryHeader)
        ensures
            h == (MessagePrimaryHeader {
                endian_sig: EndianSig::Little,
                msg_type,
                flags: 0,
                protocol_version: PROTOCOL_VERSION,
                body_len,
                serial_num: UNASSIGNED_SERIAL,
            }),
    {
        MessagePrimaryHeader {
            endian_sig: EndianSig::Little,
            msg_type,
            flags: 0,
            protocol_version: PROTOCOL_VERSION,
            body_len,
            serial_num: UNASSIGNED_SERIAL,
        }
    }

    /// The byte order of the message.
    pub fn endian_sig(&self) -> (r: EndianSig)
        ensures
            r == self.endian_sig,
    {
        self.endian_sig
    }

    /// The kind of the message.
    pub fn msg_type(&self) -> (r: MessageType)
        ensures
            r == self.msg_type,
    {
        self.msg_type
    }

    /// The flag bits.
    pub fn flags(&self) -> (r: u8)
        ensures
            r == self.flags,
    {
        self.flags
    }

    /// Whether the given flag is set.
    pub fn has_flag(&self, flag: MessageFlags) -> (r: bool)
        ensures
            r == (self.flags & flag.spec_bit() != 0),
    {
        self.flags & flag.bit() != 0
    }

    /// Replaces the flag bits.
    pub fn set_flags(&mut self, flags: u8)
        ensures
            *final(self) == (MessagePrimaryHeader { flags, ..*old(self) }),
    {
        self.flags = flags;
    }

    /// The version of the protocol that the sender speaks.
    pub fn protocol_version(&self) -> (r: u8)
        ensures
            r == self.protocol_version,
    {
        self.protocol_version
    }

    /// The length of the body in bytes.
    pub fn body_len(&self) -> (r: u32)
        ensures
            r == self.body_len,
    {
        self.body_len
    }

    /// The serial number that the sender has given the message.
    pub fn serial_num(&self) -> (r: u32)
        ensures
            r == self.serial_num,
    {
        self.serial_num
    }

    /// Replaces the serial number.
    pub fn set_serial_num(&mut self, serial: u32)
        ensures
            *final(self) == (MessagePrimaryHeader { serial_num: serial, ..*old(self) }),
    {
        self.serial_num = serial;
    }
}

/// A message as a mathematical value.
pub struct MessageView {
    pub primary: MessagePrimaryHeader,
    pub fields: Seq<FieldView>,
    pub body: Seq<u8>,
    pub fds: Seq<i32>,
}

impl MessageView {
    /// Whether the message is consistent, so that it can be written: the version
    /// is the one spoken, the serial number is not zero, the body is as long as
    /// the header says, every field can be written, the array of fields is short
    /// enough for its length prefix, and as many file descriptors accompany the
    /// message as the header announces.
    pub open spec fn wf(self) -> bool {
        &&& self.primary.protocol_version == PROTOCOL_VERSION
        &&& self.primary.serial_num != 0
        &&& self.primary.body_len == self.body.len()
        &&& forall|i: int| 0 <= i < self.fields.len() ==> (#[trigger] self.fields[i]).wf()
        &&& spec_fields_bytes(self.fields, 16, self.primary.endian_sig).len() <= u32::MAX
        &&& self.fds.len() == spec_fd_count(self.fields)
    }
}

/// The bytes of a primary header and of the length of the array of fields.
pub open spec fn spec_fixed_bytes(h: MessagePrimaryHeader, fields_len: u32) -> Seq<u8> {
    seq![h.endian_sig.spec_sig(), h.msg_type.spec_code(), h.flags, h.protocol_version]
        + spec_u32_bytes(h.body_len, h.endian_sig) + spec_u32_bytes(h.serial_num, h.endian_sig)
        + spec_u32_bytes(fields_len, h.endian_sig)
}

/// The bytes of a message on the wire.
pub open spec fn spec_encode(m: MessageView) -> Seq<u8> {
    let fields = spec_fields_bytes(m.fields, 16, m.primary.endian_sig);
    spec_fixed_bytes(m.primary, fields.len() as u32) + fields + spec_zeros(
        spec_padding(16 + fields.len() as int, 8),
    ) + m.body
}

/// A message: its header, its body and the file descriptors that travel with it.
#[derive(Debug, Clone, PartialEq)]
pub struct Message {
    primary: MessagePrimaryHeader,
    fields: Vec<MessageField>,
    body: Vec<u8>,
    fds: Vec<i32>,
}

impl View for Message {
    type V = MessageView;

    closed spec fn view(&self) -> MessageView {
        MessageView {
            primary: self.primary,
            fields: spec_field_views(self.fields@),
            body: self.body@,
            fds: self.fds@,
        }
    }
}

/// The first sixteen bytes of a message: its primary header and the length of
/// the array of fields.
pub fn encode_fixed(h: &MessagePrimaryHeader, fields_len: u32) -> (out: Vec<u8>)
    ensures
        out@ == spec_fixed_bytes(*h, fields_len),
        out@.len() == 16,
{
    let e: EndianSig = h.endian_sig;
    let mut out: Vec<u8> = Vec::new();
    out.push(e.sig());
    out.push(h.msg_type.code());
    out.push(h.flags);
    out.push(h.protocol_version);
    assert(out@ =~= seq![e.spec_sig(), h.msg_type.spec_code(), h.flags, h.protocol_version]);
    write_u32(&mut out, h.body_len, e);
    write_u32(&mut out, h.serial_num, e);
    write_u32(&mut out, fields_len, e);
    out
}

impl Message {
    /// Whether the message is consistent, so that it can be written.
    pub open spec fn wf(&self) -> bool {
        self@.wf()
    }

    /// The bytes of the message on the wire.
    pub fn encode(&self) -> (out: Vec<u8>)
        requires
            self.wf(),
        ensures
            out@ == spec_encode(self@),
    {
        let e: EndianSig = self.primary.endian_sig;
        assert forall|i: int| 0 <= i < self.fields@.len() implies (#[trigger] self.fields@[i])@.wf() by {
            assert(self@.fields[i] == self.fields@[i]@);
        }
        let fields: Vec<u8> = encode_fields(&self.fields, e);
        let mut out: Vec<u8> = encode_fixed(&self.primary, fields.len() as u32);
        let ghost fixed = out@;
        out.extend_from_slice(fields.as_slice());
        assert(out@ =~= fixed + fields@);
        write_padding_8(&mut out);
        let ghost mid = out@;
        out.extend_from_slice(self.body.as_slice());
        assert(out@ =~= mid + self.body@);
        out
    }
}

/// What the start of a buffer holds: the first complete message, with the file
/// descriptors that its header announces taken from the front of `fds`, the
/// number of bytes that the message occupies and the number of file descriptors
/// taken.
///
/// A buffer that ends before the message does gives `InsufficientData`; a header
/// that is malformed `IncorrectType`; padding that is not zero `PaddingNot0`; a
/// text that is not UTF-8 `Utf8`; fewer file descriptors than announced
/// `UnknownFd`.
pub open spec fn spec_decode(buf: Seq<u8>, fds: Seq<i32>) -> Result<(MessageView, int, int), Error> {
    if buf.len() < 16 {
        Err(Error::InsufficientData)
    } else {
        match (EndianSig::spec_from_sig(buf[0]), MessageType::spec_from_code(buf[1])) {
            (Some(e), Some(t)) => {
                let body_len = spec_u32_at(buf, 4, e);
                let serial = spec_u32_at(buf, 8, e);
                let header_end = 16 + spec_u32_at(buf, 12, e);
                let body_start = header_end + spec_padding(header_end, 8);
                let total = body_start + body_len;
                if buf[3] != PROTOCOL_VERSION || serial == 0 {
                    Err(Error::IncorrectType)
                } else if buf.len() < total {
                    Err(Error::InsufficientData)
                } else {
                    match spec_parse_fields(buf, 16, header_end, e) {
                        Ok(fields) => if !spec_all_zero(buf, header_end, body_start) {
                            Err(Error::PaddingNot0)
                        } else if fds.len() < spec_fd_count(fields) {
                            Err(Error::UnknownFd)
                        } else {
                            Ok(
                                (
                                    MessageView {
                                        primary: MessagePrimaryHeader {
                                            endian_sig: e,
                                            msg_type: t,
                                            flags: buf[2],
                                            protocol_version: PROTOCOL_VERSION,
                                            body_len,
                                            serial_num: serial,
                                        },
                                        fields,
                                        body: buf.subrange(body_start, total),
                                        fds: fds.subrange(0, spec_fd_count(fields)),
                                    },
                                    total,
                                    spec_fd_count(fields),
                                ),
                            )
                        },
                        Err(x) => Err(x),
                    }
                }
            },
            _ => Err(Error::IncorrectType),
        }
    }
}

/// Whether a message that was decoded, with the two counts, is the one that was
/// to be decoded, or the error the one that was to be reported.
pub open spec fn decode_matches(
    r: Result<(Message, usize, usize), Error>,
    expected: Result<(MessageView, int, int), Error>,
) -> bool {
    match expected {
        Ok((m, bytes, fds)) => r matches Ok((g, b, f)) && g@ == m && b == bytes && f == fds,
        Err(x) => r == Err::<(Message, usize, usize), Error>(x),
    }
}

impl Message {
    /// Decodes the first complete message of `buf`, taking the file descriptors
    /// that its header announces from the front of `fds`. Returns the message,
    /// the number of bytes that it occupies and the number of file descriptors
    /// taken.
    pub fn decode(buf: &[u8], fds: &[i32]) -> (r: Result<(Message, usize, usize), Error>)
        ensures
            decode_matches(r, spec_decode(buf@, fds@)),
            r matches Ok((m, _, _)) ==> m.wf(),
    {
        proof {
            lemma_decoded_wf(buf@, fds@);
        }
        if buf.len() < MIN_MESSAGE_SIZE {
            return Err(Error::InsufficientData);
        }
        let e: EndianSig = match EndianSig::from_sig(buf[0]) {
            Some(e) => e,
            None => {
                return Err(Error::IncorrectType);
            },
        };
        let t: MessageType = match MessageType::from_code(buf[1]) {
            Some(t) => t,
            None => {
                return Err(Error::IncorrectType);
            },
        };
        let body_len: u32 = read_u32(buf, 4, e);
        let serial: u32 = read_u32(buf, 8, e);
        let fields_len: u32 = read_u32(buf, 12, e);
        if buf[3] != PROTOCOL_VERSION || serial == 0 {
            return Err(Error::IncorrectType);
        }
        let header_end_wide: u64 = 16 + fields_len as u64;
        let pad_wide: u64 = (8 - header_end_wide % 8) % 8;
        let total_wide: u64 = header_end_wide + pad_wide + body_len as u64;
        if (buf.len() as u64) < total_wide {
            return Err(Error::InsufficientData);
        }
        let header_end: usize = header_end_wide as usize;
        let body_start: usize = (header_end_wide + pad_wide) as usize;
        let total: usize = total_wide as usize;
        let fields: Vec<MessageField> = match parse_fields(buf, 16, header_end, e) {
            Ok(fields) => fields,
            Err(x) => {
                return Err(x);
            },
        };
        if !all_zero(buf, header_end, body_start) {
            return Err(Error::PaddingNot0);
        }
        let fd_count: usize = match find_number(&fields, CODE_UNIX_FDS) {
            Some(n) => n as usize,
            None => 0,
        };
        if fds.len() < fd_count {
            return Err(Error::UnknownFd);
        }
        let m = Message {
            primary: MessagePrimaryHeader {
                endian_sig: e,
                msg_type: t,
                flags: buf[2],
                protocol_version: PROTOCOL_VERSION,
                body_len,
                serial_num: serial,
            },
            fields,
            body: slice_to_vec(slice_subrange(buf, body_start, total)),
            fds: slice_to_vec(slice_subrange(fds, 0, fd_count)),
        };
        Ok((m, total, fd_count))
    }
}

/// Decoding undoes encoding: a buffer that starts with the bytes of a consistent
/// message decodes to that message, whatever follows these bytes and whatever
/// file descriptors follow those of the message; the number of bytes consumed is
/// the length of the encoding, and the number of file descriptors consumed is
/// the number that the message carries.
pub proof fn lemma_decode_encode(m: MessageView, rest: Seq<u8>, more_fds: Seq<i32>)
    requires
        m.wf(),
    ensures
        spec_decode(spec_encode(m) + rest, m.fds + more_fds) == Ok::<
            (MessageView, int, int),
            Error,
        >((m, spec_encode(m).len() as int, m.fds.len() as int)),
{
    let e = m.primary.endian_sig;
    let h = m.primary;
    let fb = spec_fields_bytes(m.fields, 16, e);
    let fixed = spec_fixed_bytes(h, fb.len() as u32);
    let pad = spec_zeros(spec_padding(16 + fb.len() as int, 8));
    let enc = spec_encode(m);
    let buf = enc + rest;
    let first4 = seq![e.spec_sig(), h.msg_type.spec_code(), h.flags, h.protocol_version];
    let body_len_bytes = spec_u32_bytes(h.body_len, e);
    let serial_bytes = spec_u32_bytes(h.serial_num, e);
    let fields_len_bytes = spec_u32_bytes(fb.len() as u32, e);
    lemma_u32_bytes_len(h.body_len, e);
    lemma_u32_bytes_len(h.serial_num, e);
    lemma_u32_bytes_len(fb.len() as u32, e);
    assert(fixed.len() == 16);
    assert(enc == ((fixed + fb) + pad) + m.body);
    assert(buf.subrange(0, 0 + enc.len() as int) =~= enc);
    assert(spec_holds_at(buf, 0, ((fixed + fb) + pad) + m.body));
    lemma_holds_split(buf, 0, (fixed + fb) + pad, m.body);
    lemma_holds_split(buf, 0, fixed + fb, pad);
    lemma_holds_split(buf, 0, fixed, fb);
    assert(fixed == ((first4 + body_len_bytes) + serial_bytes) + fields_len_bytes);
    lemma_holds_split(buf, 0, (first4 + body_len_bytes) + serial_bytes, fields_len_bytes);
    lemma_holds_split(buf, 0, first4 + body_len_bytes, serial_bytes);
    lemma_holds_split(buf, 0, first4, body_len_bytes);
    lemma_holds_index(buf, 0, first4, 0);
    lemma_holds_index(buf, 0, first4, 1);
    lemma_holds_index(buf, 0, first4, 2);
    lemma_holds_index(buf, 0, first4, 3);
    lemma_u32_at_bytes(buf, 4, h.body_len, e);
    lemma_u32_at_bytes(buf, 8, h.serial_num, e);
    lemma_u32_at_bytes(buf, 12, fb.len() as u32, e);
    let header_end = 16 + fb.len() as int;
    let body_start = header_end + spec_padding(header_end, 8);
    let total = body_start + m.body.len();
    assert(total == enc.len());
    lemma_parse_fields_bytes(buf, 16, header_end, m.fields, e);
    assert(spec_all_zero(buf, header_end, body_start)) by {
        assert forall|i: int| header_end <= i < body_start implies buf[i] == 0u8 by {
            lemma_holds_index(buf, header_end, pad, i - header_end);
        }
    }
    assert(buf.subrange(body_start, total) == m.body);
    assert((m.fds + more_fds).subrange(0, m.fds.len() as int) =~= m.fds);
}

/// A body as the value codec hands it over: the signature of the value, its
/// bytes, and the file descriptors that the bytes refer to.
#[derive(Debug, Clone, PartialEq)]
pub struct Body {
    pub signature: String,
    pub bytes: Vec<u8>,
    pub fds: Vec<i32>,
}

/// A body as a mathematical value.
pub struct BodyView {
    pub signature: Seq<char>,
    pub bytes: Seq<u8>,
    pub fds: Seq<i32>,
}

impl View for Body {
    type V = BodyView;

    open spec fn view(&self) -> BodyView {
        BodyView { signature: self.signature@, bytes: self.bytes@, fds: self.fds@ }
    }
}

impl Body {
    /// The body that holds nothing.
    pub fn empty() -> (b: Body)
        ensures
            b@ == (BodyView { signature: Seq::empty(), bytes: Seq::empty(), fds: Seq::empty() }),
    {
        Body { signature: String::new(), bytes: Vec::new(), fds: Vec::new() }
    }
}

/// The fields that describe a body: its signature, unless that is empty, and
/// the number of its file descriptors, unless there is none.
pub open spec fn spec_body_fields(body: BodyView) -> Seq<FieldView> {
    let sig = if body.signature.len() > 0 {
        seq![FieldView::Signature(body.signature)]
    } else {
        Seq::empty()
    };
    let fds = if body.fds.len() > 0 {
        seq![FieldView::UnixFds(body.fds.len() as u32)]
    } else {
        Seq::empty()
    };
    sig + fds
}

/// The message of the given kind that carries the given fields and body and
/// that no connection has numbered yet.
pub open spec fn spec_new_message(
    msg_type: MessageType,
    fields: Seq<FieldView>,
    body: BodyView,
) -> MessageView {
    MessageView {
        primary: MessagePrimaryHeader {
            endian_sig: EndianSig::Little,
            msg_type,
            flags: 0,
            protocol_version: PROTOCOL_VERSION,
            body_len: body.bytes.len() as u32,
            serial_num: UNASSIGNED_SERIAL,
        },
        fields: fields + spec_body_fields(body),
        body: body.bytes,
        fds: body.fds,
    }
}

/// Whether a message can be built from the given parts: the body and the number
/// of its file descriptors are short enough for their length fields, a body that
/// is not empty has a signature, and the message is consistent.
pub open spec fn spec_can_build(msg_type: MessageType, fields: Seq<FieldView>, body: BodyView) -> bool {
    &&& body.bytes.len() <= u32::MAX
    &&& body.fds.len() <= u32::MAX
    &&& body.bytes.len() > 0 ==> body.signature.len() > 0
    &&& spec_new_message(msg_type, fields, body).wf()
}

/// Whether a message that was built is the one that was to be built, or the
/// attempt was rejected because no such message can be built.
pub open spec fn build_matches(r: Result<Message, ConnectionError>, expected: MessageView, can: bool) -> bool {
    match r {
        Ok(m) => can && m@ == expected && m.wf(),
        Err(x) => !can && x == ConnectionError::InvalidMessage,
    }
}

/// The fields of a method call.
pub open spec fn spec_method_fields(
    sender: Option<Seq<char>>,
    destination: Option<Seq<char>>,
    path: Seq<char>,
    iface: Option<Seq<char>>,
    method_name: Seq<char>,
) -> Seq<FieldView> {
    (match sender {
        Some(s) => seq![FieldView::Sender(s)],
        None => Seq::empty(),
    }) + (match destination {
        Some(s) => seq![FieldView::Destination(s)],
        None => Seq::empty(),
    }) + (match iface {
        Some(s) => seq![FieldView::Interface(s)],
        None => Seq::empty(),
    }) + seq![FieldView::Path(path), FieldView::Member(method_name)]
}

/// The fields of a reply to the message with the given serial number and
/// sender: of an error where a name is given for it, of a return otherwise.
pub open spec fn spec_reply_fields(
    sender: Option<Seq<char>>,
    reply_to: u32,
    call_sender: Option<Seq<char>>,
    error_name: Option<Seq<char>>,
) -> Seq<FieldView> {
    (match sender {
        Some(s) => seq![FieldView::Sender(s)],
        None => Seq::empty(),
    }) + seq![FieldView::ReplySerial(reply_to)] + (match call_sender {
        Some(s) => seq![FieldView::Destination(s)],
        None => Seq::empty(),
    }) + (match error_name {
        Some(s) => seq![FieldView::ErrorName(s)],
        None => Seq::empty(),
    })
}

/// The view of an optional text.
pub open spec fn spec_opt_text(s: Option<&str>) -> Option<Seq<char>> {
    match s {
        Some(t) => Some(t@),
        None => None,
    }
}

/// Appends a field to the fields of a header that is being built.
fn push_field(fields: &mut Vec<MessageField>, f: MessageField)
    ensures
        spec_field_views(final(fields)@) == spec_field_views(old(fields)@) + seq![f@],
{
    fields.push(f);
    assert(spec_field_views(fields@) =~= spec_field_views(old(fields)@) + seq![f@]);
}

impl Message {
    /// Whether the message is consistent.
    pub fn is_wf(&self) -> (r: bool)
        ensures
            r == self.wf(),
    {
        if self.primary.protocol_version != PROTOCOL_VERSION || self.primary.serial_num == 0 {
            return false;
        }
        if self.body.len() > u32::MAX as usize || self.body.len() != self.primary.body_len as usize {
            return false;
        }
        if !fields_are_wf(&self.fields) {
            proof {
                if self.wf() {
                    assert forall|i: int| 0 <= i < self.fields@.len() implies (
                    #[trigger] self.fields@[i])@.wf() by {
                        assert(self@.fields[i] == self.fields@[i]@);
                    }
                }
            }
            return false;
        }
        assert forall|i: int| 0 <= i < self@.fields.len() implies (#[trigger] self@.fields[i]).wf() by {
            assert(self@.fields[i] == self.fields@[i]@);
        }
        let encoded: Vec<u8> = encode_fields(&self.fields, self.primary.endian_sig);
        if encoded.len() > u32::MAX as usize {
            return false;
        }
        let fd_count: usize = match find_number(&self.fields, CODE_UNIX_FDS) {
            Some(n) => n as usize,
            None => 0,
        };
        self.fds.len() == fd_count
    }

    /// Builds the message of the given kind from its fields and its body.
    fn new(msg_type: MessageType, fields: Vec<MessageField>, body: Body) -> (r: Result<
        Message,
        ConnectionError,
    >)
        ensures
            build_matches(
                r,
                spec_new_message(msg_type, spec_field_views(fields@), body@),
                spec_can_build(msg_type, spec_field_views(fields@), body@),
            ),
    {
        let mut fields = fields;
        let ghost given = spec_field_views(fields@);
        if body.bytes.len() > u32::MAX as usize || body.fds.len() > u32::MAX as usize {
            return Err(ConnectionError::InvalidMessage);
        }
        if body.bytes.len() > 0 && body.signature.as_str().as_bytes().len() == 0 {
            assert(body.signature@.len() == 0) by {
                if body.signature@.len() > 0 {
                    encode_utf8_first_scalar(body.signature@);
                }
            }
            return Err(ConnectionError::InvalidMessage);
        }
        let has_signature: bool = body.signature.as_str().as_bytes().len() > 0;
        proof {
            if body.signature@.len() > 0 {
                encode_utf8_first_scalar(body.signature@);
            }
        }
        let Body { signature, bytes, fds } = body;
        if has_signature {
            push_field(&mut fields, MessageField::Signature(signature));
        }
        if fds.len() > 0 {
            push_field(&mut fields, MessageField::UnixFds(fds.len() as u32));
        }
        assert(spec_field_views(fields@) =~= given + spec_body_fields(body@));
        let m = Message {
            primary: MessagePrimaryHeader::new(msg_type, bytes.len() as u32),
            fields,
            body: bytes,
            fds,
        };
        if m.is_wf() {
            Ok(m)
        } else {
            Err(ConnectionError::InvalidMessage)
        }
    }

    /// Builds a method call.
    pub fn method(
        sender: Option<&str>,
        destination: Option<&str>,
        path: &str,
        iface: Option<&str>,
        method_name: &str,
        body: Body,
    ) -> (r: Result<Message, ConnectionError>)
        ensures
            build_matches(
                r,
                spec_new_message(
                    MessageType::MethodCall,
                    spec_method_fields(
                        spec_opt_text(sender),
                        spec_opt_text(destination),
                        path@,
                        spec_opt_text(iface),
                        method_name@,
                    ),
                    body@,
                ),
                spec_can_build(
                    MessageType::MethodCall,
                    spec_method_fields(
                        spec_opt_text(sender),
                        spec_opt_text(destination),
                        path@,
                        spec_opt_text(iface),
                        method_name@,
                    ),
                    body@,
                ),
            ),
    {
        let fields: Vec<MessageField> = Self::call_fields(
            sender,
            destination,
            path,
            iface,
            method_name,
        );
        Self::new(MessageType::MethodCall, fields, body)
    }

    /// Builds a signal.
    pub fn signal(
        sender: Option<&str>,
        destination: Option<&str>,
        path: &str,
        iface: &str,
        signal_name: &str,
        body: Body,
    ) -> (r: Result<Message, ConnectionError>)
        ensures
            build_matches(
                r,
                spec_new_message(
                    MessageType::Signal,
                    spec_method_fields(
                        spec_opt_text(sender),
                        spec_opt_text(destination),
                        path@,
                        Some(iface@),
                        signal_name@,
                    ),
                    body@,
                ),
                spec_can_build(
                    MessageType::Signal,
                    spec_method_fields(
                        spec_opt_text(sender),
                        spec_opt_text(destination),
                        path@,
                        Some(iface@),
                        signal_name@,
                    ),
                    body@,
                ),
            ),
    {
        let fields: Vec<MessageField> = Self::call_fields(
            sender,
            destination,
            path,
            Some(iface),
            signal_name,
        );
        Self::new(MessageType::Signal, fields, body)
    }

    /// The fields of a method call or a signal.
    fn call_fields(
        sender: Option<&str>,
        destination: Option<&str>,
        path: &str,
        iface: Option<&str>,
        member: &str,
    ) -> (fields: Vec<MessageField>)
        ensures
            spec_field_views(fields@) == spec_method_fields(
                spec_opt_text(sender),
                spec_opt_text(destination),
                path@,
                spec_opt_text(iface),
                member@,
            ),
    {
        let mut fields: Vec<MessageField> = Vec::new();
        assert(spec_field_views(fields@) =~= Seq::<FieldView>::empty());
        if let Some(s) = sender {
            push_field(&mut fields, MessageField::Sender(s.to_owned()));
        }
        if let Some(s) = destination {
            push_field(&mut fields, MessageField::Destination(s.to_owned()));
        }
        if let Some(s) = iface {
            push_field(&mut fields, MessageField::Interface(s.to_owned()));
        }
        push_field(&mut fields, MessageField::Path(path.to_owned()));
        push_field(&mut fields, MessageField::Member(member.to_owned()));
        assert(spec_field_views(fields@) =~= spec_method_fields(
            spec_opt_text(sender),
            spec_opt_text(destination),
            path@,
            spec_opt_text(iface),
            member@,
        ));
        fields
    }

    /// The fields of a reply to `call`.
    fn reply_fields(sender: Option<&str>, call: &Message, error_name: Option<&str>) -> (fields: Vec<
        MessageField,
    >)
        ensures
            spec_field_views(fields@) == spec_reply_fields(
                spec_opt_text(sender),
                call@.primary.serial_num,
                spec_find_text(call@.fields, CODE_SENDER),
                spec_opt_text(error_name),
            ),
    {
        let mut fields: Vec<MessageField> = Vec::new();
        assert(spec_field_views(fields@) =~= Seq::<FieldView>::empty());
        if let Some(s) = sender {
            push_field(&mut fields, MessageField::Sender(s.to_owned()));
        }
        push_field(&mut fields, MessageField::ReplySerial(call.primary.serial_num));
        if let Some(s) = find_text(&call.fields, CODE_SENDER) {
            push_field(&mut fields, MessageField::Destination(s.to_owned()));
        }
        if let Some(s) = error_name {
            push_field(&mut fields, MessageField::ErrorName(s.to_owned()));
        }
        assert(spec_field_views(fields@) =~= spec_reply_fields(
            spec_opt_text(sender),
            call@.primary.serial_num,
            spec_find_text(call@.fields, CODE_SENDER),
            spec_opt_text(error_name),
        ));
        fields
    }

    /// Builds the reply to a method call: it names the call's serial number as
    /// the one replied to, and the call's sender as its destination.
    pub fn method_reply(sender: Option<&str>, call: &Message, body: Body) -> (r: Result<
        Message,
        ConnectionError,
    >)
        ensures
            build_matches(
                r,
                spec_new_message(
                    MessageType::MethodReturn,
                    spec_reply_fields(
                        spec_opt_text(sender),
                        call@.primary.serial_num,
                        spec_find_text(call@.fields, CODE_SENDER),
                        None,
                    ),
                    body@,
                ),
                spec_can_build(
                    MessageType::MethodReturn,
                    spec_reply_fields(
                        spec_opt_text(sender),
                        call@.primary.serial_num,
                        spec_find_text(call@.fields, CODE_SENDER),
                        None,
                    ),
                    body@,
                ),
            ),
    {
        let fields: Vec<MessageField> = Self::reply_fields(sender, call, None);
        Self::new(MessageType::MethodReturn, fields, body)
    }

    /// Builds the error reply to a method call.
    pub fn method_error(sender: Option<&str>, call: &Message, error_name: &str, body: Body) -> (r:
        Result<Message, ConnectionError>)
        ensures
            build_matches(
                r,
                spec_new_message(
                    MessageType::Error,
                    spec_reply_fields(
                        spec_opt_text(sender),
                        call@.primary.serial_num,
                        spec_find_text(call@.fields, CODE_SENDER),
                        Some(error_name@),
                    ),
                    body@,
                ),
                spec_can_build(
                    MessageType::Error,
                    spec_reply_fields(
                        spec_opt_text(sender),
                        call@.primary.serial_num,
                        spec_find_text(call@.fields, CODE_SENDER),
                        Some(error_name@),
                    ),
                    body@,
                ),
            ),
    {
        let fields: Vec<MessageField> = Self::reply_fields(sender, call, Some(error_name));
        Self::new(MessageType::Error, fields, body)
    }
}

/// The text that the body starts with, where the signature of the body starts
/// with a string: the description that an error reply carries, or the name that
/// the bus hands out.
pub open spec fn spec_body_text(m: MessageView) -> Option<Seq<char>> {
    match spec_find_text(m.fields, CODE_SIGNATURE) {
        Some(sig) => if sig.len() > 0 && sig[0] == 's' && m.body.len() >= 4 {
            match spec_text_at(
                m.body,
                4,
                spec_u32_at(m.body, 0, m.primary.endian_sig) as int,
                m.body.len() as int,
            ) {
                Ok(s) => Some(s),
                Err(_) => None,
            }
        } else {
            None
        },
        None => None,
    }
}

/// The view of an optional owned text.
pub open spec fn spec_opt_string(s: Option<String>) -> Option<Seq<char>> {
    match s {
        Some(t) => Some(t@),
        None => None,
    }
}

impl Message {
    /// The primary header.
    pub fn primary_header(&self) -> (h: &MessagePrimaryHeader)
        ensures
            *h == self@.primary,
    {
        &self.primary
    }

    /// The kind of the message.
    pub fn message_type(&self) -> (t: MessageType)
        ensures
            t == self@.primary.msg_type,
    {
        self.primary.msg_type
    }

    /// The serial number of the message.
    pub fn serial_num(&self) -> (n: u32)
        ensures
            n == self@.primary.serial_num,
    {
        self.primary.serial_num
    }

    /// Gives the message the serial number `serial`. Zero is no serial number:
    /// it is refused and the message stays as it is.
    pub fn set_serial_num(&mut self, serial: u32) -> (r: Result<(), ConnectionError>)
        requires
            old(self).wf(),
        ensures
            final(self).wf(),
            serial != 0 ==> r is Ok && final(self)@ == (MessageView {
                primary: MessagePrimaryHeader { serial_num: serial, ..old(self)@.primary },
                ..old(self)@
            }),
            serial == 0 ==> r == Err::<(), ConnectionError>(ConnectionError::InvalidMessage)
                && final(self)@ == old(self)@,
    {
        if serial == 0 {
            return Err(ConnectionError::InvalidMessage);
        }
        self.primary.serial_num = serial;
        Ok(())
    }

    /// Replaces the flag bits of the message.
    pub fn set_flags(&mut self, flags: u8)
        requires
            old(self).wf(),
        ensures
            final(self).wf(),
            final(self)@ == (MessageView {
                primary: MessagePrimaryHeader { flags, ..old(self)@.primary },
                ..old(self)@
            }),
    {
        self.primary.flags = flags;
    }

    /// The serial number of the message that this one replies to.
    pub fn reply_serial(&self) -> (r: Option<u32>)
        ensures
            r == spec_find_number(self@.fields, CODE_REPLY_SERIAL),
    {
        find_number(&self.fields, CODE_REPLY_SERIAL)
    }

    /// The text of the first field with the given code.
    pub fn text_field(&self, code: u8) -> (r: Option<&str>)
        ensures
            spec_opt_text(r) == spec_find_text(self@.fields, code),
    {
        find_text(&self.fields, code)
    }

    /// The object path of the message.
    pub fn path(&self) -> (r: Option<&str>)
        ensures
            spec_opt_text(r) == spec_find_text(self@.fields, CODE_PATH),
    {
        find_text(&self.fields, CODE_PATH)
    }

    /// The interface of the message.
    pub fn interface(&self) -> (r: Option<&str>)
        ensures
            spec_opt_text(r) == spec_find_text(self@.fields, CODE_INTERFACE),
    {
        find_text(&self.fields, CODE_INTERFACE)
    }

    /// The name of the method or the signal.
    pub fn member(&self) -> (r: Option<&str>)
        ensures
            spec_opt_text(r) == spec_find_text(self@.fields, CODE_MEMBER),
    {
        find_text(&self.fields, CODE_MEMBER)
    }

    /// The name of the error.
    pub fn error_name(&self) -> (r: Option<&str>)
        ensures
            spec_opt_text(r) == spec_find_text(self@.fields, CODE_ERROR_NAME),
    {
        find_text(&self.fields, CODE_ERROR_NAME)
    }

    /// The name of the connection that the message is meant for.
    pub fn destination(&self) -> (r: Option<&str>)
        ensures
            spec_opt_text(r) == spec_find_text(self@.fields, CODE_DESTINATION),
    {
        find_text(&self.fields, CODE_DESTINATION)
    }

    /// The unique name of the sending connection.
    pub fn sender(&self) -> (r: Option<&str>)
        ensures
            spec_opt_text(r) == spec_find_text(self@.fields, CODE_SENDER),
    {
        find_text(&self.fields, CODE_SENDER)
    }

    /// The signature of the body.
    pub fn body_signature(&self) -> (r: Option<&str>)
        ensures
            spec_opt_text(r) == spec_find_text(self@.fields, CODE_SIGNATURE),
    {
        find_text(&self.fields, CODE_SIGNATURE)
    }

    /// The header fields, in the order in which they stand in the header.
    pub fn fields(&self) -> (r: &Vec<MessageField>)
        ensures
            spec_field_views(r@) == self@.fields,
    {
        &self.fields
    }

    /// The bytes of the body.
    pub fn body(&self) -> (r: &Vec<u8>)
        ensures
            r@ == self@.body,
    {
        &self.body
    }

    /// The file descriptors that travel with the message.
    pub fn fds(&self) -> (r: &Vec<i32>)
        ensures
            r@ == self@.fds,
    {
        &self.fds
    }

    /// The text that the body starts with, where its signature starts with a
    /// string.
    pub fn body_text(&self) -> (r: Option<String>)
        ensures
            spec_opt_string(r) == spec_body_text(self@),
    {
        let sig: &str = match find_text(&self.fields, CODE_SIGNATURE) {
            Some(sig) => sig,
            None => {
                return None;
            },
        };
        if sig.unicode_len() == 0 || sig.get_char(0) != 's' || self.body.len() < 4 {
            return None;
        }
        let body: &[u8] = self.body.as_slice();
        let len: usize = read_u32(body, 0, self.primary.endian_sig) as usize;
        match read_text(body, 4, len, body.len()) {
            Ok(s) => Some(s),
            Err(_) => None,
        }
    }
}

/// The body that holds one text: its signature is a single string, its bytes
/// are the length of the text, the text and a zero byte.
pub open spec fn spec_text_body(s: Seq<char>) -> BodyView {
    BodyView {
        signature: "s"@,
        bytes: spec_u32_bytes(encode_utf8(s).len() as u32, EndianSig::Little) + encode_utf8(s)
            + seq![0u8],
        fds: Seq::empty(),
    }
}

impl Body {
    /// The body that holds the text `s`, for a message in little-endian byte
    /// order; none where the text is too long for its length prefix.
    pub fn text(s: &str) -> (r: Option<Body>)
        ensures
            r is Some <==> encode_utf8(s@).len() <= u32::MAX,
            r matches Some(b) ==> b@ == spec_text_body(s@),
    {
        if s.as_bytes().len() > u32::MAX as usize {
            return None;
        }
        let mut bytes: Vec<u8> = Vec::new();
        write_u32(&mut bytes, s.as_bytes().len() as u32, EndianSig::Little);
        write_text(&mut bytes, s);
        assert(bytes@ =~= spec_u32_bytes(encode_utf8(s@).len() as u32, EndianSig::Little)
            + encode_utf8(s@) + seq![0u8]);
        Some(Body { signature: "s".to_owned(), bytes, fds: Vec::new() })
    }
}

/// The text of a body that holds one text is the text that the body of a
/// little-endian message starts with.
pub proof fn lemma_body_text(m: MessageView, s: Seq<char>)
    requires
        m.primary.endian_sig == EndianSig::Little,
        spec_find_text(m.fields, CODE_SIGNATURE) == Some("s"@),
        m.body == spec_text_body(s).bytes,
        encode_utf8(s).len() <= u32::MAX,
    ensures
        spec_body_text(m) == Some(s),
{
    reveal_strlit("s");
    let t = encode_utf8(s);
    let l = spec_u32_bytes(t.len() as u32, EndianSig::Little);
    lemma_u32_bytes_len(t.len() as u32, EndianSig::Little);
    assert(m.body == l + (t + seq![0u8]));
    assert(m.body.subrange(0, 0 + m.body.len() as int) == m.body);
    lemma_holds_split(m.body, 0, l, t + seq![0u8]);
    lemma_u32_at_bytes(m.body, 0, t.len() as u32, EndianSig::Little);
    lemma_text_at_bytes(m.body, 4, s, m.body.len() as int);
}

/// The words that describe a message of the given kind.
pub open spec fn spec_kind_words(t: MessageType) -> Seq<char> {
    match t {
        MessageType::MethodCall => "Method call"@,
        MessageType::MethodReturn => "Method return"@,
        MessageType::Error => "Error"@,
        MessageType::Signal => "Signal"@,
        MessageType::Invalid => "Unknown message"@,
    }
}

/// A space and the text, or nothing where there is no text.
pub open spec fn spec_after(lead: Seq<char>, s: Option<Seq<char>>) -> Seq<char> {
    match s {
        Some(t) => lead + t,
        None => Seq::empty(),
    }
}

/// The description of a message for people to read: the kind of the message;
/// the member of a call or a signal; the name of an error and, after a colon,
/// the text of its body; and the sender after the word `from`.
pub open spec fn spec_description(m: MessageView) -> Seq<char> {
    spec_kind_words(m.primary.msg_type) + (match m.primary.msg_type {
        MessageType::MethodCall => spec_after(" "@, spec_find_text(m.fields, CODE_MEMBER)),
        MessageType::Signal => spec_after(" "@, spec_find_text(m.fields, CODE_MEMBER)),
        MessageType::Error => spec_after(" "@, spec_find_text(m.fields, CODE_ERROR_NAME))
            + spec_after(": "@, spec_body_text(m)),
        _ => Seq::empty(),
    }) + spec_after(" from "@, spec_find_text(m.fields, CODE_SENDER))
}

/// Appends the lead and the text, where there is a text.
fn append_after(out: &mut String, lead: &str, s: Option<&str>)
    ensures
        final(out)@ == old(out)@ + spec_after(lead@, spec_opt_text(s)),
{
    match s {
        Some(t) => {
            out.append(lead);
            out.append(t);
            assert(out@ =~= old(out)@ + (lead@ + t@));
        },
        None => {
            assert(out@ =~= old(out)@ + Seq::<char>::empty());
        },
    }
}

impl Message {
    /// The description of the message for people to read.
    pub fn description(&self) -> (s: String)
        ensures
            s@ == spec_description(self@),
    {
        let mut s: String = match self.primary.msg_type {
            MessageType::MethodCall => "Method call".to_owned(),
            MessageType::MethodReturn => "Method return".to_owned(),
            MessageType::Error => "Error".to_owned(),
            MessageType::Signal => "Signal".to_owned(),
            MessageType::Invalid => "Unknown message".to_owned(),
        };
        let ghost kind = s@;
        match self.primary.msg_type {
            MessageType::MethodCall => append_after(&mut s, " ", self.member()),
            MessageType::Signal => append_after(&mut s, " ", self.member()),
            MessageType::Error => {
                append_after(&mut s, " ", self.error_name());
                let text: Option<String> = self.body_text();
                match &text {
                    Some(t) => append_after(&mut s, ": ", Some(t.as_str())),
                    None => append_after(&mut s, ": ", None),
                }
                assert(s@ =~= kind + (spec_after(" "@, spec_find_text(self@.fields, CODE_ERROR_NAME))
                    + spec_after(": "@, spec_body_text(self@))));
            },
            _ => {
                assert(s@ =~= kind + Seq::<char>::empty());
            },
        }
        append_after(&mut s, " from ", self.sender());
        s
    }
}

/// A message that was decoded is consistent.
pub proof fn lemma_decoded_wf(buf: Seq<u8>, fds: Seq<i32>)
    ensures
        spec_decode(buf, fds) matches Ok((m, _, _)) ==> m.wf(),
{
    match spec_decode(buf, fds) {
        Ok((m, _, _)) => {
            let e = m.primary.endian_sig;
            let header_end = 16 + spec_u32_at(buf, 12, e);
            lemma_parsed_fields_wf(buf, 16, header_end, e);
        },
        Err(_) => {},
    }
}

/// Whether the header names what a message of its kind has to name: a method
/// call its path and its member; a signal its path, its interface and its
/// member; an error its name and the serial number that it replies to; a return
/// message the serial number that it replies to.
pub open spec fn spec_has_required_fields(m: MessageView) -> bool {
    match m.primary.msg_type {
        MessageType::MethodCall => spec_find_text(m.fields, CODE_PATH) is Some && spec_find_text(
            m.fields,
            CODE_MEMBER,
        ) is Some,
        MessageType::Signal => spec_find_text(m.fields, CODE_PATH) is Some && spec_find_text(
            m.fields,
            CODE_INTERFACE,
        ) is Some && spec_find_text(m.fields, CODE_MEMBER) is Some,
        MessageType::Error => spec_find_text(m.fields, CODE_ERROR_NAME) is Some
            && spec_find_number(m.fields, CODE_REPLY_SERIAL) is Some,
        MessageType::MethodReturn => spec_find_number(m.fields, CODE_REPLY_SERIAL) is Some,
        MessageType::Invalid => true,
    }
}

impl Message {
    /// Whether the header names what a message of its kind has to name.
    pub fn has_required_fields(&self) -> (r: bool)
        ensures
            r == spec_has_required_fields(self@),
    {
        match self.primary.msg_type {
            MessageType::MethodCall => self.path().is_some() && self.member().is_some(),
            MessageType::Signal => self.path().is_some() && self.interface().is_some()
                && self.member().is_some(),
            MessageType::Error => self.error_name().is_some() && self.reply_serial().is_some(),
            MessageType::MethodReturn => self.reply_serial().is_some(),
            MessageType::Invalid => true,
        }
    }
}

/// Among the fields of a call or a signal, the path and the member are found,
/// and the interface where one is given.
pub proof fn lemma_method_fields(
    sender: Option<Seq<char>>,
    destination: Option<Seq<char>>,
    path: Seq<char>,
    iface: Option<Seq<char>>,
    member: Seq<char>,
    more: Seq<FieldView>,
)
    ensures
        spec_find_text(
            spec_method_fields(sender, destination, path, iface, member) + more,
            CODE_PATH,
        ) == Some(path),
        spec_find_text(
            spec_method_fields(sender, destination, path, iface, member) + more,
            CODE_MEMBER,
        ) == Some(member),
        iface is Some ==> spec_find_text(
            spec_method_fields(sender, destination, path, iface, member) + more,
            CODE_INTERFACE,
        ) == iface,
{
    let s = match sender {
        Some(s) => seq![FieldView::Sender(s)],
        None => Seq::empty(),
    };
    let d = match destination {
        Some(s) => seq![FieldView::Destination(s)],
        None => Seq::empty(),
    };
    let i = match iface {
        Some(s) => seq![FieldView::Interface(s)],
        None => Seq::empty(),
    };
    let p = seq![FieldView::Path(path)];
    let m = seq![FieldView::Member(member)];
    let all = spec_method_fields(sender, destination, path, iface, member) + more;
    assert(seq![FieldView::Path(path), FieldView::Member(member)] == p + m);
    assert(all == s + (d + (i + (p + (m + more)))));
    assert forall|code: u8| code == CODE_PATH || code == CODE_MEMBER || code == CODE_INTERFACE implies {
        &&& spec_find_text(s, code) is None
        &&& spec_find_text(d, code) is None
        &&& code != CODE_INTERFACE ==> spec_find_text(i, code) is None
        &&& spec_find_text(i, CODE_INTERFACE) == iface
        &&& spec_find_text(p, code) == if code == CODE_PATH {
            Some(path)
        } else {
            None
        }
        &&& spec_find_text(m, CODE_MEMBER) == Some(member)
    } by {
        if let Some(x) = sender {
            lemma_find_single(FieldView::Sender(x), code);
        }
        if let Some(x) = destination {
            lemma_find_single(FieldView::Destination(x), code);
        }
        if let Some(x) = iface {
            lemma_find_single(FieldView::Interface(x), code);
            lemma_find_single(FieldView::Interface(x), CODE_INTERFACE);
        }
        lemma_find_single(FieldView::Path(path), code);
        lemma_find_single(FieldView::Member(member), CODE_MEMBER);
    }
    assert forall|code: u8| true implies {
        &&& #[trigger] spec_find_text(all, code) == match spec_find_text(s, code) {
            Some(x) => Some(x),
            None => match spec_find_text(d, code) {
                Some(x) => Some(x),
                None => match spec_find_text(i, code) {
                    Some(x) => Some(x),
                    None => match spec_find_text(p, code) {
                        Some(x) => Some(x),
                        None => spec_find_text(m + more, code),
                    },
                },
            },
        }
        &&& spec_find_text(m + more, code) == match spec_find_text(m, code) {
            Some(x) => Some(x),
            None => spec_find_text(more, code),
        }
    } by {
        lemma_find_concat(s, d + (i + (p + (m + more))), code);
        lemma_find_concat(d, i + (p + (m + more)), code);
        lemma_find_concat(i, p + (m + more), code);
        lemma_find_concat(p, m + more, code);
        lemma_find_concat(m, more, code);
    }
}

/// Among the fields of a reply, the serial number replied to is found, and the
/// name of the error where one is given.
pub proof fn lemma_reply_fields(
    sender: Option<Seq<char>>,
    reply_to: u32,
    call_sender: Option<Seq<char>>,
    error_name: Option<Seq<char>>,
    more: Seq<FieldView>,
)
    ensures
        spec_find_number(
            spec_reply_fields(sender, reply_to, call_sender, error_name) + more,
            CODE_REPLY_SERIAL,
        ) == Some(reply_to),
        error_name is Some ==> spec_find_text(
            spec_reply_fields(sender, reply_to, call_sender, error_name) + more,
            CODE_ERROR_NAME,
        ) == error_name,
{
    let s = match sender {
        Some(s) => seq![FieldView::Sender(s)],
        None => Seq::empty(),
    };
    let r = seq![FieldView::ReplySerial(reply_to)];
    let d = match call_sender {
        Some(s) => seq![FieldView::Destination(s)],
        None => Seq::empty(),
    };
    let e = match error_name {
        Some(s) => seq![FieldView::ErrorName(s)],
        None => Seq::empty(),
    };
    let all = spec_reply_fields(sender, reply_to, call_sender, error_name) + more;
    assert(all == s + (r + (d + (e + more))));
    if let Some(x) = sender {
        lemma_find_single(FieldView::Sender(x), CODE_REPLY_SERIAL);
        lemma_find_single(FieldView::Sender(x), CODE_ERROR_NAME);
    }
    if let Some(x) = call_sender {
        lemma_find_single(FieldView::Destination(x), CODE_ERROR_NAME);
    }
    if let Some(x) = error_name {
        lemma_find_single(FieldView::ErrorName(x), CODE_ERROR_NAME);
    }
    lemma_find_single(FieldView::ReplySerial(reply_to), CODE_REPLY_SERIAL);
    lemma_find_single(FieldView::ReplySerial(reply_to), CODE_ERROR_NAME);
    lemma_find_concat(s, r + (d + (e + more)), CODE_REPLY_SERIAL);
    lemma_find_concat(r, d + (e + more), CODE_REPLY_SERIAL);
    lemma_find_concat(s, r + (d + (e + more)), CODE_ERROR_NAME);
    lemma_find_concat(r, d + (e + more), CODE_ERROR_NAME);
    lemma_find_concat(d, e + more, CODE_ERROR_NAME);
    lemma_find_concat(e, more, CODE_ERROR_NAME);
}

/// The messages that are built name what a message of their kind has to name.
pub proof fn lemma_built_has_required_fields(
    sender: Option<Seq<char>>,
    destination: Option<Seq<char>>,
    path: Seq<char>,
    iface: Option<Seq<char>>,
    member: Seq<char>,
    reply_to: u32,
    call_sender: Option<Seq<char>>,
    error_name: Seq<char>,
    body: BodyView,
)
    ensures
        spec_has_required_fields(
            spec_new_message(
                MessageType::MethodCall,
                spec_method_fields(sender, destination, path, iface, member),
                body,
            ),
        ),
        iface is Some ==> spec_has_required_fields(
            spec_new_message(
                MessageType::Signal,
                spec_method_fields(sender, destination, path, iface, member),
                body,
            ),
        ),
        spec_has_required_fields(
            spec_new_message(
                MessageType::MethodReturn,
                spec_reply_fields(sender, reply_to, call_sender, None),
                body,
            ),
        ),
        spec_has_required_fields(
            spec_new_message(
                MessageType::Error,
                spec_reply_fields(sender, reply_to, call_sender, Some(error_name)),
                body,
            ),
        ),
{
    lemma_method_fields(sender, destination, path, iface, member, spec_body_fields(body));
    lemma_reply_fields(sender, reply_to, call_sender, None, spec_body_fields(body));
    lemma_reply_fields(sender, reply_to, call_sender, Some(error_name), spec_body_fields(body));
}

} // verus!
