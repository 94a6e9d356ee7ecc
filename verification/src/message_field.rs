//! The fields of a message header and their wire format.
//!
//! A header carries an array of fields, each at an offset that is a multiple
//! of eight: a code, the signature of the value and the value.
//! [`spec_fields_bytes`] says which bytes an array of fields is on the wire,
//! [`spec_parse_fields`] which fields a range of a byte buffer holds.

use crate::variant::Error;
use crate::wire::{
    all_zero, lemma_holds_index, lemma_holds_split, lemma_text_at_bytes, lemma_u32_at_bytes,
    lemma_u32_bytes_len, padding_for_8_bytes, read_text, read_u32, spec_all_zero, spec_holds_at,
    spec_padding, spec_text_at, spec_u32_at, spec_u32_bytes, spec_zeros, write_padding_8,
    write_text, write_u32, EndianSig,
};
use vstd::prelude::*;
use vstd::slice::slice_subrange;
use vstd::utf8::*;

verus! {

/// A header field.
#[derive(Debug, Clone, PartialEq)]
pub enum MessageField {
    /// The object that a call is sent to or a signal comes from.
    Path(String),
    /// The interface of a call or a signal.
    Interface(String),
    /// The name of the method or the signal.
    Member(String),
    /// The name of the error that occurred.
    ErrorName(String),
    /// The serial number of the message that this one replies to.
    ReplySerial(u32),
    /// The name of the connection that the message is meant for.
    Destination(String),
    /// The unique name of the sending connection.
    Sender(String),
    /// The signature of the body.
    Signature(String),
    /// The number of file descriptors that accompany the message.
    UnixFds(u32),
}

/// A header field as a mathematical value.
pub enum FieldView {
    Path(Seq<char>),
    Interface(Seq<char>),
    Member(Seq<char>),
    ErrorName(Seq<char>),
    ReplySerial(u32),
    Destination(Seq<char>),
    Sender(Seq<char>),
    Signature(Seq<char>),
    UnixFds(u32),
}

/// The codes that name the fields on the wire.
pub const CODE_PATH: u8 = 1;

pub const CODE_INTERFACE: u8 = 2;

pub const CODE_MEMBER: u8 = 3;

pub const CODE_ERROR_NAME: u8 = 4;

pub const CODE_REPLY_SERIAL: u8 = 5;

pub const CODE_DESTINATION: u8 = 6;

pub const CODE_SENDER: u8 = 7;

pub const CODE_SIGNATURE: u8 = 8;

pub const CODE_UNIX_FDS: u8 = 9;

/// The type character of an object path, `o`.
pub const TYPE_OBJECT_PATH: u8 = 0x6f;

/// The type character of a string, `s`.
pub const TYPE_STRING: u8 = 0x73;

/// The type character of an unsigned 32-bit integer, `u`.
pub const TYPE_UINT32: u8 = 0x75;

/// The type character of a signature, `g`.
pub const TYPE_SIGNATURE: u8 = 0x67;

/// The type of the value that the field with the given code carries.
pub open spec fn spec_type_of_code(code: u8) -> u8 {
    if code == CODE_PATH {
        TYPE_OBJECT_PATH
    } else if code == CODE_REPLY_SERIAL || code == CODE_UNIX_FDS {
        TYPE_UINT32
    } else if code == CODE_SIGNATURE {
        TYPE_SIGNATURE
    } else {
        TYPE_STRING
    }
}

/// The type of the value that the field with the given code carries.
pub fn type_of_code(code: u8) -> (t: u8)
    ensures
        t == spec_type_of_code(code),
{
    if code == CODE_PATH {
        TYPE_OBJECT_PATH
    } else if code == CODE_REPLY_SERIAL || code == CODE_UNIX_FDS {
        TYPE_UINT32
    } else if code == CODE_SIGNATURE {
        TYPE_SIGNATURE
    } else {
        TYPE_STRING
    }
}

/// Whether a byte may stand in an element of an object path.
pub open spec fn spec_path_char(b: u8) -> bool {
    (0x41 <= b <= 0x5a) || (0x61 <= b <= 0x7a) || (0x30 <= b <= 0x39) || b == 0x5f
}

/// Whether the bytes spell an object path: a single `/`, or one or more elements
/// of letters, digits and `_`, each preceded by a `/`.
pub open spec fn spec_valid_path(p: Seq<u8>) -> bool {
    &&& p.len() >= 1
    &&& p[0] == 0x2fu8
    &&& p.len() > 1 ==> p[p.len() - 1] != 0x2fu8
    &&& forall|i: int| 0 <= i < p.len() ==> spec_path_char(#[trigger] p[i]) || p[i] == 0x2fu8
    &&& forall|i: int| 0 < i < p.len() ==> !(#[trigger] p[i] == 0x2fu8 && p[i - 1] == 0x2fu8)
}

/// Whether the bytes spell an object path.
pub fn is_valid_path(p: &[u8]) -> (r: bool)
    ensures
        r == spec_valid_path(p@),
{
    let n: usize = p.len();
    if n == 0 {
        return false;
    }
    if p[0] != 0x2f {
        return false;
    }
    if n > 1 && p[n - 1] == 0x2f {
        return false;
    }
    let mut i: usize = 1;
    while i < n
        invariant
            1 <= i <= n,
            n == p@.len(),
            p@[0] == 0x2fu8,
            forall|j: int| 0 <= j < i ==> spec_path_char(#[trigger] p@[j]) || p@[j] == 0x2fu8,
            forall|j: int| 0 < j < i ==> !(#[trigger] p@[j] == 0x2fu8 && p@[j - 1] == 0x2fu8),
        decreases n - i,
    {
        let b: u8 = p[i];
        if b == 0x2f {
            if p[i - 1] == 0x2f {
                return false;
            }
        } else if !((0x41 <= b && b <= 0x5a) || (0x61 <= b && b <= 0x7a) || (0x30 <= b && b
            <= 0x39) || b == 0x5f) {
            assert(!(spec_path_char(p@[i as int]) || p@[i as int] == 0x2fu8));
            return false;
        }
        i = i + 1;
    }
    true
}

impl FieldView {
    /// The code that names the field on the wire.
    pub open spec fn code(self) -> u8 {
        match self {
            FieldView::Path(_) => CODE_PATH,
            FieldView::Interface(_) => CODE_INTERFACE,
            FieldView::Member(_) => CODE_MEMBER,
            FieldView::ErrorName(_) => CODE_ERROR_NAME,
            FieldView::ReplySerial(_) => CODE_REPLY_SERIAL,
            FieldView::Destination(_) => CODE_DESTINATION,
            FieldView::Sender(_) => CODE_SENDER,
            FieldView::Signature(_) => CODE_SIGNATURE,
            FieldView::UnixFds(_) => CODE_UNIX_FDS,
        }
    }

    /// The text that the field carries, if it carries one.
    pub open spec fn text(self) -> Option<Seq<char>> {
        match self {
            FieldView::Path(s) => Some(s),
            FieldView::Interface(s) => Some(s),
            FieldView::Member(s) => Some(s),
            FieldView::ErrorName(s) => Some(s),
            FieldView::Destination(s) => Some(s),
            FieldView::Sender(s) => Some(s),
            FieldView::Signature(s) => Some(s),
            _ => None,
        }
    }

    /// The number that the field carries, if it carries one.
    pub open spec fn number(self) -> Option<u32> {
        match self {
            FieldView::ReplySerial(n) => Some(n),
            FieldView::UnixFds(n) => Some(n),
            _ => None,
        }
    }

    /// The field with the given code that carries the given text.
    pub open spec fn of_text(code: u8, s: Seq<char>) -> FieldView {
        if code == CODE_PATH {
            FieldView::Path(s)
        } else if code == CODE_INTERFACE {
            FieldView::Interface(s)
        } else if code == CODE_MEMBER {
            FieldView::Member(s)
        } else if code == CODE_ERROR_NAME {
            FieldView::ErrorName(s)
        } else if code == CODE_DESTINATION {
            FieldView::Destination(s)
        } else if code == CODE_SENDER {
            FieldView::Sender(s)
        } else {
            FieldView::Signature(s)
        }
    }

    /// The field with the given code that carries the given number.
    pub open spec fn of_number(code: u8, n: u32) -> FieldView {
        if code == CODE_REPLY_SERIAL {
            FieldView::ReplySerial(n)
        } else {
            FieldView::UnixFds(n)
        }
    }

    /// Whether the field can be written: its text is short enough for its length
    /// prefix, and a path is spelled as one.
    pub open spec fn wf(self) -> bool {
        match self {
            FieldView::Path(s) => encode_utf8(s).len() <= u32::MAX && spec_valid_path(
                encode_utf8(s),
            ),
            FieldView::Signature(s) => encode_utf8(s).len() <= u8::MAX,
            FieldView::ReplySerial(_) => true,
            FieldView::UnixFds(_) => true,
            _ => encode_utf8(self.text().unwrap()).len() <= u32::MAX,
        }
    }

    /// The bytes of the field's value in the byte order `e`.
    pub open spec fn value_bytes(self, e: EndianSig) -> Seq<u8> {
        match self {
            FieldView::ReplySerial(n) => spec_u32_bytes(n, e),
            FieldView::UnixFds(n) => spec_u32_bytes(n, e),
            FieldView::Signature(s) => seq![encode_utf8(s).len() as u8] + encode_utf8(s)
                + seq![0u8],
            _ => {
                let t = encode_utf8(self.text().unwrap());
                spec_u32_bytes(t.len() as u32, e) + t + seq![0u8]
            },
        }
    }

    /// The bytes of the field when it is written at offset `pos` of a message:
    /// padding up to a multiple of eight, the code, the signature of the value
    /// and the value.
    pub open spec fn bytes_at(self, pos: int, e: EndianSig) -> Seq<u8> {
        spec_zeros(spec_padding(pos, 8)) + seq![
            self.code(),
            1u8,
            spec_type_of_code(self.code()),
            0u8,
        ] + self.value_bytes(e)
    }
}

impl View for MessageField {
    type V = FieldView;

    open spec fn view(&self) -> FieldView {
        match self {
            MessageField::Path(s) => FieldView::Path(s@),
            MessageField::Interface(s) => FieldView::Interface(s@),
            MessageField::Member(s) => FieldView::Member(s@),
            MessageField::ErrorName(s) => FieldView::ErrorName(s@),
            MessageField::ReplySerial(n) => FieldView::ReplySerial(*n),
            MessageField::Destination(s) => FieldView::Destination(s@),
            MessageField::Sender(s) => FieldView::Sender(s@),
            MessageField::Signature(s) => FieldView::Signature(s@),
            MessageField::UnixFds(n) => FieldView::UnixFds(*n),
        }
    }
}

/// The bytes of a sequence of fields written one after the other from offset
/// `pos` of a message on.
pub open spec fn spec_fields_bytes(fields: Seq<FieldView>, pos: int, e: EndianSig) -> Seq<u8>
    decreases fields.len(),
{
    if fields.len() == 0 {
        Seq::empty()
    } else {
        let first = fields[0].bytes_at(pos, e);
        first + spec_fields_bytes(fields.drop_first(), pos + first.len(), e)
    }
}

/// The number that the first field with the given code carries.
pub open spec fn spec_find_number(fields: Seq<FieldView>, code: u8) -> Option<u32>
    decreases fields.len(),
{
    if fields.len() == 0 {
        None
    } else if fields[0].code() == code && fields[0].number() is Some {
        fields[0].number()
    } else {
        spec_find_number(fields.drop_first(), code)
    }
}

/// The text that the first field with the given code carries.
pub open spec fn spec_find_text(fields: Seq<FieldView>, code: u8) -> Option<Seq<char>>
    decreases fields.len(),
{
    if fields.len() == 0 {
        None
    } else if fields[0].code() == code && fields[0].text() is Some {
        fields[0].text()
    } else {
        spec_find_text(fields.drop_first(), code)
    }
}

/// The number of file descriptors that a header with these fields announces.
pub open spec fn spec_fd_count(fields: Seq<FieldView>) -> int {
    match spec_find_number(fields, CODE_UNIX_FDS) {
        Some(n) => n as int,
        None => 0,
    }
}

/// The fields of a header as mathematical values.
pub open spec fn spec_field_views(fields: Seq<MessageField>) -> Seq<FieldView> {
    Seq::new(fields.len(), |i: int| fields[i]@)
}

/// Writing one more field after a sequence of fields appends its bytes at the
/// offset that the sequence ends at.
pub proof fn lemma_fields_bytes_push(fields: Seq<FieldView>, f: FieldView, pos: int, e: EndianSig)
    ensures
        spec_fields_bytes(fields.push(f), pos, e) == spec_fields_bytes(fields, pos, e)
            + f.bytes_at(pos + spec_fields_bytes(fields, pos, e).len(), e),
    decreases fields.len(),
{
    if fields.len() == 0 {
        assert(fields.push(f).drop_first() == Seq::<FieldView>::empty());
        assert(spec_fields_bytes(Seq::<FieldView>::empty(), pos + f.bytes_at(pos, e).len(), e)
            == Seq::<u8>::empty());
        assert(spec_fields_bytes(fields.push(f), pos, e) == f.bytes_at(pos, e)
            + Seq::<u8>::empty());
    } else {
        let first = fields[0].bytes_at(pos, e);
        assert(fields.push(f).drop_first() == fields.drop_first().push(f));
        assert(fields.push(f)[0] == fields[0]);
        lemma_fields_bytes_push(fields.drop_first(), f, pos + first.len(), e);
        let rest = spec_fields_bytes(fields.drop_first(), pos + first.len(), e);
        assert(first + (rest + f.bytes_at(pos + first.len() + rest.len(), e)) == (first + rest)
            + f.bytes_at(pos + first.len() + rest.len(), e));
    }
}

/// Padding to a multiple of eight does not depend on whole header blocks that
/// precede the offset.
pub proof fn lemma_padding_shift(n: int)
    requires
        0 <= n,
    ensures
        spec_padding(16 + n, 8) == spec_padding(n, 8),
{
}

/// Appends the code of a field and the signature of its value.
fn write_field_head(out: &mut Vec<u8>, code: u8)
    ensures
        final(out)@ == old(out)@ + seq![code, 1u8, spec_type_of_code(code), 0u8],
{
    out.push(code);
    out.push(1u8);
    out.push(type_of_code(code));
    out.push(0u8);
    assert(out@ =~= old(out)@ + seq![code, 1u8, spec_type_of_code(code), 0u8]);
}

/// Appends a field that carries a text with a length prefix of four bytes.
fn write_text_field(out: &mut Vec<u8>, code: u8, s: &str, e: EndianSig)
    requires
        encode_utf8(s@).len() <= u32::MAX,
    ensures
        final(out)@ == old(out)@ + seq![code, 1u8, spec_type_of_code(code), 0u8] + (spec_u32_bytes(
            encode_utf8(s@).len() as u32,
            e,
        ) + encode_utf8(s@) + seq![0u8]),
{
    write_field_head(out, code);
    let ghost mid = out@;
    write_u32(out, s.as_bytes().len() as u32, e);
    write_text(out, s);
    assert(out@ =~= mid + (spec_u32_bytes(encode_utf8(s@).len() as u32, e) + encode_utf8(s@)
        + seq![0u8]));
}

/// Appends a field that carries a signature, with a length prefix of one byte.
fn write_signature_field(out: &mut Vec<u8>, s: &str)
    requires
        encode_utf8(s@).len() <= u8::MAX,
    ensures
        final(out)@ == old(out)@ + seq![
            CODE_SIGNATURE,
            1u8,
            spec_type_of_code(CODE_SIGNATURE),
            0u8,
        ] + (seq![encode_utf8(s@).len() as u8] + encode_utf8(s@) + seq![0u8]),
{
    write_field_head(out, CODE_SIGNATURE);
    let ghost mid = out@;
    out.push(s.as_bytes().len() as u8);
    write_text(out, s);
    assert(out@ =~= mid + (seq![encode_utf8(s@).len() as u8] + encode_utf8(s@) + seq![0u8]));
}

/// Appends a field that carries a number.
fn write_number_field(out: &mut Vec<u8>, code: u8, n: u32, e: EndianSig)
    ensures
        final(out)@ == old(out)@ + seq![code, 1u8, spec_type_of_code(code), 0u8] + spec_u32_bytes(
            n,
            e,
        ),
{
    write_field_head(out, code);
    write_u32(out, n, e);
}

/// Appends a field to the bytes of the fields before it; `out` holds what
/// follows the first sixteen bytes of the message.
pub fn write_field(out: &mut Vec<u8>, f: &MessageField, e: EndianSig)
    requires
        f@.wf(),
    ensures
        final(out)@ == old(out)@ + f@.bytes_at(16 + old(out)@.len() as int, e),
{
    proof {
        lemma_padding_shift(out@.len() as int);
    }
    write_padding_8(out);
    match f {
        MessageField::Path(s) => write_text_field(out, CODE_PATH, s.as_str(), e),
        MessageField::Interface(s) => write_text_field(out, CODE_INTERFACE, s.as_str(), e),
        MessageField::Member(s) => write_text_field(out, CODE_MEMBER, s.as_str(), e),
        MessageField::ErrorName(s) => write_text_field(out, CODE_ERROR_NAME, s.as_str(), e),
        MessageField::ReplySerial(n) => write_number_field(out, CODE_REPLY_SERIAL, *n, e),
        MessageField::Destination(s) => write_text_field(out, CODE_DESTINATION, s.as_str(), e),
        MessageField::Sender(s) => write_text_field(out, CODE_SENDER, s.as_str(), e),
        MessageField::Signature(s) => write_signature_field(out, s.as_str()),
        MessageField::UnixFds(n) => write_number_field(out, CODE_UNIX_FDS, *n, e),
    }
    assert(out@ =~= old(out)@ + f@.bytes_at(16 + old(out)@.len() as int, e));
}

/// The bytes of the fields of a header, as they follow the first sixteen bytes
/// of the message.
pub fn encode_fields(fields: &Vec<MessageField>, e: EndianSig) -> (out: Vec<u8>)
    requires
        forall|i: int| 0 <= i < fields@.len() ==> (#[trigger] fields@[i])@.wf(),
    ensures
        out@ == spec_fields_bytes(spec_field_views(fields@), 16, e),
{
    let mut out: Vec<u8> = Vec::new();
    let mut i: usize = 0;
    let ghost views = spec_field_views(fields@);
    assert(views.take(0) == Seq::<FieldView>::empty());
    while i < fields.len()
        invariant
            i <= fields@.len(),
            views == spec_field_views(fields@),
            forall|i: int| 0 <= i < fields@.len() ==> (#[trigger] fields@[i])@.wf(),
            out@ == spec_fields_bytes(views.take(i as int), 16, e),
        decreases fields@.len() - i,
    {
        proof {
            lemma_fields_bytes_push(views.take(i as int), views[i as int], 16, e);
            assert(views.take(i as int).push(views[i as int]) == views.take(i + 1));
        }
        write_field(&mut out, &fields[i], e);
        i = i + 1;
    }
    assert(views.take(i as int) == views);
    out
}

/// What the value of a field holds: the field with the given code and signature
/// whose value starts at `pos`, and the offset at which the value ends. A value
/// that does not end before `end`, a code that names no field and a signature
/// that is not the one of the field are malformed.
pub open spec fn spec_parse_value(
    buf: Seq<u8>,
    code: u8,
    ty: u8,
    pos: int,
    end: int,
    e: EndianSig,
) -> Result<(FieldView, int), Error> {
    if code == 0 || code > CODE_UNIX_FDS || ty != spec_type_of_code(code) {
        Err(Error::IncorrectType)
    } else if ty == TYPE_UINT32 {
        if pos + 4 > end {
            Err(Error::IncorrectType)
        } else {
            Ok((FieldView::of_number(code, spec_u32_at(buf, pos, e)), pos + 4))
        }
    } else if ty == TYPE_SIGNATURE {
        if pos + 1 > end {
            Err(Error::IncorrectType)
        } else {
            let len = buf[pos] as int;
            match spec_text_at(buf, pos + 1, len, end) {
                Ok(s) => Ok((FieldView::Signature(s), pos + 1 + len + 1)),
                Err(x) => Err(x),
            }
        }
    } else {
        if pos + 4 > end {
            Err(Error::IncorrectType)
        } else {
            let len = spec_u32_at(buf, pos, e) as int;
            match spec_text_at(buf, pos + 4, len, end) {
                Ok(s) => if code == CODE_PATH && !spec_valid_path(
                    buf.subrange(pos + 4, pos + 4 + len),
                ) {
                    Err(Error::IncorrectType)
                } else {
                    Ok((FieldView::of_text(code, s), pos + 4 + len + 1))
                },
                Err(x) => Err(x),
            }
        }
    }
}

/// What the bytes from `pos` on hold as a field of an array that ends at `end`:
/// the field, and the offset at which it ends.
pub open spec fn spec_parse_field(buf: Seq<u8>, pos: int, end: int, e: EndianSig) -> Result<
    (FieldView, int),
    Error,
> {
    let start = pos + spec_padding(pos, 8);
    if start + 4 > end {
        Err(Error::IncorrectType)
    } else if !spec_all_zero(buf, pos, start) {
        Err(Error::PaddingNot0)
    } else if buf[start + 1] != 1u8 || buf[start + 3] != 0u8 {
        Err(Error::IncorrectType)
    } else {
        spec_parse_value(buf, buf[start], buf[start + 2], start + 4, end, e)
    }
}

/// The fields read so far, followed by what the rest of the array holds.
pub open spec fn spec_prepend(done: Seq<FieldView>, rest: Result<Seq<FieldView>, Error>) -> Result<
    Seq<FieldView>,
    Error,
> {
    match rest {
        Ok(fields) => Ok(done + fields),
        Err(x) => Err(x),
    }
}

/// What the bytes from `pos` up to `end` hold as an array of fields.
pub open spec fn spec_parse_fields(buf: Seq<u8>, pos: int, end: int, e: EndianSig) -> Result<
    Seq<FieldView>,
    Error,
>
    decreases end - pos,
{
    if pos >= end {
        Ok(Seq::empty())
    } else {
        match spec_parse_field(buf, pos, end, e) {
            Ok((f, next)) => if next > pos {
                spec_prepend(seq![f], spec_parse_fields(buf, next, end, e))
            } else {
                Err(Error::IncorrectType)
            },
            Err(x) => Err(x),
        }
    }
}

/// Whether a field that was read, and the offset after it, are the ones that
/// were to be read, or the error the one that was to be reported.
pub open spec fn field_matches(
    r: Result<(MessageField, usize), Error>,
    expected: Result<(FieldView, int), Error>,
) -> bool {
    match expected {
        Ok((f, next)) => r matches Ok((g, n)) && g@ == f && n == next,
        Err(x) => r == Err::<(MessageField, usize), Error>(x),
    }
}

/// The field with the given code that carries the given text.
fn text_field(code: u8, s: String) -> (f: MessageField)
    ensures
        f@ == FieldView::of_text(code, s@),
{
    if code == CODE_PATH {
        MessageField::Path(s)
    } else if code == CODE_INTERFACE {
        MessageField::Interface(s)
    } else if code == CODE_MEMBER {
        MessageField::Member(s)
    } else if code == CODE_ERROR_NAME {
        MessageField::ErrorName(s)
    } else if code == CODE_DESTINATION {
        MessageField::Destination(s)
    } else if code == CODE_SENDER {
        MessageField::Sender(s)
    } else {
        MessageField::Signature(s)
    }
}

/// Reads the value of a field whose code and signature have been read.
pub fn parse_value(buf: &[u8], code: u8, ty: u8, pos: usize, end: usize, e: EndianSig) -> (r:
    Result<(MessageField, usize), Error>)
    requires
        pos <= end <= buf@.len(),
    ensures
        field_matches(r, spec_parse_value(buf@, code, ty, pos as int, end as int, e)),
        r matches Ok((_, n)) ==> pos < n <= end,
{
    if code == 0 || code > CODE_UNIX_FDS || ty != type_of_code(code) {
        return Err(Error::IncorrectType);
    }
    if ty == TYPE_UINT32 {
        if end - pos < 4 {
            return Err(Error::IncorrectType);
        }
        let n: u32 = read_u32(buf, pos, e);
        if code == CODE_REPLY_SERIAL {
            Ok((MessageField::ReplySerial(n), pos + 4))
        } else {
            Ok((MessageField::UnixFds(n), pos + 4))
        }
    } else if ty == TYPE_SIGNATURE {
        if end - pos < 1 {
            return Err(Error::IncorrectType);
        }
        let len: usize = buf[pos] as usize;
        match read_text(buf, pos + 1, len, end) {
            Ok(s) => Ok((MessageField::Signature(s), pos + 1 + len + 1)),
            Err(x) => Err(x),
        }
    } else {
        if end - pos < 4 {
            return Err(Error::IncorrectType);
        }
        let len: usize = read_u32(buf, pos, e) as usize;
        match read_text(buf, pos + 4, len, end) {
            Ok(s) => {
                if code == CODE_PATH && !is_valid_path(slice_subrange(buf, pos + 4, pos + 4 + len)) {
                    Err(Error::IncorrectType)
                } else {
                    Ok((text_field(code, s), pos + 4 + len + 1))
                }
            },
            Err(x) => Err(x),
        }
    }
}

/// Reads the field that starts at `pos` of an array that ends at `end`.
pub fn parse_field(buf: &[u8], pos: usize, end: usize, e: EndianSig) -> (r: Result<
    (MessageField, usize),
    Error,
>)
    requires
        pos <= end <= buf@.len(),
    ensures
        field_matches(r, spec_parse_field(buf@, pos as int, end as int, e)),
        r matches Ok((_, n)) ==> pos < n <= end,
{
    let pad: usize = padding_for_8_bytes(pos);
    if end - pos < pad + 4 {
        return Err(Error::IncorrectType);
    }
    let start: usize = pos + pad;
    if !all_zero(buf, pos, start) {
        return Err(Error::PaddingNot0);
    }
    if buf[start + 1] != 1 || buf[start + 3] != 0 {
        return Err(Error::IncorrectType);
    }
    parse_value(buf, buf[start], buf[start + 2], start + 4, end, e)
}

/// Whether the fields that were read are the ones that were to be read, or the
/// error the one that was to be reported.
pub open spec fn fields_match(
    r: Result<Vec<MessageField>, Error>,
    expected: Result<Seq<FieldView>, Error>,
) -> bool {
    match expected {
        Ok(fields) => r matches Ok(v) && spec_field_views(v@) == fields,
        Err(x) => r == Err::<Vec<MessageField>, Error>(x),
    }
}

/// Reads the array of fields that lies between `start` and `end`.
pub fn parse_fields(buf: &[u8], start: usize, end: usize, e: EndianSig) -> (r: Result<
    Vec<MessageField>,
    Error,
>)
    requires
        start <= end <= buf@.len(),
    ensures
        fields_match(r, spec_parse_fields(buf@, start as int, end as int, e)),
{
    let mut fields: Vec<MessageField> = Vec::new();
    let mut pos: usize = start;
    assert(spec_field_views(fields@) == Seq::<FieldView>::empty());
    assert(spec_prepend(Seq::empty(), spec_parse_fields(buf@, start as int, end as int, e))
        == spec_parse_fields(buf@, start as int, end as int, e)) by {
        match spec_parse_fields(buf@, start as int, end as int, e) {
            Ok(f) => {
                assert(Seq::<FieldView>::empty() + f == f);
            },
            Err(_) => {},
        }
    }
    while pos < end
        invariant
            start <= pos <= end <= buf@.len(),
            spec_parse_fields(buf@, start as int, end as int, e) == spec_prepend(
                spec_field_views(fields@),
                spec_parse_fields(buf@, pos as int, end as int, e),
            ),
        decreases end - pos,
    {
        match parse_field(buf, pos, end, e) {
            Ok((f, next)) => {
                proof {
                    let done = spec_field_views(fields@);
                    assert(spec_field_views(fields@.push(f)) == done.push(f@));
                    match spec_parse_fields(buf@, next as int, end as int, e) {
                        Ok(rest) => {
                            assert(done + (seq![f@] + rest) == done.push(f@) + rest);
                        },
                        Err(_) => {},
                    }
                }
                fields.push(f);
                pos = next;
            },
            Err(x) => {
                return Err(x);
            },
        }
    }
    proof {
        assert(spec_field_views(fields@) + Seq::<FieldView>::empty() == spec_field_views(
            fields@,
        ));
    }
    Ok(fields)
}

/// The number that the first field with the given code carries.
pub fn find_number(fields: &Vec<MessageField>, code: u8) -> (r: Option<u32>)
    ensures
        r == spec_find_number(spec_field_views(fields@), code),
{
    let ghost views = spec_field_views(fields@);
    let mut i: usize = 0;
    assert(views.skip(0) == views);
    while i < fields.len()
        invariant
            i <= fields@.len(),
            views == spec_field_views(fields@),
            spec_find_number(views, code) == spec_find_number(views.skip(i as int), code),
        decreases fields@.len() - i,
    {
        proof {
            assert(views.skip(i as int)[0] == fields@[i as int]@);
            assert(views.skip(i as int).drop_first() == views.skip(i + 1));
        }
        match &fields[i] {
            MessageField::ReplySerial(n) => {
                if code == CODE_REPLY_SERIAL {
                    return Some(*n);
                }
            },
            MessageField::UnixFds(n) => {
                if code == CODE_UNIX_FDS {
                    return Some(*n);
                }
            },
            _ => {},
        }
        i = i + 1;
    }
    assert(views.skip(i as int).len() == 0);
    None
}

/// A field that was written at `pos` is the field read there.
pub proof fn lemma_parse_field_bytes(buf: Seq<u8>, pos: int, end: int, f: FieldView, e: EndianSig)
    requires
        f.wf(),
        spec_holds_at(buf, pos, f.bytes_at(pos, e)),
        pos + f.bytes_at(pos, e).len() <= end,
    ensures
        spec_parse_field(buf, pos, end, e) == Ok::<(FieldView, int), Error>(
            (f, pos + f.bytes_at(pos, e).len()),
        ),
        f.bytes_at(pos, e).len() >= 4,
{
    let pad = spec_padding(pos, 8);
    let start = pos + pad;
    let z = spec_zeros(pad);
    let code = f.code();
    let h = seq![code, 1u8, spec_type_of_code(code), 0u8];
    let v = f.value_bytes(e);
    assert(f.bytes_at(pos, e) == (z + h) + v);
    lemma_holds_split(buf, pos, z + h, v);
    lemma_holds_split(buf, pos, z, h);
    assert(spec_all_zero(buf, pos, start)) by {
        assert forall|i: int| pos <= i < start implies buf[i] == 0u8 by {
            lemma_holds_index(buf, pos, z, i - pos);
        }
    }
    lemma_holds_index(buf, start, h, 0);
    lemma_holds_index(buf, start, h, 1);
    lemma_holds_index(buf, start, h, 2);
    lemma_holds_index(buf, start, h, 3);
    let vpos = start + 4;
    assert(spec_holds_at(buf, vpos, v));
    match f {
        FieldView::ReplySerial(n) => {
            lemma_u32_bytes_len(n, e);
            lemma_u32_at_bytes(buf, vpos, n, e);
        },
        FieldView::UnixFds(n) => {
            lemma_u32_bytes_len(n, e);
            lemma_u32_at_bytes(buf, vpos, n, e);
        },
        FieldView::Signature(s) => {
            let t = encode_utf8(s);
            assert(v == seq![t.len() as u8] + (t + seq![0u8]));
            lemma_holds_split(buf, vpos, seq![t.len() as u8], t + seq![0u8]);
            lemma_holds_index(buf, vpos, seq![t.len() as u8], 0);
            lemma_text_at_bytes(buf, vpos + 1, s, end);
        },
        _ => {
            let s = f.text().unwrap();
            let t = encode_utf8(s);
            let l = spec_u32_bytes(t.len() as u32, e);
            lemma_u32_bytes_len(t.len() as u32, e);
            assert(v == l + (t + seq![0u8]));
            lemma_holds_split(buf, vpos, l, t + seq![0u8]);
            lemma_u32_at_bytes(buf, vpos, t.len() as u32, e);
            lemma_text_at_bytes(buf, vpos + 4, s, end);
            assert(FieldView::of_text(code, s) == f);
        },
    }
}

/// An array of fields that was written at `pos` is the array read there.
pub proof fn lemma_parse_fields_bytes(
    buf: Seq<u8>,
    pos: int,
    end: int,
    fields: Seq<FieldView>,
    e: EndianSig,
)
    requires
        forall|i: int| 0 <= i < fields.len() ==> (#[trigger] fields[i]).wf(),
        spec_holds_at(buf, pos, spec_fields_bytes(fields, pos, e)),
        pos + spec_fields_bytes(fields, pos, e).len() == end,
    ensures
        spec_parse_fields(buf, pos, end, e) == Ok::<Seq<FieldView>, Error>(fields),
    decreases fields.len(),
{
    if fields.len() == 0 {
        assert(fields == Seq::<FieldView>::empty());
    } else {
        let first = fields[0].bytes_at(pos, e);
        let rest = spec_fields_bytes(fields.drop_first(), pos + first.len(), e);
        lemma_holds_split(buf, pos, first, rest);
        lemma_parse_field_bytes(buf, pos, end, fields[0], e);
        assert forall|i: int| 0 <= i < fields.drop_first().len() implies (
        #[trigger] fields.drop_first()[i]).wf() by {
            assert(fields.drop_first()[i] == fields[i + 1]);
        }
        lemma_parse_fields_bytes(buf, pos + first.len(), end, fields.drop_first(), e);
        assert(seq![fields[0]] + fields.drop_first() == fields);
    }
}

/// The text that the first field with the given code carries.
pub fn find_text(fields: &Vec<MessageField>, code: u8) -> (r: Option<&str>)
    ensures
        match spec_find_text(spec_field_views(fields@), code) {
            Some(s) => r matches Some(t) && t@ == s,
            None => r is None,
        },
{
    let ghost views = spec_field_views(fields@);
    let mut i: usize = 0;
    assert(views.skip(0) == views);
    while i < fields.len()
        invariant
            i <= fields@.len(),
            views == spec_field_views(fields@),
            spec_find_text(views, code) == spec_find_text(views.skip(i as int), code),
        decreases fields@.len() - i,
    {
        proof {
            assert(views.skip(i as int)[0] == fields@[i as int]@);
            assert(views.skip(i as int).drop_first() == views.skip(i + 1));
        }
        match &fields[i] {
            MessageField::Path(s) => {
                if code == CODE_PATH {
                    return Some(s.as_str());
                }
            },
            MessageField::Interface(s) => {
                if code == CODE_INTERFACE {
                    return Some(s.as_str());
                }
            },
            MessageField::Member(s) => {
                if code == CODE_MEMBER {
                    return Some(s.as_str());
                }
            },
            MessageField::ErrorName(s) => {
                if code == CODE_ERROR_NAME {
                    return Some(s.as_str());
                }
            },
            MessageField::Destination(s) => {
                if code == CODE_DESTINATION {
                    return Some(s.as_str());
                }
            },
            MessageField::Sender(s) => {
                if code == CODE_SENDER {
                    return Some(s.as_str());
                }
            },
            MessageField::Signature(s) => {
                if code == CODE_SIGNATURE {
                    return Some(s.as_str());
                }
            },
            _ => {},
        }
        i = i + 1;
    }
    assert(views.skip(i as int).len() == 0);
    None
}

/// Whether the field can be written.
pub fn field_is_wf(f: &MessageField) -> (r: bool)
    ensures
        r == f@.wf(),
{
    match f {
        MessageField::Path(s) => s.as_str().as_bytes().len() <= u32::MAX as usize && is_valid_path(
            s.as_str().as_bytes(),
        ),
        MessageField::Signature(s) => s.as_str().as_bytes().len() <= u8::MAX as usize,
        MessageField::ReplySerial(_) => true,
        MessageField::UnixFds(_) => true,
        MessageField::Interface(s) => s.as_str().as_bytes().len() <= u32::MAX as usize,
        MessageField::Member(s) => s.as_str().as_bytes().len() <= u32::MAX as usize,
        MessageField::ErrorName(s) => s.as_str().as_bytes().len() <= u32::MAX as usize,
        MessageField::Destination(s) => s.as_str().as_bytes().len() <= u32::MAX as usize,
        MessageField::Sender(s) => s.as_str().as_bytes().len() <= u32::MAX as usize,
    }
}

/// Whether every field can be written.
pub fn fields_are_wf(fields: &Vec<MessageField>) -> (r: bool)
    ensures
        r == (forall|i: int| 0 <= i < fields@.len() ==> (#[trigger] fields@[i])@.wf()),
{
    let mut i: usize = 0;
    while i < fields.len()
        invariant
            i <= fields@.len(),
            forall|j: int| 0 <= j < i ==> (#[trigger] fields@[j])@.wf(),
        decreases fields@.len() - i,
    {
        if !field_is_wf(&fields[i]) {
            return false;
        }
        i = i + 1;
    }
    true
}

/// A field that was read can be written, and takes as many bytes when it is
/// written where it was read.
pub proof fn lemma_parsed_field_wf(buf: Seq<u8>, pos: int, end: int, e: EndianSig)
    requires
        0 <= pos <= end <= buf.len(),
    ensures
        spec_parse_field(buf, pos, end, e) matches Ok((f, next)) ==> f.wf() && next <= end
            && f.bytes_at(pos, e).len() == next - pos,
{
    let start = pos + spec_padding(pos, 8);
    match spec_parse_field(buf, pos, end, e) {
        Ok((f, next)) => {
            let vpos = start + 4;
            let code = buf[start];
            assert(spec_zeros(spec_padding(pos, 8)).len() == spec_padding(pos, 8));
            match f {
                FieldView::ReplySerial(n) => {
                    lemma_u32_bytes_len(n, e);
                },
                FieldView::UnixFds(n) => {
                    lemma_u32_bytes_len(n, e);
                },
                FieldView::Signature(s) => {
                    let len = buf[vpos] as int;
                    let bytes = buf.subrange(vpos + 1, vpos + 1 + len);
                    decode_utf8_encode_utf8(bytes);
                },
                _ => {
                    let len = spec_u32_at(buf, vpos, e) as int;
                    let bytes = buf.subrange(vpos + 4, vpos + 4 + len);
                    decode_utf8_encode_utf8(bytes);
                    lemma_u32_bytes_len(len as u32, e);
                    assert(f.text() == Some(decode_utf8(bytes)));
                },
            }
        },
        Err(_) => {},
    }
}

/// The fields that were read can be written, and take as many bytes when they
/// are written where they were read.
pub proof fn lemma_parsed_fields_wf(buf: Seq<u8>, pos: int, end: int, e: EndianSig)
    requires
        0 <= pos <= end <= buf.len(),
    ensures
        spec_parse_fields(buf, pos, end, e) matches Ok(fields) ==> {
            &&& forall|i: int| 0 <= i < fields.len() ==> (#[trigger] fields[i]).wf()
            &&& pos + spec_fields_bytes(fields, pos, e).len() == end
        },
    decreases end - pos,
{
    if pos < end {
        lemma_parsed_field_wf(buf, pos, end, e);
        match spec_parse_field(buf, pos, end, e) {
            Ok((f, next)) => {
                if next > pos {
                    lemma_parsed_fields_wf(buf, next, end, e);
                    match spec_parse_fields(buf, next, end, e) {
                        Ok(rest) => {
                            let fields = seq![f] + rest;
                            assert(fields[0] == f);
                            assert(fields.drop_first() == rest);
                            assert forall|i: int| 0 <= i < fields.len() implies (
                            #[trigger] fields[i]).wf() by {
                                if i > 0 {
                                    assert(fields[i] == rest[i - 1]);
                                }
                            }
                        },
                        Err(_) => {},
                    }
                }
            },
            Err(_) => {},
        }
    }
}

/// The first field of a code in two sequences of fields, one after the other,
/// is the first in the first sequence, or else the first in the second.
pub proof fn lemma_find_concat(a: Seq<FieldView>, b: Seq<FieldView>, code: u8)
    ensures
        spec_find_text(a + b, code) == match spec_find_text(a, code) {
            Some(s) => Some(s),
            None => spec_find_text(b, code),
        },
        spec_find_number(a + b, code) == match spec_find_number(a, code) {
            Some(n) => Some(n),
            None => spec_find_number(b, code),
        },
    decreases a.len(),
{
    if a.len() == 0 {
        assert(a + b == b);
    } else {
        assert((a + b)[0] == a[0]);
        assert((a + b).drop_first() == a.drop_first() + b);
        lemma_find_concat(a.drop_first(), b, code);
    }
}

/// What is found in a single field.
pub proof fn lemma_find_single(f: FieldView, code: u8)
    ensures
        spec_find_text(seq![f], code) == if f.code() == code {
            f.text()
        } else {
            None
        },
        spec_find_number(seq![f], code) == if f.code() == code {
            f.number()
        } else {
            None
        },
{
    let one = seq![f];
    assert(one.drop_first() == Seq::<FieldView>::empty());
    assert(spec_find_text(one.drop_first(), code) is None);
    assert(spec_find_number(one.drop_first(), code) is None);
}

} // verus!
