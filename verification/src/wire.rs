//! Primitives of the wire format: byte order, alignment and padding.

use crate::variant::{
    lemma_valid_up_to_unique, spec_is_valid_up_to, spec_valid_up_to, Error, Utf8Error,
};
use vstd::prelude::*;
use vstd::slice::slice_subrange;
use vstd::utf8::*;

verus! {

/// The byte order in which a message carries its multi-byte integers.
#[derive(Debug, Clone, Copy, PartialEq, Eq, Structural)]
pub enum EndianSig {
    Big,
    Little,
}

impl EndianSig {
    /// The flag byte that announces this byte order: ASCII `B` or `l`.
    pub open spec fn spec_sig(self) -> u8 {
        match self {
            EndianSig::Big => 0x42,
            EndianSig::Little => 0x6c,
        }
    }

    /// The flag byte that announces this byte order.
    pub fn sig(self) -> (b: u8)
        ensures
            b == self.spec_sig(),
    {
        match self {
            EndianSig::Big => 0x42,
            EndianSig::Little => 0x6c,
        }
    }

    /// The byte order that a flag byte announces, if it announces one.
    pub open spec fn spec_from_sig(b: u8) -> Option<EndianSig> {
        if b == 0x42 {
            Some(EndianSig::Big)
        } else if b == 0x6c {
            Some(EndianSig::Little)
        } else {
            None
        }
    }

    /// The byte order that a flag byte announces, if it announces one.
    pub fn from_sig(b: u8) -> (r: Option<EndianSig>)
        ensures
            r == Self::spec_from_sig(b),
    {
        if b == 0x42 {
            Some(EndianSig::Big)
        } else if b == 0x6c {
            Some(EndianSig::Little)
        } else {
            None
        }
    }
}

/// The four bytes of `x`, least significant first.
pub open spec fn spec_u32_le(x: u32) -> Seq<u8> {
    seq![
        (x & 0xff) as u8,
        ((x >> 8) & 0xff) as u8,
        ((x >> 16) & 0xff) as u8,
        ((x >> 24) & 0xff) as u8,
    ]
}

/// The four bytes of `x` in the byte order `e`.
pub open spec fn spec_u32_bytes(x: u32, e: EndianSig) -> Seq<u8> {
    match e {
        EndianSig::Little => spec_u32_le(x),
        EndianSig::Big => spec_u32_le(x).reverse(),
    }
}

/// The number whose bytes, least significant first, are `b0` to `b3`.
pub open spec fn spec_u32_of(b0: u8, b1: u8, b2: u8, b3: u8) -> u32 {
    (b0 as u32) | ((b1 as u32) << 8) | ((b2 as u32) << 16) | ((b3 as u32) << 24)
}

/// The number that the four bytes of `buf` from `pos` on spell in the byte order `e`.
pub open spec fn spec_u32_at(buf: Seq<u8>, pos: int, e: EndianSig) -> u32
    recommends
        0 <= pos,
        pos + 4 <= buf.len(),
{
    match e {
        EndianSig::Little => spec_u32_of(buf[pos], buf[pos + 1], buf[pos + 2], buf[pos + 3]),
        EndianSig::Big => spec_u32_of(buf[pos + 3], buf[pos + 2], buf[pos + 1], buf[pos]),
    }
}

/// Reading back the bytes of a number gives the number.
pub proof fn lemma_u32_of_le(x: u32)
    ensures
        spec_u32_of(spec_u32_le(x)[0], spec_u32_le(x)[1], spec_u32_le(x)[2], spec_u32_le(x)[3])
            == x,
{
    let b0 = (x & 0xff) as u8;
    let b1 = ((x >> 8) & 0xff) as u8;
    let b2 = ((x >> 16) & 0xff) as u8;
    let b3 = ((x >> 24) & 0xff) as u8;
    assert(((((x & 0xff) as u8) as u32) | ((((x >> 8) & 0xff) as u8) as u32) << 8 | ((((x >> 16)
        & 0xff) as u8) as u32) << 16 | ((((x >> 24) & 0xff) as u8) as u32) << 24) == x)
        by (bit_vector);
}

/// A number written at `pos` of a buffer, in either byte order, is the number
/// read there.
pub proof fn lemma_u32_at_bytes(buf: Seq<u8>, pos: int, x: u32, e: EndianSig)
    requires
        0 <= pos,
        pos + 4 <= buf.len(),
        buf.subrange(pos, pos + 4) == spec_u32_bytes(x, e),
    ensures
        spec_u32_at(buf, pos, e) == x,
{
    let w = buf.subrange(pos, pos + 4);
    assert(w[0] == buf[pos] && w[1] == buf[pos + 1] && w[2] == buf[pos + 2] && w[3] == buf[pos
        + 3]);
    lemma_u32_of_le(x);
    let le = spec_u32_le(x);
    match e {
        EndianSig::Little => {},
        EndianSig::Big => {
            let r = le.reverse();
            assert(r[0] == le[3] && r[1] == le[2] && r[2] == le[1] && r[3] == le[0]);
        },
    }
}

/// Appends the four bytes of `x` in the byte order `e`.
pub fn write_u32(out: &mut Vec<u8>, x: u32, e: EndianSig)
    ensures
        final(out)@ == old(out)@ + spec_u32_bytes(x, e),
{
    let b0: u8 = (x & 0xff) as u8;
    let b1: u8 = ((x >> 8) & 0xff) as u8;
    let b2: u8 = ((x >> 16) & 0xff) as u8;
    let b3: u8 = ((x >> 24) & 0xff) as u8;
    match e {
        EndianSig::Little => {
            out.push(b0);
            out.push(b1);
            out.push(b2);
            out.push(b3);
            assert(out@ =~= old(out)@ + spec_u32_le(x));
        },
        EndianSig::Big => {
            out.push(b3);
            out.push(b2);
            out.push(b1);
            out.push(b0);
            assert(out@ =~= old(out)@ + spec_u32_le(x).reverse());
        },
    }
}

/// Reads the number that the four bytes from `pos` on spell in the byte order `e`.
pub fn read_u32(buf: &[u8], pos: usize, e: EndianSig) -> (x: u32)
    requires
        pos + 4 <= buf@.len(),
    ensures
        x == spec_u32_at(buf@, pos as int, e),
{
    let a0: u32 = buf[pos] as u32;
    let a1: u32 = buf[pos + 1] as u32;
    let a2: u32 = buf[pos + 2] as u32;
    let a3: u32 = buf[pos + 3] as u32;
    match e {
        EndianSig::Little => a0 | (a1 << 8) | (a2 << 16) | (a3 << 24),
        EndianSig::Big => a3 | (a2 << 8) | (a1 << 16) | (a0 << 24),
    }
}

/// The number of padding bytes that bring `pos` to the next multiple of `align`.
pub open spec fn spec_padding(pos: int, align: int) -> int
    recommends
        0 <= pos,
        0 < align,
{
    (align - pos % align) % align
}

/// The number of padding bytes that bring `pos` to the next multiple of 8.
pub fn padding_for_8_bytes(pos: usize) -> (pad: usize)
    ensures
        pad == spec_padding(pos as int, 8),
        pad < 8,
        (pos + pad) % 8 == 0,
{
    (8 - pos % 8) % 8
}

/// `n` zero bytes.
pub open spec fn spec_zeros(n: int) -> Seq<u8> {
    Seq::new(n as nat, |i: int| 0u8)
}

/// Whether every byte of `buf` from `from` up to `to` is zero.
pub open spec fn spec_all_zero(buf: Seq<u8>, from: int, to: int) -> bool {
    forall|i: int| from <= i < to ==> buf[i] == 0u8
}

/// Appends zero bytes until the length is a multiple of 8.
pub fn write_padding_8(out: &mut Vec<u8>)
    ensures
        final(out)@ == old(out)@ + spec_zeros(spec_padding(old(out)@.len() as int, 8)),
{
    let pad: usize = padding_for_8_bytes(out.len());
    let mut i: usize = 0;
    while i < pad
        invariant
            i <= pad,
            out@ == old(out)@ + spec_zeros(i as int),
        decreases pad - i,
    {
        out.push(0u8);
        i = i + 1;
        assert(out@ =~= old(out)@ + spec_zeros(i as int));
    }
}

/// Whether every byte of `buf` from `from` up to `to` is zero.
pub fn all_zero(buf: &[u8], from: usize, to: usize) -> (r: bool)
    requires
        from <= to <= buf@.len(),
    ensures
        r == spec_all_zero(buf@, from as int, to as int),
{
    let mut i: usize = from;
    while i < to
        invariant
            from <= i <= to,
            to <= buf@.len(),
            spec_all_zero(buf@, from as int, i as int),
        decreases to - i,
    {
        if buf[i] != 0 {
            return false;
        }
        i = i + 1;
    }
    true
}

/// What reading a text gives: the bytes of `buf` from `pos` up to `pos + len`
/// decoded as UTF-8, provided that the zero byte that ends a text follows them
/// before `end`.
pub open spec fn spec_text_at(buf: Seq<u8>, pos: int, len: int, end: int) -> Result<
    Seq<char>,
    Error,
> {
    let bytes = buf.subrange(pos, pos + len);
    if pos + len + 1 > end {
        Err(Error::IncorrectType)
    } else if buf[pos + len] != 0u8 {
        Err(Error::IncorrectType)
    } else if !valid_utf8(bytes) {
        Err(Error::Utf8(Utf8Error { valid_up_to: spec_valid_up_to(bytes) as usize }))
    } else {
        Ok(decode_utf8(bytes))
    }
}

/// Whether a text that was read is the one that was to be read, or the error the
/// one that was to be reported.
pub open spec fn text_matches(r: Result<String, Error>, expected: Result<Seq<char>, Error>) -> bool {
    match expected {
        Ok(s) => r matches Ok(t) && t@ == s,
        Err(e) => r == Err::<String, Error>(e),
    }
}

/// `std::str::from_utf8` accepts exactly the byte sequences that are valid UTF-8
/// and hands back the same bytes as a string slice; of any other sequence it
/// reports the length of the longest prefix that is valid.
#[verifier::external_body]
pub(crate) fn str_from_utf8(bytes: &[u8]) -> (r: Result<&str, Utf8Error>)
    ensures
        match r {
            Ok(s) => valid_utf8(bytes@) && encode_utf8(s@) == bytes@,
            Err(e) => !valid_utf8(bytes@) && spec_is_valid_up_to(bytes@, e.valid_up_to as int),
        },
{
    match std::str::from_utf8(bytes) {
        Ok(s) => Ok(s),
        Err(e) => Err(Utf8Error { valid_up_to: e.valid_up_to() }),
    }
}

/// Reads the text of `len` bytes at `pos` and the zero byte that ends it.
pub fn read_text(buf: &[u8], pos: usize, len: usize, end: usize) -> (r: Result<String, Error>)
    requires
        pos <= end <= buf@.len(),
    ensures
        text_matches(r, spec_text_at(buf@, pos as int, len as int, end as int)),
{
    if len >= end - pos {
        return Err(Error::IncorrectType);
    }
    if buf[pos + len] != 0 {
        return Err(Error::IncorrectType);
    }
    let bytes = slice_subrange(buf, pos, pos + len);
    match str_from_utf8(bytes) {
        Ok(s) => {
            proof {
                encode_utf8_decode_utf8(s@);
            }
            Ok(s.to_owned())
        },
        Err(e) => {
            proof {
                lemma_valid_up_to_unique(bytes@, e.valid_up_to as int);
            }
            Err(Error::Utf8(e))
        },
    }
}

/// Appends the UTF-8 bytes of a text and the zero byte that ends it.
pub fn write_text(out: &mut Vec<u8>, s: &str)
    ensures
        final(out)@ == old(out)@ + encode_utf8(s@) + seq![0u8],
{
    out.extend_from_slice(s.as_bytes());
    assert(out@ =~= old(out)@ + encode_utf8(s@));
    out.push(0u8);
}

/// Whether `buf` holds the bytes `b` from offset `pos` on.
pub open spec fn spec_holds_at(buf: Seq<u8>, pos: int, b: Seq<u8>) -> bool {
    &&& 0 <= pos
    &&& pos + b.len() <= buf.len()
    &&& buf.subrange(pos, pos + b.len()) == b
}

/// A buffer that holds two byte sequences one after the other holds each of them.
pub proof fn lemma_holds_split(buf: Seq<u8>, pos: int, a: Seq<u8>, b: Seq<u8>)
    requires
        spec_holds_at(buf, pos, a + b),
    ensures
        spec_holds_at(buf, pos, a),
        spec_holds_at(buf, pos + a.len(), b),
{
    let w = buf.subrange(pos, pos + (a + b).len());
    assert(buf.subrange(pos, pos + a.len()) =~= w.subrange(0, a.len() as int));
    assert(w.subrange(0, a.len() as int) =~= a);
    assert(buf.subrange(pos + a.len(), pos + a.len() + b.len()) =~= w.subrange(
        a.len() as int,
        (a + b).len() as int,
    ));
    assert(w.subrange(a.len() as int, (a + b).len() as int) =~= b);
}

/// A buffer that holds a byte sequence holds each of its bytes.
pub proof fn lemma_holds_index(buf: Seq<u8>, pos: int, b: Seq<u8>, i: int)
    requires
        spec_holds_at(buf, pos, b),
        0 <= i < b.len(),
    ensures
        buf[pos + i] == b[i],
{
    assert(buf.subrange(pos, pos + b.len())[i] == buf[pos + i]);
}

/// A number has four bytes in either byte order.
pub proof fn lemma_u32_bytes_len(x: u32, e: EndianSig)
    ensures
        spec_u32_bytes(x, e).len() == 4,
{
    assert(spec_u32_le(x).len() == 4);
    assert(spec_u32_le(x).reverse().len() == 4);
}

/// A text that was written with the zero byte that ends it is the text read
/// there.
pub proof fn lemma_text_at_bytes(buf: Seq<u8>, pos: int, s: Seq<char>, end: int)
    requires
        spec_holds_at(buf, pos, encode_utf8(s) + seq![0u8]),
        pos + encode_utf8(s).len() + 1 <= end,
    ensures
        spec_text_at(buf, pos, encode_utf8(s).len() as int, end) == Ok::<Seq<char>, Error>(s),
        buf.subrange(pos, pos + encode_utf8(s).len()) == encode_utf8(s),
{
    let t = encode_utf8(s);
    lemma_holds_split(buf, pos, t, seq![0u8]);
    lemma_holds_index(buf, pos + t.len(), seq![0u8], 0);
    encode_utf8_valid_utf8(s);
    encode_utf8_decode_utf8(s);
}

} // verus!
