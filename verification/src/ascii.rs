//! ASCII text as bytes: the handshake speaks it, and a GUID is written in it.

use vstd::prelude::*;
use vstd::utf8::*;

verus! {

/// The bytes of a text whose characters are all ASCII.
pub open spec fn spec_ascii_bytes(s: Seq<char>) -> Seq<u8> {
    Seq::new(s.len(), |i: int| s[i] as u8)
}

/// The text that ASCII bytes spell.
pub open spec fn spec_ascii_chars(b: Seq<u8>) -> Seq<char> {
    Seq::new(b.len(), |i: int| b[i] as char)
}

/// Whether every byte is an ASCII character.
pub open spec fn spec_is_ascii(b: Seq<u8>) -> bool {
    forall|i: int| 0 <= i < b.len() ==> b[i] < 128
}

/// `String::push` appends one character at the end of the string.
pub assume_specification[ String::push ](s: &mut String, c: char)
    ensures
        final(s)@ == old(s)@.push(c),
;

/// The bytes of an ASCII text.
pub fn ascii_bytes(s: &str) -> (b: &[u8])
    requires
        is_ascii_chars(s@),
    ensures
        b@ == spec_ascii_bytes(s@),
{
    proof {
        is_ascii_chars_encode_utf8(s@);
    }
    let b = s.as_bytes();
    assert(b@ =~= spec_ascii_bytes(s@));
    b
}

/// The text that ASCII bytes spell.
pub fn ascii_string(b: &[u8]) -> (s: String)
    requires
        spec_is_ascii(b@),
    ensures
        s@ == spec_ascii_chars(b@),
{
    let mut s = String::new();
    let mut i: usize = 0;
    while i < b.len()
        invariant
            i <= b@.len(),
            spec_is_ascii(b@),
            s@ == spec_ascii_chars(b@.subrange(0, i as int)),
        decreases b@.len() - i,
    {
        s.push(b[i] as char);
        i = i + 1;
        assert(s@ =~= spec_ascii_chars(b@.subrange(0, i as int)));
    }
    assert(b@.subrange(0, i as int) == b@);
    s
}

/// Whether `line` begins with `prefix`.
pub open spec fn spec_starts_with(line: Seq<u8>, prefix: Seq<u8>) -> bool {
    prefix.len() <= line.len() && line.subrange(0, prefix.len() as int) == prefix
}

/// Whether `line` begins with `prefix`.
pub fn starts_with(line: &[u8], prefix: &[u8]) -> (r: bool)
    ensures
        r == spec_starts_with(line@, prefix@),
{
    if prefix.len() > line.len() {
        return false;
    }
    let mut i: usize = 0;
    while i < prefix.len()
        invariant
            i <= prefix@.len() <= line@.len(),
            line@.subrange(0, i as int) == prefix@.subrange(0, i as int),
        decreases prefix@.len() - i,
    {
        if line[i] != prefix[i] {
            assert(line@.subrange(0, prefix@.len() as int)[i as int] != prefix@[i as int]);
            return false;
        }
        i = i + 1;
        assert(line@.subrange(0, i as int) =~= line@.subrange(0, i - 1).push(line@[i - 1]));
        assert(prefix@.subrange(0, i as int) =~= prefix@.subrange(0, i - 1).push(prefix@[i - 1]));
    }
    assert(prefix@.subrange(0, i as int) == prefix@);
    true
}

/// Whether two byte sequences are the same.
pub fn bytes_eq(a: &[u8], b: &[u8]) -> (r: bool)
    ensures
        r == (a@ == b@),
{
    if a.len() != b.len() {
        return false;
    }
    let r = starts_with(a, b);
    assert(a@.subrange(0, b@.len() as int) == a@);
    r
}

/// The lower-case hexadecimal digit of a number below sixteen.
pub open spec fn spec_hex_digit(n: u8) -> u8 {
    if n < 10 {
        (0x30 + n) as u8
    } else {
        (0x61 + (n - 10)) as u8
    }
}

/// The lower-case hexadecimal digit of a number below sixteen.
pub fn hex_digit(n: u8) -> (d: u8)
    requires
        n < 16,
    ensures
        d == spec_hex_digit(n),
        spec_is_lower_hex(d),
{
    if n < 10 {
        0x30 + n
    } else {
        0x61 + (n - 10)
    }
}

/// Whether a byte is a lower-case hexadecimal digit.
pub open spec fn spec_is_lower_hex(b: u8) -> bool {
    (0x30 <= b <= 0x39) || (0x61 <= b <= 0x66)
}

/// Whether a byte is a lower-case hexadecimal digit.
pub fn is_lower_hex(b: u8) -> (r: bool)
    ensures
        r == spec_is_lower_hex(b),
{
    (0x30 <= b && b <= 0x39) || (0x61 <= b && b <= 0x66)
}

/// Each byte written as two lower-case hexadecimal digits, the high half first.
pub open spec fn spec_hex_encode(b: Seq<u8>) -> Seq<u8> {
    Seq::new(
        2 * b.len(),
        |i: int|
            if i % 2 == 0 {
                spec_hex_digit(b[i / 2] / 16)
            } else {
                spec_hex_digit(b[i / 2] % 16)
            },
    )
}

/// Each byte written as two lower-case hexadecimal digits, the high half first.
pub fn hex_encode(b: &[u8]) -> (out: Vec<u8>)
    ensures
        out@ == spec_hex_encode(b@),
        forall|i: int| 0 <= i < out@.len() ==> spec_is_lower_hex(#[trigger] out@[i]),
{
    let mut out: Vec<u8> = Vec::new();
    let mut i: usize = 0;
    while i < b.len()
        invariant
            i <= b@.len(),
            out@ == spec_hex_encode(b@.subrange(0, i as int)),
            forall|j: int| 0 <= j < out@.len() ==> spec_is_lower_hex(#[trigger] out@[j]),
        decreases b@.len() - i,
    {
        let x: u8 = b[i];
        out.push(hex_digit(x / 16));
        out.push(hex_digit(x % 16));
        i = i + 1;
        assert(out@ =~= spec_hex_encode(b@.subrange(0, i as int)));
    }
    assert(b@.subrange(0, i as int) == b@);
    out
}

/// The decimal digits of a number, as ASCII.
pub open spec fn spec_decimal(n: nat) -> Seq<u8>
    decreases n,
{
    if n < 10 {
        seq![(0x30 + n) as u8]
    } else {
        spec_decimal(n / 10).push((0x30 + n % 10) as u8)
    }
}

/// The decimal digits of a number, as ASCII.
pub fn decimal(n: u32) -> (out: Vec<u8>)
    ensures
        out@ == spec_decimal(n as nat),
    decreases n,
{
    if n < 10 {
        let mut out: Vec<u8> = Vec::new();
        out.push(0x30 + n as u8);
        assert(out@ =~= spec_decimal(n as nat));
        out
    } else {
        let mut out: Vec<u8> = decimal(n / 10);
        out.push(0x30 + (n % 10) as u8);
        out
    }
}

} // verus!
