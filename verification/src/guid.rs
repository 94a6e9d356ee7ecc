//! The identifier that a server gives itself: sixteen bytes, written as
//! thirty-two lower-case hexadecimal digits.

use crate::ascii::{
    ascii_string, hex_encode, is_lower_hex, spec_ascii_chars, spec_hex_encode, spec_is_ascii,
    spec_is_lower_hex,
};
use vstd::prelude::*;

verus! {

/// Whether the bytes spell a GUID: thirty-two lower-case hexadecimal digits.
pub open spec fn spec_is_guid(b: Seq<u8>) -> bool {
    &&& b.len() == 32
    &&& forall|i: int| 0 <= i < b.len() ==> spec_is_lower_hex(#[trigger] b[i])
}

/// Whether the bytes spell a GUID.
pub fn is_guid(b: &[u8]) -> (r: bool)
    ensures
        r == spec_is_guid(b@),
{
    if b.len() != 32 {
        return false;
    }
    let mut i: usize = 0;
    while i < 32
        invariant
            i <= 32,
            b@.len() == 32,
            forall|j: int| 0 <= j < i ==> spec_is_lower_hex(#[trigger] b@[j]),
        decreases 32 - i,
    {
        if !is_lower_hex(b[i]) {
            return false;
        }
        i = i + 1;
    }
    true
}

/// The identifier of a server.
#[derive(Debug, Clone, PartialEq, Eq)]
pub struct Guid {
    /// The thirty-two digits, as ASCII.
    digits: Vec<u8>,
    /// The same digits as text.
    text: String,
}

impl View for Guid {
    type V = Seq<u8>;

    closed spec fn view(&self) -> Seq<u8> {
        self.digits@
    }
}

impl Guid {
    /// Whether the value is what its type promises: its digits spell a GUID, and
    /// its text spells the same digits.
    pub closed spec fn wf(&self) -> bool {
        &&& spec_is_guid(self.digits@)
        &&& self.text@ == spec_ascii_chars(self.digits@)
    }

    /// The text of the identifier: the digits as characters.
    pub open spec fn spec_text(&self) -> Seq<char> {
        spec_ascii_chars(self@)
    }

    /// The digits of a GUID are thirty-two lower-case hexadecimal digits.
    pub proof fn lemma_text(&self)
        requires
            self.wf(),
        ensures
            spec_is_guid(self@),
            self.spec_text().len() == 32,
    {
    }

    /// The GUID of the given sixteen bytes.
    pub fn from_bytes(bytes: &[u8; 16]) -> (g: Guid)
        ensures
            g.wf(),
            g@ == spec_hex_encode(bytes@),
    {
        let digits: Vec<u8> = hex_encode(bytes.as_slice());
        assert(spec_is_ascii(digits@)) by {
            assert forall|i: int| 0 <= i < digits@.len() implies digits@[i] < 128 by {
                assert(spec_is_lower_hex(digits@[i]));
            }
        }
        let text: String = ascii_string(digits.as_slice());
        Guid { digits, text }
    }

    /// The GUID that the given ASCII bytes spell, if they spell one.
    pub fn from_ascii(b: &[u8]) -> (r: Option<Guid>)
        ensures
            r is Some <==> spec_is_guid(b@),
            r matches Some(g) ==> g.wf() && g@ == b@,
    {
        if !is_guid(b) {
            return None;
        }
        assert(spec_is_ascii(b@)) by {
            assert forall|i: int| 0 <= i < b@.len() implies b@[i] < 128 by {
                assert(spec_is_lower_hex(b@[i]));
            }
        }
        let digits: Vec<u8> = vstd::slice::slice_to_vec(b);
        let text: String = ascii_string(b);
        Some(Guid { digits, text })
    }

    /// The GUID that the given text spells, if it spells one.
    pub fn parse(s: &str) -> (r: Option<Guid>)
        ensures
            r is Some <==> spec_is_guid(vstd::utf8::encode_utf8(s@)),
            r matches Some(g) ==> g.wf() && g@ == vstd::utf8::encode_utf8(s@),
    {
        Self::from_ascii(s.as_bytes())
    }

    /// The thirty-two digits as text.
    pub fn as_str(&self) -> (s: &str)
        requires
            self.wf(),
        ensures
            s@ == self.spec_text(),
            s@.len() == 32,
    {
        self.text.as_str()
    }

    /// The thirty-two digits as ASCII bytes.
    pub fn as_bytes(&self) -> (b: &[u8])
        requires
            self.wf(),
        ensures
            b@ == self@,
            spec_is_guid(b@),
    {
        self.digits.as_slice()
    }
}

} // verus!
