//! ASCII strings: byte strings whose every byte is below 128.

use vstd::prelude::*;
use vstd::string::StringSliceAdditionalSpecFns;

verus! {

/// Whether every byte of `s` is an ASCII byte.
pub open spec fn is_ascii_bytes(s: Seq<u8>) -> bool {
    forall|i: int| 0 <= i < s.len() ==> #[trigger] s[i] < 128
}

/// A string of ASCII bytes.
#[derive(Debug, PartialEq, Eq, Hash, PartialOrd, Ord, Default)]
pub struct AsciiString {
    bytes: Vec<u8>,
}

impl View for AsciiString {
    type V = Seq<u8>;

    closed spec fn view(&self) -> Seq<u8> {
        self.bytes@
    }
}

impl AsciiString {
    #[verifier::type_invariant]
    pub(crate) open spec fn inv(self) -> bool {
        is_ascii_bytes(self@)
    }

    /// Takes the bytes as an ASCII string, or hands them back when one of
    /// them is not ASCII.
    pub fn from_bytes(bytes: Vec<u8>) -> (r: Result<AsciiString, Vec<u8>>)
        ensures
            match r {
                Ok(s) => is_ascii_bytes(bytes@) && s@ == bytes@,
                Err(b) => !is_ascii_bytes(bytes@) && b@ == bytes@,
            },
    {
        let mut i: usize = 0;
        while i < bytes.len()
            invariant
                i <= bytes@.len(),
                forall|k: int| 0 <= k < i ==> #[trigger] bytes@[k] < 128,
            decreases bytes@.len() - i,
        {
            if bytes[i] >= 128 {
                return Err(bytes);
            }
            i += 1;
        }
        Ok(AsciiString { bytes })
    }

    /// Copies the bytes of a slice as an ASCII string, or gives back a copy
    /// of them when one is not ASCII.
    pub fn from_slice(bytes: &[u8]) -> (r: Result<AsciiString, Vec<u8>>)
        ensures
            match r {
                Ok(s) => is_ascii_bytes(bytes@) && s@ == bytes@,
                Err(b) => !is_ascii_bytes(bytes@) && b@ == bytes@,
            },
    {
        AsciiString::from_bytes(vstd::slice::slice_to_vec(bytes))
    }

    /// The empty string.
    pub fn new() -> (r: AsciiString)
        ensures
            r@ == Seq::<u8>::empty(),
    {
        AsciiString { bytes: Vec::new() }
    }

    /// The bytes of the string.
    pub fn as_bytes(&self) -> (r: &[u8])
        ensures
            r@ == self@,
            is_ascii_bytes(r@),
    {
        proof {
            use_type_invariant(self);
        }
        self.bytes.as_slice()
    }

    /// The bytes of the string, taken out of it.
    pub fn into_bytes(self) -> (r: Vec<u8>)
        ensures
            r@ == self@,
            is_ascii_bytes(r@),
    {
        proof {
            use_type_invariant(&self);
        }
        self.bytes
    }

    /// The number of bytes.
    pub fn len(&self) -> (r: usize)
        ensures
            r == self@.len(),
    {
        self.bytes.len()
    }

    /// Whether the string is empty.
    pub fn is_empty(&self) -> (r: bool)
        ensures
            r == (self@.len() == 0),
    {
        self.bytes.len() == 0
    }

    /// Whether the bytes of the string equal `other`.
    pub fn eq_bytes(&self, other: &[u8]) -> (r: bool)
        ensures
            r == (self@ == other@),
    {
        crate::function::bytes_eq(self.bytes.as_slice(), other)
    }
}

/// The string slice of the given bytes, which are valid UTF-8.
fn utf8_as_str(bytes: &[u8]) -> (r: &str)
    requires
        vstd::utf8::valid_utf8(bytes@),
    ensures
        r.spec_bytes() == bytes@,
{
    match crate::function::str_from_utf8(bytes) {
        Some(s) => s,
        None => vstd::pervasive::unreached(),
    }
}

impl AsciiString {
    /// The string as a string slice.
    pub fn as_str(&self) -> (r: &str)
        ensures
            r.spec_bytes() == self@,
    {
        let b = self.as_bytes();
        proof {
            crate::function::lemma_ascii_valid_utf8(b@);
        }
        utf8_as_str(b)
    }
}

impl Clone for AsciiString {
    fn clone(&self) -> (r: Self)
        ensures
            r@ == self@,
    {
        proof {
            use_type_invariant(self);
        }
        AsciiString { bytes: vstd::slice::slice_to_vec(self.bytes.as_slice()) }
    }
}

} // verus!
