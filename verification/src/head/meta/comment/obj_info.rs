//! Object information metas of a head.

use vstd::prelude::*;

use crate::ascii::{is_ascii_bytes, AsciiString};
use crate::error::{decoded, Error, ErrorV};
use crate::function::{ascii_text_spec, decode_ascii_text, push_all, LF};

use super::text_line_bytes;

verus! {

/// ## Syntax
///
/// ```plaintext
/// <obj_info-meta> :=
///     | [{" "}] <obj_info> <newline>
///
/// <obj_info> :=
///     | <ascii-string>
/// ```
#[derive(Clone, Debug, Default, PartialEq, Eq, Hash, PartialOrd, Ord)]
pub struct ObjInfoMeta {
    inner: AsciiString,
}

impl View for ObjInfoMeta {
    type V = Seq<u8>;

    closed spec fn view(&self) -> Seq<u8> {
        self.inner@
    }
}

/// The object information read by [`ObjInfoMeta::decode`] from the front of `s`.
pub open spec fn obj_info_meta_spec(s: Seq<u8>) -> Result<(Seq<u8>, int), ErrorV> {
    ascii_text_spec(s, "<obj_info>")
}

impl ObjInfoMeta {
    /// An object information of the given bytes, when they are ASCII.
    pub fn new(inner: &[u8]) -> (r: Result<Self, Error>)
        ensures
            match r {
                Ok(c) => is_ascii_bytes(inner@) && c@ == inner@,
                Err(e) => !is_ascii_bytes(inner@) && e@ == ErrorV::InvalidAscii(crate::error::utf8_lossy(inner@)),
            },
    {
        match AsciiString::from_slice(inner) {
            Ok(inner) => Ok(ObjInfoMeta { inner }),
            Err(bytes) => Err(Error::InvalidAscii(crate::error::lossy_text(bytes.as_slice()))),
        }
    }

    /// The object information, taken out.
    pub fn into_inner(self) -> (r: AsciiString)
        ensures
            r@ == self@,
    {
        self.inner
    }

    /// The object information.
    pub fn as_ascii(&self) -> (r: &AsciiString)
        ensures
            r@ == self@,
    {
        &self.inner
    }

    /// Reads an object information from the front of `input`.
    pub fn decode(input: &[u8]) -> (r: Result<(Self, usize), Error>)
        ensures
            decoded(r) == obj_info_meta_spec(input@),
            r matches Ok((_, n)) ==> n <= input@.len(),
    {
        match decode_ascii_text(input, "<obj_info>") {
            Ok((inner, n)) => Ok((ObjInfoMeta { inner }, n)),
            Err(e) => Err(e),
        }
    }

    /// Writes the object information and a line end.
    pub fn encode(&self, out: &mut Vec<u8>)
        ensures
            final(out)@ == old(out)@ + text_line_bytes(self@),
    {
        push_all(out, self.inner.as_bytes());
        out.push(LF);
        assert(final(out)@ =~= old(out)@ + text_line_bytes(self@));
    }
}

} // verus!
