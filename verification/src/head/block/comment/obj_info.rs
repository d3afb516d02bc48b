//! Object information blocks of a head.

use vstd::prelude::*;

use crate::ascii::AsciiString;
use crate::error::{decoded, Error, ErrorV};
use crate::function::{ascii_text_spec, decode_ascii_text, push_all, LF};
use crate::head::meta::comment::text_line_bytes;

verus! {

/// ## Syntax
///
/// ```plaintext
/// <obj_info-block> :=
///     | [{" "}] <message> <newline>
///
/// <message> :=
///     | <ascii-string>
///
/// <newline> :=
///     | ["\r"] "\n"
/// ```
#[derive(Clone, Debug, PartialEq, Eq, Hash, PartialOrd, Ord)]
pub struct ObjInfoBlock {
    pub message: AsciiString,
}

impl View for ObjInfoBlock {
    type V = Seq<u8>;

    open spec fn view(&self) -> Seq<u8> {
        self.message@
    }
}

/// The object information block read by [`ObjInfoBlock::decode`] from the
/// front of `s`.
pub open spec fn obj_info_block_spec(s: Seq<u8>) -> Result<(Seq<u8>, int), ErrorV> {
    ascii_text_spec(s, "<message>")
}

impl ObjInfoBlock {
    /// Reads an object information block from the front of `input`, up to
    /// the end of its line.
    pub fn decode(input: &[u8]) -> (r: Result<(Self, usize), Error>)
        ensures
            decoded(r) == obj_info_block_spec(input@),
            r matches Ok((_, n)) ==> n <= input@.len(),
    {
        let (message, n) = decode_ascii_text(input, "<message>")?;
        Ok((ObjInfoBlock { message }, n))
    }

    /// Writes the message and a line end.
    pub fn encode(&self, out: &mut Vec<u8>)
        ensures
            final(out)@ == old(out)@ + text_line_bytes(self@),
    {
        push_all(out, self.message.as_bytes());
        out.push(LF);
        assert(final(out)@ =~= old(out)@ + text_line_bytes(self@));
    }
}

/// An object information block whose message is a line text reads back
/// as itself from its encoding, whatever follows.
pub proof fn lemma_obj_info_block_roundtrip(t: Seq<u8>, rest: Seq<u8>)
    requires
        crate::head::meta::comment::is_line_text(t),
    ensures
        obj_info_block_spec(text_line_bytes(t) + rest) == Ok::<(Seq<u8>, int), ErrorV>(
            (t, text_line_bytes(t).len() as int),
        ),
{
    crate::function::lemma_ascii_text_clean(t, rest, "<message>");
    assert(text_line_bytes(t) + rest =~= t + seq![LF] + rest);
}

} // verus!
