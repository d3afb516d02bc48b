//! Comment blocks.

pub mod tagged;

pub use crate::head::block::comment::ObjInfoBlock;

use vstd::prelude::*;

use crate::ascii::{is_ascii_bytes, AsciiString};
use crate::error::{decoded, Error, ErrorV};
use crate::function::{decode_ascii_text, push_all, LF};
use crate::head::meta::comment::{comment_meta_spec, text_line_bytes};

verus! {

/// ## Syntax
///
/// ```plaintext
/// <comment-block> :=
///     | <message> <newline>
///
/// <message> :=
///     | [{" "}] <ascii-string>
///
/// <newline> :=
///     | ["\r"] "\n"
/// ```
#[derive(Clone, Default, Debug, PartialEq, Eq, Hash, PartialOrd, Ord)]
pub struct CommentBlock {
    pub message: AsciiString,
}

impl View for CommentBlock {
    type V = Seq<u8>;

    open spec fn view(&self) -> Seq<u8> {
        self.message@
    }
}

impl CommentBlock {
    /// A comment block of the given message, when it is ASCII.
    pub fn new(message: &[u8]) -> (r: Result<Self, Error>)
        ensures
            match r {
                Ok(c) => is_ascii_bytes(message@) && c@ == message@,
                Err(e) => !is_ascii_bytes(message@) && e@ == ErrorV::InvalidAscii(crate::error::utf8_lossy(message@)),
            },
    {
        match AsciiString::from_slice(message) {
            Ok(message) => Ok(CommentBlock { message }),
            Err(bytes) => Err(Error::InvalidAscii(crate::error::lossy_text(bytes.as_slice()))),
        }
    }

    /// Reads a comment block from the front of `input` (see
    /// [`comment_meta_spec`]).
    pub fn decode(input: &[u8]) -> (r: Result<(Self, usize), Error>)
        ensures
            decoded(r) == comment_meta_spec(input@),
            r matches Ok((_, n)) ==> n <= input@.len(),
    {
        let (message, n) = decode_ascii_text(input, "<comment>")?;
        Ok((CommentBlock { message }, n))
    }

    /// Writes the message and a line end.
    pub fn encode(&self, out: &mut Vec<u8>)
        ensures
            final(out)@ == old(out)@ + text_line_bytes(self@),
    {
        push_all(out, self.message.as_bytes());
        out.push(LF);
        assert(final(out)@ =~= old(out)@ + text_line_bytes(self@));
    }
}

impl std::ops::Deref for CommentBlock {
    type Target = AsciiString;

    fn deref(&self) -> (r: &AsciiString)
        ensures
            r@ == self@,
    {
        &self.message
    }
}

} // verus!
