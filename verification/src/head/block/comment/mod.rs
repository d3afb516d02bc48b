//! Comment blocks of a head.

pub mod obj_info;

pub use obj_info::ObjInfoBlock;

use vstd::prelude::*;

use crate::ascii::AsciiString;
use crate::error::{decoded, Error, ErrorV};
use crate::function::{ascii_text_spec, decode_ascii_text, push_all, LF};
use crate::head::meta::comment::{is_line_text, text_line_bytes};

verus! {

/// ## Syntax
///
/// ```plaintext
/// <comment-block> :=
///     | [{" "}] <message> <newline>
///
/// <message> :=
///     | <ascii-string>
///
/// <newline> :=
///     | ["\r"] "\n"
/// ```
#[derive(Clone, Debug, PartialEq, Eq, Hash, PartialOrd, Ord)]
pub struct CommentBlock {
    pub message: AsciiString,
}

impl View for CommentBlock {
    type V = Seq<u8>;

    open spec fn view(&self) -> Seq<u8> {
        self.message@
    }
}

/// The comment block read by [`CommentBlock::decode`] from the front of `s`.
pub open spec fn comment_block_spec(s: Seq<u8>) -> Result<(Seq<u8>, int), ErrorV> {
    ascii_text_spec(s, "<message>")
}

impl CommentBlock {
    /// Reads a comment block from the front of `input`, up to the end of
    /// its line.
    pub fn decode(input: &[u8]) -> (r: Result<(Self, usize), Error>)
        ensures
            decoded(r) == comment_block_spec(input@),
            r matches Ok((_, n)) ==> n <= input@.len(),
    {
        let (message, n) = decode_ascii_text(input, "<message>")?;
        Ok((CommentBlock { message }, n))
    }

    /// Writes the message and a line end.
    pub fn encode(&self, out: &mut Vec<u8>)
        ensures
            final(out)@ == old(out)@ + text_line_bytes(self@),
    {
        push_all(out, self.message.as_bytes());
        out.push(LF);
        assert(final(out)@ =~= old(out)@ + text_line_bytes(self@));
    }
}

impl Default for CommentBlock {
    fn default() -> (r: Self)
        ensures
            r@ == crate::keyword::kw_default(),
    {
        let b = crate::keyword::kw_default_bytes();
        let message = match AsciiString::from_slice(&b) {
            Ok(m) => m,
            Err(_) => {
                assert(false);
                AsciiString::new()
            },
        };
        CommentBlock { message }
    }
}

/// A comment block whose message is a line text reads back as itself from
/// its encoding, whatever follows.
pub proof fn lemma_comment_block_roundtrip(t: Seq<u8>, rest: Seq<u8>)
    requires
        is_line_text(t),
    ensures
        comment_block_spec(text_line_bytes(t) + rest) == Ok::<(Seq<u8>, int), ErrorV>(
            (t, text_line_bytes(t).len() as int),
        ),
{
    crate::function::lemma_ascii_text_clean(t, rest, "<message>");
    assert(text_line_bytes(t) + rest =~= t + seq![LF] + rest);
}

} // verus!
