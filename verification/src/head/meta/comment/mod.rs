//! Comment metas of a head.

pub mod obj_info;

pub use obj_info::ObjInfoMeta;

use vstd::prelude::*;

use crate::ascii::{is_ascii_bytes, AsciiString};
use crate::error::{decoded, Error, ErrorV};
use crate::function::{
    ascii_text_spec, decode_ascii_text, is_clean_text, lemma_text_field_clean, push_all, LF,
};

verus! {

/// ## Syntax
///
/// ```plaintext
/// <comment-meta> :=
///     | [{" "}] <comment> <newline>
///
/// <comment> :=
///     | <ascii-string>
///
/// <newline> :=
///     | ["\r"] "\n"
/// ```
#[derive(Clone, Debug, Default, PartialEq, Eq, Hash, PartialOrd, Ord)]
pub struct CommentMeta {
    inner: AsciiString,
}

impl View for CommentMeta {
    type V = Seq<u8>;

    closed spec fn view(&self) -> Seq<u8> {
        self.inner@
    }
}

/// The bytes of a text followed by a line end.
pub open spec fn text_line_bytes(t: Seq<u8>) -> Seq<u8> {
    t + seq![LF]
}

/// The comment meta read by [`CommentMeta::decode`] from the front of `s`.
pub open spec fn comment_meta_spec(s: Seq<u8>) -> Result<(Seq<u8>, int), ErrorV> {
    ascii_text_spec(s, "<comment>")
}

/// A text that a line holds and gives back whole: clean and ASCII.
pub open spec fn is_line_text(t: Seq<u8>) -> bool {
    is_clean_text(t) && is_ascii_bytes(t)
}

impl CommentMeta {
    /// A comment of the given bytes, when they are ASCII.
    pub fn new(inner: &[u8]) -> (r: Result<Self, Error>)
        ensures
            match r {
                Ok(c) => is_ascii_bytes(inner@) && c@ == inner@,
                Err(e) => !is_ascii_bytes(inner@) && e@ == ErrorV::InvalidAscii(crate::error::utf8_lossy(inner@)),
            },
    {
        match AsciiString::from_slice(inner) {
            Ok(inner) => Ok(CommentMeta { inner }),
            Err(bytes) => Err(Error::InvalidAscii(crate::error::lossy_text(bytes.as_slice()))),
        }
    }

    /// The comment, taken out.
    pub fn into_inner(self) -> (r: AsciiString)
        ensures
            r@ == self@,
    {
        self.inner
    }

    /// The comment.
    pub fn as_ascii(&self) -> (r: &AsciiString)
        ensures
            r@ == self@,
    {
        &self.inner
    }

    /// The number of bytes of the comment.
    pub fn len(&self) -> (r: usize)
        ensures
            r == self@.len(),
    {
        self.inner.len()
    }

    /// Reads a comment from the front of `input`, up to the end of its line.
    pub fn decode(input: &[u8]) -> (r: Result<(Self, usize), Error>)
        ensures
            decoded(r) == comment_meta_spec(input@),
            r matches Ok((_, n)) ==> n <= input@.len(),
    {
        match decode_ascii_text(input, "<comment>") {
            Ok((inner, n)) => Ok((CommentMeta { inner }, n)),
            Err(e) => Err(e),
        }
    }

    /// Writes the comment and a line end.
    pub fn encode(&self, out: &mut Vec<u8>)
        ensures
            final(out)@ == old(out)@ + text_line_bytes(self@),
    {
        push_all(out, self.inner.as_bytes());
        out.push(LF);
        assert(final(out)@ =~= old(out)@ + text_line_bytes(self@));
    }
}

impl vstd::std_specs::convert::FromSpecImpl<AsciiString> for CommentMeta {
    open spec fn obeys_from_spec() -> bool {
        true
    }

    closed spec fn from_spec(inner: AsciiString) -> Self {
        CommentMeta { inner }
    }
}

impl From<AsciiString> for CommentMeta {
    fn from(inner: AsciiString) -> (r: Self)
        ensures
            r@ == inner@,
    {
        CommentMeta { inner }
    }
}

/// A comment that is a line text reads back as itself from its encoding,
/// whatever follows.
pub proof fn lemma_comment_meta_roundtrip(t: Seq<u8>, rest: Seq<u8>)
    requires
        is_line_text(t),
    ensures
        comment_meta_spec(text_line_bytes(t) + rest) == Ok::<(Seq<u8>, int), ErrorV>(
            (t, text_line_bytes(t).len() as int),
        ),
{
    lemma_text_field_clean(t, rest);
    assert(text_line_bytes(t) + rest =~= t + seq![LF] + rest);
}

} // verus!
