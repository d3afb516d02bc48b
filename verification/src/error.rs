//! The error type shared by every decoder and encoder of the library.

use vstd::prelude::*;

verus! {

/// Everything that can go wrong while reading or writing a polygon file.
///
/// Payloads made from input bytes hold the text of those bytes, with each
/// sequence that is not UTF-8 replaced by U+FFFD (see [`lossy_text`]).
#[derive(Clone, Debug, PartialEq, Eq)]
pub enum Error {
    /// The input ended before a token was complete.
    UnexpectedEof,
    /// A token that the grammar asks for is missing.
    MissingToken(&'static str),
    /// A symbol that the grammar asks for is missing.
    MissingSymbol(&'static str),
    /// The bytes are not all ASCII.
    InvalidAscii(String),
    /// The bytes are not valid UTF-8.
    InvalidUtf8(String),
    /// The bytes are not a decimal integer that fits its type.
    ParseInt(String),
    /// An unknown keyword at the start of a header line.
    InvalidPolygonKeyword(String),
    /// An unknown format variant of a format block.
    InvalidPolygonFormatVariant(String),
    /// An unknown format variant of a format meta.
    InvalidPolygonFormatMetaVariant(String),
    /// A property kind that the domain does not hold, or that is reserved.
    InvalidPolygonPropertyKind(String),
    /// An unknown kind where a format variant was expected (older block grammar).
    UnknownPolygonPropertyKind(String),
    /// A property kind whose size is unknown, or a list where a scalar is needed.
    InvalidKind(String),
    /// Data shorter than the header says: the end that a datum needs, the
    /// length that the element's records need, and which record it was.
    OutOfBounds(usize, usize, String),
}

/// The mathematical value of an [`Error`]: payload texts become sequences of
/// characters.
pub enum ErrorV {
    UnexpectedEof,
    MissingToken(&'static str),
    MissingSymbol(&'static str),
    InvalidAscii(Seq<char>),
    InvalidUtf8(Seq<char>),
    ParseInt(Seq<char>),
    InvalidPolygonKeyword(Seq<char>),
    InvalidPolygonFormatVariant(Seq<char>),
    InvalidPolygonFormatMetaVariant(Seq<char>),
    InvalidPolygonPropertyKind(Seq<char>),
    UnknownPolygonPropertyKind(Seq<char>),
    InvalidKind(Seq<char>),
    OutOfBounds(int, int, Seq<char>),
}

impl View for Error {
    type V = ErrorV;

    open spec fn view(&self) -> ErrorV {
        match self {
            Error::UnexpectedEof => ErrorV::UnexpectedEof,
            Error::MissingToken(t) => ErrorV::MissingToken(*t),
            Error::MissingSymbol(t) => ErrorV::MissingSymbol(*t),
            Error::InvalidAscii(b) => ErrorV::InvalidAscii(b@),
            Error::InvalidUtf8(b) => ErrorV::InvalidUtf8(b@),
            Error::ParseInt(b) => ErrorV::ParseInt(b@),
            Error::InvalidPolygonKeyword(b) => ErrorV::InvalidPolygonKeyword(b@),
            Error::InvalidPolygonFormatVariant(b) => ErrorV::InvalidPolygonFormatVariant(b@),
            Error::InvalidPolygonFormatMetaVariant(b) => ErrorV::InvalidPolygonFormatMetaVariant(b@),
            Error::InvalidPolygonPropertyKind(b) => ErrorV::InvalidPolygonPropertyKind(b@),
            Error::UnknownPolygonPropertyKind(b) => ErrorV::UnknownPolygonPropertyKind(b@),
            Error::InvalidKind(b) => ErrorV::InvalidKind(b@),
            Error::OutOfBounds(a, b, t) => ErrorV::OutOfBounds(*a as int, *b as int, t@),
        }
    }
}

/// The text of some bytes with each sequence that is not UTF-8 replaced by
/// U+FFFD, as `String::from_utf8_lossy` makes it.
pub uninterp spec fn utf8_lossy(bytes: Seq<u8>) -> Seq<char>;

/// The text of `bytes`, each sequence that is not UTF-8 replaced by U+FFFD.
///
/// Calls `String::from_utf8_lossy`, which gives the text of the bytes with
/// each sequence that is not valid UTF-8 replaced by U+FFFD; its result is
/// named [`utf8_lossy`].
#[verifier::external_body]
pub(crate) fn lossy_text(bytes: &[u8]) -> (r: String)
    ensures
        r@ == utf8_lossy(bytes@),
{
    String::from_utf8_lossy(bytes).into_owned()
}

/// The value of a decoding result: the decoded value's view and the number
/// of bytes consumed, or the error's view.
pub open spec fn decoded<T: View>(r: Result<(T, usize), Error>) -> Result<(T::V, int), ErrorV> {
    match r {
        Ok((t, n)) => Ok((t@, n as int)),
        Err(e) => Err(e@),
    }
}

} // verus!
