//! The format meta of a head.

use vstd::prelude::*;

use crate::ascii::AsciiString;
use crate::error::{Error, ErrorV};
use crate::function::{
    ascii_text_spec, bytes_eq, decode_ascii_text, holds_at, is_clean_word, lemma_text_field_clean,
    lemma_word_field_clean, push_all, read_word, tail, word_field, FieldGap, LF, SPACE,
};
use crate::keyword::{
    kw_ascii, kw_ascii_bytes, kw_binary_big_endian, kw_binary_big_endian_bytes,
    kw_binary_little_endian, kw_binary_little_endian_bytes, kw_format_, kw_format__bytes,
};

verus! {

/// ## Syntax
///
/// ```plaintext
/// <format-meta> :=
///     | "format " <format-meta-variant> [{" "}] <version> <newline>
///
/// <version> :=
///     | <ascii-string>
///
/// <newline> :=
///     | ["\r"] "\n"
/// ```
#[derive(Clone, Debug, PartialEq, Eq, Hash, PartialOrd, Ord)]
pub struct FormatMeta {
    pub variant: FormatMetaVariant,
    pub version: AsciiString,
}

/// ## Syntax
///
/// ```plaintext
/// <format-meta-variant> :=
///     | [{" "}] <format> " "
///
/// <format> :=
///     | "ascii"
///     | "binary_big_endian"
///     | "binary_little_endian"
/// ```
#[derive(Clone, Copy, Debug, PartialEq, Eq, Structural, Hash, PartialOrd, Ord)]
pub enum FormatMetaVariant {
    Ascii,
    BinaryBigEndian,
    BinaryLittleEndian,
}

impl View for FormatMetaVariant {
    type V = FormatMetaVariant;

    open spec fn view(&self) -> FormatMetaVariant {
        *self
    }
}

impl View for FormatMeta {
    type V = (FormatMetaVariant, Seq<u8>);

    open spec fn view(&self) -> (FormatMetaVariant, Seq<u8>) {
        (self.variant, self.version@)
    }
}

/// The name of a format variant.
pub open spec fn format_variant_name(v: FormatMetaVariant) -> Seq<u8> {
    match v {
        FormatMetaVariant::Ascii => kw_ascii(),
        FormatMetaVariant::BinaryBigEndian => kw_binary_big_endian(),
        FormatMetaVariant::BinaryLittleEndian => kw_binary_little_endian(),
    }
}

/// The format variant of a name.
pub open spec fn format_variant_of_name(w: Seq<u8>) -> Option<FormatMetaVariant> {
    if w == kw_binary_little_endian() {
        Some(FormatMetaVariant::BinaryLittleEndian)
    } else if w == kw_ascii() {
        Some(FormatMetaVariant::Ascii)
    } else if w == kw_binary_big_endian() {
        Some(FormatMetaVariant::BinaryBigEndian)
    } else {
        None
    }
}

/// The format variant read by [`FormatMetaVariant::decode`] from the front of `s`.
pub open spec fn format_meta_variant_spec(s: Seq<u8>) -> Result<(FormatMetaVariant, int), ErrorV> {
    match word_field(s) {
        Err(FieldGap::Missing) => Err(ErrorV::MissingToken("<format-meta-variant>")),
        Err(FieldGap::Eof) => Err(ErrorV::UnexpectedEof),
        Ok((w, n)) => match format_variant_of_name(w) {
            Some(v) => Ok((v, n)),
            None => Err(ErrorV::InvalidPolygonFormatMetaVariant(crate::error::utf8_lossy(w))),
        },
    }
}

/// The format meta read by [`FormatMeta::decode`] from the front of `s`.
pub open spec fn format_meta_spec(s: Seq<u8>) -> Result<((FormatMetaVariant, Seq<u8>), int), ErrorV> {
    if s.len() < 7 {
        Err(ErrorV::UnexpectedEof)
    } else if s.subrange(0, 7) != kw_format_() {
        Err(ErrorV::MissingToken("format "))
    } else {
        match format_meta_variant_spec(s.subrange(7, s.len() as int)) {
            Err(e) => Err(e),
            Ok((v, n)) => match ascii_text_spec(s.subrange(7 + n, s.len() as int), "<version>") {
                Err(e) => Err(e),
                Ok((version, m)) => Ok(((v, version), 7 + n + m)),
            },
        }
    }
}

/// The bytes that [`FormatMetaVariant::encode`] writes.
pub open spec fn format_meta_variant_bytes(v: FormatMetaVariant) -> Seq<u8> {
    format_variant_name(v) + seq![SPACE]
}

/// The bytes that [`FormatMeta::encode`] writes.
pub open spec fn format_meta_bytes(f: (FormatMetaVariant, Seq<u8>)) -> Seq<u8> {
    kw_format_() + format_meta_variant_bytes(f.0) + f.1 + seq![LF]
}

impl FormatMetaVariant {
    /// Whether this is the ASCII format.
    pub fn is_ascii(&self) -> (r: bool)
        ensures
            r == (*self == FormatMetaVariant::Ascii),
    {
        matches!(self, FormatMetaVariant::Ascii)
    }

    /// Whether this is the big-endian binary format.
    pub fn is_binary_big_endian(&self) -> (r: bool)
        ensures
            r == (*self == FormatMetaVariant::BinaryBigEndian),
    {
        matches!(self, FormatMetaVariant::BinaryBigEndian)
    }

    /// Whether this is the little-endian binary format.
    pub fn is_binary_little_endian(&self) -> (r: bool)
        ensures
            r == (*self == FormatMetaVariant::BinaryLittleEndian),
    {
        matches!(self, FormatMetaVariant::BinaryLittleEndian)
    }

    /// Reads a format variant from the front of `input`.
    pub fn decode(input: &[u8]) -> (r: Result<(Self, usize), Error>)
        ensures
            crate::error::decoded(r) == format_meta_variant_spec(input@),
            r matches Ok((_, n)) ==> n <= input@.len(),
    {
        match read_word(input) {
            Err(FieldGap::Missing) => Err(Error::MissingToken("<format-meta-variant>")),
            Err(FieldGap::Eof) => Err(Error::UnexpectedEof),
            Ok((w, n)) => {
                if bytes_eq(w.as_slice(), &kw_binary_little_endian_bytes()) {
                    Ok((FormatMetaVariant::BinaryLittleEndian, n))
                } else if bytes_eq(w.as_slice(), &kw_ascii_bytes()) {
                    Ok((FormatMetaVariant::Ascii, n))
                } else if bytes_eq(w.as_slice(), &kw_binary_big_endian_bytes()) {
                    Ok((FormatMetaVariant::BinaryBigEndian, n))
                } else {
                    Err(Error::InvalidPolygonFormatMetaVariant(crate::error::lossy_text(w.as_slice())))
                }
            },
        }
    }

    /// Writes the name of the variant and a space.
    pub fn encode(&self, out: &mut Vec<u8>)
        ensures
            final(out)@ == old(out)@ + format_meta_variant_bytes(*self),
    {
        match self {
            FormatMetaVariant::BinaryLittleEndian => push_all(out, &kw_binary_little_endian_bytes()),
            FormatMetaVariant::Ascii => push_all(out, &kw_ascii_bytes()),
            FormatMetaVariant::BinaryBigEndian => push_all(out, &kw_binary_big_endian_bytes()),
        }
        out.push(SPACE);
        assert(final(out)@ =~= old(out)@ + format_meta_variant_bytes(*self));
    }
}

impl Default for FormatMetaVariant {
    fn default() -> (r: Self)
        ensures
            r == FormatMetaVariant::Ascii,
    {
        FormatMetaVariant::Ascii
    }
}

/// `"1.0"`: the version of a default format.
pub open spec fn default_version() -> Seq<u8> {
    seq![0x31u8, 0x2e, 0x30]
}

/// The version `"1.0"`.
pub fn default_version_ascii() -> (r: AsciiString)
    ensures
        r@ == default_version(),
{
    let b = [0x31u8, 0x2e, 0x30];
    assert(b@ =~= default_version());
    match AsciiString::from_slice(&b) {
        Ok(v) => v,
        Err(_) => {
            assert(false);
            AsciiString::new()
        },
    }
}

impl FormatMeta {
    /// Reads a format meta from the front of `input`: the keyword
    /// `"format "`, the variant and the version.
    pub fn decode(input: &[u8]) -> (r: Result<(Self, usize), Error>)
        ensures
            crate::error::decoded(r) == format_meta_spec(input@),
            r matches Ok((_, n)) ==> n <= input@.len(),
    {
        if input.len() < 7 {
            return Err(Error::UnexpectedEof);
        }
        if !holds_at(input, 0, &kw_format__bytes()) {
            return Err(Error::MissingToken("format "));
        }
        let rest = tail(input, 7);
        let (variant, n) = FormatMetaVariant::decode(rest)?;
        proof {
            crate::function::lemma_word_field_bound(rest@);
            assert(rest@.subrange(n as int, rest@.len() as int) =~= input@.subrange(
                7 + n,
                input@.len() as int,
            ));
        }
        let (version, m) = decode_ascii_text(tail(rest, n), "<version>")?;
        proof {
            crate::function::lemma_text_field_bound(rest@.subrange(n as int, rest@.len() as int));
        }
        Ok((FormatMeta { variant, version }, 7 + n + m))
    }

    /// Writes the keyword `"format "`, the variant, the version and a line end.
    pub fn encode(&self, out: &mut Vec<u8>)
        ensures
            final(out)@ == old(out)@ + format_meta_bytes(self@),
    {
        push_all(out, &kw_format__bytes());
        self.variant.encode(out);
        push_all(out, self.version.as_bytes());
        out.push(LF);
        assert(final(out)@ =~= old(out)@ + format_meta_bytes(self@));
    }
}

impl Default for FormatMeta {
    fn default() -> (r: Self)
        ensures
            r@ == (FormatMetaVariant::Ascii, default_version()),
    {
        FormatMeta { variant: FormatMetaVariant::Ascii, version: default_version_ascii() }
    }
}

/// A format whose encoding reads back as itself: its version is clean ASCII
/// text.
pub open spec fn is_clean_format(f: (FormatMetaVariant, Seq<u8>)) -> bool {
    crate::head::meta::comment::is_line_text(f.1)
}

/// A clean format reads back as itself from its encoding, whatever follows.
pub proof fn lemma_format_meta_roundtrip(f: (FormatMetaVariant, Seq<u8>), rest: Seq<u8>)
    requires
        is_clean_format(f),
    ensures
        format_meta_spec(format_meta_bytes(f) + rest) == Ok::<((FormatMetaVariant, Seq<u8>), int), ErrorV>(
            (f, format_meta_bytes(f).len() as int),
        ),
{
    let s = format_meta_bytes(f) + rest;
    let name = format_variant_name(f.0);
    let after = f.1 + seq![LF] + rest;
    assert(s.subrange(0, 7) =~= kw_format_());
    assert(s.subrange(7, s.len() as int) =~= name + seq![SPACE] + after);
    assert(is_clean_word(name)) by {
        assert(forall|i: int| 0 <= i < kw_ascii().len() ==> kw_ascii()[i] != SPACE);
        assert(forall|i: int| 0 <= i < kw_binary_big_endian().len() ==> kw_binary_big_endian()[i] != SPACE);
        assert(forall|i: int| 0 <= i < kw_binary_little_endian().len() ==> kw_binary_little_endian()[i] != SPACE);
    }
    lemma_word_field_clean(name, after);
    assert(format_variant_of_name(name) == Some(f.0));
    assert(s.subrange(7 + name.len() + 1int, s.len() as int) =~= after);
    lemma_text_field_clean(f.1, rest);
}

} // verus!
