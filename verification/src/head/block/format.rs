//! The format block of a head.

use vstd::prelude::*;

use crate::ascii::AsciiString;
use crate::error::{decoded, Error, ErrorV};
use crate::function::{
    ascii_text_spec, bytes_eq, decode_ascii_text, holds_at, push_all, read_word, tail,
    word_field, FieldGap, LF, SPACE,
};
use crate::keyword::{
    kw_ascii, kw_ascii_bytes, kw_binary_big_endian, kw_binary_big_endian_bytes,
    kw_binary_little_endian, kw_binary_little_endian_bytes, kw_format_, kw_format__bytes,
};

verus! {

/// ## Syntax
///
/// ```plaintext
/// <format-block> :=
///     | "format " <format-variant> [{" "}] <version> <newline>
///
/// <version> :=
///     | <ascii-string>
///
/// <newline> :=
///     | ["\r"] "\n"
/// ```
#[derive(Clone, Debug, PartialEq, Eq, Hash, PartialOrd, Ord)]
pub struct FormatBlock {
    pub variant: FormatVariant,
    pub version: AsciiString,
}

/// ## Syntax
///
/// ```plaintext
/// <format-variant> :=
///     | [{" "}] <format> " "
///
/// <format> :=
///     | "ascii"
///     | "binary_big_endian"
///     | "binary_little_endian"
/// ```
#[derive(Clone, Copy, Debug, PartialEq, Eq, Structural, Hash, PartialOrd, Ord)]
pub enum FormatVariant {
    Ascii,
    BinaryBigEndian,
    BinaryLittleEndian,
}

impl View for FormatVariant {
    type V = FormatVariant;

    open spec fn view(&self) -> FormatVariant {
        *self
    }
}

impl View for FormatBlock {
    type V = (FormatVariant, Seq<u8>);

    open spec fn view(&self) -> (FormatVariant, Seq<u8>) {
        (self.variant, self.version@)
    }
}

/// The name of a format variant.
pub open spec fn format_block_variant_name(v: FormatVariant) -> Seq<u8> {
    match v {
        FormatVariant::Ascii => kw_ascii(),
        FormatVariant::BinaryBigEndian => kw_binary_big_endian(),
        FormatVariant::BinaryLittleEndian => kw_binary_little_endian(),
    }
}

/// The format variant read by [`FormatVariant::decode`] from the front of `s`.
pub open spec fn format_variant_spec(s: Seq<u8>) -> Result<(FormatVariant, int), ErrorV> {
    match word_field(s) {
        Err(FieldGap::Missing) => Err(ErrorV::MissingToken("<format-variant>")),
        Err(FieldGap::Eof) => Err(ErrorV::UnexpectedEof),
        Ok((w, n)) => if w == kw_binary_little_endian() {
            Ok((FormatVariant::BinaryLittleEndian, n))
        } else if w == kw_ascii() {
            Ok((FormatVariant::Ascii, n))
        } else if w == kw_binary_big_endian() {
            Ok((FormatVariant::BinaryBigEndian, n))
        } else {
            Err(ErrorV::InvalidPolygonFormatVariant(crate::error::utf8_lossy(w)))
        },
    }
}

/// The format block read by [`FormatBlock::decode`] from the front of `s`.
pub open spec fn format_block_spec(s: Seq<u8>) -> Result<((FormatVariant, Seq<u8>), int), ErrorV> {
    if s.len() < 7 {
        Err(ErrorV::UnexpectedEof)
    } else if s.subrange(0, 7) != kw_format_() {
        Err(ErrorV::MissingToken("format "))
    } else {
        match format_variant_spec(s.subrange(7, s.len() as int)) {
            Err(e) => Err(e),
            Ok((v, n)) => match ascii_text_spec(s.subrange(7 + n, s.len() as int), "<version>") {
                Err(e) => Err(e),
                Ok((version, m)) => Ok(((v, version), 7 + n + m)),
            },
        }
    }
}

/// The bytes that [`FormatBlock::encode`] writes.
pub open spec fn format_block_bytes(f: (FormatVariant, Seq<u8>)) -> Seq<u8> {
    kw_format_() + format_block_variant_name(f.0) + seq![SPACE] + f.1 + seq![LF]
}

impl FormatVariant {
    /// Reads a format variant from the front of `input`.
    pub fn decode(input: &[u8]) -> (r: Result<(Self, usize), Error>)
        ensures
            decoded(r) == format_variant_spec(input@),
            r matches Ok((_, n)) ==> n <= input@.len(),
    {
        match read_word(input) {
            Err(FieldGap::Missing) => Err(Error::MissingToken("<format-variant>")),
            Err(FieldGap::Eof) => Err(Error::UnexpectedEof),
            Ok((w, n)) => {
                if bytes_eq(w.as_slice(), &kw_binary_little_endian_bytes()) {
                    Ok((FormatVariant::BinaryLittleEndian, n))
                } else if bytes_eq(w.as_slice(), &kw_ascii_bytes()) {
                    Ok((FormatVariant::Ascii, n))
                } else if bytes_eq(w.as_slice(), &kw_binary_big_endian_bytes()) {
                    Ok((FormatVariant::BinaryBigEndian, n))
                } else {
                    Err(Error::InvalidPolygonFormatVariant(crate::error::lossy_text(w.as_slice())))
                }
            },
        }
    }

    /// Writes the name of the variant and a space.
    pub fn encode(&self, out: &mut Vec<u8>)
        ensures
            final(out)@ == old(out)@ + format_block_variant_name(*self) + seq![SPACE],
    {
        match self {
            FormatVariant::Ascii => push_all(out, &kw_ascii_bytes()),
            FormatVariant::BinaryBigEndian => push_all(out, &kw_binary_big_endian_bytes()),
            FormatVariant::BinaryLittleEndian => push_all(out, &kw_binary_little_endian_bytes()),
        }
        out.push(SPACE);
    }
}

impl Default for FormatVariant {
    fn default() -> (r: Self)
        ensures
            r == FormatVariant::Ascii,
    {
        FormatVariant::Ascii
    }
}

impl FormatBlock {
    /// Reads a format block from the front of `input`: the keyword
    /// `"format "`, the variant and the version.
    pub fn decode(input: &[u8]) -> (r: Result<(Self, usize), Error>)
        ensures
            decoded(r) == format_block_spec(input@),
            r matches Ok((_, n)) ==> n <= input@.len(),
    {
        if input.len() < 7 {
            return Err(Error::UnexpectedEof);
        }
        if !holds_at(input, 0, &kw_format__bytes()) {
            return Err(Error::MissingToken("format "));
        }
        let rest = tail(input, 7);
        let (variant, n) = FormatVariant::decode(rest)?;
        proof {
            crate::function::lemma_word_field_bound(rest@);
            assert(rest@.subrange(n as int, rest@.len() as int) =~= input@.subrange(
                7 + n,
                input@.len() as int,
            ));
        }
        let (version, m) = decode_ascii_text(tail(rest, n), "<version>")?;
        proof {
            crate::function::lemma_text_field_bound(rest@.subrange(n as int, rest@.len() as int));
        }
        Ok((FormatBlock { variant, version }, 7 + n + m))
    }

    /// Writes the keyword `"format "`, the variant, the version and a line
    /// end.
    pub fn encode(&self, out: &mut Vec<u8>)
        ensures
            final(out)@ == old(out)@ + format_block_bytes(self@),
    {
        push_all(out, &kw_format__bytes());
        self.variant.encode(out);
        push_all(out, self.version.as_bytes());
        out.push(LF);
        assert(final(out)@ =~= old(out)@ + format_block_bytes(self@));
    }
}

impl Default for FormatBlock {
    fn default() -> (r: Self)
        ensures
            r@ == (FormatVariant::Ascii, crate::head::meta::format::default_version()),
    {
        FormatBlock {
            variant: FormatVariant::Ascii,
            version: crate::head::meta::format::default_version_ascii(),
        }
    }
}

/// The name of a format variant is a word: not empty, no space.
pub proof fn lemma_format_variant_name_clean(v: FormatVariant)
    ensures
        crate::function::is_clean_word(format_block_variant_name(v)),
{
    assert(forall|i: int| 0 <= i < kw_ascii().len() ==> kw_ascii()[i] != SPACE);
    assert(forall|i: int| 0 <= i < kw_binary_big_endian().len() ==> kw_binary_big_endian()[i] != SPACE);
    assert(forall|i: int|
        0 <= i < kw_binary_little_endian().len() ==> kw_binary_little_endian()[i] != SPACE);
}

/// A format block whose version is a line text reads back as itself from
/// its encoding, whatever follows.
pub proof fn lemma_format_block_roundtrip(f: (FormatVariant, Seq<u8>), rest: Seq<u8>)
    requires
        crate::head::meta::comment::is_line_text(f.1),
    ensures
        format_block_spec(format_block_bytes(f) + rest) == Ok::<((FormatVariant, Seq<u8>), int), ErrorV>(
            (f, format_block_bytes(f).len() as int),
        ),
{
    let s = format_block_bytes(f) + rest;
    let name = format_block_variant_name(f.0);
    let after = f.1 + seq![LF] + rest;
    assert(s.subrange(0, 7) =~= kw_format_());
    assert(s.subrange(7, s.len() as int) =~= name + seq![SPACE] + after);
    lemma_format_variant_name_clean(f.0);
    crate::function::lemma_word_field_clean(name, after);
    assert(s.subrange(7 + name.len() + 1int, s.len() as int) =~= after);
    crate::function::lemma_ascii_text_clean(f.1, rest, "<version>");
}

} // verus!
