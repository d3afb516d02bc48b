//! The format line of a polygon file, and the byte order of the machine.

use vstd::prelude::*;

use crate::ascii::{is_ascii_bytes, AsciiString};
use crate::error::{decoded, Error, ErrorV};
use crate::function::{
    ascii_text_spec, bytes_eq, decode_ascii_text, holds_at, push_all, read_word, tail,
    word_field, FieldGap, LF, SPACE,
};
use crate::keyword::{
    kw_ascii, kw_ascii_bytes, kw_binary_big_endian, kw_binary_big_endian_bytes,
    kw_binary_little_endian, kw_binary_little_endian_bytes, kw_format_, kw_format__bytes,
};

verus! {

/// ## Syntax
///
/// ```plaintext
/// <format> :=
///     | "format " <format-variant> [{" "}] <version> <newline>
///
/// <version> :=
///     | <ascii-string>
///
/// <newline> :=
///     | ["\r"] "\n"
/// ```
#[derive(Clone, Debug, PartialEq, Eq, Hash, PartialOrd, Ord)]
pub struct Format {
    pub variant: FormatVariant,
    pub version: AsciiString,
}

/// ## Syntax
///
/// ```plaintext
/// <format-variant> :=
///     | [{" "}] <format-type> " "
///
/// <format-type> :=
///     | "ascii"
///     | "binary_big_endian"
///     | "binary_little_endian"
/// ```
#[derive(Clone, Copy, Debug, PartialEq, Eq, Structural, Hash, PartialOrd, Ord)]
pub enum FormatVariant {
    Ascii,
    BinaryBigEndian,
    BinaryLittleEndian,
}

impl View for FormatVariant {
    type V = FormatVariant;

    open spec fn view(&self) -> FormatVariant {
        *self
    }
}

impl View for Format {
    type V = (FormatVariant, Seq<u8>);

    open spec fn view(&self) -> (FormatVariant, Seq<u8>) {
        (self.variant, self.version@)
    }
}

/// The name of a format variant.
pub open spec fn variant_name(v: FormatVariant) -> Seq<u8> {
    match v {
        FormatVariant::Ascii => kw_ascii(),
        FormatVariant::BinaryBigEndian => kw_binary_big_endian(),
        FormatVariant::BinaryLittleEndian => kw_binary_little_endian(),
    }
}

/// The format variant read by [`FormatVariant::decode`] from the front of `s`.
pub open spec fn variant_spec(s: Seq<u8>) -> Result<(FormatVariant, int), ErrorV> {
    match word_field(s) {
        Err(FieldGap::Missing) => Err(ErrorV::MissingToken("<format-block-variant>")),
        Err(FieldGap::Eof) => Err(ErrorV::UnexpectedEof),
        Ok((w, n)) => if w == kw_binary_little_endian() {
            Ok((FormatVariant::BinaryLittleEndian, n))
        } else if w == kw_ascii() {
            Ok((FormatVariant::Ascii, n))
        } else if w == kw_binary_big_endian() {
            Ok((FormatVariant::BinaryBigEndian, n))
        } else {
            Err(ErrorV::InvalidPolygonFormatVariant(crate::error::utf8_lossy(w)))
        },
    }
}

/// The format read by [`Format::decode`] from the front of `s`.
pub open spec fn format_spec(s: Seq<u8>) -> Result<((FormatVariant, Seq<u8>), int), ErrorV> {
    if s.len() < 7 {
        Err(ErrorV::UnexpectedEof)
    } else if s.subrange(0, 7) != kw_format_() {
        Err(ErrorV::MissingToken("format "))
    } else {
        match variant_spec(s.subrange(7, s.len() as int)) {
            Err(e) => Err(e),
            Ok((v, n)) => match ascii_text_spec(s.subrange(7 + n, s.len() as int), "<version>") {
                Err(e) => Err(e),
                Ok((version, m)) => Ok(((v, version), 7 + n + m)),
            },
        }
    }
}

/// The bytes that [`Format::encode`] writes.
pub open spec fn format_bytes(f: (FormatVariant, Seq<u8>)) -> Seq<u8> {
    kw_format_() + variant_name(f.0) + seq![SPACE] + f.1 + seq![LF]
}

/// Whether the variant is the binary format in the byte order of a machine
/// (little endian or not).
pub open spec fn is_native_on(v: FormatVariant, little_endian: bool) -> bool {
    match v {
        FormatVariant::BinaryLittleEndian => little_endian,
        FormatVariant::Ascii => false,
        FormatVariant::BinaryBigEndian => !little_endian,
    }
}

/// The number one as two bytes in the byte order of the machine.
///
/// Calls `u16::to_ne_bytes`; the two bytes are `[1, 0]` on a little-endian
/// machine and `[0, 1]` on a big-endian one. Which of the two comes back
/// depends on the machine and is left open.
#[verifier::external_body]
fn one_in_native_order() -> (r: [u8; 2])
    ensures
        r@ == seq![1u8, 0u8] || r@ == seq![0u8, 1u8],
{
    1u16.to_ne_bytes()
}

/// Whether the number one, written as two bytes in some byte order, was
/// written little endian: its first byte is `1`.
pub fn little_endian_order(b: [u8; 2]) -> (r: bool)
    ensures
        r == (b@[0] == 1u8),
{
    b[0] == 1
}

/// Whether this machine stores numbers little endian, read from how it writes
/// the number one.
pub(crate) fn native_is_little_endian() -> bool {
    little_endian_order(one_in_native_order())
}

impl FormatVariant {
    /// Whether this is the ASCII format.
    pub fn is_ascii(&self) -> (r: bool)
        ensures
            r == (*self == FormatVariant::Ascii),
    {
        matches!(self, FormatVariant::Ascii)
    }

    /// Whether this is the big-endian binary format.
    pub fn is_binary_big_endian(&self) -> (r: bool)
        ensures
            r == (*self == FormatVariant::BinaryBigEndian),
    {
        matches!(self, FormatVariant::BinaryBigEndian)
    }

    /// Whether this is the little-endian binary format.
    pub fn is_binary_little_endian(&self) -> (r: bool)
        ensures
            r == (*self == FormatVariant::BinaryLittleEndian),
    {
        matches!(self, FormatVariant::BinaryLittleEndian)
    }

    /// Whether this is the binary format in the byte order of a machine that
    /// is little endian or not.
    pub fn is_binary_native_endian_on(&self, little_endian: bool) -> (r: bool)
        ensures
            r == is_native_on(*self, little_endian),
    {
        match self {
            FormatVariant::BinaryLittleEndian => little_endian,
            FormatVariant::Ascii => false,
            FormatVariant::BinaryBigEndian => !little_endian,
        }
    }

    /// Whether this is the binary format in the byte order of this machine.
    pub fn is_binary_native_endian(&self) -> (r: bool)
        ensures
            *self == FormatVariant::Ascii ==> !r,
    {
        let little_endian = native_is_little_endian();
        self.is_binary_native_endian_on(little_endian)
    }

    /// Reads a format variant from the front of `input`.
    pub fn decode(input: &[u8]) -> (r: Result<(Self, usize), Error>)
        ensures
            decoded(r) == variant_spec(input@),
            r matches Ok((_, n)) ==> n <= input@.len(),
    {
        match read_word(input) {
            Err(FieldGap::Missing) => Err(Error::MissingToken("<format-block-variant>")),
            Err(FieldGap::Eof) => Err(Error::UnexpectedEof),
            Ok((w, n)) => {
                if bytes_eq(w.as_slice(), &kw_binary_little_endian_bytes()) {
                    Ok((FormatVariant::BinaryLittleEndian, n))
                } else if bytes_eq(w.as_slice(), &kw_ascii_bytes()) {
                    Ok((FormatVariant::Ascii, n))
                } else if bytes_eq(w.as_slice(), &kw_binary_big_endian_bytes()) {
                    Ok((FormatVariant::BinaryBigEndian, n))
                } else {
                    Err(Error::InvalidPolygonFormatVariant(crate::error::lossy_text(w.as_slice())))
                }
            },
        }
    }

    /// Writes the name of the variant and a space.
    pub fn encode(&self, out: &mut Vec<u8>)
        ensures
            final(out)@ == old(out)@ + variant_name(*self) + seq![SPACE],
    {
        match self {
            FormatVariant::Ascii => push_all(out, &kw_ascii_bytes()),
            FormatVariant::BinaryBigEndian => push_all(out, &kw_binary_big_endian_bytes()),
            FormatVariant::BinaryLittleEndian => push_all(out, &kw_binary_little_endian_bytes()),
        }
        out.push(SPACE);
    }
}

impl Default for FormatVariant {
    fn default() -> (r: Self)
        ensures
            r == FormatVariant::Ascii,
    {
        FormatVariant::Ascii
    }
}

impl Format {
    /// A format of the given variant and version, when the version is ASCII.
    pub fn new(variant: FormatVariant, version: &[u8]) -> (r: Result<Self, Error>)
        ensures
            match r {
                Ok(f) => is_ascii_bytes(version@) && f@ == (variant, version@),
                Err(e) => !is_ascii_bytes(version@) && e@ == ErrorV::InvalidAscii(crate::error::utf8_lossy(version@)),
            },
    {
        match AsciiString::from_slice(version) {
            Ok(version) => Ok(Format { variant, version }),
            Err(bytes) => Err(Error::InvalidAscii(crate::error::lossy_text(bytes.as_slice()))),
        }
    }

    /// Whether the format is binary in the byte order of a machine that is
    /// little endian or not.
    pub fn is_binary_native_endian_on(&self, little_endian: bool) -> (r: bool)
        ensures
            r == is_native_on(self.variant, little_endian),
    {
        self.variant.is_binary_native_endian_on(little_endian)
    }

    /// Whether the format is binary in the byte order of this machine.
    pub fn is_binary_native_endian(&self) -> (r: bool)
        ensures
            self.variant == FormatVariant::Ascii ==> !r,
    {
        self.is_binary_native_endian_on(native_is_little_endian())
    }

    /// Reads a format from the front of `input`: the keyword `"format "`,
    /// the variant and the version.
    pub fn decode(input: &[u8]) -> (r: Result<(Self, usize), Error>)
        ensures
            decoded(r) == format_spec(input@),
            r matches Ok((_, n)) ==> n <= input@.len(),
    {
        if input.len() < 7 {
            return Err(Error::UnexpectedEof);
        }
        if !holds_at(input, 0, &kw_format__bytes()) {
            return Err(Error::MissingToken("format "));
        }
        let rest = tail(input, 7);
        let (variant, n) = FormatVariant::decode(rest)?;
        proof {
            crate::function::lemma_word_field_bound(rest@);
            assert(rest@.subrange(n as int, rest@.len() as int) =~= input@.subrange(
                7 + n,
                input@.len() as int,
            ));
        }
        let (version, m) = decode_ascii_text(tail(rest, n), "<version>")?;
        proof {
            crate::function::lemma_text_field_bound(rest@.subrange(n as int, rest@.len() as int));
        }
        Ok((Format { variant, version }, 7 + n + m))
    }

    /// Writes the keyword `"format "`, the variant, the version and a line
    /// end.
    pub fn encode(&self, out: &mut Vec<u8>)
        ensures
            final(out)@ == old(out)@ + format_bytes(self@),
    {
        push_all(out, &kw_format__bytes());
        self.variant.encode(out);
        push_all(out, self.version.as_bytes());
        out.push(LF);
        assert(final(out)@ =~= old(out)@ + format_bytes(self@));
    }
}

impl Default for Format {
    fn default() -> (r: Self)
        ensures
            r@ == (FormatVariant::Ascii, crate::head::meta::format::default_version()),
    {
        Format {
            variant: FormatVariant::Ascii,
            version: crate::head::meta::format::default_version_ascii(),
        }
    }
}

/// The name of each format variant is a word: not empty, no space.
proof fn lemma_variant_name_clean(v: FormatVariant)
    ensures
        crate::function::is_clean_word(variant_name(v)),
{
    assert(forall|i: int| 0 <= i < kw_ascii().len() ==> kw_ascii()[i] != SPACE);
    assert(forall|i: int| 0 <= i < kw_binary_big_endian().len() ==> kw_binary_big_endian()[i] != SPACE);
    assert(forall|i: int|
        0 <= i < kw_binary_little_endian().len() ==> kw_binary_little_endian()[i] != SPACE);
}

/// What [`FormatVariant::encode`] writes reads back with
/// [`FormatVariant::decode`] as the same variant, consuming exactly those
/// bytes, whatever follows: each variant has a name of its own.
pub proof fn lemma_variant_roundtrip(v: FormatVariant, rest: Seq<u8>)
    ensures
        variant_spec(variant_name(v) + seq![SPACE] + rest) == Ok::<(FormatVariant, int), ErrorV>(
            (v, variant_name(v).len() + 1int),
        ),
{
    lemma_variant_name_clean(v);
    crate::function::lemma_word_field_clean(variant_name(v), rest);
    assert(kw_ascii().len() != kw_binary_little_endian().len());
    assert(kw_binary_big_endian().len() != kw_binary_little_endian().len());
    assert(kw_binary_big_endian().len() != kw_ascii().len());
}

/// What [`Format::encode`] writes reads back with [`Format::decode`] as the
/// same format, consuming exactly those bytes, whatever follows, when the
/// version is ASCII text that reads back whole (no leading space, no line
/// end, no trailing `'\r'`).
pub proof fn lemma_format_roundtrip(f: (FormatVariant, Seq<u8>), rest: Seq<u8>)
    requires
        crate::function::is_clean_text(f.1),
        is_ascii_bytes(f.1),
    ensures
        format_spec(format_bytes(f) + rest) == Ok::<((FormatVariant, Seq<u8>), int), ErrorV>(
            (f, format_bytes(f).len() as int),
        ),
{
    let s = format_bytes(f) + rest;
    let name = variant_name(f.0);
    let after = f.1 + seq![LF] + rest;
    assert(s.subrange(0, 7) =~= kw_format_());
    assert(s.subrange(7, s.len() as int) =~= name + seq![SPACE] + after);
    lemma_variant_roundtrip(f.0, after);
    assert(s.subrange(7 + name.len() + 1int, s.len() as int) =~= after);
    crate::function::lemma_ascii_text_clean(f.1, rest, "<version>");
}

} // verus!
