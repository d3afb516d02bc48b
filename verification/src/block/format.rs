//! Format blocks: a format variant and a version, without keyword.

use vstd::prelude::*;

use crate::ascii::AsciiString;
use crate::error::{decoded, Error, ErrorV};
use crate::function::{
    ascii_text_spec, bytes_eq, decode_ascii_text, push_all, read_word, tail, word_field,
    FieldGap, LF, SPACE,
};
use crate::head::block::format::format_block_variant_name;
use crate::keyword::{
    kw_ascii, kw_ascii_bytes, kw_binary_big_endian, kw_binary_big_endian_bytes,
    kw_binary_little_endian, kw_binary_little_endian_bytes,
};

pub use crate::head::block::format::FormatVariant;

verus! {

/// ## Syntax
///
/// ```plaintext
/// <format-block> :=
///     | <format-variant> [{" "}] <version> ["\r"] "\n"
/// ```
#[derive(Clone, Debug, PartialEq, Eq, Hash, PartialOrd, Ord)]
pub struct FormatBlock {
    pub variant: FormatVariant,
    pub version: AsciiString,
}

impl View for FormatBlock {
    type V = (FormatVariant, Seq<u8>);

    open spec fn view(&self) -> (FormatVariant, Seq<u8>) {
        (self.variant, self.version@)
    }
}

/// The format variant read from the front of `s`: an unknown variant is
/// reported as an unknown kind.
pub open spec fn plain_format_variant_spec(s: Seq<u8>) -> Result<(FormatVariant, int), ErrorV> {
    match word_field(s) {
        Err(FieldGap::Missing) => Err(ErrorV::MissingToken("<format-variant>")),
        Err(FieldGap::Eof) => Err(ErrorV::UnexpectedEof),
        Ok((w, n)) => if w == kw_binary_little_endian() {
            Ok((FormatVariant::BinaryLittleEndian, n))
        } else if w == kw_ascii() {
            Ok((FormatVariant::Ascii, n))
        } else if w == kw_binary_big_endian() {
            Ok((FormatVariant::BinaryBigEndian, n))
        } else {
            Err(ErrorV::UnknownPolygonPropertyKind(crate::error::utf8_lossy(w)))
        },
    }
}

/// The format block read by [`FormatBlock::decode`] from the front of `s`.
pub open spec fn plain_format_block_spec(s: Seq<u8>) -> Result<((FormatVariant, Seq<u8>), int), ErrorV> {
    match plain_format_variant_spec(s) {
        Err(e) => Err(e),
        Ok((v, n)) => match ascii_text_spec(s.subrange(n, s.len() as int), "<version>") {
            Err(e) => Err(e),
            Ok((version, m)) => Ok(((v, version), n + m)),
        },
    }
}

/// The bytes that [`FormatBlock::encode`] writes.
pub open spec fn plain_format_block_bytes(f: (FormatVariant, Seq<u8>)) -> Seq<u8> {
    format_block_variant_name(f.0) + seq![SPACE] + f.1 + seq![LF]
}

impl FormatBlock {
    /// Reads a format block from the front of `input`: the variant and the
    /// version.
    pub fn decode(input: &[u8]) -> (r: Result<(Self, usize), Error>)
        ensures
            decoded(r) == plain_format_block_spec(input@),
            r matches Ok((_, n)) ==> n <= input@.len(),
    {
        let total = input.len();
        assert(total == input@.len());
        let (variant, n) = match read_word(input) {
            Err(FieldGap::Missing) => return Err(Error::MissingToken("<format-variant>")),
            Err(FieldGap::Eof) => return Err(Error::UnexpectedEof),
            Ok((w, n)) => {
                if bytes_eq(w.as_slice(), &kw_binary_little_endian_bytes()) {
                    (FormatVariant::BinaryLittleEndian, n)
                } else if bytes_eq(w.as_slice(), &kw_ascii_bytes()) {
                    (FormatVariant::Ascii, n)
                } else if bytes_eq(w.as_slice(), &kw_binary_big_endian_bytes()) {
                    (FormatVariant::BinaryBigEndian, n)
                } else {
                    return Err(Error::UnknownPolygonPropertyKind(crate::error::lossy_text(w.as_slice())));
                }
            },
        };
        let (version, m) = decode_ascii_text(tail(input, n), "<version>")?;
        proof {
            crate::function::lemma_word_field_bound(input@);
            crate::function::lemma_text_field_bound(input@.subrange(n as int, input@.len() as int));
        }
        Ok((FormatBlock { variant, version }, n + m))
    }

    /// Writes the variant, a space, the version and a line end.
    pub fn encode(&self, out: &mut Vec<u8>)
        ensures
            final(out)@ == old(out)@ + plain_format_block_bytes(self@),
    {
        self.variant.encode(out);
        push_all(out, self.version.as_bytes());
        out.push(LF);
        assert(final(out)@ =~= old(out)@ + plain_format_block_bytes(self@));
    }
}

impl Default for FormatBlock {
    fn default() -> (r: Self)
        ensures
            r@ == (FormatVariant::Ascii, crate::head::meta::format::default_version()),
    {
        FormatBlock {
            variant: FormatVariant::Ascii,
            version: crate::head::meta::format::default_version_ascii(),
        }
    }
}

/// A format block whose version is a line text reads back as itself from
/// its encoding, whatever follows.
pub proof fn lemma_plain_format_block_roundtrip(f: (FormatVariant, Seq<u8>), rest: Seq<u8>)
    requires
        crate::head::meta::comment::is_line_text(f.1),
    ensures
        plain_format_block_spec(plain_format_block_bytes(f) + rest) == Ok::<
            ((FormatVariant, Seq<u8>), int),
            ErrorV,
        >((f, plain_format_block_bytes(f).len() as int)),
{
    let s = plain_format_block_bytes(f) + rest;
    let name = format_block_variant_name(f.0);
    let after = f.1 + seq![LF] + rest;
    assert(s =~= name + seq![SPACE] + after);
    crate::head::block::format::lemma_format_variant_name_clean(f.0);
    crate::function::lemma_word_field_clean(name, after);
    assert(s.subrange(name.len() + 1int, s.len() as int) =~= after);
    crate::function::lemma_ascii_text_clean(f.1, rest, "<version>");
}

} // verus!
