//! Element blocks of a head.

use vstd::prelude::*;

use crate::ascii::AsciiString;
use crate::error::{decoded, Error, ErrorV};
use crate::function::{
    ascii_word_spec, decimal_digits, decode_ascii_word, decode_size_u64, lemma_decimal_digits,
    lemma_digits_valid_utf8, lemma_text_field_clean, lemma_word_field_clean, push_all,
    push_decimal, size_text_spec, tail, LF, SPACE,
};
use crate::head::meta::element::is_clean_element;

verus! {

/// ## Syntax
///
/// ```plaintext
/// <element-block> :=
///     | [{" "}] <name> [{" "}] <size> <newline>
///
/// <name> :=
///     | <ascii-string> " "
///
/// <size> :=
///     | <u64>
///
/// <newline> :=
///     | ["\r"] "\n"
/// ```
#[derive(Clone, Debug, PartialEq, Eq, Hash, PartialOrd, Ord)]
pub struct ElementBlock {
    pub name: AsciiString,
    pub size: u64,
}

impl View for ElementBlock {
    type V = (Seq<u8>, u64);

    open spec fn view(&self) -> (Seq<u8>, u64) {
        (self.name@, self.size)
    }
}

/// The element block read by [`ElementBlock::decode`] from the front of `s`.
pub open spec fn element_block_spec(s: Seq<u8>) -> Result<((Seq<u8>, u64), int), ErrorV> {
    match ascii_word_spec(s, "<name>") {
        Err(e) => Err(e),
        Ok((name, n)) => match size_text_spec(
            s.subrange(n, s.len() as int),
            "<size>",
            u64::MAX as int,
        ) {
            Err(e) => Err(e),
            Ok((size, m)) => Ok(((name, size as u64), n + m)),
        },
    }
}

/// The bytes that [`ElementBlock::encode`] writes.
pub open spec fn element_block_bytes(e: (Seq<u8>, u64)) -> Seq<u8> {
    e.0 + seq![SPACE] + decimal_digits(e.1 as nat) + seq![LF]
}

impl ElementBlock {
    /// Reads an element block from the front of `input`.
    pub fn decode(input: &[u8]) -> (r: Result<(Self, usize), Error>)
        ensures
            decoded(r) == element_block_spec(input@),
            r matches Ok((_, n)) ==> n <= input@.len(),
    {
        let total = input.len();
        assert(total == input@.len());
        let (name, n) = decode_ascii_word(input, "<name>")?;
        let rest = tail(input, n);
        let (size, m) = decode_size_u64(rest, "<size>")?;
        proof {
            crate::function::lemma_word_field_bound(input@);
            crate::function::lemma_text_field_bound(input@.subrange(n as int, input@.len() as int));
        }
        Ok((ElementBlock { name, size }, n + m))
    }

    /// Writes the name, a space, the size in decimal and a line end.
    pub fn encode(&self, out: &mut Vec<u8>)
        ensures
            final(out)@ == old(out)@ + element_block_bytes(self@),
    {
        push_all(out, self.name.as_bytes());
        out.push(SPACE);
        push_decimal(out, self.size);
        out.push(LF);
        assert(final(out)@ =~= old(out)@ + element_block_bytes(self@));
    }
}

impl Default for ElementBlock {
    fn default() -> (r: Self)
        ensures
            r@ == (crate::keyword::kw_default(), 0u64),
    {
        let b = crate::keyword::kw_default_bytes();
        let name = match AsciiString::from_slice(&b) {
            Ok(name) => name,
            Err(_) => {
                assert(false);
                AsciiString::new()
            },
        };
        ElementBlock { name, size: 0 }
    }
}

/// An element block with an ASCII name without spaces reads back as itself
/// from its encoding, whatever follows.
pub proof fn lemma_element_block_roundtrip(e: (Seq<u8>, u64), rest: Seq<u8>)
    requires
        is_clean_element((e.0, 0usize)),
    ensures
        element_block_spec(element_block_bytes(e) + rest) == Ok::<((Seq<u8>, u64), int), ErrorV>(
            (e, element_block_bytes(e).len() as int),
        ),
{
    let d = decimal_digits(e.1 as nat);
    let after = d + seq![LF] + rest;
    let s = element_block_bytes(e) + rest;
    assert(s =~= e.0 + seq![SPACE] + after);
    lemma_word_field_clean(e.0, after);
    lemma_decimal_digits(e.1 as nat);
    lemma_digits_valid_utf8(d);
    lemma_text_field_clean(d, rest);
    assert(s.subrange(e.0.len() + 1int, s.len() as int) =~= after);
    crate::function::lemma_parse_decimal_digits(e.1 as nat, u64::MAX as int);
}

} // verus!
