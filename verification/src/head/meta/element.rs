//! Element metas of a head.

use vstd::prelude::*;

use crate::ascii::{is_ascii_bytes, AsciiString};
use crate::error::{Error, ErrorV};
use crate::function::{
    ascii_word_spec, decimal_digits, decode_ascii_word, decode_size_usize, is_clean_word,
    lemma_decimal_digits, lemma_digits_valid_utf8, lemma_text_field_clean, lemma_word_field_clean,
    push_all, push_decimal, size_text_spec, tail, LF, SPACE,
};

verus! {

/// ## Syntax
///
/// ```plaintext
/// <element-meta> :=
///     | [{" "}] <name> [{" "}] <size> <newline>
///
/// <name> :=
///     | <ascii-string> " "
///
/// <size> :=
///     | <usize>
///
/// <newline> :=
///     | ["\r"] "\n"
/// ```
#[derive(Clone, Debug, PartialEq, Eq, Hash, PartialOrd, Ord)]
pub struct ElementMeta {
    pub name: AsciiString,
    pub size: usize,
}

impl View for ElementMeta {
    type V = (Seq<u8>, usize);

    open spec fn view(&self) -> (Seq<u8>, usize) {
        (self.name@, self.size)
    }
}

/// The element meta read by [`ElementMeta::decode`] from the front of `s`.
pub open spec fn element_meta_spec(s: Seq<u8>) -> Result<((Seq<u8>, usize), int), ErrorV> {
    match ascii_word_spec(s, "<name>") {
        Err(e) => Err(e),
        Ok((name, n)) => match size_text_spec(
            s.subrange(n, s.len() as int),
            "<size>",
            usize::MAX as int,
        ) {
            Err(e) => Err(e),
            Ok((size, m)) => Ok(((name, size as usize), n + m)),
        },
    }
}

/// The bytes that [`ElementMeta::encode`] writes.
pub open spec fn element_meta_bytes(e: (Seq<u8>, usize)) -> Seq<u8> {
    e.0 + seq![SPACE] + decimal_digits(e.1 as nat) + seq![LF]
}

/// An element whose encoding reads back as itself: an ASCII name without
/// spaces.
pub open spec fn is_clean_element(e: (Seq<u8>, usize)) -> bool {
    is_clean_word(e.0) && is_ascii_bytes(e.0)
}

impl ElementMeta {
    /// Reads an element meta from the front of `input`.
    pub fn decode(input: &[u8]) -> (r: Result<(Self, usize), Error>)
        ensures
            crate::error::decoded(r) == element_meta_spec(input@),
            r matches Ok((_, n)) ==> n <= input@.len(),
    {
        let total = input.len();
        assert(total == input@.len());
        let (name, n) = decode_ascii_word(input, "<name>")?;
        let rest = tail(input, n);
        assert(rest@.len() == input@.len() - n);
        let (size, m) = decode_size_usize(rest, "<size>")?;
        assert(m <= rest@.len());
        proof {
            crate::function::lemma_word_field_bound(input@);
            crate::function::lemma_text_field_bound(input@.subrange(n as int, input@.len() as int));
        }
        assert(n + m <= input@.len());
        Ok((ElementMeta { name, size }, n + m))
    }

    /// Writes the name, a space, the size in decimal and a line end.
    pub fn encode(&self, out: &mut Vec<u8>)
        ensures
            final(out)@ == old(out)@ + element_meta_bytes(self@),
    {
        push_all(out, self.name.as_bytes());
        out.push(SPACE);
        push_decimal(out, self.size as u64);
        out.push(LF);
        assert(final(out)@ =~= old(out)@ + element_meta_bytes(self@));
    }
}

impl Default for ElementMeta {
    fn default() -> (r: Self)
        ensures
            r@ == (crate::keyword::kw_default(), 0usize),
    {
        let b = crate::keyword::kw_default_bytes();
        let name = match AsciiString::from_slice(&b) {
            Ok(name) => name,
            Err(_) => {
                assert(false);
                AsciiString::new()
            },
        };
        ElementMeta { name, size: 0 }
    }
}

/// A clean element reads back as itself from its encoding, whatever follows.
pub proof fn lemma_element_meta_roundtrip(e: (Seq<u8>, usize), rest: Seq<u8>)
    requires
        is_clean_element(e),
    ensures
        element_meta_spec(element_meta_bytes(e) + rest) == Ok::<((Seq<u8>, usize), int), ErrorV>(
            (e, element_meta_bytes(e).len() as int),
        ),
{
    let d = decimal_digits(e.1 as nat);
    let after = d + seq![LF] + rest;
    let s = element_meta_bytes(e) + rest;
    assert(s =~= e.0 + seq![SPACE] + after);
    lemma_word_field_clean(e.0, after);
    lemma_decimal_digits(e.1 as nat);
    lemma_digits_valid_utf8(d);
    lemma_text_field_clean(d, rest);
    assert(s.subrange(e.0.len() + 1int, s.len() as int) =~= after);
    crate::function::lemma_parse_decimal_digits(e.1 as nat, usize::MAX as int);
}

} // verus!
