//! Element blocks.

use vstd::prelude::*;

use crate::ascii::{is_ascii_bytes, AsciiString};
use crate::error::{decoded, Error, ErrorV};
use crate::function::{decode_ascii_word, decode_size_usize, push_all, push_decimal, tail, LF, SPACE};
use crate::head::meta::element::{element_meta_bytes, element_meta_spec};

verus! {

/// ## Syntax
///
/// ```plaintext
/// <element-block> :=
///     | <name> <size> <newline>
///
/// <name> :=
///     | [{" "}] <ascii-string> " "
///
/// <size> :=
///     | [{" "}] <usize>
///
/// <newline> :=
///     | ["\r"] "\n"
/// ```
#[derive(Clone, Debug, Default, PartialEq, Eq, Hash, PartialOrd, Ord)]
pub struct ElementBlock {
    pub name: AsciiString,
    pub size: usize,
}

impl View for ElementBlock {
    type V = (Seq<u8>, usize);

    open spec fn view(&self) -> (Seq<u8>, usize) {
        (self.name@, self.size)
    }
}

impl ElementBlock {
    /// An element block of the given name and size, when the name is ASCII.
    pub fn new(name: &[u8], size: usize) -> (r: Result<Self, Error>)
        ensures
            match r {
                Ok(e) => is_ascii_bytes(name@) && e@ == (name@, size),
                Err(e) => !is_ascii_bytes(name@) && e@ == ErrorV::InvalidAscii(crate::error::utf8_lossy(name@)),
            },
    {
        match AsciiString::from_slice(name) {
            Ok(name) => Ok(ElementBlock { name, size }),
            Err(bytes) => Err(Error::InvalidAscii(crate::error::lossy_text(bytes.as_slice()))),
        }
    }

    /// Reads an element block from the front of `input` (see
    /// [`element_meta_spec`]).
    pub fn decode(input: &[u8]) -> (r: Result<(Self, usize), Error>)
        ensures
            decoded(r) == element_meta_spec(input@),
            r matches Ok((_, n)) ==> n <= input@.len(),
    {
        let total = input.len();
        assert(total == input@.len());
        let (name, n) = decode_ascii_word(input, "<name>")?;
        let (size, m) = decode_size_usize(tail(input, n), "<size>")?;
        proof {
            crate::function::lemma_word_field_bound(input@);
            crate::function::lemma_text_field_bound(input@.subrange(n as int, input@.len() as int));
        }
        Ok((ElementBlock { name, size }, n + m))
    }

    /// Writes the name, a space, the size in decimal and a line end.
    pub fn encode(&self, out: &mut Vec<u8>)
        ensures
            final(out)@ == old(out)@ + element_meta_bytes(self@),
    {
        push_all(out, self.name.as_bytes());
        out.push(SPACE);
        push_decimal(out, self.size as u64);
        out.push(LF);
        assert(final(out)@ =~= old(out)@ + element_meta_bytes(self@));
    }
}

impl std::ops::Deref for ElementBlock {
    type Target = AsciiString;

    fn deref(&self) -> (r: &AsciiString)
        ensures
            r@ == self.name@,
    {
        &self.name
    }
}

} // verus!
