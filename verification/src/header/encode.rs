//! Writing a header.

use vstd::prelude::*;

use crate::ascii::is_ascii_bytes;
use crate::error::{Error, ErrorV};
use crate::function::{decimal_digits, push_all, push_decimal, LF, SPACE};
use crate::keyword::{
    kw_ascii, kw_ascii_bytes, kw_binary_big_endian, kw_binary_big_endian_bytes,
    kw_binary_little_endian, kw_binary_little_endian_bytes, kw_element_, kw_element__bytes,
    kw_end_header, kw_end_header_bytes, kw_format_, kw_format__bytes, kw_ply_newline,
    kw_ply_newline_bytes, kw_property_, kw_property__bytes,
};

use super::property::{kind_text, property_map_get_index, Properties, PropertyV};
use super::{element_map_get_index, ElementV, Elements, Format, Header, HeaderV};

verus! {

/// The name of a format.
pub open spec fn format_name(f: Format) -> Seq<u8> {
    match f {
        Format::BinaryLittleEndian => kw_binary_little_endian(),
        Format::Ascii => kw_ascii(),
        Format::BinaryBigEndian => kw_binary_big_endian(),
    }
}

/// The line of a property: `"property "`, its kind, a space, its name and a
/// line end.
pub open spec fn property_line(p: PropertyV) -> Seq<u8> {
    kw_property_() + kind_text(p.0) + seq![SPACE] + p.1 + seq![LF]
}

/// The lines of properties, one after another.
pub open spec fn properties_bytes(ps: Seq<(Seq<u8>, PropertyV)>) -> Seq<u8>
    decreases ps.len(),
{
    if ps.len() == 0 {
        Seq::empty()
    } else {
        properties_bytes(ps.drop_last()) + property_line(ps.last().1)
    }
}

/// The lines of an element: `"element "`, its name, a space, its count
/// and a line end, then the lines of its properties.
pub open spec fn element_bytes(e: ElementV) -> Seq<u8> {
    kw_element_() + e.name + seq![SPACE] + decimal_digits(e.count as nat) + seq![LF]
        + properties_bytes(e.properties)
}

/// The lines of elements, one after another.
pub open spec fn elements_bytes(es: Seq<(Seq<u8>, ElementV)>) -> Seq<u8>
    decreases es.len(),
{
    if es.len() == 0 {
        Seq::empty()
    } else {
        elements_bytes(es.drop_last()) + element_bytes(es.last().1)
    }
}

/// The text of a header: `"ply"`, the format line, the elements and
/// `"end_header"`, each line ended by `'\n'`.
pub open spec fn header_bytes(h: HeaderV) -> Seq<u8> {
    kw_ply_newline() + kw_format_() + format_name(h.format) + seq![SPACE] + h.version + seq![LF]
        + elements_bytes(h.elements) + kw_end_header() + seq![LF]
}

impl Format {
    /// Writes the name of the format.
    pub fn encode_name(&self, out: &mut Vec<u8>)
        ensures
            final(out)@ == old(out)@ + format_name(*self),
    {
        match self {
            Format::BinaryLittleEndian => push_all(out, &kw_binary_little_endian_bytes()),
            Format::Ascii => push_all(out, &kw_ascii_bytes()),
            Format::BinaryBigEndian => push_all(out, &kw_binary_big_endian_bytes()),
        }
    }
}

impl Properties {
    /// Writes the line of each property.
    pub fn encode_lines(&self, out: &mut Vec<u8>)
        ensures
            final(out)@ == old(out)@ + properties_bytes(self@),
    {
        let n = self.len();
        let mut i: usize = 0;
        assert(self@.subrange(0, 0) =~= Seq::<(Seq<u8>, PropertyV)>::empty());
        while i < n
            invariant
                n == self@.len(),
                i <= n,
                out@ == old(out)@ + properties_bytes(self@.subrange(0, i as int)),
            decreases n - i,
        {
            match property_map_get_index(&self.inner, i) {
                Some((_, p)) => {
                    push_all(out, &kw_property__bytes());
                    let kind = p.kind.to_text();
                    push_all(out, kind.as_slice());
                    out.push(SPACE);
                    push_all(out, p.name.as_slice());
                    out.push(LF);
                    proof {
                        let next = self@.subrange(0, i + 1);
                        assert(next.drop_last() =~= self@.subrange(0, i as int));
                        assert(next.last() == self@[i as int]);
                    }
                },
                None => {
                    assert(false);
                },
            }
            i += 1;
        }
        assert(self@.subrange(0, n as int) =~= self@);
    }
}

impl Elements {
    /// Writes the lines of each element.
    pub fn encode_lines(&self, out: &mut Vec<u8>)
        ensures
            final(out)@ == old(out)@ + elements_bytes(self@),
    {
        let n = self.len();
        let mut i: usize = 0;
        assert(self@.subrange(0, 0) =~= Seq::<(Seq<u8>, ElementV)>::empty());
        while i < n
            invariant
                n == self@.len(),
                i <= n,
                out@ == old(out)@ + elements_bytes(self@.subrange(0, i as int)),
            decreases n - i,
        {
            match element_map_get_index(&self.inner, i) {
                Some((_, e)) => {
                    let ghost before = out@;
                    push_all(out, &kw_element__bytes());
                    push_all(out, e.name.as_slice());
                    out.push(SPACE);
                    push_decimal(out, e.count as u64);
                    out.push(LF);
                    e.properties.encode_lines(out);
                    proof {
                        assert(out@ =~= before + element_bytes(e@));
                        let next = self@.subrange(0, i + 1);
                        assert(next.drop_last() =~= self@.subrange(0, i as int));
                        assert(next.last() == self@[i as int]);
                    }
                },
                None => {
                    assert(false);
                },
            }
            i += 1;
        }
        assert(self@.subrange(0, n as int) =~= self@);
    }
}

/// Whether all bytes are ASCII, checked one by one.
fn all_ascii(b: &[u8]) -> (r: bool)
    ensures
        r == is_ascii_bytes(b@),
{
    let mut i: usize = 0;
    while i < b.len()
        invariant
            i <= b@.len(),
            forall|k: int| 0 <= k < i ==> #[trigger] b@[k] < 128,
        decreases b@.len() - i,
    {
        if b[i] >= 128 {
            assert(!(b@[i as int] < 128));
            return false;
        }
        i += 1;
    }
    true
}

impl Header {
    /// The text of the header (see [`header_bytes`]).
    pub fn to_text(&self) -> (r: Vec<u8>)
        ensures
            r@ == header_bytes(self@),
    {
        let mut text: Vec<u8> = Vec::new();
        push_all(&mut text, &kw_ply_newline_bytes());
        push_all(&mut text, &kw_format__bytes());
        self.format.encode_name(&mut text);
        text.push(SPACE);
        push_all(&mut text, self.version.as_slice());
        text.push(LF);
        self.elements.encode_lines(&mut text);
        push_all(&mut text, &kw_end_header_bytes());
        text.push(LF);
        assert(text@ =~= header_bytes(self@));
        text
    }

    /// Writes the text of the header when it is ASCII; else writes nothing
    /// and reports the text.
    pub fn encode(&self, out: &mut Vec<u8>) -> (r: Result<(), Error>)
        ensures
            match r {
                Ok(_) => is_ascii_bytes(header_bytes(self@)) && final(out)@ == old(out)@ + header_bytes(
                    self@,
                ),
                Err(e) => !is_ascii_bytes(header_bytes(self@)) && e@ == ErrorV::InvalidAscii(crate::error::utf8_lossy(
                    header_bytes(self@),
                )) && final(out)@ == old(out)@,
            },
    {
        let text = self.to_text();
        if !all_ascii(text.as_slice()) {
            return Err(Error::InvalidAscii(crate::error::lossy_text(text.as_slice())));
        }
        push_all(out, text.as_slice());
        Ok(())
    }
}

} // verus!
