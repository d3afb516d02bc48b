//! Reading a header.

use vstd::prelude::*;
use vstd::string::StringSliceAdditionalSpecFns;

use crate::ascii::is_ascii_bytes;
use crate::error::{decoded, Error, ErrorV};
use crate::function::{
    bytes_eq, holds_at, is_valid_utf8, line_field, parse_unsigned, parse_usize,
    read_line, read_word, tail, word_field, CR, LF, SPACE,
};
use crate::index_map::{distinct_keys, has_key, map_insert};
use crate::keyword::{
    kw_comment_, kw_comment__bytes, kw_element_, kw_element__bytes, kw_end_head,
    kw_end_head_bytes, kw_er, kw_er_bytes, kw_format_, kw_format__bytes, kw_ig_endian_,
    kw_ig_endian__bytes, kw_inary_, kw_inary__bytes, kw_ittle_endian_, kw_ittle_endian__bytes,
    kw_list, kw_list_bytes, kw_obj_info, kw_obj_info_bytes, kw_ply, kw_ply_bytes, kw_property,
    kw_property_bytes, kw_scii_, kw_scii__bytes,
};

use super::property::{
    ListPropertyKind, Properties, Property, PropertyKind, PropertyKindV, PropertyV,
    ScalarPropertyKind,
};
use super::{Element, ElementV, Elements, Format, Header, HeaderV};

verus! {

/// The index of the first `"ply"` at or after `i` (`-1` when there is none).
pub open spec fn find_signature(s: Seq<u8>, i: int) -> int
    decreases s.len() - i,
{
    if i < 0 || i + 3 > s.len() {
        -1
    } else if s.subrange(i, i + 3) == kw_ply() {
        i
    } else {
        find_signature(s, i + 1)
    }
}

/// A line end at the front of `s`: `"\n"` or `"\r\n"`, and its length.
pub open spec fn newline_spec(s: Seq<u8>) -> Result<int, ErrorV> {
    if s.len() == 0 {
        Err(ErrorV::UnexpectedEof)
    } else if s[0] == LF {
        Ok(1)
    } else if s[0] == CR {
        if s.len() < 2 {
            Err(ErrorV::UnexpectedEof)
        } else if s[1] == LF {
            Ok(2)
        } else {
            Err(ErrorV::MissingSymbol("newline"))
        }
    } else {
        Err(ErrorV::MissingSymbol("newline"))
    }
}

/// Bytes that must be valid UTF-8 and ASCII.
pub open spec fn ascii_spec(t: Seq<u8>) -> Result<Seq<u8>, ErrorV> {
    if !vstd::utf8::valid_utf8(t) {
        Err(ErrorV::InvalidUtf8(crate::error::utf8_lossy(t)))
    } else if !is_ascii_bytes(t) {
        Err(ErrorV::InvalidAscii(crate::error::utf8_lossy(t)))
    } else {
        Ok(t)
    }
}

/// A word at the front of `s` (see [`word_field`]) that must be ASCII; the
/// end of the input before it ends is [`ErrorV::UnexpectedEof`].
pub open spec fn header_word_spec(s: Seq<u8>) -> Result<(Seq<u8>, int), ErrorV> {
    match word_field(s) {
        Err(_) => Err(ErrorV::UnexpectedEof),
        Ok((w, n)) => match ascii_spec(w) {
            Err(e) => Err(e),
            Ok(w) => Ok((w, n)),
        },
    }
}

/// The rest of a line at the front of `s` (see [`line_field`]) that must be
/// ASCII.
pub open spec fn header_line_text_spec(s: Seq<u8>) -> Result<(Seq<u8>, int), ErrorV> {
    let (t, n) = line_field(s);
    match ascii_spec(t) {
        Err(e) => Err(e),
        Ok(t) => Ok((t, n)),
    }
}

/// The format at the front of `s`: `"format "` and the name of a format
/// followed by a space, read byte by byte.
pub open spec fn header_format_spec(s: Seq<u8>) -> Result<(Format, int), ErrorV> {
    if s.len() < 7 {
        Err(ErrorV::UnexpectedEof)
    } else if s.subrange(0, 7) != kw_format_() {
        Err(ErrorV::MissingSymbol("format "))
    } else if s.len() < 8 {
        Err(ErrorV::UnexpectedEof)
    } else if s[7] == 0x62u8 {
        if s.len() < 14 {
            Err(ErrorV::UnexpectedEof)
        } else if s.subrange(8, 14) != kw_inary_() {
            Err(ErrorV::MissingSymbol("binary_little_endian or binary_big_endian"))
        } else if s.len() < 15 {
            Err(ErrorV::UnexpectedEof)
        } else if s[14] == 0x6cu8 {
            if s.len() < 28 {
                Err(ErrorV::UnexpectedEof)
            } else if s.subrange(15, 28) != kw_ittle_endian_() {
                Err(ErrorV::MissingSymbol("binary_little_endian"))
            } else {
                Ok((Format::BinaryLittleEndian, 28))
            }
        } else if s[14] == 0x62u8 {
            if s.len() < 25 {
                Err(ErrorV::UnexpectedEof)
            } else if s.subrange(15, 25) != kw_ig_endian_() {
                Err(ErrorV::MissingSymbol("binary_big_endian"))
            } else {
                Ok((Format::BinaryBigEndian, 25))
            }
        } else {
            Err(ErrorV::MissingSymbol("binary_little_endian or binary_big_endian"))
        }
    } else if s[7] == 0x61u8 {
        if s.len() < 13 {
            Err(ErrorV::UnexpectedEof)
        } else if s.subrange(8, 13) != kw_scii_() {
            Err(ErrorV::MissingSymbol("ascii"))
        } else {
            Ok((Format::Ascii, 13))
        }
    } else {
        Err(ErrorV::MissingSymbol("ascii or binary"))
    }
}

/// The property kind at the front of `s`: a scalar kind, or `"list"` and
/// the count and value kinds.
pub open spec fn header_kind_spec(s: Seq<u8>) -> Result<(PropertyKindV, int), ErrorV> {
    match header_word_spec(s) {
        Err(e) => Err(e),
        Ok((value, n1)) => if value != kw_list() {
            Ok((PropertyKindV::Scalar(value), n1))
        } else {
            match header_word_spec(s.subrange(n1, s.len() as int)) {
                Err(e) => Err(e),
                Ok((count, n2)) => match header_word_spec(s.subrange(n1 + n2, s.len() as int)) {
                    Err(e) => Err(e),
                    Ok((v, n3)) => Ok((PropertyKindV::List(count, v), n1 + n2 + n3)),
                },
            }
        },
    }
}

/// The elements with a property inserted into the last one.
pub open spec fn with_property(
    es: Seq<(Seq<u8>, ElementV)>,
    name: Seq<u8>,
    p: PropertyV,
) -> Seq<(Seq<u8>, ElementV)> {
    let (key, e) = es.last();
    es.drop_last().push(
        (
            key,
            ElementV {
                count: e.count,
                name: e.name,
                properties: map_insert(e.properties, name, p),
            },
        ),
    )
}

/// One line of the elements of a header, read from the front of `s` with
/// the elements `es` read so far: the elements after the line and the
/// number of bytes consumed, or `None` for the line `"end_header"`.
#[verifier::opaque]
pub open spec fn header_line_spec(s: Seq<u8>, es: Seq<(Seq<u8>, ElementV)>) -> Result<
    (Option<Seq<(Seq<u8>, ElementV)>>, int),
    ErrorV,
> {
    if s.len() < 8 {
        Err(ErrorV::UnexpectedEof)
    } else {
        let keyword = s.subrange(0, 8);
        if keyword == kw_end_head() {
            if s.len() < 10 {
                Err(ErrorV::UnexpectedEof)
            } else if s.subrange(8, 10) != kw_er() {
                Err(ErrorV::MissingSymbol("end_header"))
            } else {
                match newline_spec(s.subrange(10, s.len() as int)) {
                    Err(e) => Err(e),
                    Ok(k) => Ok((None, 10 + k)),
                }
            }
        } else if keyword == kw_property() {
            if s.len() < 9 {
                Err(ErrorV::UnexpectedEof)
            } else if s[8] != SPACE {
                Err(ErrorV::MissingSymbol(" "))
            } else if es.len() == 0 {
                Err(ErrorV::MissingSymbol("element"))
            } else {
                match header_kind_spec(s.subrange(9, s.len() as int)) {
                    Err(e) => Err(e),
                    Ok((kind, n)) => match header_line_text_spec(s.subrange(9 + n, s.len() as int)) {
                        Err(e) => Err(e),
                        Ok((name, m)) => Ok((Some(with_property(es, name, (kind, name))), 9 + n + m)),
                    },
                }
            }
        } else if keyword == kw_element_() {
            match header_word_spec(s.subrange(8, s.len() as int)) {
                Err(e) => Err(e),
                Ok((name, n)) => match header_line_text_spec(s.subrange(8 + n, s.len() as int)) {
                    Err(e) => Err(e),
                    Ok((t, m)) => match parse_unsigned(t, usize::MAX as int) {
                        None => Err(ErrorV::ParseInt(crate::error::utf8_lossy(t))),
                        Some(count) => Ok(
                            (
                                Some(
                                    map_insert(
                                        es,
                                        name,
                                        ElementV {
                                            count: count as usize,
                                            name,
                                            properties: Seq::empty(),
                                        },
                                    ),
                                ),
                                8 + n + m,
                            ),
                        ),
                    },
                },
            }
        } else if keyword == kw_comment_() || keyword == kw_obj_info() {
            Ok((Some(es), 8 + line_field(s.subrange(8, s.len() as int)).1))
        } else {
            Err(ErrorV::MissingSymbol("comment, element, end_header, obj_info, or property"))
        }
    }
}

/// A header line consumes at least one byte and no more than there are.
pub proof fn lemma_header_line_bound(s: Seq<u8>, es: Seq<(Seq<u8>, ElementV)>)
    ensures
        header_line_spec(s, es) matches Ok((r, n)) ==> 0 < n <= s.len(),
{
    reveal(header_line_spec);
    if s.len() >= 8 {
        crate::function::lemma_line_field_bound(s.subrange(8, s.len() as int));
        crate::function::lemma_word_field_bound(s.subrange(8, s.len() as int));
        if let Ok((w, n)) = word_field(s.subrange(8, s.len() as int)) {
            crate::function::lemma_line_field_bound(s.subrange(8 + n, s.len() as int));
        }
    }
    if s.len() >= 9 {
        lemma_header_kind_bound(s.subrange(9, s.len() as int));
        if let Ok((k, n)) = header_kind_spec(s.subrange(9, s.len() as int)) {
            crate::function::lemma_line_field_bound(s.subrange(9 + n, s.len() as int));
        }
    }
}

/// A property kind consumes at least one byte and no more than there are.
pub proof fn lemma_header_kind_bound(s: Seq<u8>)
    ensures
        header_kind_spec(s) matches Ok((k, n)) ==> 0 < n <= s.len(),
{
    crate::function::lemma_word_field_bound(s);
    if let Ok((w, n1)) = word_field(s) {
        let t = s.subrange(n1, s.len() as int);
        crate::function::lemma_word_field_bound(t);
        if let Ok((c, n2)) = word_field(t) {
            crate::function::lemma_word_field_bound(t.subrange(n2, t.len() as int));
            assert(t.subrange(n2, t.len() as int) =~= s.subrange(n1 + n2, s.len() as int));
        }
    }
}

/// The elements of a header, read line by line from the front of `s` with
/// the elements `es` read before, up to and including the line
/// `"end_header"`, and the number of bytes consumed.
pub open spec fn header_lines_spec(s: Seq<u8>, es: Seq<(Seq<u8>, ElementV)>) -> Result<
    (Seq<(Seq<u8>, ElementV)>, int),
    ErrorV,
>
    decreases s.len(),
    via header_lines_decreases
{
    match header_line_spec(s, es) {
        Err(e) => Err(e),
        Ok((None, n)) => Ok((es, n)),
        Ok((Some(es2), n)) => match header_lines_spec(s.subrange(n, s.len() as int), es2) {
            Err(e) => Err(e),
            Ok((es3, k)) => Ok((es3, n + k)),
        },
    }
}

#[via_fn]
proof fn header_lines_decreases(s: Seq<u8>, es: Seq<(Seq<u8>, ElementV)>) {
    lemma_header_line_bound(s, es);
}

/// The header read from the front of `s`: the signature `"ply"` wherever
/// it first occurs, a line end, the format, the version up to the end of
/// its line, then the elements and properties up to `"end_header"`.
pub open spec fn header_spec(s: Seq<u8>) -> Result<(HeaderV, int), ErrorV> {
    let i = find_signature(s, 0);
    if i < 0 {
        Err(ErrorV::UnexpectedEof)
    } else {
        let a = i + 3;
        match newline_spec(s.subrange(a, s.len() as int)) {
            Err(e) => Err(e),
            Ok(k) => {
                let b = a + k;
                match header_format_spec(s.subrange(b, s.len() as int)) {
                    Err(e) => Err(e),
                    Ok((format, m)) => {
                        let c = b + m;
                        match header_line_text_spec(s.subrange(c, s.len() as int)) {
                            Err(e) => Err(e),
                            Ok((version, v)) => {
                                let d = c + v;
                                match header_lines_spec(s.subrange(d, s.len() as int), Seq::empty()) {
                                    Err(e) => Err(e),
                                    Ok((es, n)) => Ok(
                                        (HeaderV { elements: es, format, version }, d + n),
                                    ),
                                }
                            },
                        }
                    },
                }
            },
        }
    }
}

/// Finds the first `"ply"` from `pos` on.
fn find_signature_from(input: &[u8], pos: usize) -> (r: Option<usize>)
    requires
        pos <= input@.len(),
    ensures
        match r {
            Some(i) => find_signature(input@, pos as int) == i as int && i + 3 <= input@.len(),
            None => find_signature(input@, pos as int) == -1,
        },
    decreases input@.len() - pos,
{
    if input.len() - pos < 3 {
        return None;
    }
    if holds_at(input, pos, &kw_ply_bytes()) {
        return Some(pos);
    }
    find_signature_from(input, pos + 1)
}

/// Reads a line end (see [`newline_spec`]).
fn read_newline(input: &[u8]) -> (r: Result<usize, Error>)
    ensures
        match r {
            Ok(k) => newline_spec(input@) == Ok::<int, ErrorV>(k as int),
            Err(e) => newline_spec(input@) == Err::<int, ErrorV>(e@),
        },
{
    if input.len() == 0 {
        Err(Error::UnexpectedEof)
    } else if input[0] == LF {
        Ok(1)
    } else if input[0] == CR {
        if input.len() < 2 {
            Err(Error::UnexpectedEof)
        } else if input[1] == LF {
            Ok(2)
        } else {
            Err(Error::MissingSymbol("newline"))
        }
    } else {
        Err(Error::MissingSymbol("newline"))
    }
}

/// Takes bytes that must be valid UTF-8 and ASCII (see [`ascii_spec`]).
fn ascii_vec(t: Vec<u8>) -> (r: Result<Vec<u8>, Error>)
    ensures
        match r {
            Ok(v) => ascii_spec(t@) == Ok::<Seq<u8>, ErrorV>(v@),
            Err(e) => ascii_spec(t@) == Err::<Seq<u8>, ErrorV>(e@),
        },
{
    if !is_valid_utf8(t.as_slice()) {
        return Err(Error::InvalidUtf8(crate::error::lossy_text(t.as_slice())));
    }
    let mut i: usize = 0;
    while i < t.len()
        invariant
            i <= t@.len(),
            vstd::utf8::valid_utf8(t@),
            forall|k: int| 0 <= k < i ==> #[trigger] t@[k] < 128,
        decreases t@.len() - i,
    {
        if t[i] >= 128 {
            assert(!is_ascii_bytes(t@)) by {
                assert(!(t@[i as int] < 128));
            }
            return Err(Error::InvalidAscii(crate::error::lossy_text(t.as_slice())));
        }
        i += 1;
    }
    Ok(t)
}

/// Reads an ASCII word (see [`header_word_spec`]).
fn read_header_word(input: &[u8]) -> (r: Result<(Vec<u8>, usize), Error>)
    ensures
        match r {
            Ok((w, n)) => header_word_spec(input@) == Ok::<(Seq<u8>, int), ErrorV>((w@, n as int)),
            Err(e) => header_word_spec(input@) == Err::<(Seq<u8>, int), ErrorV>(e@),
        },
        r matches Ok((_, n)) ==> 0 < n <= input@.len(),
{
    proof {
        crate::function::lemma_word_field_bound(input@);
    }
    match read_word(input) {
        Err(_) => Err(Error::UnexpectedEof),
        Ok((w, n)) => {
            let w = ascii_vec(w)?;
            Ok((w, n))
        },
    }
}

/// Reads the ASCII rest of a line (see [`header_line_text_spec`]).
fn read_header_line(input: &[u8]) -> (r: Result<(Vec<u8>, usize), Error>)
    ensures
        match r {
            Ok((t, n)) => header_line_text_spec(input@) == Ok::<(Seq<u8>, int), ErrorV>((t@, n as int)),
            Err(e) => header_line_text_spec(input@) == Err::<(Seq<u8>, int), ErrorV>(e@),
        },
        r matches Ok((_, n)) ==> n <= input@.len(),
{
    proof {
        crate::function::lemma_line_field_bound(input@);
    }
    let (t, n) = read_line(input);
    let t = ascii_vec(t)?;
    Ok((t, n))
}

/// Reads the format (see [`header_format_spec`]).
fn read_header_format(input: &[u8]) -> (r: Result<(Format, usize), Error>)
    ensures
        match r {
            Ok((f, n)) => header_format_spec(input@) == Ok::<(Format, int), ErrorV>((f, n as int)),
            Err(e) => header_format_spec(input@) == Err::<(Format, int), ErrorV>(e@),
        },
        r matches Ok((_, n)) ==> n <= input@.len(),
{
    let len = input.len();
    if len < 7 {
        return Err(Error::UnexpectedEof);
    }
    if !holds_at(input, 0, &kw_format__bytes()) {
        return Err(Error::MissingSymbol("format "));
    }
    if len < 8 {
        return Err(Error::UnexpectedEof);
    }
    if input[7] == 0x62 {
        if len < 14 {
            return Err(Error::UnexpectedEof);
        }
        if !holds_at(input, 8, &kw_inary__bytes()) {
            return Err(Error::MissingSymbol("binary_little_endian or binary_big_endian"));
        }
        if len < 15 {
            return Err(Error::UnexpectedEof);
        }
        if input[14] == 0x6c {
            if len < 28 {
                return Err(Error::UnexpectedEof);
            }
            if !holds_at(input, 15, &kw_ittle_endian__bytes()) {
                return Err(Error::MissingSymbol("binary_little_endian"));
            }
            Ok((Format::BinaryLittleEndian, 28))
        } else if input[14] == 0x62 {
            if len < 25 {
                return Err(Error::UnexpectedEof);
            }
            if !holds_at(input, 15, &kw_ig_endian__bytes()) {
                return Err(Error::MissingSymbol("binary_big_endian"));
            }
            Ok((Format::BinaryBigEndian, 25))
        } else {
            Err(Error::MissingSymbol("binary_little_endian or binary_big_endian"))
        }
    } else if input[7] == 0x61 {
        if len < 13 {
            return Err(Error::UnexpectedEof);
        }
        if !holds_at(input, 8, &kw_scii__bytes()) {
            return Err(Error::MissingSymbol("ascii"));
        }
        Ok((Format::Ascii, 13))
    } else {
        Err(Error::MissingSymbol("ascii or binary"))
    }
}

/// Reads a property kind (see [`header_kind_spec`]).
fn read_header_kind(input: &[u8]) -> (r: Result<(PropertyKind, usize), Error>)
    ensures
        match r {
            Ok((k, n)) => header_kind_spec(input@) == Ok::<(PropertyKindV, int), ErrorV>((k@, n as int)),
            Err(e) => header_kind_spec(input@) == Err::<(PropertyKindV, int), ErrorV>(e@),
        },
        r matches Ok((_, n)) ==> n <= input@.len(),
{
    let total = input.len();
    assert(total == input@.len());
    let (value, n1) = read_header_word(input)?;
    if !bytes_eq(value.as_slice(), &kw_list_bytes()) {
        return Ok((PropertyKind::Scalar(ScalarPropertyKind { value }), n1));
    }
    let rest = tail(input, n1);
    let (count, n2) = read_header_word(rest)?;
    assert(rest@.subrange(n2 as int, rest@.len() as int) =~= input@.subrange(n1 + n2, total as int));
    let (v, n3) = read_header_word(tail(rest, n2))?;
    Ok(
        (
            PropertyKind::List(
                ListPropertyKind {
                    count: ScalarPropertyKind { value: count },
                    value: ScalarPropertyKind { value: v },
                },
            ),
            n1 + n2 + n3,
        ),
    )
}

/// Reads one header line (see [`header_line_spec`]) and applies it to the
/// elements read so far.
fn read_header_line_into(input: &[u8], elements: &mut Elements) -> (r: Result<(bool, usize), Error>)
    requires
        distinct_keys(old(elements)@),
    ensures
        match r {
            Ok((end, n)) => header_line_spec(input@, old(elements)@) == Ok::<
                (Option<Seq<(Seq<u8>, ElementV)>>, int),
                ErrorV,
            >((if end { None } else { Some(final(elements)@) }, n as int)) && (end ==> final(elements)@
                == old(elements)@),
            Err(e) => header_line_spec(input@, old(elements)@) == Err::<
                (Option<Seq<(Seq<u8>, ElementV)>>, int),
                ErrorV,
            >(e@),
        },
        r matches Ok((_, n)) ==> 0 < n <= input@.len(),
        distinct_keys(final(elements)@),
{
    proof {
        reveal(header_line_spec);
        lemma_header_line_bound(input@, old(elements)@);
    }
    let total = input.len();
    assert(total == input@.len());
    if total < 8 {
        return Err(Error::UnexpectedEof);
    }
    if holds_at(input, 0, &kw_end_head_bytes()) {
        if total < 10 {
            return Err(Error::UnexpectedEof);
        }
        if !holds_at(input, 8, &kw_er_bytes()) {
            return Err(Error::MissingSymbol("end_header"));
        }
        let k = read_newline(tail(input, 10))?;
        return Ok((true, 10 + k));
    }
    if holds_at(input, 0, &kw_property_bytes()) {
        if total < 9 {
            return Err(Error::UnexpectedEof);
        }
        if input[8] != SPACE {
            return Err(Error::MissingSymbol(" "));
        }
        if elements.len() == 0 {
            return Err(Error::MissingSymbol("element"));
        }
        let rest = tail(input, 9);
        let (kind, n) = read_header_kind(rest)?;
        proof {
            lemma_header_kind_bound(rest@);
        }
        assert(rest@.subrange(n as int, rest@.len() as int) =~= input@.subrange(9 + n, total as int));
        let (name, m) = read_header_line(tail(rest, n))?;
        let ghost before = elements@;
        match super::element_map_pop(&mut elements.inner) {
            Some((key, mut element)) => {
                let key_for_property = vstd::slice::slice_to_vec(name.as_slice());
                element.properties.insert(key_for_property, Property { kind, name });
                proof {
                    assert(!has_key(before.drop_last(), key@)) by {
                        if has_key(before.drop_last(), key@) {
                            let j = choose|j: int|
                                0 <= j < before.drop_last().len() && (#[trigger] before.drop_last()[j]).0
                                    == key@;
                            assert(before[j].0 == before[before.len() - 1].0);
                        }
                    }
                    assert(distinct_keys(before.drop_last())) by {
                        assert forall|i: int, j: int|
                            0 <= i < j < before.drop_last().len() implies (#[trigger] before.drop_last()[i]).0
                            != (#[trigger] before.drop_last()[j]).0 by {
                            assert(before.drop_last()[i] == before[i]);
                            assert(before.drop_last()[j] == before[j]);
                        }
                    }
                }
                elements.insert(key, element);
                proof {
                    assert(elements@ =~= with_property(before, name@, (kind@, name@)));
                }
                Ok((false, 9 + n + m))
            },
            None => {
                assert(false);
                Err(Error::MissingSymbol("element"))
            },
        }
    } else if holds_at(input, 0, &kw_element__bytes()) {
        let rest = tail(input, 8);
        let (name, n) = read_header_word(rest)?;
        assert(rest@.subrange(n as int, rest@.len() as int) =~= input@.subrange(8 + n, total as int));
        let (t, m) = read_header_line(tail(rest, n))?;
        let count = match parse_usize(t.as_slice()) {
            Some(c) => c,
            None => return Err(Error::ParseInt(crate::error::lossy_text(t.as_slice()))),
        };
        let key = vstd::slice::slice_to_vec(name.as_slice());
        elements.insert(key, Element { count, name, properties: Properties::new() });
        Ok((false, 8 + n + m))
    } else if holds_at(input, 0, &kw_comment__bytes()) || holds_at(input, 0, &kw_obj_info_bytes()) {
        let (_, m) = read_line(tail(input, 8));
        Ok((false, 8 + m))
    } else {
        Err(Error::MissingSymbol("comment, element, end_header, obj_info, or property"))
    }
}

impl Header {
    /// Reads a header from the front of `input` (see [`header_spec`]); gives
    /// the header and the number of bytes consumed.
    pub fn decode(input: &[u8]) -> (r: Result<(Self, usize), Error>)
        ensures
            decoded(r) == header_spec(input@),
            r matches Ok((_, n)) ==> n <= input@.len(),
    {
        let total = input.len();
        assert(total == input@.len());
        let i = match find_signature_from(input, 0) {
            Some(i) => i,
            None => return Err(Error::UnexpectedEof),
        };
        let a = i + 3;
        let k = read_newline(tail(input, a))?;
        let b = a + k;
        let (format, m) = read_header_format(tail(input, b))?;
        let c = b + m;
        let (version, v) = read_header_line(tail(input, c))?;
        let start = c + v;
        let mut elements = Elements::new();
        let mut pos = start;
        loop
            invariant
                total == input@.len(),
                start <= pos <= total,
                distinct_keys(elements@),
                header_spec(input@) == match header_lines_spec(
                    input@.subrange(start as int, total as int),
                    Seq::empty(),
                ) {
                    Err(e) => Err(e),
                    Ok((es, n)) => Ok((HeaderV { elements: es, format, version: version@ }, start + n)),
                },
                header_lines_spec(input@.subrange(start as int, total as int), Seq::empty())
                    == match header_lines_spec(input@.subrange(pos as int, total as int), elements@) {
                    Err(e) => Err(e),
                    Ok((es, n)) => Ok::<(Seq<(Seq<u8>, ElementV)>, int), ErrorV>((es, pos - start + n)),
                },
            decreases total - pos,
        {
            let ghost u = input@.subrange(pos as int, total as int);
            let ghost before = elements@;
            match read_header_line_into(tail(input, pos), &mut elements) {
                Err(e) => return Err(e),
                Ok((true, n)) => {
                    return Ok((Header { elements, format, version }, pos + n));
                },
                Ok((false, n)) => {
                    proof {
                        assert(u.subrange(n as int, u.len() as int) =~= input@.subrange(
                            pos + n,
                            total as int,
                        ));
                    }
                    pos = pos + n;
                },
            }
        }
    }
}

impl std::str::FromStr for Header {
    type Err = Error;

    /// Reads a header from the front of the text (see [`Header::decode`]).
    fn from_str(input: &str) -> (r: Result<Header, Error>)
        ensures
            match header_spec(input.spec_bytes()) {
                Ok((h, _)) => r matches Ok(header) && header@ == h,
                Err(e) => r matches Err(err) && err@ == e,
            },
    {
        match Header::decode(input.as_bytes()) {
            Ok((header, _)) => Ok(header),
            Err(e) => Err(e),
        }
    }
}

} // verus!
