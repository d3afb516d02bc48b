//! What a header reads back of what it writes.

use vstd::prelude::*;

use crate::ascii::is_ascii_bytes;
use crate::error::ErrorV;
use crate::function::{
    decimal_digits, is_clean_word, is_line_content, lemma_ascii_valid_utf8, lemma_decimal_digits,
    lemma_digits_valid_utf8, lemma_line_field_clean, lemma_parse_decimal_digits,
    lemma_word_field_clean, LF, SPACE,
};
use crate::index_map::{distinct_keys, has_key, map_insert};
use crate::keyword::{
    kw_element_, kw_end_head, kw_end_header, kw_er, kw_format_, kw_list, kw_list_, kw_ply,
    kw_ply_newline, kw_property, kw_property_,
};

use super::decode::{
    header_kind_spec, header_line_spec, header_line_text_spec, header_lines_spec, header_spec,
    header_word_spec, with_property,
};
use super::encode::{element_bytes, elements_bytes, format_name, header_bytes, properties_bytes, property_line};
use super::property::{kind_text, PropertyKindV, PropertyV};
use super::{ElementV, Format, HeaderV};

verus! {

/// A word that a header reads back whole: ASCII, not empty, no space.
pub open spec fn is_header_word(w: Seq<u8>) -> bool {
    is_clean_word(w) && is_ascii_bytes(w)
}

/// A line text that a header reads back whole: ASCII, no `'\n'`, no
/// `'\r'` at its end.
pub open spec fn is_header_text(t: Seq<u8>) -> bool {
    is_line_content(t) && is_ascii_bytes(t)
}

/// A property kind that a header reads back whole.
pub open spec fn is_clean_kind(k: PropertyKindV) -> bool {
    match k {
        PropertyKindV::Scalar(v) => is_header_word(v) && v != kw_list(),
        PropertyKindV::List(c, v) => is_header_word(c) && is_header_word(v),
    }
}

/// A property entry that a header reads back whole: named by its own name.
pub open spec fn is_clean_property_entry(p: (Seq<u8>, PropertyV)) -> bool {
    &&& p.0 == p.1.1
    &&& is_header_text(p.1.1)
    &&& is_clean_kind(p.1.0)
}

/// An element entry that a header reads back whole: named by its own name,
/// with distinct, clean properties.
pub open spec fn is_clean_element_entry(e: (Seq<u8>, ElementV)) -> bool {
    &&& e.0 == e.1.name
    &&& is_header_word(e.1.name)
    &&& distinct_keys(e.1.properties)
    &&& forall|j: int| 0 <= j < e.1.properties.len() ==> is_clean_property_entry(#[trigger] e.1.properties[j])
}

/// A header that reads back as itself from its text.
pub open spec fn is_clean_header(h: HeaderV) -> bool {
    &&& is_header_text(h.version)
    &&& distinct_keys(h.elements)
    &&& forall|i: int| 0 <= i < h.elements.len() ==> is_clean_element_entry(#[trigger] h.elements[i])
}

/// A reading result with `k` more bytes consumed.
pub open spec fn shift<T>(r: Result<(T, int), ErrorV>, k: int) -> Result<(T, int), ErrorV> {
    match r {
        Err(e) => Err(e),
        Ok((t, n)) => Ok((t, n + k)),
    }
}

/// The line of an element.
pub open spec fn element_line(e: ElementV) -> Seq<u8> {
    kw_element_() + e.name + seq![SPACE] + decimal_digits(e.count as nat) + seq![LF]
}

pub(crate) proof fn lemma_keywords_differ()
    ensures
        kw_property() != kw_end_head(),
        kw_element_() != kw_end_head(),
        kw_element_() != kw_property(),
        kw_end_header().subrange(0, 8) == kw_end_head(),
        kw_end_header().subrange(8, 10) == kw_er(),
{
    assert(kw_property()[0] != kw_end_head()[0]);
    assert(kw_element_()[1] != kw_end_head()[1]);
    assert(kw_element_()[0] != kw_property()[0]);
    assert(kw_end_header().subrange(0, 8) =~= kw_end_head());
    assert(kw_end_header().subrange(8, 10) =~= kw_er());
}

/// A clean word followed by a space reads back as a header word.
pub(crate) proof fn lemma_header_word_clean(w: Seq<u8>, rest: Seq<u8>)
    requires
        is_header_word(w),
    ensures
        header_word_spec(w + seq![SPACE] + rest) == Ok::<(Seq<u8>, int), ErrorV>((w, w.len() + 1int)),
{
    lemma_word_field_clean(w, rest);
    lemma_ascii_valid_utf8(w);
}

/// A clean text followed by a line end reads back as a header text.
proof fn lemma_header_text_clean(t: Seq<u8>, rest: Seq<u8>)
    requires
        is_header_text(t),
    ensures
        header_line_text_spec(t + seq![LF] + rest) == Ok::<(Seq<u8>, int), ErrorV>((t, t.len() + 1int)),
{
    lemma_line_field_clean(t, rest);
    lemma_ascii_valid_utf8(t);
}

/// A clean kind reads back as itself, followed by a space.
pub(crate) proof fn lemma_kind_clean(k: PropertyKindV, rest: Seq<u8>)
    requires
        is_clean_kind(k),
    ensures
        header_kind_spec(kind_text(k) + seq![SPACE] + rest) == Ok::<(PropertyKindV, int), ErrorV>(
            (k, kind_text(k).len() + 1int),
        ),
{
    let s = kind_text(k) + seq![SPACE] + rest;
    match k {
        PropertyKindV::Scalar(v) => {
            lemma_header_word_clean(v, rest);
        },
        PropertyKindV::List(c, v) => {
            let after_list = c + seq![SPACE] + v + seq![SPACE] + rest;
            assert(s =~= kw_list() + seq![SPACE] + after_list);
            assert(is_header_word(kw_list())) by {
                assert(kw_list()[0] != SPACE);
                assert(forall|i: int| 0 <= i < kw_list().len() ==> kw_list()[i] != SPACE && kw_list()[i] < 128);
            }
            lemma_header_word_clean(kw_list(), after_list);
            assert(s.subrange(5, s.len() as int) =~= after_list);
            let after_count = v + seq![SPACE] + rest;
            assert(after_list =~= c + seq![SPACE] + after_count);
            lemma_header_word_clean(c, after_count);
            assert(s.subrange(5 + c.len() + 1int, s.len() as int) =~= after_count);
            lemma_header_word_clean(v, rest);
        },
    }
}

/// The line `"end_header"` ends the elements, whatever follows.
proof fn lemma_end_line(rest: Seq<u8>, es: Seq<(Seq<u8>, ElementV)>)
    ensures
        header_line_spec(kw_end_header() + seq![LF] + rest, es) == Ok::<
            (Option<Seq<(Seq<u8>, ElementV)>>, int),
            ErrorV,
        >((None, 11)),
{
    reveal(header_line_spec);
    lemma_keywords_differ();
    let s = kw_end_header() + seq![LF] + rest;
    assert(s.subrange(0, 8) =~= kw_end_head());
    assert(s.subrange(8, 10) =~= kw_er());
    assert(s.subrange(10, s.len() as int) =~= seq![LF] + rest);
}

/// The line of a clean property reads back as that property inserted into
/// the last element.
proof fn lemma_property_line(p: (Seq<u8>, PropertyV), rest: Seq<u8>, es: Seq<(Seq<u8>, ElementV)>)
    requires
        is_clean_property_entry(p),
        es.len() > 0,
    ensures
        header_line_spec(property_line(p.1) + rest, es) == Ok::<
            (Option<Seq<(Seq<u8>, ElementV)>>, int),
            ErrorV,
        >((Some(with_property(es, p.1.1, p.1)), property_line(p.1).len() as int)),
{
    reveal(header_line_spec);
    lemma_keywords_differ();
    let s = property_line(p.1) + rest;
    let name_and_rest = p.1.1 + seq![LF] + rest;
    let after = kind_text(p.1.0) + seq![SPACE] + name_and_rest;
    assert(s.subrange(0, 8) =~= kw_property());
    assert(s[8] == SPACE);
    assert(s.subrange(9, s.len() as int) =~= after);
    lemma_kind_clean(p.1.0, name_and_rest);
    let n = kind_text(p.1.0).len() + 1int;
    assert(s.subrange(9 + n, s.len() as int) =~= name_and_rest);
    lemma_header_text_clean(p.1.1, rest);
}

/// The line of a clean element reads back as that element, without
/// properties, inserted into the elements.
proof fn lemma_element_line(e: ElementV, rest: Seq<u8>, es: Seq<(Seq<u8>, ElementV)>)
    requires
        is_header_word(e.name),
    ensures
        header_line_spec(element_line(e) + rest, es) == Ok::<
            (Option<Seq<(Seq<u8>, ElementV)>>, int),
            ErrorV,
        >(
            (
                Some(map_insert(es, e.name, ElementV { count: e.count, name: e.name, properties: Seq::empty() })),
                element_line(e).len() as int,
            ),
        ),
{
    reveal(header_line_spec);
    lemma_keywords_differ();
    let s = element_line(e) + rest;
    let d = decimal_digits(e.count as nat);
    let after = e.name + seq![SPACE] + (d + seq![LF] + rest);
    assert(s.subrange(0, 8) =~= kw_element_());
    assert(s.subrange(8, s.len() as int) =~= after);
    lemma_header_word_clean(e.name, d + seq![LF] + rest);
    assert(s.subrange(8 + e.name.len() + 1int, s.len() as int) =~= d + seq![LF] + rest);
    lemma_decimal_digits(e.count as nat);
    lemma_digits_valid_utf8(d);
    lemma_header_text_clean(d, rest);
    lemma_parse_decimal_digits(e.count as nat, usize::MAX as int);
}

/// The lines of properties split at the first one.
proof fn lemma_properties_bytes_front(x: (Seq<u8>, PropertyV), ys: Seq<(Seq<u8>, PropertyV)>)
    ensures
        properties_bytes(seq![x] + ys) == property_line(x.1) + properties_bytes(ys),
    decreases ys.len(),
{
    let all = seq![x] + ys;
    if ys.len() == 0 {
        assert(all.drop_last() =~= Seq::<(Seq<u8>, PropertyV)>::empty());
        assert(properties_bytes(Seq::<(Seq<u8>, PropertyV)>::empty()) =~= Seq::<u8>::empty());
        assert(properties_bytes(all) =~= property_line(x.1) + properties_bytes(ys));
    } else {
        lemma_properties_bytes_front(x, ys.drop_last());
        assert(all.drop_last() =~= seq![x] + ys.drop_last());
        assert(properties_bytes(all) =~= property_line(x.1) + properties_bytes(ys));
    }
}

/// The lines of elements split at the first one.
proof fn lemma_elements_bytes_front(x: (Seq<u8>, ElementV), ys: Seq<(Seq<u8>, ElementV)>)
    ensures
        elements_bytes(seq![x] + ys) == element_bytes(x.1) + elements_bytes(ys),
    decreases ys.len(),
{
    let all = seq![x] + ys;
    if ys.len() == 0 {
        assert(all.drop_last() =~= Seq::<(Seq<u8>, ElementV)>::empty());
        assert(elements_bytes(Seq::<(Seq<u8>, ElementV)>::empty()) =~= Seq::<u8>::empty());
        assert(elements_bytes(all) =~= element_bytes(x.1) + elements_bytes(ys));
    } else {
        lemma_elements_bytes_front(x, ys.drop_last());
        assert(all.drop_last() =~= seq![x] + ys.drop_last());
        assert(elements_bytes(all) =~= element_bytes(x.1) + elements_bytes(ys));
    }
}

/// With distinct keys, a key of a later entry is not among the earlier
/// ones.
pub(crate) proof fn lemma_fresh_key<V>(es: Seq<(Seq<u8>, V)>, j: int)
    requires
        distinct_keys(es),
        0 <= j < es.len(),
    ensures
        !has_key(es.subrange(0, j), es[j].0),
{
    if has_key(es.subrange(0, j), es[j].0) {
        let i = choose|i: int| 0 <= i < j && (#[trigger] es.subrange(0, j)[i]).0 == es[j].0;
        assert(es.subrange(0, j)[i] == es[i]);
    }
}

/// The property lines of an element, from its `j`-th property on, read
/// back the rest of its properties into the last element.
proof fn lemma_properties_roundtrip(
    pre: Seq<(Seq<u8>, ElementV)>,
    e: ElementV,
    j: int,
    rest: Seq<u8>,
)
    requires
        0 <= j <= e.properties.len(),
        distinct_keys(e.properties),
        forall|k: int| 0 <= k < e.properties.len() ==> is_clean_property_entry(#[trigger] e.properties[k]),
    ensures
        header_lines_spec(
            properties_bytes(e.properties.subrange(j, e.properties.len() as int)) + rest,
            pre.push((e.name, ElementV { count: e.count, name: e.name, properties: e.properties.subrange(0, j) })),
        ) == shift(
            header_lines_spec(rest, pre.push((e.name, e))),
            properties_bytes(e.properties.subrange(j, e.properties.len() as int)).len() as int,
        ),
    decreases e.properties.len() - j,
{
    let ps = e.properties;
    let len = ps.len() as int;
    let state = pre.push((e.name, ElementV { count: e.count, name: e.name, properties: ps.subrange(0, j) }));
    if j == len {
        assert(ps.subrange(j, len) =~= Seq::<(Seq<u8>, PropertyV)>::empty());
        assert(properties_bytes(Seq::<(Seq<u8>, PropertyV)>::empty()) =~= Seq::<u8>::empty());
        assert(ps.subrange(0, j) =~= ps);
        assert(properties_bytes(ps.subrange(j, len)) + rest =~= rest);
        assert(state =~= pre.push((e.name, e)));
        match header_lines_spec(rest, pre.push((e.name, e))) {
            Ok((t, n)) => {},
            Err(err) => {},
        }
    } else {
        let x = ps[j];
        let tail = ps.subrange(j + 1, len);
        assert(ps.subrange(j, len) =~= seq![x] + tail);
        lemma_properties_bytes_front(x, tail);
        let more = properties_bytes(tail) + rest;
        let s = properties_bytes(ps.subrange(j, len)) + rest;
        assert(s =~= property_line(x.1) + more);
        assert(is_clean_property_entry(ps[j]));
        lemma_property_line(x, more, state);
        lemma_fresh_key(ps, j);
        let next = pre.push((e.name, ElementV { count: e.count, name: e.name, properties: ps.subrange(0, j + 1) }));
        assert(ps.subrange(0, j).push(x) =~= ps.subrange(0, j + 1));
        assert(x.0 == x.1.1);
        assert(with_property(state, x.1.1, x.1) =~= next);
        let n = property_line(x.1).len() as int;
        assert(s.subrange(n, s.len() as int) =~= more);
        lemma_properties_roundtrip(pre, e, j + 1, rest);
    }
}

/// The lines of elements, from the `i`-th on, and the line `"end_header"`
/// read back the elements.
proof fn lemma_elements_roundtrip(es: Seq<(Seq<u8>, ElementV)>, i: int, rest: Seq<u8>)
    requires
        0 <= i <= es.len(),
        distinct_keys(es),
        forall|k: int| 0 <= k < es.len() ==> is_clean_element_entry(#[trigger] es[k]),
    ensures
        header_lines_spec(
            elements_bytes(es.subrange(i, es.len() as int)) + kw_end_header() + seq![LF] + rest,
            es.subrange(0, i),
        ) == Ok::<(Seq<(Seq<u8>, ElementV)>, int), ErrorV>(
            (es, elements_bytes(es.subrange(i, es.len() as int)).len() + 11int),
        ),
    decreases es.len() - i,
{
    let len = es.len() as int;
    let s = elements_bytes(es.subrange(i, len)) + kw_end_header() + seq![LF] + rest;
    if i == len {
        assert(es.subrange(i, len) =~= Seq::<(Seq<u8>, ElementV)>::empty());
        assert(elements_bytes(Seq::<(Seq<u8>, ElementV)>::empty()) =~= Seq::<u8>::empty());
        assert(s =~= kw_end_header() + seq![LF] + rest);
        lemma_end_line(rest, es.subrange(0, i));
        assert(es.subrange(0, i) =~= es);
    } else {
        let x = es[i];
        let e = x.1;
        let tail = es.subrange(i + 1, len);
        assert(es.subrange(i, len) =~= seq![x] + tail);
        lemma_elements_bytes_front(x, tail);
        let after = elements_bytes(tail) + kw_end_header() + seq![LF] + rest;
        let props_and_after = properties_bytes(e.properties) + after;
        assert(s =~= element_line(e) + props_and_after);
        assert(is_clean_element_entry(es[i]));
        lemma_element_line(e, props_and_after, es.subrange(0, i));
        lemma_fresh_key(es, i);
        let pre = es.subrange(0, i);
        let empty_e = ElementV { count: e.count, name: e.name, properties: Seq::empty() };
        assert(x.0 == e.name);
        assert(map_insert(pre, e.name, empty_e) =~= pre.push((e.name, empty_e)));
        let n = element_line(e).len() as int;
        assert(s.subrange(n, s.len() as int) =~= props_and_after);
        assert(e.properties.subrange(0, 0) =~= Seq::<(Seq<u8>, PropertyV)>::empty());
        assert(e.properties.subrange(0, e.properties.len() as int) =~= e.properties);
        lemma_properties_roundtrip(pre, e, 0, after);
        assert(pre.push((e.name, e)) =~= es.subrange(0, i + 1));
        lemma_elements_roundtrip(es, i + 1, rest);
    }
}

/// The format line reads back as its format, whatever follows the space
/// after its name.
pub(crate) proof fn lemma_format_roundtrip(f: Format, rest: Seq<u8>)
    ensures
        super::decode::header_format_spec(kw_format_() + format_name(f) + seq![SPACE] + rest)
            == Ok::<(Format, int), ErrorV>((f, 8 + format_name(f).len() as int)),
{
    let fs = kw_format_() + format_name(f) + seq![SPACE] + rest;
    assert(fs.subrange(0, 7) =~= kw_format_());
    match f {
        Format::BinaryLittleEndian => {
            assert(fs.subrange(8, 14) =~= crate::keyword::kw_inary_());
            assert(fs.subrange(15, 28) =~= crate::keyword::kw_ittle_endian_());
        },
        Format::Ascii => {
            assert(fs.subrange(8, 13) =~= crate::keyword::kw_scii_());
        },
        Format::BinaryBigEndian => {
            assert(fs.subrange(8, 14) =~= crate::keyword::kw_inary_());
            assert(fs.subrange(15, 25) =~= crate::keyword::kw_ig_endian_());
        },
    }
}

/// The signature line is found at the front and ends after four bytes.
proof fn lemma_signature_front(after: Seq<u8>)
    ensures
        super::decode::find_signature(kw_ply_newline() + after, 0) == 0,
        super::decode::newline_spec((kw_ply_newline() + after).subrange(3, 4 + after.len() as int))
            == Ok::<int, ErrorV>(1),
        (kw_ply_newline() + after).subrange(4, 4 + after.len() as int) =~= after,
{
    let s = kw_ply_newline() + after;
    assert(s.subrange(0, 3) =~= kw_ply());
    assert(s.subrange(3, s.len() as int)[0] == LF);
}

/// A header read in parts: the signature at the front, a line end, the
/// format, the version and the elements.
proof fn lemma_header_spec_parts(
    s: Seq<u8>,
    format: Format,
    m: int,
    version: Seq<u8>,
    k: int,
    es: Seq<(Seq<u8>, ElementV)>,
    n: int,
)
    requires
        s.len() >= 4,
        super::decode::find_signature(s, 0) == 0,
        super::decode::newline_spec(s.subrange(3, s.len() as int)) == Ok::<int, ErrorV>(1),
        super::decode::header_format_spec(s.subrange(4, s.len() as int)) == Ok::<(Format, int), ErrorV>(
            (format, m),
        ),
        header_line_text_spec(s.subrange(4 + m, s.len() as int)) == Ok::<(Seq<u8>, int), ErrorV>(
            (version, k),
        ),
        header_lines_spec(s.subrange(4 + m + k, s.len() as int), Seq::empty()) == Ok::<
            (Seq<(Seq<u8>, ElementV)>, int),
            ErrorV,
        >((es, n)),
    ensures
        header_spec(s) == Ok::<(HeaderV, int), ErrorV>(
            (HeaderV { elements: es, format, version }, 4 + m + k + n),
        ),
{
}

/// A clean header reads back as itself from its text, whatever follows:
/// the same format, version and elements, each with the same properties
/// in the same order, having consumed exactly the bytes of the text.
pub proof fn lemma_header_roundtrip(h: HeaderV, rest: Seq<u8>)
    requires
        is_clean_header(h),
    ensures
        header_spec(header_bytes(h) + rest) == Ok::<(HeaderV, int), ErrorV>(
            (h, header_bytes(h).len() as int),
        ),
{
    let s = header_bytes(h) + rest;
    let lines = elements_bytes(h.elements) + kw_end_header() + seq![LF] + rest;
    let version_and_lines = h.version + seq![LF] + lines;
    let after_ply = kw_format_() + format_name(h.format) + seq![SPACE] + version_and_lines;
    let m: int = 8 + format_name(h.format).len() as int;
    let k: int = h.version.len() as int + 1;
    let n = elements_bytes(h.elements).len() + 11int;
    assert(s =~= kw_ply_newline() + after_ply);
    assert(super::decode::find_signature(s, 0) == 0
        && super::decode::newline_spec(s.subrange(3, s.len() as int)) == Ok::<int, ErrorV>(1)
        && s.subrange(4, s.len() as int) == after_ply) by {
        lemma_signature_front(after_ply);
    }
    assert(super::decode::header_format_spec(s.subrange(4, s.len() as int)) == Ok::<(Format, int), ErrorV>(
        (h.format, m),
    )) by {
        lemma_format_roundtrip(h.format, version_and_lines);
    }
    assert(header_line_text_spec(s.subrange(4 + m, s.len() as int)) == Ok::<(Seq<u8>, int), ErrorV>(
        (h.version, k),
    )) by {
        assert(s.subrange(4 + m, s.len() as int) =~= version_and_lines);
        lemma_header_text_clean(h.version, lines);
    }
    assert(header_lines_spec(s.subrange(4 + m + k, s.len() as int), Seq::empty()) == Ok::<
        (Seq<(Seq<u8>, ElementV)>, int),
        ErrorV,
    >((h.elements, n))) by {
        assert(s.subrange(4 + m + k, s.len() as int) =~= lines);
        assert(h.elements.subrange(0, h.elements.len() as int) =~= h.elements);
        assert(h.elements.subrange(0, 0) =~= Seq::<(Seq<u8>, ElementV)>::empty());
        lemma_elements_roundtrip(h.elements, 0, rest);
    }
    assert(header_bytes(h).len() == 4 + m + k + n);
    assert(HeaderV { elements: h.elements, format: h.format, version: h.version } == h);
    lemma_header_spec_parts(s, h.format, m, h.version, k, h.elements, n);
}

proof fn lemma_ascii_concat(a: Seq<u8>, b: Seq<u8>)
    requires
        is_ascii_bytes(a),
        is_ascii_bytes(b),
    ensures
        is_ascii_bytes(a + b),
{
    assert forall|i: int| 0 <= i < (a + b).len() implies #[trigger] (a + b)[i] < 128 by {
        if i < a.len() {
            assert((a + b)[i] == a[i]);
        } else {
            assert((a + b)[i] == b[i - a.len()]);
        }
    }
}

proof fn lemma_kind_ascii(k: PropertyKindV)
    requires
        is_clean_kind(k),
    ensures
        is_ascii_bytes(kind_text(k)),
{
    if let PropertyKindV::List(c, v) = k {
        assert(is_ascii_bytes(crate::keyword::kw_list_()));
        assert(is_ascii_bytes(seq![SPACE]));
        lemma_ascii_concat(crate::keyword::kw_list_(), c);
        lemma_ascii_concat(crate::keyword::kw_list_() + c, seq![SPACE]);
        lemma_ascii_concat(crate::keyword::kw_list_() + c + seq![SPACE], v);
    }
}

proof fn lemma_properties_ascii(ps: Seq<(Seq<u8>, PropertyV)>)
    requires
        forall|j: int| 0 <= j < ps.len() ==> is_clean_property_entry(#[trigger] ps[j]),
    ensures
        is_ascii_bytes(properties_bytes(ps)),
    decreases ps.len(),
{
    if ps.len() > 0 {
        let init = ps.drop_last();
        assert forall|j: int| 0 <= j < init.len() implies is_clean_property_entry(#[trigger] init[j]) by {
            assert(init[j] == ps[j]);
        }
        lemma_properties_ascii(init);
        let p = ps.last().1;
        assert(is_clean_property_entry(ps[ps.len() - 1]));
        lemma_kind_ascii(p.0);
        assert(is_ascii_bytes(kw_property_()));
        assert(is_ascii_bytes(seq![SPACE]));
        assert(is_ascii_bytes(seq![LF]));
        lemma_ascii_concat(kw_property_(), kind_text(p.0));
        lemma_ascii_concat(kw_property_() + kind_text(p.0), seq![SPACE]);
        lemma_ascii_concat(kw_property_() + kind_text(p.0) + seq![SPACE], p.1);
        lemma_ascii_concat(kw_property_() + kind_text(p.0) + seq![SPACE] + p.1, seq![LF]);
        lemma_ascii_concat(properties_bytes(init), property_line(p));
    }
}

proof fn lemma_elements_ascii(es: Seq<(Seq<u8>, ElementV)>)
    requires
        forall|i: int| 0 <= i < es.len() ==> is_clean_element_entry(#[trigger] es[i]),
    ensures
        is_ascii_bytes(elements_bytes(es)),
    decreases es.len(),
{
    if es.len() > 0 {
        let init = es.drop_last();
        assert forall|i: int| 0 <= i < init.len() implies is_clean_element_entry(#[trigger] init[i]) by {
            assert(init[i] == es[i]);
        }
        lemma_elements_ascii(init);
        let e = es.last().1;
        assert(is_clean_element_entry(es[es.len() - 1]));
        lemma_properties_ascii(e.properties);
        lemma_decimal_digits(e.count as nat);
        crate::function::lemma_digits_valid_utf8(decimal_digits(e.count as nat));
        assert(is_ascii_bytes(kw_element_()));
        assert(is_ascii_bytes(seq![SPACE]));
        assert(is_ascii_bytes(seq![LF]));
        let a1 = kw_element_() + e.name;
        let a2 = a1 + seq![SPACE];
        let a3 = a2 + decimal_digits(e.count as nat);
        let a4 = a3 + seq![LF];
        lemma_ascii_concat(kw_element_(), e.name);
        lemma_ascii_concat(a1, seq![SPACE]);
        lemma_ascii_concat(a2, decimal_digits(e.count as nat));
        lemma_ascii_concat(a3, seq![LF]);
        lemma_ascii_concat(a4, properties_bytes(e.properties));
        lemma_ascii_concat(elements_bytes(init), element_bytes(e));
    }
}

/// The text of a clean header is ASCII, so writing it does not fail.
pub proof fn lemma_clean_header_ascii(h: HeaderV)
    requires
        is_clean_header(h),
    ensures
        is_ascii_bytes(header_bytes(h)),
{
    lemma_elements_ascii(h.elements);
    assert(is_ascii_bytes(kw_ply_newline()));
    assert(is_ascii_bytes(kw_format_()));
    assert(is_ascii_bytes(format_name(h.format)));
    assert(is_ascii_bytes(seq![SPACE]));
    assert(is_ascii_bytes(seq![LF]));
    assert(is_ascii_bytes(kw_end_header()));
    let a1 = kw_ply_newline() + kw_format_();
    let a2 = a1 + format_name(h.format);
    let a3 = a2 + seq![SPACE];
    let a4 = a3 + h.version;
    let a5 = a4 + seq![LF];
    let a6 = a5 + elements_bytes(h.elements);
    let a7 = a6 + kw_end_header();
    lemma_ascii_concat(kw_ply_newline(), kw_format_());
    lemma_ascii_concat(a1, format_name(h.format));
    lemma_ascii_concat(a2, seq![SPACE]);
    lemma_ascii_concat(a3, h.version);
    lemma_ascii_concat(a4, seq![LF]);
    lemma_ascii_concat(a5, elements_bytes(h.elements));
    lemma_ascii_concat(a6, kw_end_header());
    lemma_ascii_concat(a7, seq![LF]);
}

} // verus!
