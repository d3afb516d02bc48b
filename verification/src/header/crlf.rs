//! A header whose lines end in `"\r\n"` reads back like one whose lines end
//! in `"\n"`.

use vstd::prelude::*;

use crate::ascii::is_ascii_bytes;
use crate::error::ErrorV;
use crate::function::{
    decimal_digits, is_line_content, lemma_ascii_valid_utf8, lemma_decimal_digits,
    lemma_digits_valid_utf8, lemma_find_byte_at, lemma_parse_decimal_digits, line_field, CR, LF,
    SPACE,
};
use crate::index_map::{distinct_keys, map_insert};
use crate::keyword::{kw_element_, kw_format_, kw_ply, kw_property, kw_property_};

use super::decode::{
    find_signature, header_format_spec, header_line_spec, header_line_text_spec, header_lines_spec,
    header_spec, newline_spec, with_property,
};
use super::encode::format_name;
use super::prefix::{end_header_line, lemma_end_header_line};
use super::property::{kind_text, PropertyV};
use super::roundtrip::{
    is_clean_element_entry, is_clean_header, is_clean_property_entry, is_header_text, is_header_word,
    lemma_fresh_key, lemma_header_word_clean, lemma_keywords_differ, lemma_kind_clean, shift,
};
use super::{ElementV, Format, HeaderV};

verus! {

/// A line end: `"\r\n"` when `crlf`, else `"\n"`.
pub open spec fn line_end(crlf: bool) -> Seq<u8> {
    if crlf {
        seq![CR, LF]
    } else {
        seq![LF]
    }
}

/// The line of a property with the line end `line_end(crlf)`.
pub open spec fn property_line_with(p: PropertyV, crlf: bool) -> Seq<u8> {
    kw_property_() + kind_text(p.0) + seq![SPACE] + p.1 + line_end(crlf)
}

/// The lines of properties with the line end `line_end(crlf)`.
pub open spec fn properties_bytes_with(ps: Seq<(Seq<u8>, PropertyV)>, crlf: bool) -> Seq<u8>
    decreases ps.len(),
{
    if ps.len() == 0 {
        Seq::empty()
    } else {
        properties_bytes_with(ps.drop_last(), crlf) + property_line_with(ps.last().1, crlf)
    }
}

/// The line of an element with the line end `line_end(crlf)`.
pub open spec fn element_line_with(e: ElementV, crlf: bool) -> Seq<u8> {
    kw_element_() + e.name + seq![SPACE] + decimal_digits(e.count as nat) + line_end(crlf)
}

/// The lines of an element and of its properties with the line end
/// `line_end(crlf)`.
pub open spec fn element_bytes_with(e: ElementV, crlf: bool) -> Seq<u8> {
    element_line_with(e, crlf) + properties_bytes_with(e.properties, crlf)
}

/// The lines of elements with the line end `line_end(crlf)`.
pub open spec fn elements_bytes_with(es: Seq<(Seq<u8>, ElementV)>, crlf: bool) -> Seq<u8>
    decreases es.len(),
{
    if es.len() == 0 {
        Seq::empty()
    } else {
        elements_bytes_with(es.drop_last(), crlf) + element_bytes_with(es.last().1, crlf)
    }
}

/// The text of a header with every line ended by `line_end(crlf)`: `"ply"`,
/// the format line, the elements and `"end_header"`.
pub open spec fn header_bytes_with(h: HeaderV, crlf: bool) -> Seq<u8> {
    kw_ply() + line_end(crlf) + kw_format_() + format_name(h.format) + seq![SPACE] + h.version
        + line_end(crlf) + elements_bytes_with(h.elements, crlf) + end_header_line(crlf)
}

/// A line end reads as one, of its own length.
proof fn lemma_line_end_newline(crlf: bool, rest: Seq<u8>)
    ensures
        newline_spec(line_end(crlf) + rest) == Ok::<int, ErrorV>(line_end(crlf).len() as int),
{
    let s = line_end(crlf) + rest;
    assert(s[0] == line_end(crlf)[0]);
    if crlf {
        assert(s[1] == LF);
    }
}

/// A clean text followed by a line end reads back as a header text,
/// consuming the whole line end.
proof fn lemma_header_text_with(t: Seq<u8>, crlf: bool, rest: Seq<u8>)
    requires
        is_header_text(t),
    ensures
        header_line_text_spec(t + line_end(crlf) + rest) == Ok::<(Seq<u8>, int), ErrorV>(
            (t, t.len() + line_end(crlf).len() as int),
        ),
{
    let s = t + line_end(crlf) + rest;
    let e = line_end(crlf).len() as int;
    let j = t.len() + e - 1;
    assert forall|i: int| 0 <= i < j implies s[i] != LF by {
        if i < t.len() {
            assert(s[i] == t[i]);
        } else {
            assert(s[i] == CR);
        }
    }
    assert(s[j] == LF);
    lemma_find_byte_at(s, 0, j, LF);
    if crlf {
        assert(s.subrange(0, j).drop_last() =~= t);
        assert(s.subrange(0, j).last() == CR);
    } else {
        assert(s.subrange(0, j) =~= t);
        if t.len() > 0 {
            assert(t.last() != CR);
        }
    }
    assert(line_field(s) == (t, t.len() + e));
    lemma_ascii_valid_utf8(t);
}

/// The line of a clean property reads back as that property inserted into
/// the last element.
proof fn lemma_property_line_with(
    p: (Seq<u8>, PropertyV),
    crlf: bool,
    rest: Seq<u8>,
    es: Seq<(Seq<u8>, ElementV)>,
)
    requires
        is_clean_property_entry(p),
        es.len() > 0,
    ensures
        header_line_spec(property_line_with(p.1, crlf) + rest, es) == Ok::<
            (Option<Seq<(Seq<u8>, ElementV)>>, int),
            ErrorV,
        >((Some(with_property(es, p.1.1, p.1)), property_line_with(p.1, crlf).len() as int)),
{
    reveal(header_line_spec);
    lemma_keywords_differ();
    let s = property_line_with(p.1, crlf) + rest;
    let name_and_rest = p.1.1 + line_end(crlf) + rest;
    let after = kind_text(p.1.0) + seq![SPACE] + name_and_rest;
    assert(s.subrange(0, 8) =~= kw_property());
    assert(s[8] == SPACE);
    assert(s.subrange(9, s.len() as int) =~= after);
    lemma_kind_clean(p.1.0, name_and_rest);
    let n = kind_text(p.1.0).len() + 1int;
    assert(s.subrange(9 + n, s.len() as int) =~= name_and_rest);
    lemma_header_text_with(p.1.1, crlf, rest);
}

/// The line of a clean element reads back as that element, without
/// properties, inserted into the elements.
proof fn lemma_element_line_with(e: ElementV, crlf: bool, rest: Seq<u8>, es: Seq<(Seq<u8>, ElementV)>)
    requires
        is_header_word(e.name),
    ensures
        header_line_spec(element_line_with(e, crlf) + rest, es) == Ok::<
            (Option<Seq<(Seq<u8>, ElementV)>>, int),
            ErrorV,
        >(
            (
                Some(map_insert(es, e.name, ElementV { count: e.count, name: e.name, properties: Seq::empty() })),
                element_line_with(e, crlf).len() as int,
            ),
        ),
{
    reveal(header_line_spec);
    lemma_keywords_differ();
    let s = element_line_with(e, crlf) + rest;
    let d = decimal_digits(e.count as nat);
    let after = e.name + seq![SPACE] + (d + line_end(crlf) + rest);
    assert(s.subrange(0, 8) =~= kw_element_());
    assert(s.subrange(8, s.len() as int) =~= after);
    lemma_header_word_clean(e.name, d + line_end(crlf) + rest);
    assert(s.subrange(8 + e.name.len() + 1int, s.len() as int) =~= d + line_end(crlf) + rest);
    lemma_decimal_digits(e.count as nat);
    lemma_digits_valid_utf8(d);
    assert(is_line_content(d)) by {
        assert forall|i: int| 0 <= i < d.len() implies #[trigger] d[i] != LF by {
            assert(crate::function::is_digit(d[i]));
        }
        if d.len() > 0 {
            assert(crate::function::is_digit(d[d.len() - 1]));
        }
    }
    lemma_header_text_with(d, crlf, rest);
    lemma_parse_decimal_digits(e.count as nat, usize::MAX as int);
}

proof fn lemma_properties_bytes_with_front(x: (Seq<u8>, PropertyV), ys: Seq<(Seq<u8>, PropertyV)>, crlf: bool)
    ensures
        properties_bytes_with(seq![x] + ys, crlf) == property_line_with(x.1, crlf) + properties_bytes_with(ys, crlf),
    decreases ys.len(),
{
    let all = seq![x] + ys;
    if ys.len() == 0 {
        assert(all.drop_last() =~= Seq::<(Seq<u8>, PropertyV)>::empty());
        assert(properties_bytes_with(Seq::<(Seq<u8>, PropertyV)>::empty(), crlf) =~= Seq::<u8>::empty());
        assert(properties_bytes_with(all, crlf) =~= property_line_with(x.1, crlf) + properties_bytes_with(ys, crlf));
    } else {
        lemma_properties_bytes_with_front(x, ys.drop_last(), crlf);
        assert(all.drop_last() =~= seq![x] + ys.drop_last());
        assert(properties_bytes_with(all, crlf) =~= property_line_with(x.1, crlf) + properties_bytes_with(ys, crlf));
    }
}

proof fn lemma_elements_bytes_with_front(x: (Seq<u8>, ElementV), ys: Seq<(Seq<u8>, ElementV)>, crlf: bool)
    ensures
        elements_bytes_with(seq![x] + ys, crlf) == element_bytes_with(x.1, crlf) + elements_bytes_with(ys, crlf),
    decreases ys.len(),
{
    let all = seq![x] + ys;
    if ys.len() == 0 {
        assert(all.drop_last() =~= Seq::<(Seq<u8>, ElementV)>::empty());
        assert(elements_bytes_with(Seq::<(Seq<u8>, ElementV)>::empty(), crlf) =~= Seq::<u8>::empty());
        assert(elements_bytes_with(all, crlf) =~= element_bytes_with(x.1, crlf) + elements_bytes_with(ys, crlf));
    } else {
        lemma_elements_bytes_with_front(x, ys.drop_last(), crlf);
        assert(all.drop_last() =~= seq![x] + ys.drop_last());
        assert(elements_bytes_with(all, crlf) =~= element_bytes_with(x.1, crlf) + elements_bytes_with(ys, crlf));
    }
}

/// The property lines of an element, from its `j`-th property on, read
/// back the rest of its properties into the last element.
proof fn lemma_properties_with_roundtrip(
    pre: Seq<(Seq<u8>, ElementV)>,
    e: ElementV,
    j: int,
    crlf: bool,
    rest: Seq<u8>,
)
    requires
        0 <= j <= e.properties.len(),
        distinct_keys(e.properties),
        forall|k: int| 0 <= k < e.properties.len() ==> is_clean_property_entry(#[trigger] e.properties[k]),
    ensures
        header_lines_spec(
            properties_bytes_with(e.properties.subrange(j, e.properties.len() as int), crlf) + rest,
            pre.push((e.name, ElementV { count: e.count, name: e.name, properties: e.properties.subrange(0, j) })),
        ) == shift(
            header_lines_spec(rest, pre.push((e.name, e))),
            properties_bytes_with(e.properties.subrange(j, e.properties.len() as int), crlf).len() as int,
        ),
    decreases e.properties.len() - j,
{
    let ps = e.properties;
    let len = ps.len() as int;
    let state = pre.push((e.name, ElementV { count: e.count, name: e.name, properties: ps.subrange(0, j) }));
    if j == len {
        assert(ps.subrange(j, len) =~= Seq::<(Seq<u8>, PropertyV)>::empty());
        assert(properties_bytes_with(Seq::<(Seq<u8>, PropertyV)>::empty(), crlf) =~= Seq::<u8>::empty());
        assert(ps.subrange(0, j) =~= ps);
        assert(properties_bytes_with(ps.subrange(j, len), crlf) + rest =~= rest);
        assert(state =~= pre.push((e.name, e)));
        match header_lines_spec(rest, pre.push((e.name, e))) {
            Ok((t, n)) => {},
            Err(err) => {},
        }
    } else {
        let x = ps[j];
        let tail = ps.subrange(j + 1, len);
        assert(ps.subrange(j, len) =~= seq![x] + tail);
        lemma_properties_bytes_with_front(x, tail, crlf);
        let more = properties_bytes_with(tail, crlf) + rest;
        let s = properties_bytes_with(ps.subrange(j, len), crlf) + rest;
        assert(s =~= property_line_with(x.1, crlf) + more);
        assert(is_clean_property_entry(ps[j]));
        lemma_property_line_with(x, crlf, more, state);
        lemma_fresh_key(ps, j);
        let next = pre.push((e.name, ElementV { count: e.count, name: e.name, properties: ps.subrange(0, j + 1) }));
        assert(ps.subrange(0, j).push(x) =~= ps.subrange(0, j + 1));
        assert(x.0 == x.1.1);
        assert(with_property(state, x.1.1, x.1) =~= next);
        let n = property_line_with(x.1, crlf).len() as int;
        assert(s.subrange(n, s.len() as int) =~= more);
        lemma_properties_with_roundtrip(pre, e, j + 1, crlf, rest);
    }
}

/// The lines of elements, from the `i`-th on, and the line `"end_header"`
/// read back the elements.
proof fn lemma_elements_with_roundtrip(es: Seq<(Seq<u8>, ElementV)>, i: int, crlf: bool, rest: Seq<u8>)
    requires
        0 <= i <= es.len(),
        distinct_keys(es),
        forall|k: int| 0 <= k < es.len() ==> is_clean_element_entry(#[trigger] es[k]),
    ensures
        header_lines_spec(
            elements_bytes_with(es.subrange(i, es.len() as int), crlf) + end_header_line(crlf) + rest,
            es.subrange(0, i),
        ) == Ok::<(Seq<(Seq<u8>, ElementV)>, int), ErrorV>(
            (es, (elements_bytes_with(es.subrange(i, es.len() as int), crlf).len() + end_header_line(crlf).len()) as int),
        ),
    decreases es.len() - i,
{
    let len = es.len() as int;
    let s = elements_bytes_with(es.subrange(i, len), crlf) + end_header_line(crlf) + rest;
    if i == len {
        assert(es.subrange(i, len) =~= Seq::<(Seq<u8>, ElementV)>::empty());
        assert(elements_bytes_with(Seq::<(Seq<u8>, ElementV)>::empty(), crlf) =~= Seq::<u8>::empty());
        assert(s =~= end_header_line(crlf) + rest);
        lemma_end_header_line(crlf, rest, es.subrange(0, i));
        assert(es.subrange(0, i) =~= es);
    } else {
        let x = es[i];
        let e = x.1;
        let tail = es.subrange(i + 1, len);
        assert(es.subrange(i, len) =~= seq![x] + tail);
        lemma_elements_bytes_with_front(x, tail, crlf);
        let after = elements_bytes_with(tail, crlf) + end_header_line(crlf) + rest;
        let props_and_after = properties_bytes_with(e.properties, crlf) + after;
        assert(s =~= element_line_with(e, crlf) + props_and_after);
        assert(is_clean_element_entry(es[i]));
        lemma_element_line_with(e, crlf, props_and_after, es.subrange(0, i));
        lemma_fresh_key(es, i);
        let pre = es.subrange(0, i);
        let empty_e = ElementV { count: e.count, name: e.name, properties: Seq::empty() };
        assert(x.0 == e.name);
        assert(map_insert(pre, e.name, empty_e) =~= pre.push((e.name, empty_e)));
        let n = element_line_with(e, crlf).len() as int;
        assert(s.subrange(n, s.len() as int) =~= props_and_after);
        assert(e.properties.subrange(0, 0) =~= Seq::<(Seq<u8>, PropertyV)>::empty());
        assert(e.properties.subrange(0, e.properties.len() as int) =~= e.properties);
        lemma_properties_with_roundtrip(pre, e, 0, crlf, after);
        assert(pre.push((e.name, e)) =~= es.subrange(0, i + 1));
        lemma_elements_with_roundtrip(es, i + 1, crlf, rest);
    }
}

/// A header read in parts: the signature at the front, a line end of `e`
/// bytes, the format, the version and the elements.
proof fn lemma_header_parts(
    s: Seq<u8>,
    e: int,
    format: Format,
    m: int,
    version: Seq<u8>,
    k: int,
    es: Seq<(Seq<u8>, ElementV)>,
    n: int,
)
    requires
        s.len() >= 3,
        find_signature(s, 0) == 0,
        newline_spec(s.subrange(3, s.len() as int)) == Ok::<int, ErrorV>(e),
        header_format_spec(s.subrange(3 + e, s.len() as int)) == Ok::<(Format, int), ErrorV>((format, m)),
        header_line_text_spec(s.subrange(3 + e + m, s.len() as int)) == Ok::<(Seq<u8>, int), ErrorV>(
            (version, k),
        ),
        header_lines_spec(s.subrange(3 + e + m + k, s.len() as int), Seq::empty()) == Ok::<
            (Seq<(Seq<u8>, ElementV)>, int),
            ErrorV,
        >((es, n)),
    ensures
        header_spec(s) == Ok::<(HeaderV, int), ErrorV>(
            (HeaderV { elements: es, format, version }, 3 + e + m + k + n),
        ),
{
}

/// A clean header written with every line ended by `"\r\n"` (or every
/// line by `"\n"`) reads back as itself, whatever follows: the same
/// format, version and elements, having consumed exactly the bytes of the
/// text, the line end of `"end_header"` included.
#[verifier::rlimit(60)]
pub proof fn lemma_header_with_roundtrip(h: HeaderV, crlf: bool, rest: Seq<u8>)
    requires
        is_clean_header(h),
    ensures
        header_spec(header_bytes_with(h, crlf) + rest) == Ok::<(HeaderV, int), ErrorV>(
            (h, header_bytes_with(h, crlf).len() as int),
        ),
{
    let nl = line_end(crlf);
    let e: int = nl.len() as int;
    let s = header_bytes_with(h, crlf) + rest;
    let lines = elements_bytes_with(h.elements, crlf) + end_header_line(crlf) + rest;
    let version_and_lines = h.version + nl + lines;
    let after_newline = kw_format_() + format_name(h.format) + seq![SPACE] + version_and_lines;
    let m: int = 8 + format_name(h.format).len() as int;
    let k: int = h.version.len() + e;
    let n: int = elements_bytes_with(h.elements, crlf).len() + end_header_line(crlf).len() as int;
    assert(s =~= kw_ply() + (nl + after_newline));
    assert(find_signature(s, 0) == 0) by {
        assert(s.subrange(0, 3) =~= kw_ply());
    }
    assert(newline_spec(s.subrange(3, s.len() as int)) == Ok::<int, ErrorV>(e)) by {
        assert(s.subrange(3, s.len() as int) =~= nl + after_newline);
        lemma_line_end_newline(crlf, after_newline);
    }
    assert(header_format_spec(s.subrange(3 + e, s.len() as int)) == Ok::<(Format, int), ErrorV>(
        (h.format, m),
    )) by {
        assert(s.subrange(3 + e, s.len() as int) =~= after_newline);
        super::roundtrip::lemma_format_roundtrip(h.format, version_and_lines);
    }
    assert(header_line_text_spec(s.subrange(3 + e + m, s.len() as int)) == Ok::<(Seq<u8>, int), ErrorV>(
        (h.version, k),
    )) by {
        assert(s.subrange(3 + e + m, s.len() as int) =~= version_and_lines);
        lemma_header_text_with(h.version, crlf, lines);
    }
    assert(header_lines_spec(s.subrange(3 + e + m + k, s.len() as int), Seq::empty()) == Ok::<
        (Seq<(Seq<u8>, ElementV)>, int),
        ErrorV,
    >((h.elements, n))) by {
        assert(s.subrange(3 + e + m + k, s.len() as int) =~= lines);
        assert(h.elements.subrange(0, h.elements.len() as int) =~= h.elements);
        assert(h.elements.subrange(0, 0) =~= Seq::<(Seq<u8>, ElementV)>::empty());
        lemma_elements_with_roundtrip(h.elements, 0, crlf, rest);
    }
    assert(header_bytes_with(h, crlf).len() == 3 + e + m + k + n);
    assert(HeaderV { elements: h.elements, format: h.format, version: h.version } == h);
    lemma_header_parts(s, e, h.format, m, h.version, k, h.elements, n);
}

} // verus!
