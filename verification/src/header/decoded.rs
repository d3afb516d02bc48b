//! What every header read from bytes is like.

use vstd::prelude::*;

use crate::ascii::is_ascii_bytes;
use crate::error::ErrorV;
use crate::function::{
    find_byte, is_clean_word, lemma_find_byte, lemma_skip_spaces, line_field, skip_spaces,
    word_field, CR, LF, SPACE,
};
use crate::index_map::{distinct_keys, lemma_map_insert_get, map_insert};
use crate::keyword::kw_list;

use super::decode::{
    header_kind_spec, header_line_spec, header_line_text_spec, header_lines_spec, header_spec,
    header_word_spec, lemma_header_line_bound, with_property,
};
use super::property::{PropertyKindV, PropertyV};
use super::roundtrip::{
    is_clean_element_entry, is_clean_header, is_clean_kind, is_clean_property_entry,
    is_header_text, is_header_word,
};
use super::{ElementV, HeaderV};

verus! {

/// A text as a header reads it: ASCII, without `'\n'`.
pub open spec fn is_read_text(t: Seq<u8>) -> bool {
    is_ascii_bytes(t) && forall|i: int| 0 <= i < t.len() ==> #[trigger] t[i] != LF
}

/// Whether a text ends with `'\r'`, which reading a line drops.
pub open spec fn ends_with_cr(t: Seq<u8>) -> bool {
    t.len() > 0 && t.last() == CR
}

/// A property entry as a header reads it: named by its own name, with a
/// read text for a name and a clean kind.
pub open spec fn is_read_property_entry(p: (Seq<u8>, PropertyV)) -> bool {
    &&& p.0 == p.1.1
    &&& is_read_text(p.1.1)
    &&& is_clean_kind(p.1.0)
}

/// An element entry as a header reads it: named by its own name, a word,
/// with distinct properties as a header reads them.
pub open spec fn is_read_element_entry(e: (Seq<u8>, ElementV)) -> bool {
    &&& e.0 == e.1.name
    &&& is_header_word(e.1.name)
    &&& distinct_keys(e.1.properties)
    &&& forall|j: int| 0 <= j < e.1.properties.len() ==> is_read_property_entry(#[trigger] e.1.properties[j])
}

/// Elements as a header reads them: distinct names, each entry as a header
/// reads it.
pub open spec fn is_read_elements(es: Seq<(Seq<u8>, ElementV)>) -> bool {
    &&& distinct_keys(es)
    &&& forall|i: int| 0 <= i < es.len() ==> is_read_element_entry(#[trigger] es[i])
}

/// An insertion keeps a property that every entry and the new entry have.
proof fn lemma_map_insert_all<K, V>(es: Seq<(K, V)>, k: K, v: V, p: spec_fn((K, V)) -> bool)
    requires
        forall|j: int| 0 <= j < es.len() ==> p(#[trigger] es[j]),
        p((k, v)),
    ensures
        forall|j: int| 0 <= j < map_insert(es, k, v).len() ==> p(#[trigger] map_insert(es, k, v)[j]),
{
}

/// The text of a line is read without `'\n'`, and ASCII.
proof fn lemma_line_text_read(s: Seq<u8>)
    ensures
        header_line_text_spec(s) matches Ok((t, _)) ==> is_read_text(t),
{
    let k = find_byte(s, 0, LF);
    lemma_find_byte(s, 0, LF);
    let raw = s.subrange(0, k);
    assert forall|i: int| 0 <= i < line_field(s).0.len() implies #[trigger] line_field(s).0[i] != LF by {
        assert(line_field(s).0[i] == raw[i]);
    }
}

/// A word is read not empty, without a space, and ASCII.
proof fn lemma_word_read(s: Seq<u8>)
    ensures
        header_word_spec(s) matches Ok((w, _)) ==> is_header_word(w),
{
    let j = skip_spaces(s, 0);
    lemma_skip_spaces(s, 0);
    if j < s.len() {
        let k = find_byte(s, j + 1, SPACE);
        lemma_find_byte(s, j + 1, SPACE);
        if k < s.len() {
            let w = s.subrange(j, k);
            assert forall|i: int| 0 <= i < w.len() implies #[trigger] w[i] != SPACE by {
                assert(w[i] == s[j + i]);
            }
            assert(is_clean_word(w));
        }
    }
}

/// A kind is read clean.
proof fn lemma_kind_read(s: Seq<u8>)
    ensures
        header_kind_spec(s) matches Ok((k, _)) ==> is_clean_kind(k),
{
    lemma_word_read(s);
    if let Ok((value, n1)) = header_word_spec(s) {
        if value == kw_list() {
            lemma_word_read(s.subrange(n1, s.len() as int));
            if let Ok((count, n2)) = header_word_spec(s.subrange(n1, s.len() as int)) {
                lemma_word_read(s.subrange(n1 + n2, s.len() as int));
            }
        }
    }
}

/// A line keeps the elements as a header reads them.
proof fn lemma_line_read(s: Seq<u8>, es: Seq<(Seq<u8>, ElementV)>)
    requires
        is_read_elements(es),
    ensures
        header_line_spec(s, es) matches Ok((Some(es2), _)) ==> is_read_elements(es2),
{
    reveal(header_line_spec);
    if s.len() >= 9 {
        lemma_kind_read(s.subrange(9, s.len() as int));
        if let Ok((kind, n)) = header_kind_spec(s.subrange(9, s.len() as int)) {
            lemma_line_text_read(s.subrange(9 + n, s.len() as int));
            if let Ok((name, m)) = header_line_text_spec(s.subrange(9 + n, s.len() as int)) {
                if es.len() > 0 {
                    let last = es.last();
                    let e = last.1;
                    assert(is_read_element_entry(es[es.len() - 1]));
                    let p: PropertyV = (kind, name);
                    lemma_map_insert_get(e.properties, name, p, name);
                    lemma_map_insert_all(e.properties, name, p, |x: (Seq<u8>, PropertyV)| is_read_property_entry(x));
                    let es2 = with_property(es, name, p);
                    assert forall|i: int| 0 <= i < es2.len() implies is_read_element_entry(#[trigger] es2[i]) by {
                        if i < es.len() - 1 {
                            assert(es2[i] == es[i]);
                        }
                    }
                    assert forall|a: int, b: int| 0 <= a < b < es2.len() implies (#[trigger] es2[a]).0 != (#[trigger] es2[b]).0 by {
                        assert(es2[a].0 == es[a].0);
                        assert(es2[b].0 == es[b].0);
                    }
                }
            }
        }
    }
    if s.len() >= 8 {
        lemma_word_read(s.subrange(8, s.len() as int));
        if let Ok((name, n)) = header_word_spec(s.subrange(8, s.len() as int)) {
            if let Ok((t, m)) = header_line_text_spec(s.subrange(8 + n, s.len() as int)) {
                if let Some(count) = crate::function::parse_unsigned(t, usize::MAX as int) {
                    let e = ElementV { count: count as usize, name, properties: Seq::empty() };
                    lemma_map_insert_get(es, name, e, name);
                    lemma_map_insert_all(es, name, e, |x: (Seq<u8>, ElementV)| is_read_element_entry(x));
                }
            }
        }
    }
}

/// The lines keep the elements as a header reads them.
proof fn lemma_lines_read(s: Seq<u8>, es: Seq<(Seq<u8>, ElementV)>)
    requires
        is_read_elements(es),
    ensures
        header_lines_spec(s, es) matches Ok((es3, _)) ==> is_read_elements(es3),
    decreases s.len(),
{
    lemma_line_read(s, es);
    lemma_header_line_bound(s, es);
    if let Ok((Some(es2), n)) = header_line_spec(s, es) {
        lemma_lines_read(s.subrange(n, s.len() as int), es2);
    }
}

/// Every header read from bytes has distinct element names, each element
/// named by its own name, a word, with distinct property names, each
/// property named by its own name, with a clean kind; its version and
/// property names are ASCII and without `'\n'`.
pub proof fn lemma_decoded_header(s: Seq<u8>)
    ensures
        header_spec(s) matches Ok((h, _)) ==> is_read_text(h.version) && is_read_elements(h.elements),
{
    if let Ok((h, _)) = header_spec(s) {
        let i = super::decode::find_signature(s, 0);
        let a = i + 3;
        let k = super::decode::newline_spec(s.subrange(a, s.len() as int))->Ok_0;
        let b = a + k;
        let m = super::decode::header_format_spec(s.subrange(b, s.len() as int))->Ok_0.1;
        let c = b + m;
        lemma_line_text_read(s.subrange(c, s.len() as int));
        let v = header_line_text_spec(s.subrange(c, s.len() as int))->Ok_0.1;
        lemma_lines_read(s.subrange(c + v, s.len() as int), Seq::empty());
    }
}

/// A header read from bytes whose version and property names do not end
/// with `'\r'` is clean: writing it and reading it back gives it again.
pub proof fn lemma_decoded_header_clean(s: Seq<u8>, rest: Seq<u8>)
    requires
        header_spec(s) is Ok,
        !ends_with_cr(header_spec(s)->Ok_0.0.version),
        forall|i: int, j: int|
            0 <= i < header_spec(s)->Ok_0.0.elements.len() && 0 <= j < header_spec(s)->Ok_0.0.elements[i].1.properties.len()
                ==> !ends_with_cr(#[trigger] header_spec(s)->Ok_0.0.elements[i].1.properties[j].1.1),
    ensures
        is_clean_header(header_spec(s)->Ok_0.0),
        header_spec(super::encode::header_bytes(header_spec(s)->Ok_0.0) + rest) == Ok::<(HeaderV, int), ErrorV>(
            (header_spec(s)->Ok_0.0, super::encode::header_bytes(header_spec(s)->Ok_0.0).len() as int),
        ),
{
    let h = header_spec(s)->Ok_0.0;
    lemma_decoded_header(s);
    assert forall|i: int| 0 <= i < h.elements.len() implies is_clean_element_entry(#[trigger] h.elements[i]) by {
        assert(is_read_element_entry(h.elements[i]));
        let ps = h.elements[i].1.properties;
        assert forall|j: int| 0 <= j < ps.len() implies is_clean_property_entry(#[trigger] ps[j]) by {
            assert(is_read_property_entry(ps[j]));
            assert(!ends_with_cr(ps[j].1.1));
        }
    }
    super::roundtrip::lemma_header_roundtrip(h, rest);
}

/// A comment or object information line leaves no trace: the elements
/// read after it are those read without it, and only its bytes are consumed
/// in addition.
pub proof fn lemma_comment_line_skipped(
    obj_info: bool,
    t: Seq<u8>,
    rest: Seq<u8>,
    es: Seq<(Seq<u8>, ElementV)>,
)
    requires
        forall|i: int| 0 <= i < t.len() ==> #[trigger] t[i] != LF,
    ensures
        ({
            let keyword = if obj_info {
                crate::keyword::kw_obj_info()
            } else {
                crate::keyword::kw_comment_()
            };
            header_lines_spec(keyword + t + seq![LF] + rest, es) == super::roundtrip::shift(
                header_lines_spec(rest, es),
                keyword.len() + t.len() + 1int,
            )
        }),
{
    let keyword = if obj_info {
        crate::keyword::kw_obj_info()
    } else {
        crate::keyword::kw_comment_()
    };
    let s = keyword + t + seq![LF] + rest;
    let u = s.subrange(8, s.len() as int);
    assert(u =~= t + seq![LF] + rest);
    crate::function::lemma_find_byte_at(u, 0, t.len() as int, LF);
    assert(s.subrange(0, 8) =~= keyword);
    assert(keyword[0] != crate::keyword::kw_end_head()[0]);
    assert(keyword[0] != crate::keyword::kw_property()[0]);
    assert(keyword[0] != crate::keyword::kw_element_()[0]);
    reveal(header_line_spec);
    assert(header_line_spec(s, es) == Ok::<(Option<Seq<(Seq<u8>, ElementV)>>, int), ErrorV>(
        (Some(es), 8 + t.len() + 1int),
    ));
    assert(s.subrange(8 + t.len() + 1int, s.len() as int) =~= rest);
}

} // verus!
