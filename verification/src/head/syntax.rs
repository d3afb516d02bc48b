//! The grammar of a head, as spec functions: what a head reads from bytes,
//! and what bytes a head writes.

use vstd::prelude::*;

use crate::error::ErrorV;
use crate::function::{line_field, LF};
use crate::head::meta::comment::{
    comment_meta_spec, is_line_text, lemma_comment_meta_roundtrip, obj_info::obj_info_meta_spec,
    text_line_bytes,
};
use crate::head::meta::element::{
    element_meta_bytes, element_meta_spec, is_clean_element, lemma_element_meta_roundtrip,
};
use crate::head::meta::format::{
    format_meta_bytes, format_meta_spec, is_clean_format, lemma_format_meta_roundtrip,
    FormatMetaVariant,
};
use crate::head::meta::property::{
    is_clean_property, lemma_property_meta_roundtrip, property_meta_bytes, property_meta_spec,
    PropertyVariantV,
};
use crate::head::meta::MetaV;
use crate::keyword::{
    kw_co, kw_comment_, kw_d_header, kw_el, kw_element_, kw_ement_, kw_en, kw_end_header,
    kw_j_info_, kw_mment_, kw_newline, kw_ob, kw_obj_info_, kw_operty_, kw_ply, kw_pr,
    kw_property_,
};

verus! {

/// The value of a head: its format meta and its metas, in order.
pub struct HeadV {
    pub format: (FormatMetaVariant, Seq<u8>),
    pub metas: Seq<MetaV>,
}

/// Whether the two bytes at the front of a meta line are followed by
/// `suffix`: the end of the input there is [`ErrorV::UnexpectedEof`], other
/// bytes are an unknown keyword (the prefix and the bytes read).
pub open spec fn keyword_suffix_spec(s: Seq<u8>, suffix: Seq<u8>) -> Result<(), ErrorV> {
    if s.len() < 2 + suffix.len() {
        Err(ErrorV::UnexpectedEof)
    } else if s.subrange(2, 2 + suffix.len() as int) != suffix {
        Err(ErrorV::InvalidPolygonKeyword(crate::error::utf8_lossy(s.subrange(0, 2 + suffix.len() as int))))
    } else {
        Ok(())
    }
}

/// One line of the metas of a head, read from the front of `s`: the meta
/// and the number of bytes consumed, or `None` for the line
/// `"end_header"`. A property is refused until an element has been read.
#[verifier::opaque]
pub open spec fn head_line_spec(s: Seq<u8>, had_element: bool, domain: Map<Seq<u8>, u64>) -> Result<
    (Option<MetaV>, int),
    ErrorV,
> {
    if s.len() < 2 {
        Err(ErrorV::UnexpectedEof)
    } else {
        let prefix = s.subrange(0, 2);
        if prefix == kw_pr() {
            match keyword_suffix_spec(s, kw_operty_()) {
                Err(e) => Err(e),
                Ok(_) => if !had_element {
                    Err(ErrorV::MissingToken("element "))
                } else {
                    match property_meta_spec(s.subrange(9, s.len() as int), domain) {
                        Err(e) => Err(e),
                        Ok((p, n)) => Ok((Some(MetaV::Property(p)), 9 + n)),
                    }
                },
            }
        } else if prefix == kw_el() {
            match keyword_suffix_spec(s, kw_ement_()) {
                Err(e) => Err(e),
                Ok(_) => match element_meta_spec(s.subrange(8, s.len() as int)) {
                    Err(e) => Err(e),
                    Ok((m, n)) => Ok((Some(MetaV::Element(m)), 8 + n)),
                },
            }
        } else if prefix == kw_en() {
            match keyword_suffix_spec(s, kw_d_header()) {
                Err(e) => Err(e),
                Ok(_) => {
                    let (t, n) = line_field(s.subrange(10, s.len() as int));
                    if t.len() == 0 {
                        Ok((None, 10 + n))
                    } else {
                        Err(ErrorV::InvalidPolygonKeyword(crate::error::utf8_lossy(s.subrange(0, 10) + t)))
                    }
                },
            }
        } else if prefix == kw_co() {
            match keyword_suffix_spec(s, kw_mment_()) {
                Err(e) => Err(e),
                Ok(_) => match comment_meta_spec(s.subrange(8, s.len() as int)) {
                    Err(e) => Err(e),
                    Ok((c, n)) => Ok((Some(MetaV::Comment(c)), 8 + n)),
                },
            }
        } else if prefix == kw_ob() {
            match keyword_suffix_spec(s, kw_j_info_()) {
                Err(e) => Err(e),
                Ok(_) => match obj_info_meta_spec(s.subrange(9, s.len() as int)) {
                    Err(e) => Err(e),
                    Ok((o, n)) => Ok((Some(MetaV::ObjInfo(o)), 9 + n)),
                },
            }
        } else {
            Err(ErrorV::InvalidPolygonKeyword(crate::error::utf8_lossy(prefix)))
        }
    }
}

/// An element meta consumes at least one byte and no more than there are.
pub proof fn lemma_element_meta_bound(s: Seq<u8>)
    ensures
        element_meta_spec(s) matches Ok((e, n)) ==> 0 < n <= s.len(),
{
    crate::function::lemma_word_field_bound(s);
    if let Ok((w, n)) = crate::function::word_field(s) {
        crate::function::lemma_text_field_bound(s.subrange(n, s.len() as int));
    }
}

/// A meta line consumes at least one byte and no more than there are.
pub proof fn lemma_head_line_bound(s: Seq<u8>, had_element: bool, domain: Map<Seq<u8>, u64>)
    ensures
        head_line_spec(s, had_element, domain) matches Ok((m, n)) ==> 0 < n <= s.len(),
{
    reveal(head_line_spec);
    if s.len() >= 10 {
        crate::function::lemma_line_field_bound(s.subrange(10, s.len() as int));
    }
    if s.len() >= 9 {
        crate::head::meta::property::lemma_property_meta_bound(s.subrange(9, s.len() as int), domain);
        crate::function::lemma_text_field_bound(s.subrange(9, s.len() as int));
    }
    if s.len() >= 8 {
        lemma_element_meta_bound(s.subrange(8, s.len() as int));
        crate::function::lemma_text_field_bound(s.subrange(8, s.len() as int));
    }
}

/// The metas of a head, read line by line from the front of `s` up to and
/// including the line `"end_header"`, and the number of bytes consumed.
pub open spec fn head_metas_spec(s: Seq<u8>, had_element: bool, domain: Map<Seq<u8>, u64>) -> Result<
    (Seq<MetaV>, int),
    ErrorV,
>
    decreases s.len(),
    via head_metas_decreases
{
    match head_line_spec(s, had_element, domain) {
        Err(e) => Err(e),
        Ok((None, n)) => Ok((Seq::empty(), n)),
        Ok((Some(m), n)) => match head_metas_spec(
            s.subrange(n, s.len() as int),
            had_element || m is Element,
            domain,
        ) {
            Err(e) => Err(e),
            Ok((ms, k)) => Ok((seq![m] + ms, n + k)),
        },
    }
}

#[via_fn]
proof fn head_metas_decreases(s: Seq<u8>, had_element: bool, domain: Map<Seq<u8>, u64>) {
    lemma_head_line_bound(s, had_element, domain);
}

/// The head read from the front of `s`: the signature `"ply"` on a line of
/// its own, the format meta, then the metas up to `"end_header"`.
pub open spec fn head_spec(s: Seq<u8>, domain: Map<Seq<u8>, u64>) -> Result<(HeadV, int), ErrorV> {
    if s.len() < 3 {
        Err(ErrorV::UnexpectedEof)
    } else if s.subrange(0, 3) != kw_ply() {
        Err(ErrorV::MissingToken("ply"))
    } else {
        let (t, n) = line_field(s.subrange(3, s.len() as int));
        if t.len() != 0 {
            Err(ErrorV::MissingToken("<newline>"))
        } else {
            let a = 3 + n;
            match format_meta_spec(s.subrange(a, s.len() as int)) {
                Err(e) => Err(e),
                Ok((f, m)) => match head_metas_spec(s.subrange(a + m, s.len() as int), false, domain) {
                    Err(e) => Err(e),
                    Ok((ms, k)) => Ok((HeadV { format: f, metas: ms }, a + m + k)),
                },
            }
        }
    }
}

/// The bytes of one meta: its keyword, then the meta.
pub open spec fn meta_bytes(m: MetaV) -> Seq<u8> {
    match m {
        MetaV::Property(p) => kw_property_() + property_meta_bytes(p),
        MetaV::Element(e) => kw_element_() + element_meta_bytes(e),
        MetaV::Comment(c) => kw_comment_() + text_line_bytes(c),
        MetaV::ObjInfo(o) => kw_obj_info_() + text_line_bytes(o),
    }
}

/// The bytes of metas, one after another.
pub open spec fn metas_bytes(ms: Seq<MetaV>) -> Seq<u8>
    decreases ms.len(),
{
    if ms.len() == 0 {
        Seq::empty()
    } else {
        metas_bytes(ms.drop_last()) + meta_bytes(ms.last())
    }
}

/// The bytes of a head.
pub open spec fn head_bytes(h: HeadV) -> Seq<u8> {
    kw_ply() + kw_newline() + format_meta_bytes(h.format) + metas_bytes(h.metas) + kw_end_header()
        + kw_newline()
}

/// The bytes of metas split at the first meta.
pub proof fn lemma_metas_bytes_front(m: MetaV, ms: Seq<MetaV>)
    ensures
        metas_bytes(seq![m] + ms) == meta_bytes(m) + metas_bytes(ms),
    decreases ms.len(),
{
    let all = seq![m] + ms;
    if ms.len() == 0 {
        assert(all.drop_last() =~= Seq::<MetaV>::empty());
        assert(all.last() == m);
        assert(metas_bytes(Seq::<MetaV>::empty()) =~= Seq::<u8>::empty());
        assert(metas_bytes(all) =~= meta_bytes(m));
    } else {
        lemma_metas_bytes_front(m, ms.drop_last());
        assert(all.drop_last() =~= seq![m] + ms.drop_last());
        assert(all.last() == ms.last());
        assert(metas_bytes(all) =~= meta_bytes(m) + metas_bytes(ms));
    }
}

/// The properties at the front of `ms`, up to its first element.
pub open spec fn leading_properties(ms: Seq<MetaV>) -> Seq<(Seq<u8>, PropertyVariantV)>
    decreases ms.len(),
{
    if ms.len() == 0 {
        Seq::empty()
    } else {
        match ms[0] {
            MetaV::Element(_) => Seq::empty(),
            MetaV::Property(p) => seq![p] + leading_properties(ms.drop_first()),
            _ => leading_properties(ms.drop_first()),
        }
    }
}

/// Each element of `ms`, in order, with the properties that follow it up
/// to the next element.
pub open spec fn element_groups(ms: Seq<MetaV>) -> Seq<
    ((Seq<u8>, usize), Seq<(Seq<u8>, PropertyVariantV)>),
>
    decreases ms.len(),
{
    if ms.len() == 0 {
        Seq::empty()
    } else {
        match ms[0] {
            MetaV::Element(e) => seq![(e, leading_properties(ms.drop_first()))] + element_groups(
                ms.drop_first(),
            ),
            _ => element_groups(ms.drop_first()),
        }
    }
}

/// Each property of `ms` that comes after an element, in order, with the
/// last element before it (`current` is the last element before `ms`).
pub open spec fn element_property_pairs(
    ms: Seq<MetaV>,
    current: Option<(Seq<u8>, usize)>,
) -> Seq<((Seq<u8>, usize), (Seq<u8>, PropertyVariantV))>
    decreases ms.len(),
{
    if ms.len() == 0 {
        Seq::empty()
    } else {
        match ms[0] {
            MetaV::Element(e) => element_property_pairs(ms.drop_first(), Some(e)),
            MetaV::Property(p) => match current {
                Some(e) => seq![(e, p)] + element_property_pairs(ms.drop_first(), current),
                None => element_property_pairs(ms.drop_first(), current),
            },
            _ => element_property_pairs(ms.drop_first(), current),
        }
    }
}

/// The pairs of each group's element with each of its properties, group
/// after group.
pub open spec fn pairs_of_groups(gs: Seq<((Seq<u8>, usize), Seq<(Seq<u8>, PropertyVariantV)>)>) -> Seq<
    ((Seq<u8>, usize), (Seq<u8>, PropertyVariantV)),
>
    decreases gs.len(),
{
    if gs.len() == 0 {
        Seq::empty()
    } else {
        gs[0].1.map_values(|p: (Seq<u8>, PropertyVariantV)| (gs[0].0, p)) + pairs_of_groups(gs.drop_first())
    }
}

/// The pairs of the current element with the properties that lead `ms`.
pub open spec fn leading_pairs(ms: Seq<MetaV>, current: Option<(Seq<u8>, usize)>) -> Seq<
    ((Seq<u8>, usize), (Seq<u8>, PropertyVariantV)),
> {
    match current {
        Some(e) => leading_properties(ms).map_values(|p: (Seq<u8>, PropertyVariantV)| (e, p)),
        None => Seq::empty(),
    }
}

/// The element and property pairs are the groups flattened: each element
/// with each of its properties, group after group; properties before the
/// first element belong to none.
pub proof fn lemma_pairs_flatten_groups(ms: Seq<MetaV>, current: Option<(Seq<u8>, usize)>)
    ensures
        element_property_pairs(ms, current) == leading_pairs(ms, current) + pairs_of_groups(element_groups(ms)),
    decreases ms.len(),
{
    if ms.len() == 0 {
        assert(leading_pairs(ms, current) =~= Seq::empty());
        assert(pairs_of_groups(element_groups(ms)) =~= Seq::empty());
    } else {
        let rest = ms.drop_first();
        match ms[0] {
            MetaV::Element(e) => {
                lemma_pairs_flatten_groups(rest, Some(e));
                let gs = element_groups(ms);
                assert(gs =~= seq![(e, leading_properties(rest))] + element_groups(rest));
                assert(gs[0] == (e, leading_properties(rest)));
                assert(gs.drop_first() =~= element_groups(rest));
                assert(leading_pairs(ms, current) =~= Seq::empty());
                assert(element_property_pairs(ms, current) =~= leading_pairs(ms, current) + pairs_of_groups(gs));
            },
            MetaV::Property(p) => {
                lemma_pairs_flatten_groups(rest, current);
                match current {
                    Some(e) => {
                        assert(leading_properties(ms) =~= seq![p] + leading_properties(rest));
                        assert(leading_pairs(ms, current) =~= seq![(e, p)] + leading_pairs(rest, current));
                        assert(element_property_pairs(ms, current) =~= leading_pairs(ms, current)
                            + pairs_of_groups(element_groups(ms)));
                    },
                    None => {},
                }
            },
            _ => {
                lemma_pairs_flatten_groups(rest, current);
                assert(leading_pairs(ms, current) =~= leading_pairs(rest, current));
            },
        }
    }
}

/// A meta whose encoding reads back as itself in the domain.
pub open spec fn is_clean_meta(m: MetaV, domain: Map<Seq<u8>, u64>) -> bool {
    match m {
        MetaV::Property(p) => is_clean_property(p, domain),
        MetaV::Element(e) => is_clean_element(e),
        MetaV::Comment(c) => is_line_text(c),
        MetaV::ObjInfo(o) => is_line_text(o),
    }
}

/// Whether each property of `ms` comes after an element of `ms`, or after
/// an element read before them (`had_element`).
pub open spec fn properties_follow_element(ms: Seq<MetaV>, had_element: bool) -> bool {
    forall|i: int|
        0 <= i < ms.len() && (#[trigger] ms[i]) is Property ==> had_element || exists|j: int|
            0 <= j < i && ms[j] is Element
}

/// A head whose encoding reads back as itself in the domain: a clean
/// format, clean metas, and no property before the first element.
pub open spec fn is_clean_head(h: HeadV, domain: Map<Seq<u8>, u64>) -> bool {
    &&& is_clean_format(h.format)
    &&& forall|i: int| 0 <= i < h.metas.len() ==> is_clean_meta(#[trigger] h.metas[i], domain)
    &&& properties_follow_element(h.metas, false)
}

proof fn lemma_prefixes_differ()
    ensures
        kw_el() != kw_pr(),
        kw_en() != kw_pr(),
        kw_en() != kw_el(),
        kw_co() != kw_pr(),
        kw_co() != kw_el(),
        kw_co() != kw_en(),
        kw_ob() != kw_pr(),
        kw_ob() != kw_el(),
        kw_ob() != kw_en(),
        kw_ob() != kw_co(),
{
    assert(kw_el()[0] != kw_pr()[0]);
    assert(kw_en()[0] != kw_pr()[0]);
    assert(kw_en()[1] != kw_el()[1]);
    assert(kw_co()[0] != kw_pr()[0]);
    assert(kw_co()[0] != kw_el()[0]);
    assert(kw_co()[0] != kw_en()[0]);
    assert(kw_ob()[0] != kw_pr()[0]);
    assert(kw_ob()[0] != kw_el()[0]);
    assert(kw_ob()[0] != kw_en()[0]);
    assert(kw_ob()[0] != kw_co()[0]);
}

/// The line `"end_header"` ends the metas, whatever follows.
proof fn lemma_end_line(rest: Seq<u8>, had_element: bool, domain: Map<Seq<u8>, u64>)
    ensures
        head_line_spec(kw_end_header() + kw_newline() + rest, had_element, domain) == Ok::<
            (Option<MetaV>, int),
            ErrorV,
        >((None, 11)),
{
    reveal(head_line_spec);
    let s = kw_end_header() + kw_newline() + rest;
    lemma_prefixes_differ();
    assert(s.subrange(0, 2) =~= kw_en());
    assert(s.subrange(2, 10) =~= kw_d_header());
    assert(s.subrange(10, s.len() as int) =~= seq![LF] + rest);
    crate::function::lemma_line_field_empty(rest);
}

/// A clean meta reads back as itself from its encoding, whatever follows,
/// when it is no property or an element came before it.
proof fn lemma_meta_line_roundtrip(
    m: MetaV,
    rest: Seq<u8>,
    had_element: bool,
    domain: Map<Seq<u8>, u64>,
)
    requires
        is_clean_meta(m, domain),
        m is Property ==> had_element,
    ensures
        head_line_spec(meta_bytes(m) + rest, had_element, domain) == Ok::<
            (Option<MetaV>, int),
            ErrorV,
        >((Some(m), meta_bytes(m).len() as int)),
{
    reveal(head_line_spec);
    let s = meta_bytes(m) + rest;
    lemma_prefixes_differ();
    match m {
        MetaV::Property(p) => {
            assert(s.subrange(0, 2) =~= kw_pr());
            assert(s.subrange(2, 9) =~= kw_operty_());
            assert(s.subrange(9, s.len() as int) =~= property_meta_bytes(p) + rest);
            lemma_property_meta_roundtrip(p, rest, domain);
        },
        MetaV::Element(e) => {
            assert(s.subrange(0, 2) =~= kw_el());
            assert(s.subrange(2, 8) =~= kw_ement_());
            assert(s.subrange(8, s.len() as int) =~= element_meta_bytes(e) + rest);
            lemma_element_meta_roundtrip(e, rest);
        },
        MetaV::Comment(c) => {
            assert(s.subrange(0, 2) =~= kw_co());
            assert(s.subrange(2, 8) =~= kw_mment_());
            assert(s.subrange(8, s.len() as int) =~= text_line_bytes(c) + rest);
            lemma_comment_meta_roundtrip(c, rest);
        },
        MetaV::ObjInfo(o) => {
            assert(s.subrange(0, 2) =~= kw_ob());
            assert(s.subrange(2, 9) =~= kw_j_info_());
            assert(s.subrange(9, s.len() as int) =~= o + seq![LF] + rest);
            crate::function::lemma_ascii_text_clean(o, rest, "<obj_info>");
        },
    }
}

/// Clean metas, each property after an element, read back as themselves
/// from their encoding and the line `"end_header"`, whatever follows.
pub proof fn lemma_metas_roundtrip(
    ms: Seq<MetaV>,
    had_element: bool,
    rest: Seq<u8>,
    domain: Map<Seq<u8>, u64>,
)
    requires
        forall|i: int| 0 <= i < ms.len() ==> is_clean_meta(#[trigger] ms[i], domain),
        properties_follow_element(ms, had_element),
    ensures
        head_metas_spec(metas_bytes(ms) + kw_end_header() + kw_newline() + rest, had_element, domain)
            == Ok::<(Seq<MetaV>, int), ErrorV>((ms, metas_bytes(ms).len() + 11int)),
    decreases ms.len(),
{
    let s = metas_bytes(ms) + kw_end_header() + kw_newline() + rest;
    if ms.len() == 0 {
        assert(metas_bytes(ms) =~= Seq::<u8>::empty());
        assert(s =~= kw_end_header() + kw_newline() + rest);
        lemma_end_line(rest, had_element, domain);
        assert(ms =~= Seq::<MetaV>::empty());
        assert(head_metas_spec(s, had_element, domain) == Ok::<(Seq<MetaV>, int), ErrorV>((Seq::<MetaV>::empty(), 11)));
    } else {
        let m = ms[0];
        let tl = ms.drop_first();
        assert(ms =~= seq![m] + tl);
        lemma_metas_bytes_front(m, tl);
        let after = metas_bytes(tl) + kw_end_header() + kw_newline() + rest;
        assert(s =~= meta_bytes(m) + after);
        assert(is_clean_meta(ms[0], domain));
        assert(m is Property ==> had_element);
        lemma_meta_line_roundtrip(m, after, had_element, domain);
        let n = meta_bytes(m).len() as int;
        assert(s.subrange(n, s.len() as int) =~= after);
        let had = had_element || m is Element;
        assert forall|i: int| 0 <= i < tl.len() implies is_clean_meta(#[trigger] tl[i], domain) by {
            assert(tl[i] == ms[i + 1]);
        }
        assert forall|i: int| 0 <= i < tl.len() && (#[trigger] tl[i]) is Property implies had
            || exists|j: int| 0 <= j < i && tl[j] is Element by {
            assert(tl[i] == ms[i + 1]);
            if !had {
                let j = choose|j: int| 0 <= j < i + 1 && ms[j] is Element;
                assert(j != 0);
                assert(tl[j - 1] == ms[j]);
            }
        }
        lemma_metas_roundtrip(tl, had, rest, domain);
        assert(head_metas_spec(after, had, domain) == Ok::<(Seq<MetaV>, int), ErrorV>((tl, metas_bytes(tl).len() + 11int)));
        assert(head_line_spec(s, had_element, domain) == Ok::<(Option<MetaV>, int), ErrorV>((Some(m), n)));
        assert(head_metas_spec(s, had_element, domain) == Ok::<(Seq<MetaV>, int), ErrorV>((seq![m] + tl, n + metas_bytes(tl).len() + 11int)));
    }
}

/// A clean head reads back as itself from its encoding, whatever follows:
/// the same format and the same metas in the same order, having consumed
/// exactly the bytes of the encoding.
pub proof fn lemma_head_roundtrip(h: HeadV, rest: Seq<u8>, domain: Map<Seq<u8>, u64>)
    requires
        is_clean_head(h, domain),
    ensures
        head_spec(head_bytes(h) + rest, domain) == Ok::<(HeadV, int), ErrorV>(
            (h, head_bytes(h).len() as int),
        ),
{
    let s = head_bytes(h) + rest;
    let metas_and_end = metas_bytes(h.metas) + kw_end_header() + kw_newline() + rest;
    let after_ply = format_meta_bytes(h.format) + metas_and_end;
    assert(s.subrange(0, 3) =~= kw_ply());
    assert(s.subrange(3, s.len() as int) =~= seq![LF] + after_ply);
    crate::function::lemma_line_field_empty(after_ply);
    assert(s.subrange(4, s.len() as int) =~= after_ply);
    lemma_format_meta_roundtrip(h.format, metas_and_end);
    let fl = format_meta_bytes(h.format).len() as int;
    assert(s.subrange(4 + fl, s.len() as int) =~= metas_and_end);
    lemma_metas_roundtrip(h.metas, false, rest, domain);
}

} // verus!
