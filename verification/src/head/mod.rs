//! The head of a polygon file: its signature, format and metas.

pub mod block;
pub mod group;
pub mod meta;
pub mod syntax;

pub use meta::{
    CommentMeta, ElementMeta, FormatMeta, FormatMetaVariant, ListPropertyMeta, Meta, MetaV,
    MetaVariant, ObjInfoMeta, PropertyMeta, PropertyMetaVariant, PropertyVariantV,
    ScalarPropertyDomain, ScalarPropertyMeta,
};
pub use syntax::{head_bytes, head_spec, HeadV};

use vstd::prelude::*;
use vstd::string::StringSliceAdditionalSpecFns;

use crate::ascii::{is_ascii_bytes, AsciiString};
use crate::error::{decoded, Error, ErrorV};
use crate::function::{copy_range, holds_at, push_all, read_line, tail};
use crate::head::meta::format::format_meta_bytes;
use crate::head::syntax::{
    element_groups, element_property_pairs, leading_properties, head_line_spec, head_metas_spec, keyword_suffix_spec, lemma_head_line_bound, meta_bytes,
    metas_bytes,
};
use crate::keyword::{
    kw_co_bytes, kw_comment__bytes, kw_d_header_bytes, kw_el_bytes, kw_element__bytes,
    kw_ement__bytes, kw_en_bytes, kw_end_header_bytes, kw_j_info__bytes,
    kw_mment__bytes, kw_newline, kw_newline_bytes, kw_ob_bytes, kw_obj_info__bytes,
    kw_operty__bytes, kw_ply, kw_ply_bytes, kw_pr_bytes, kw_property__bytes,
};

verus! {

/// ## Syntax
///
/// ```plaintext
/// <head> :=
///     | <start_header> <format-meta> [{<meta>}] <end_header>
///
/// <start_header> :=
///     | "ply" <newline>
///
/// <meta> :=
///     | "comment " <comment-meta>
///     | "element " <element-meta>
///     | "obj_info " <obj_info-meta>
///     | "property " <property-meta>
///
/// <end_header> :=
///     | "end_header" <newline>
///
/// <newline> :=
///     | ["\r"] "\n"
/// ```
#[derive(Clone, Debug, PartialEq, Eq, Hash, PartialOrd, Ord)]
pub struct Head {
    format: FormatMeta,
    inner: Vec<Meta>,
}

/// The values of metas.
pub open spec fn metas_view(ms: Seq<Meta>) -> Seq<MetaV> {
    ms.map_values(|m: Meta| m@)
}

/// The value of an optional meta.
pub open spec fn option_meta_view(m: Option<Meta>) -> Option<MetaV> {
    match m {
        Some(m) => Some(m@),
        None => None,
    }
}

/// `metas` put in front of the metas of a reading result, `consumed` bytes
/// added in front of the bytes it consumed.
pub open spec fn prepend_metas(
    metas: Seq<MetaV>,
    consumed: int,
    r: Result<(Seq<MetaV>, int), ErrorV>,
) -> Result<(Seq<MetaV>, int), ErrorV> {
    match r {
        Err(e) => Err(e),
        Ok((ms, n)) => Ok((metas + ms, consumed + n)),
    }
}

impl View for Head {
    type V = HeadV;

    closed spec fn view(&self) -> HeadV {
        HeadV { format: self.format@, metas: metas_view(self.inner@) }
    }
}

proof fn lemma_prepend_step(
    metas: Seq<MetaV>,
    consumed: int,
    m: MetaV,
    n: int,
    r: Result<(Seq<MetaV>, int), ErrorV>,
)
    ensures
        prepend_metas(metas, consumed, prepend_metas(seq![m], n, r)) == prepend_metas(
            metas.push(m),
            consumed + n,
            r,
        ),
{
    if let Ok((ms, k)) = r {
        assert(metas + (seq![m] + ms) =~= metas.push(m) + ms);
    }
}

/// Checks that the bytes after the two at the front of `input` are `suffix`.
fn check_keyword_suffix(input: &[u8], suffix: &[u8]) -> (r: Result<(), Error>)
    requires
        input@.len() >= 2,
    ensures
        match r {
            Ok(_) => keyword_suffix_spec(input@, suffix@) == Ok::<(), ErrorV>(()),
            Err(e) => keyword_suffix_spec(input@, suffix@) == Err::<(), ErrorV>(e@),
        },
{
    if input.len() - 2 < suffix.len() {
        return Err(Error::UnexpectedEof);
    }
    if !holds_at(input, 2, suffix) {
        return Err(Error::InvalidPolygonKeyword(crate::error::lossy_text(copy_range(input, 0, 2 + suffix.len()).as_slice())));
    }
    Ok(())
}

/// Reads one line of the metas of a head (see [`head_line_spec`]).
fn decode_head_line(input: &[u8], had_element: bool, domain: &ScalarPropertyDomain) -> (r: Result<
    (Option<Meta>, usize),
    Error,
>)
    ensures
        match r {
            Ok((m, n)) => head_line_spec(input@, had_element, domain@) == Ok::<
                (Option<MetaV>, int),
                ErrorV,
            >((option_meta_view(m), n as int)),
            Err(e) => head_line_spec(input@, had_element, domain@) == Err::<
                (Option<MetaV>, int),
                ErrorV,
            >(e@),
        },
        r matches Ok((_, n)) ==> 0 < n <= input@.len(),
{
    proof {
        lemma_head_line_bound(input@, had_element, domain@);
        reveal(head_line_spec);
    }
    let total = input.len();
    assert(total == input@.len());
    if total < 2 {
        return Err(Error::UnexpectedEof);
    }
    if holds_at(input, 0, &kw_pr_bytes()) {
        check_keyword_suffix(input, &kw_operty__bytes())?;
        if !had_element {
            return Err(Error::MissingToken("element "));
        }
        let (p, n) = PropertyMeta::decode(tail(input, 9), domain)?;
        Ok((Some(Meta { variant: MetaVariant::Property(p) }), 9 + n))
    } else if holds_at(input, 0, &kw_el_bytes()) {
        check_keyword_suffix(input, &kw_ement__bytes())?;
        let (e, n) = ElementMeta::decode(tail(input, 8))?;
        Ok((Some(Meta { variant: MetaVariant::Element(e) }), 8 + n))
    } else if holds_at(input, 0, &kw_en_bytes()) {
        check_keyword_suffix(input, &kw_d_header_bytes())?;
        let (t, n) = read_line(tail(input, 10));
        proof {
            crate::function::lemma_line_field_bound(input@.subrange(10, total as int));
        }
        if t.len() == 0 {
            Ok((None, 10 + n))
        } else {
            let mut keyword = copy_range(input, 0, 10);
            push_all(&mut keyword, t.as_slice());
            Err(Error::InvalidPolygonKeyword(crate::error::lossy_text(keyword.as_slice())))
        }
    } else if holds_at(input, 0, &kw_co_bytes()) {
        check_keyword_suffix(input, &kw_mment__bytes())?;
        let (c, n) = CommentMeta::decode(tail(input, 8))?;
        Ok((Some(Meta { variant: MetaVariant::Comment(c) }), 8 + n))
    } else if holds_at(input, 0, &kw_ob_bytes()) {
        check_keyword_suffix(input, &kw_j_info__bytes())?;
        let (o, n) = ObjInfoMeta::decode(tail(input, 9))?;
        Ok((Some(Meta { variant: MetaVariant::ObjInfo(o) }), 9 + n))
    } else {
        Err(Error::InvalidPolygonKeyword(crate::error::lossy_text(copy_range(input, 0, 2).as_slice())))
    }
}

/// Writes a meta: its keyword, then the meta.
fn encode_meta(meta: &Meta, out: &mut Vec<u8>)
    ensures
        final(out)@ == old(out)@ + meta_bytes(meta@),
{
    match &meta.variant {
        MetaVariant::Property(m) => {
            push_all(out, &kw_property__bytes());
            m.encode(out);
        },
        MetaVariant::Element(m) => {
            push_all(out, &kw_element__bytes());
            m.encode(out);
        },
        MetaVariant::Comment(m) => {
            push_all(out, &kw_comment__bytes());
            m.encode(out);
        },
        MetaVariant::ObjInfo(m) => {
            push_all(out, &kw_obj_info__bytes());
            m.encode(out);
        },
    }
    assert(final(out)@ =~= old(out)@ + meta_bytes(meta@));
}

impl Head {
    /// A head of the given format, without metas.
    pub fn new(format: FormatMeta) -> (r: Self)
        ensures
            r@ == (HeadV { format: format@, metas: Seq::empty() }),
    {
        let r = Head { format, inner: Vec::new() };
        assert(metas_view(r.inner@) =~= Seq::<MetaV>::empty());
        r
    }

    /// The format variant.
    pub fn get_format(&self) -> (r: FormatMetaVariant)
        ensures
            r == self@.format.0,
    {
        self.format.variant
    }

    /// Replaces the format variant, keeping the version and the metas.
    pub fn set_format(&mut self, variant: FormatMetaVariant)
        ensures
            final(self)@ == (HeadV { format: (variant, old(self)@.format.1), metas: old(self)@.metas }),
    {
        self.format.variant = variant;
    }

    /// The version of the format.
    pub fn get_version(&self) -> (r: &str)
        ensures
            r.spec_bytes() == self@.format.1,
    {
        self.format.version.as_str()
    }

    /// Replaces the version of the format when `version` is ASCII; else
    /// leaves the head as it was and reports the bytes.
    pub fn set_version(&mut self, version: &[u8]) -> (r: Result<(), Error>)
        ensures
            match r {
                Ok(_) => is_ascii_bytes(version@) && final(self)@ == (HeadV {
                    format: (old(self)@.format.0, version@),
                    metas: old(self)@.metas,
                }),
                Err(e) => !is_ascii_bytes(version@) && e@ == ErrorV::InvalidAscii(crate::error::utf8_lossy(version@))
                    && final(self)@ == old(self)@,
            },
    {
        match AsciiString::from_slice(version) {
            Ok(v) => {
                self.format.version = v;
                Ok(())
            },
            Err(bytes) => Err(Error::InvalidAscii(crate::error::lossy_text(bytes.as_slice()))),
        }
    }

    /// Whether the format is ASCII.
    pub fn is_format_ascii(&self) -> (r: bool)
        ensures
            r == (self@.format.0 == FormatMetaVariant::Ascii),
    {
        self.format.variant.is_ascii()
    }

    /// Whether the format is binary big endian.
    pub fn is_format_binary_big_endian(&self) -> (r: bool)
        ensures
            r == (self@.format.0 == FormatMetaVariant::BinaryBigEndian),
    {
        self.format.variant.is_binary_big_endian()
    }

    /// Whether the format is binary little endian.
    pub fn is_format_binary_little_endian(&self) -> (r: bool)
        ensures
            r == (self@.format.0 == FormatMetaVariant::BinaryLittleEndian),
    {
        self.format.variant.is_binary_little_endian()
    }

    /// Reads a head from the front of `input`, with the scalar property
    /// kinds of `domain` (see [`head_spec`]); gives the head and the number
    /// of bytes consumed.
    pub fn decode(input: &[u8], domain: &ScalarPropertyDomain) -> (r: Result<(Self, usize), Error>)
        ensures
            decoded(r) == head_spec(input@, domain@),
            r matches Ok((_, n)) ==> n <= input@.len(),
    {
        let total = input.len();
        assert(total == input@.len());
        if total < 3 {
            return Err(Error::UnexpectedEof);
        }
        if !holds_at(input, 0, &kw_ply_bytes()) {
            return Err(Error::MissingToken("ply"));
        }
        let (t, n) = read_line(tail(input, 3));
        proof {
            crate::function::lemma_line_field_bound(input@.subrange(3, total as int));
        }
        if t.len() != 0 {
            return Err(Error::MissingToken("<newline>"));
        }
        let a = 3 + n;
        let (format, m) = FormatMeta::decode(tail(input, a))?;
        assert(input@.subrange(a as int, total as int).subrange(m as int, total - a)
            =~= input@.subrange(a + m, total as int));
        let start = a + m;
        let ghost f = format@;
        let mut head = Head::new(format);
        let mut had_element = false;
        let mut pos = start;
        assert(prepend_metas(Seq::empty(), 0, head_metas_spec(input@.subrange(pos as int, total as int), false, domain@))
            =~= head_metas_spec(input@.subrange(start as int, total as int), false, domain@)) by {
            if let Ok((ms, k)) = head_metas_spec(input@.subrange(pos as int, total as int), false, domain@) {
                assert(Seq::<MetaV>::empty() + ms =~= ms);
            }
        }
        loop
            invariant
                total == input@.len(),
                start <= pos <= total,
                head@.format == f,
                head_spec(input@, domain@) == match head_metas_spec(
                    input@.subrange(start as int, total as int),
                    false,
                    domain@,
                ) {
                    Err(e) => Err(e),
                    Ok((ms, k)) => Ok((HeadV { format: f, metas: ms }, start + k)),
                },
                head_metas_spec(input@.subrange(start as int, total as int), false, domain@)
                    == prepend_metas(
                    head@.metas,
                    pos - start,
                    head_metas_spec(input@.subrange(pos as int, total as int), had_element, domain@),
                ),
            decreases total - pos,
        {
            let ghost u = input@.subrange(pos as int, total as int);
            match decode_head_line(tail(input, pos), had_element, domain) {
                Err(e) => {
                    return Err(e);
                },
                Ok((None, n)) => {
                    assert(head@.metas + Seq::<MetaV>::empty() =~= head@.metas);
                    return Ok((head, pos + n));
                },
                Ok((Some(meta), n)) => {
                    let ghost mv = meta@;
                    let ghost old_metas = head@.metas;
                    let ghost old_had = had_element;
                    let is_element = meta.is_element();
                    had_element = had_element || is_element;
                    head.inner.push(meta);
                    proof {
                        assert(head@.metas =~= old_metas.push(mv));
                        assert(u.subrange(n as int, u.len() as int) =~= input@.subrange(
                            pos + n,
                            total as int,
                        ));
                        lemma_prepend_step(
                            old_metas,
                            pos - start,
                            mv,
                            n as int,
                            head_metas_spec(
                                input@.subrange(pos + n, total as int),
                                had_element,
                                domain@,
                            ),
                        );
                    }
                    pos = pos + n;
                },
            }
        }
    }

    /// Writes the head: the signature, the format meta, each meta and the
    /// line `"end_header"`.
    pub fn encode(&self, out: &mut Vec<u8>)
        ensures
            final(out)@ == old(out)@ + head_bytes(self@),
    {
        push_all(out, &kw_ply_bytes());
        push_all(out, &kw_newline_bytes());
        self.format.encode(out);
        let ghost front = old(out)@ + kw_ply() + kw_newline() + format_meta_bytes(self.format@);
        assert(out@ =~= front);
        let mut i: usize = 0;
        assert(metas_view(self.inner@.subrange(0, 0)) =~= Seq::<MetaV>::empty());
        while i < self.inner.len()
            invariant
                i <= self.inner@.len(),
                out@ == front + metas_bytes(metas_view(self.inner@.subrange(0, i as int))),
            decreases self.inner@.len() - i,
        {
            encode_meta(&self.inner[i], out);
            proof {
                let before = metas_view(self.inner@.subrange(0, i as int));
                let after = metas_view(self.inner@.subrange(0, i + 1));
                assert(after =~= before.push(self.inner@[i as int]@));
                assert(after.drop_last() =~= before);
            }
            i += 1;
        }
        assert(self.inner@.subrange(0, i as int) =~= self.inner@);
        push_all(out, &kw_end_header_bytes());
        push_all(out, &kw_newline_bytes());
        assert(final(out)@ =~= old(out)@ + head_bytes(self@));
    }
}

/// The values of element groups.
pub open spec fn groups_view(g: Seq<(&ElementMeta, Vec<&PropertyMeta>)>) -> Seq<
    ((Seq<u8>, usize), Seq<(Seq<u8>, PropertyVariantV)>),
> {
    g.map_values(
        |x: (&ElementMeta, Vec<&PropertyMeta>)| (x.0@, x.1@.map_values(|p: &PropertyMeta| p@)),
    )
}

/// The values of element and property pairs.
pub open spec fn pairs_view(g: Seq<(&ElementMeta, &PropertyMeta)>) -> Seq<
    ((Seq<u8>, usize), (Seq<u8>, PropertyVariantV)),
> {
    g.map_values(|x: (&ElementMeta, &PropertyMeta)| (x.0@, x.1@))
}

impl Head {
    /// The metas.
    pub fn metas(&self) -> (r: &Vec<Meta>)
        ensures
            metas_view(r@) == self@.metas,
    {
        &self.inner
    }

    /// The metas, to change in place.
    pub fn metas_mut(&mut self) -> (r: &mut Vec<Meta>)
        ensures
            metas_view(r@) == old(self)@.metas,
            final(self)@ == (HeadV { format: old(self)@.format, metas: metas_view(final(r)@) }),
    {
        &mut self.inner
    }

    /// Appends a meta.
    pub fn push(&mut self, meta: Meta)
        ensures
            final(self)@ == (HeadV { format: old(self)@.format, metas: old(self)@.metas.push(meta@) }),
    {
        self.inner.push(meta);
        assert(metas_view(self.inner@) =~= old(self)@.metas.push(meta@));
    }

    /// The properties from index `start` on, up to the next element.
    fn properties_from(&self, start: usize) -> (r: Vec<&PropertyMeta>)
        requires
            start <= self.inner@.len(),
        ensures
            r@.map_values(|p: &PropertyMeta| p@) == leading_properties(
                metas_view(self.inner@).subrange(start as int, self.inner@.len() as int),
            ),
    {
        let n = self.inner.len();
        let ghost all = metas_view(self.inner@);
        let mut r: Vec<&PropertyMeta> = Vec::new();
        let mut i = start;
        assert(r@.map_values(|p: &PropertyMeta| p@) + leading_properties(all.subrange(start as int, n as int))
            =~= leading_properties(all.subrange(start as int, n as int)));
        while i < n
            invariant
                start <= i <= n == self.inner@.len(),
                all == metas_view(self.inner@),
                r@.map_values(|p: &PropertyMeta| p@) + leading_properties(all.subrange(i as int, n as int))
                    == leading_properties(all.subrange(start as int, n as int)),
            decreases n - i,
        {
            let ghost rest = all.subrange(i as int, n as int);
            assert(rest[0] == self.inner@[i as int]@);
            assert(rest.drop_first() =~= all.subrange(i + 1, n as int));
            let meta = &self.inner[i];
            if meta.is_element() {
                assert(leading_properties(rest) =~= Seq::<(Seq<u8>, PropertyVariantV)>::empty());
                assert(r@.map_values(|p: &PropertyMeta| p@) + Seq::<(Seq<u8>, PropertyVariantV)>::empty()
                    =~= r@.map_values(|p: &PropertyMeta| p@));
                return r;
            }
            let ghost before = r@.map_values(|p: &PropertyMeta| p@);
            if let Some(p) = meta.as_property() {
                r.push(p);
                assert(r@.map_values(|p: &PropertyMeta| p@) =~= before.push(p@));
                assert(before + (seq![p@] + leading_properties(all.subrange(i + 1, n as int)))
                    =~= before.push(p@) + leading_properties(all.subrange(i + 1, n as int)));
            }
            i += 1;
        }
        assert(all.subrange(n as int, n as int) =~= Seq::<MetaV>::empty());
        assert(r@.map_values(|p: &PropertyMeta| p@) + Seq::<(Seq<u8>, PropertyVariantV)>::empty()
            =~= r@.map_values(|p: &PropertyMeta| p@));
        r
    }

    /// Each element, in order, with the properties that follow it up to the
    /// next element.
    pub fn iter_element_then_property(&self) -> (r: Vec<(&ElementMeta, Vec<&PropertyMeta>)>)
        ensures
            groups_view(r@) == element_groups(self@.metas),
    {
        let n = self.inner.len();
        let ghost all = metas_view(self.inner@);
        let mut r: Vec<(&ElementMeta, Vec<&PropertyMeta>)> = Vec::new();
        let mut i: usize = 0;
        assert(all.subrange(0, n as int) =~= all);
        assert(groups_view(r@) + element_groups(all) =~= element_groups(all));
        while i < n
            invariant
                i <= n == self.inner@.len(),
                all == metas_view(self.inner@),
                groups_view(r@) + element_groups(all.subrange(i as int, n as int)) == element_groups(all),
            decreases n - i,
        {
            let ghost rest = all.subrange(i as int, n as int);
            assert(rest[0] == self.inner@[i as int]@);
            assert(rest.drop_first() =~= all.subrange(i + 1, n as int));
            let ghost before = groups_view(r@);
            if let Some(element) = self.inner[i].as_element() {
                let properties = self.properties_from(i + 1);
                r.push((element, properties));
                let ghost g = (element@, properties@.map_values(|p: &PropertyMeta| p@));
                assert(groups_view(r@) =~= before.push(g));
                assert(before + (seq![g] + element_groups(all.subrange(i + 1, n as int)))
                    =~= before.push(g) + element_groups(all.subrange(i + 1, n as int)));
            }
            i += 1;
        }
        assert(all.subrange(n as int, n as int) =~= Seq::<MetaV>::empty());
        assert(groups_view(r@) + Seq::<((Seq<u8>, usize), Seq<(Seq<u8>, PropertyVariantV)>)>::empty()
            =~= groups_view(r@));
        r
    }

    /// Each property that comes after an element, in order, with the last
    /// element before it.
    pub fn iter_element_and_property(&self) -> (r: Vec<(&ElementMeta, &PropertyMeta)>)
        ensures
            pairs_view(r@) == element_property_pairs(self@.metas, None),
    {
        let n = self.inner.len();
        let ghost all = metas_view(self.inner@);
        let mut r: Vec<(&ElementMeta, &PropertyMeta)> = Vec::new();
        let mut current: Option<&ElementMeta> = None;
        let mut i: usize = 0;
        assert(all.subrange(0, n as int) =~= all);
        assert(pairs_view(r@) + element_property_pairs(all, None) =~= element_property_pairs(all, None));
        while i < n
            invariant
                i <= n == self.inner@.len(),
                all == metas_view(self.inner@),
                pairs_view(r@) + element_property_pairs(
                    all.subrange(i as int, n as int),
                    match current {
                        Some(e) => Some(e@),
                        None => None,
                    },
                ) == element_property_pairs(all, None),
            decreases n - i,
        {
            let ghost rest = all.subrange(i as int, n as int);
            assert(rest[0] == self.inner@[i as int]@);
            assert(rest.drop_first() =~= all.subrange(i + 1, n as int));
            let ghost before = pairs_view(r@);
            let meta = &self.inner[i];
            if let Some(element) = meta.as_element() {
                current = Some(element);
            } else if let Some(property) = meta.as_property() {
                if let Some(element) = current {
                    r.push((element, property));
                    let ghost g = (element@, property@);
                    assert(pairs_view(r@) =~= before.push(g));
                    assert(before + (seq![g] + element_property_pairs(
                        all.subrange(i + 1, n as int),
                        Some(element@),
                    )) =~= before.push(g) + element_property_pairs(
                        all.subrange(i + 1, n as int),
                        Some(element@),
                    ));
                }
            }
            i += 1;
        }
        assert(all.subrange(n as int, n as int) =~= Seq::<MetaV>::empty());
        assert(pairs_view(r@) + Seq::<((Seq<u8>, usize), (Seq<u8>, PropertyVariantV))>::empty()
            =~= pairs_view(r@));
        r
    }
}

impl std::ops::Deref for Head {
    type Target = Vec<Meta>;

    fn deref(&self) -> (r: &Vec<Meta>)
        ensures
            metas_view(r@) == self@.metas,
    {
        &self.inner
    }
}

impl Default for Head {
    fn default() -> (r: Self)
        ensures
            r@ == (HeadV {
                format: (FormatMetaVariant::Ascii, crate::head::meta::format::default_version()),
                metas: Seq::empty(),
            }),
    {
        Head::new(FormatMeta::default())
    }
}

} // verus!
