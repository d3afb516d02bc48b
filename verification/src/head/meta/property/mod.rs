//! Property metas of a head.

pub mod list;
pub mod scalar;

pub use list::{list_property_bytes, list_property_spec, ListPropertyMeta};
pub use scalar::{
    domain_lookup, is_list_kind, kind_float, lemma_scalar_property_bound,
    lemma_scalar_property_roundtrip, list_kind, scalar_property_bytes, scalar_property_spec,
    ScalarProperty, ScalarPropertyDomain, ScalarPropertyMeta,
};

use vstd::prelude::*;

use crate::ascii::AsciiString;
use crate::error::{Error, ErrorV};
use crate::function::{ascii_text_spec, decode_ascii_text, push_all, tail, LF};
use crate::head::meta::comment::{is_line_text, text_line_bytes};
use crate::keyword::{kw_list_, kw_list__bytes};

verus! {

/// ## Syntax
///
/// ```plaintext
/// <property-meta> :=
///     | <property-meta-variant> [{" "}] <name> <newline>
///
/// <name> :=
///     | <ascii-string>
///
/// <newline> :=
///     | ["\r"] "\n"
/// ```
#[derive(Clone, Debug, PartialEq, Eq, Hash, PartialOrd, Ord)]
pub struct PropertyMeta {
    pub name: AsciiString,
    pub variant: PropertyMetaVariant,
}

/// ## Syntax
///
/// ```plaintext
/// <property-meta-variant> :=
///     | [{" "}] "list" " " <list-property-meta>
///     | <scalar-property-meta>
/// ```
#[derive(Clone, Debug, PartialEq, Eq, Hash, PartialOrd, Ord)]
pub enum PropertyMetaVariant {
    List(ListPropertyMeta),
    Scalar(ScalarPropertyMeta),
}

/// The value of a property variant: a list with its count and value
/// properties, or a scalar property.
pub enum PropertyVariantV {
    List((Seq<u8>, u64), (Seq<u8>, u64)),
    Scalar((Seq<u8>, u64)),
}

impl View for PropertyMetaVariant {
    type V = PropertyVariantV;

    open spec fn view(&self) -> PropertyVariantV {
        match self {
            PropertyMetaVariant::List(l) => PropertyVariantV::List(l@.0, l@.1),
            PropertyMetaVariant::Scalar(s) => PropertyVariantV::Scalar(s@),
        }
    }
}

impl View for PropertyMeta {
    type V = (Seq<u8>, PropertyVariantV);

    open spec fn view(&self) -> (Seq<u8>, PropertyVariantV) {
        (self.name@, self.variant@)
    }
}

/// The property variant read from the front of `s`: a scalar property, and
/// when its kind is `"list"`, the count and value properties that follow.
pub open spec fn property_variant_spec(s: Seq<u8>, domain: Map<Seq<u8>, u64>) -> Result<
    (PropertyVariantV, int),
    ErrorV,
> {
    match scalar_property_spec(s, domain) {
        Err(e) => Err(e),
        Ok((p, n)) => if p.0 == list_kind() {
            match list_property_spec(s.subrange(n, s.len() as int), domain) {
                Err(e) => Err(e),
                Ok(((c, v), m)) => Ok((PropertyVariantV::List(c, v), n + m)),
            }
        } else {
            Ok((PropertyVariantV::Scalar(p), n))
        },
    }
}

/// The property read from the front of `s`: its variant, then its name up
/// to the end of the line.
pub open spec fn property_meta_spec(s: Seq<u8>, domain: Map<Seq<u8>, u64>) -> Result<
    ((Seq<u8>, PropertyVariantV), int),
    ErrorV,
> {
    match property_variant_spec(s, domain) {
        Err(e) => Err(e),
        Ok((v, n)) => match ascii_text_spec(s.subrange(n, s.len() as int), "<name>") {
            Err(e) => Err(e),
            Ok((name, m)) => Ok(((name, v), n + m)),
        },
    }
}

/// The bytes of a property variant.
pub open spec fn property_variant_bytes(v: PropertyVariantV) -> Seq<u8> {
    match v {
        PropertyVariantV::List(c, e) => kw_list_() + scalar_property_bytes(c) + scalar_property_bytes(e),
        PropertyVariantV::Scalar(p) => scalar_property_bytes(p),
    }
}

/// The bytes that [`PropertyMeta::encode`] writes.
pub open spec fn property_meta_bytes(p: (Seq<u8>, PropertyVariantV)) -> Seq<u8> {
    property_variant_bytes(p.1) + text_line_bytes(p.0)
}

/// A property whose encoding reads back as itself in the domain: its name
/// is clean ASCII text, and the domain holds each of its scalar properties,
/// whose kinds are words (a scalar kind other than `"list"`).
pub open spec fn is_clean_property(p: (Seq<u8>, PropertyVariantV), domain: Map<Seq<u8>, u64>) -> bool {
    &&& is_line_text(p.0)
    &&& match p.1 {
        PropertyVariantV::List(c, e) => {
            &&& crate::function::is_clean_word(c.0)
            &&& domain_lookup(domain, c.0) == Some(c)
            &&& crate::function::is_clean_word(e.0)
            &&& domain_lookup(domain, e.0) == Some(e)
            &&& domain_lookup(domain, list_kind()) == Some((list_kind(), domain[list_kind()]))
        },
        PropertyVariantV::Scalar(s) => {
            &&& crate::function::is_clean_word(s.0)
            &&& s.0 != list_kind()
            &&& domain_lookup(domain, s.0) == Some(s)
        },
    }
}

/// A property variant consumes at least one byte and no more than there are.
pub proof fn lemma_property_variant_bound(s: Seq<u8>, domain: Map<Seq<u8>, u64>)
    ensures
        property_variant_spec(s, domain) matches Ok((v, n)) ==> 0 < n <= s.len(),
{
    lemma_scalar_property_bound(s, domain);
    if let Ok((p, n)) = scalar_property_spec(s, domain) {
        let t = s.subrange(n, s.len() as int);
        lemma_scalar_property_bound(t, domain);
        if let Ok((c, m)) = scalar_property_spec(t, domain) {
            lemma_scalar_property_bound(t.subrange(m, t.len() as int), domain);
        }
    }
}

/// A property consumes at least one byte and no more than there are.
pub proof fn lemma_property_meta_bound(s: Seq<u8>, domain: Map<Seq<u8>, u64>)
    ensures
        property_meta_spec(s, domain) matches Ok((p, n)) ==> 0 < n <= s.len(),
{
    lemma_property_variant_bound(s, domain);
    if let Ok((v, n)) = property_variant_spec(s, domain) {
        crate::function::lemma_text_field_bound(s.subrange(n, s.len() as int));
    }
}

impl PropertyMetaVariant {
    /// Whether this is a list.
    pub fn is_list(&self) -> (r: bool)
        ensures
            r == (self is List),
    {
        matches!(self, PropertyMetaVariant::List(_))
    }

    /// Whether this is a scalar.
    pub fn is_scalar(&self) -> (r: bool)
        ensures
            r == (self is Scalar),
    {
        matches!(self, PropertyMetaVariant::Scalar(_))
    }

    /// The list, when this is one.
    pub fn as_list(&self) -> (r: Option<&ListPropertyMeta>)
        ensures
            match self {
                PropertyMetaVariant::List(l) => r == Some(l),
                _ => r is None,
            },
    {
        match self {
            PropertyMetaVariant::List(l) => Some(l),
            _ => None,
        }
    }

    /// The scalar, when this is one.
    pub fn as_scalar(&self) -> (r: Option<&ScalarPropertyMeta>)
        ensures
            match self {
                PropertyMetaVariant::Scalar(s) => r == Some(s),
                _ => r is None,
            },
    {
        match self {
            PropertyMetaVariant::Scalar(s) => Some(s),
            _ => None,
        }
    }

    /// Reads a property variant from the front of `input`.
    pub fn decode(input: &[u8], domain: &ScalarPropertyDomain) -> (r: Result<(Self, usize), Error>)
        ensures
            crate::error::decoded(r) == property_variant_spec(input@, domain@),
            r matches Ok((_, n)) ==> n <= input@.len(),
    {
        let total = input.len();
        assert(total == input@.len());
        let (list_or_scalar, n) = ScalarProperty::decode(input, domain)?;
        proof {
            lemma_scalar_property_bound(input@, domain@);
        }
        if is_list_kind(list_or_scalar.kind.as_bytes()) {
            let (list, m) = ListPropertyMeta::decode(tail(input, n), domain)?;
            proof {
                crate::head::meta::property::list::lemma_list_property_bound(
                    input@.subrange(n as int, input@.len() as int),
                    domain@,
                );
            }
            assert(n + m <= input@.len());
            Ok((PropertyMetaVariant::List(list), n + m))
        } else {
            Ok((PropertyMetaVariant::Scalar(list_or_scalar), n))
        }
    }

    /// Writes the variant: the kind of a scalar, or `"list "` and the kinds
    /// of a list's count and value.
    pub fn encode(&self, out: &mut Vec<u8>)
        ensures
            final(out)@ == old(out)@ + property_variant_bytes(self@),
    {
        match self {
            PropertyMetaVariant::Scalar(s) => {
                s.encode(out);
            },
            PropertyMetaVariant::List(l) => {
                push_all(out, &kw_list__bytes());
                l.encode(out);
                assert(final(out)@ =~= old(out)@ + property_variant_bytes(self@));
            },
        }
    }
}

impl Default for PropertyMetaVariant {
    fn default() -> (r: Self)
        ensures
            r@ == PropertyVariantV::Scalar((kind_float(), 4u64)),
    {
        PropertyMetaVariant::Scalar(ScalarProperty::default())
    }
}

impl PropertyMeta {
    /// Reads a property meta from the front of `input`.
    pub fn decode(input: &[u8], domain: &ScalarPropertyDomain) -> (r: Result<(Self, usize), Error>)
        ensures
            crate::error::decoded(r) == property_meta_spec(input@, domain@),
            r matches Ok((_, n)) ==> n <= input@.len(),
    {
        let total = input.len();
        assert(total == input@.len());
        let (variant, n) = PropertyMetaVariant::decode(input, domain)?;
        proof {
            lemma_property_variant_bound(input@, domain@);
        }
        let (name, m) = decode_ascii_text(tail(input, n), "<name>")?;
        proof {
            crate::function::lemma_text_field_bound(input@.subrange(n as int, input@.len() as int));
        }
        assert(n + m <= input@.len());
        Ok((PropertyMeta { name, variant }, n + m))
    }

    /// Writes the variant, the name and a line end.
    pub fn encode(&self, out: &mut Vec<u8>)
        ensures
            final(out)@ == old(out)@ + property_meta_bytes(self@),
    {
        self.variant.encode(out);
        push_all(out, self.name.as_bytes());
        out.push(LF);
        assert(final(out)@ =~= old(out)@ + property_meta_bytes(self@));
    }
}

impl Default for PropertyMeta {
    fn default() -> (r: Self)
        ensures
            r@ == (crate::keyword::kw_default(), PropertyVariantV::Scalar((kind_float(), 4u64))),
    {
        let b = crate::keyword::kw_default_bytes();
        let name = match AsciiString::from_slice(&b) {
            Ok(name) => name,
            Err(_) => {
                assert(false);
                AsciiString::new()
            },
        };
        PropertyMeta { name, variant: PropertyMetaVariant::default() }
    }
}

/// A clean property reads back as itself from its encoding in the domain,
/// whatever follows.
pub proof fn lemma_property_meta_roundtrip(
    p: (Seq<u8>, PropertyVariantV),
    rest: Seq<u8>,
    domain: Map<Seq<u8>, u64>,
)
    requires
        is_clean_property(p, domain),
    ensures
        property_meta_spec(property_meta_bytes(p) + rest, domain) == Ok::<
            ((Seq<u8>, PropertyVariantV), int),
            ErrorV,
        >((p, property_meta_bytes(p).len() as int)),
{
    let s = property_meta_bytes(p) + rest;
    let tail_bytes = text_line_bytes(p.0) + rest;
    match p.1 {
        PropertyVariantV::Scalar(sp) => {
            assert(s =~= scalar_property_bytes(sp) + tail_bytes);
            lemma_scalar_property_roundtrip(sp, tail_bytes, domain);
            assert(s.subrange(sp.0.len() + 1int, s.len() as int) =~= tail_bytes);
        },
        PropertyVariantV::List(c, e) => {
            let lk = (list_kind(), domain[list_kind()]);
            let after_list = scalar_property_bytes(c) + scalar_property_bytes(e) + tail_bytes;
            assert(kw_list_() =~= scalar_property_bytes(lk));
            assert(s =~= scalar_property_bytes(lk) + after_list);
            assert(crate::function::is_clean_word(list_kind()));
            lemma_scalar_property_roundtrip(lk, after_list, domain);
            assert(s.subrange(5, s.len() as int) =~= after_list);
            let after_count = scalar_property_bytes(e) + tail_bytes;
            assert(after_list =~= scalar_property_bytes(c) + after_count);
            lemma_scalar_property_roundtrip(c, after_count, domain);
            assert(after_list.subrange(c.0.len() + 1int, after_list.len() as int) =~= after_count);
            lemma_scalar_property_roundtrip(e, tail_bytes, domain);
            assert(after_count.subrange(e.0.len() + 1int, after_count.len() as int) =~= tail_bytes);
            assert(s.subrange(5 + c.0.len() + 1int + e.0.len() + 1int, s.len() as int) =~= tail_bytes);
        },
    }
    crate::function::lemma_ascii_text_clean(p.0, rest, "<name>");
    assert(tail_bytes =~= p.0 + seq![LF] + rest);
}

} // verus!
