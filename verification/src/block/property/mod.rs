//! Property blocks: the kind and name of a property, with room for its
//! data.

pub mod list;
pub mod scalar;

pub use list::{ListProperty, ListPropertyBlock, ListPropertyBlockData, ListPropertyBlockInfo};
pub use scalar::{ScalarPropertyBlock, ScalarPropertyBlockData, ScalarPropertyBlockInfo};

use vstd::prelude::*;

use crate::ascii::AsciiString;
use crate::error::{Error, ErrorV};
use crate::function::{decode_ascii_text, push_all, tail, LF};
use crate::head::block::property::scalar::{
    is_list_kind, lemma_scalar_property_bound, ScalarProperty, ScalarPropertyDomain,
};
use crate::head::meta::property::{
    property_meta_bytes, property_meta_spec, property_variant_bytes, property_variant_spec,
    PropertyVariantV,
};
use crate::keyword::kw_list__bytes;

verus! {

/// ## Syntax
///
/// ```plaintext
/// <property-block> :=
///     | <property-block-variant> <name> <newline>
///
/// <name> :=
///     | [{" "}] <ascii-string>
///
/// <newline> :=
///     | ["\r"] "\n"
/// ```
#[derive(Clone, Debug, Default, PartialEq, Eq, Hash, PartialOrd, Ord)]
pub struct PropertyBlock {
    pub name: AsciiString,
    pub variant: PropertyBlockVariant,
}

/// ## Syntax
///
/// ```plaintext
/// <property-block-variant> :=
///     | [{" "}] "list" " " <list-property-block>
///     | <scalar-property-block>
/// ```
#[derive(Clone, Debug, PartialEq, Eq, Hash, PartialOrd, Ord)]
pub enum PropertyBlockVariant {
    List(ListPropertyBlock),
    Scalar(ScalarPropertyBlock),
}

/// The kinds of a property variant, without its data.
pub open spec fn variant_info(v: PropertyBlockVariant) -> PropertyVariantV {
    match v {
        PropertyBlockVariant::List(l) => PropertyVariantV::List(l.info.count@, l.info.value@),
        PropertyBlockVariant::Scalar(s) => PropertyVariantV::Scalar(s.info@),
    }
}

/// Whether a property variant holds no data.
pub open spec fn variant_has_no_data(v: PropertyBlockVariant) -> bool {
    match v {
        PropertyBlockVariant::List(l) => l.data@.len() == 0,
        PropertyBlockVariant::Scalar(s) => s.data@.len() == 0,
    }
}

impl PropertyBlockVariant {
    /// Reads the kinds of a property variant from the front of `input` (see
    /// [`property_variant_spec`]); the variant holds no data.
    pub fn decode(input: &[u8], domain: &ScalarPropertyDomain) -> (r: Result<(Self, usize), Error>)
        ensures
            match r {
                Ok((v, n)) => property_variant_spec(input@, domain@) == Ok::<
                    (PropertyVariantV, int),
                    ErrorV,
                >((variant_info(v), n as int)) && variant_has_no_data(v),
                Err(e) => property_variant_spec(input@, domain@) == Err::<
                    (PropertyVariantV, int),
                    ErrorV,
                >(e@),
            },
            r matches Ok((_, n)) ==> n <= input@.len(),
    {
        let total = input.len();
        assert(total == input@.len());
        let (info, n) = ScalarProperty::decode(input, domain)?;
        proof {
            lemma_scalar_property_bound(input@, domain@);
        }
        if is_list_kind(info.kind.as_bytes()) {
            let (info, m) = ListPropertyBlockInfo::decode(tail(input, n), domain)?;
            proof {
                crate::head::meta::property::list::lemma_list_property_bound(
                    input@.subrange(n as int, input@.len() as int),
                    domain@,
                );
            }
            Ok((PropertyBlockVariant::List(ListPropertyBlock { data: Vec::new(), info }), n + m))
        } else {
            Ok((PropertyBlockVariant::Scalar(ScalarPropertyBlock { data: Vec::new(), info }), n))
        }
    }

    /// Writes the kinds of the variant.
    pub fn encode(&self, out: &mut Vec<u8>)
        ensures
            final(out)@ == old(out)@ + property_variant_bytes(variant_info(*self)),
    {
        match self {
            PropertyBlockVariant::Scalar(s) => {
                s.info.encode(out);
            },
            PropertyBlockVariant::List(l) => {
                push_all(out, &kw_list__bytes());
                l.info.encode(out);
                assert(final(out)@ =~= old(out)@ + property_variant_bytes(variant_info(*self)));
            },
        }
    }
}

impl Default for PropertyBlockVariant {
    fn default() -> (r: Self)
        ensures
            r is Scalar,
            variant_info(r) == PropertyVariantV::Scalar(
                (crate::head::block::property::scalar::kind_float(), 4u64),
            ),
            variant_has_no_data(r),
    {
        PropertyBlockVariant::Scalar(ScalarPropertyBlock { data: Vec::new(), info: ScalarProperty::default() })
    }
}

impl PropertyBlock {
    /// Reads a property block from the front of `input` (see
    /// [`property_meta_spec`]); it holds no data.
    pub fn decode(input: &[u8], domain: &ScalarPropertyDomain) -> (r: Result<(Self, usize), Error>)
        ensures
            match r {
                Ok((b, n)) => property_meta_spec(input@, domain@) == Ok::<
                    ((Seq<u8>, PropertyVariantV), int),
                    ErrorV,
                >(((b.name@, variant_info(b.variant)), n as int)) && variant_has_no_data(b.variant),
                Err(e) => property_meta_spec(input@, domain@) == Err::<
                    ((Seq<u8>, PropertyVariantV), int),
                    ErrorV,
                >(e@),
            },
            r matches Ok((_, n)) ==> n <= input@.len(),
    {
        let total = input.len();
        assert(total == input@.len());
        let (variant, n) = PropertyBlockVariant::decode(input, domain)?;
        proof {
            crate::head::meta::property::lemma_property_variant_bound(input@, domain@);
        }
        let (name, m) = decode_ascii_text(tail(input, n), "<name>")?;
        proof {
            crate::function::lemma_text_field_bound(input@.subrange(n as int, input@.len() as int));
        }
        Ok((PropertyBlock { name, variant }, n + m))
    }

    /// Writes the kinds, the name and a line end.
    pub fn encode(&self, out: &mut Vec<u8>)
        ensures
            final(out)@ == old(out)@ + property_meta_bytes((self.name@, variant_info(self.variant))),
    {
        self.variant.encode(out);
        push_all(out, self.name.as_bytes());
        out.push(LF);
        assert(final(out)@ =~= old(out)@ + property_meta_bytes(
            (self.name@, variant_info(self.variant)),
        ));
    }

    /// Whether this is a list property.
    pub fn is_list(&self) -> (r: bool)
        ensures
            r == (self.variant is List),
    {
        matches!(self.variant, PropertyBlockVariant::List(_))
    }

    /// Whether this is a scalar property.
    pub fn is_scalar(&self) -> (r: bool)
        ensures
            r == (self.variant is Scalar),
    {
        matches!(self.variant, PropertyBlockVariant::Scalar(_))
    }

    /// The list, when this is one.
    pub fn as_list(&self) -> (r: Option<&ListPropertyBlock>)
        ensures
            match self.variant {
                PropertyBlockVariant::List(l) => r == Some(&l),
                _ => r is None,
            },
    {
        match &self.variant {
            PropertyBlockVariant::List(l) => Some(l),
            _ => None,
        }
    }

    /// The scalar, when this is one.
    pub fn as_scalar(&self) -> (r: Option<&ScalarPropertyBlock>)
        ensures
            match self.variant {
                PropertyBlockVariant::Scalar(s) => r == Some(&s),
                _ => r is None,
            },
    {
        match &self.variant {
            PropertyBlockVariant::Scalar(s) => Some(s),
            _ => None,
        }
    }
}

} // verus!
