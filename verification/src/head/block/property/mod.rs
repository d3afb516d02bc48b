//! Property blocks of a head.

pub mod list;
pub mod scalar;

pub use list::{ListProperty, ListPropertyBlock};
pub use scalar::{ScalarProperty, ScalarPropertyBlock, ScalarPropertyDomain};

use vstd::prelude::*;

use crate::ascii::AsciiString;
use crate::error::{decoded, Error};
use crate::function::{decode_ascii_text, push_all, tail, LF};
use crate::head::meta::property::{
    property_meta_bytes, property_meta_spec, property_variant_bytes, property_variant_spec,
    PropertyVariantV,
};
use crate::keyword::kw_list__bytes;

use scalar::{is_list_kind, kind_float, lemma_scalar_property_bound};

verus! {

/// ## Syntax
///
/// ```plaintext
/// <property-block> :=
///     | <property-variant> [{" "}] <name> <newline>
///
/// <name> :=
///     | <ascii-string>
///
/// <newline> :=
///     | ["\r"] "\n"
/// ```
#[derive(Clone, Debug, PartialEq, Eq, Hash, PartialOrd, Ord)]
pub struct PropertyBlock {
    pub name: AsciiString,
    pub variant: PropertyVariant,
}

/// ## Syntax
///
/// ```plaintext
/// <property-variant> :=
///     | [{" "}] "list" " " <list-property>
///     | <scalar-property>
/// ```
#[derive(Clone, Debug, PartialEq, Eq, Hash, PartialOrd, Ord)]
pub enum PropertyVariant {
    List(ListProperty),
    Scalar(ScalarProperty),
}

impl View for PropertyVariant {
    type V = PropertyVariantV;

    open spec fn view(&self) -> PropertyVariantV {
        match self {
            PropertyVariant::List(l) => PropertyVariantV::List(l@.0, l@.1),
            PropertyVariant::Scalar(s) => PropertyVariantV::Scalar(s@),
        }
    }
}

impl View for PropertyBlock {
    type V = (Seq<u8>, PropertyVariantV);

    open spec fn view(&self) -> (Seq<u8>, PropertyVariantV) {
        (self.name@, self.variant@)
    }
}

impl PropertyVariant {
    /// Reads a property variant from the front of `input` (see
    /// [`property_variant_spec`]).
    pub fn decode(input: &[u8], domain: &ScalarPropertyDomain) -> (r: Result<(Self, usize), Error>)
        ensures
            decoded(r) == property_variant_spec(input@, domain@),
            r matches Ok((_, n)) ==> n <= input@.len(),
    {
        let total = input.len();
        assert(total == input@.len());
        let (list_or_scalar, n) = ScalarProperty::decode(input, domain)?;
        proof {
            lemma_scalar_property_bound(input@, domain@);
        }
        if is_list_kind(list_or_scalar.kind.as_bytes()) {
            let (list, m) = ListProperty::decode(tail(input, n), domain)?;
            proof {
                crate::head::meta::property::list::lemma_list_property_bound(
                    input@.subrange(n as int, input@.len() as int),
                    domain@,
                );
            }
            Ok((PropertyVariant::List(list), n + m))
        } else {
            Ok((PropertyVariant::Scalar(list_or_scalar), n))
        }
    }

    /// Writes the variant: the kind of a scalar, or `"list "` and the kinds
    /// of a list's count and entry.
    pub fn encode(&self, out: &mut Vec<u8>)
        ensures
            final(out)@ == old(out)@ + property_variant_bytes(self@),
    {
        match self {
            PropertyVariant::Scalar(s) => {
                s.encode(out);
            },
            PropertyVariant::List(l) => {
                push_all(out, &kw_list__bytes());
                l.encode(out);
                assert(final(out)@ =~= old(out)@ + property_variant_bytes(self@));
            },
        }
    }
}

impl Default for PropertyVariant {
    fn default() -> (r: Self)
        ensures
            r@ == PropertyVariantV::Scalar((kind_float(), 4u64)),
    {
        PropertyVariant::Scalar(ScalarProperty::default())
    }
}

impl PropertyBlock {
    /// Reads a property block from the front of `input` (see
    /// [`property_meta_spec`]).
    pub fn decode(input: &[u8], domain: &ScalarPropertyDomain) -> (r: Result<(Self, usize), Error>)
        ensures
            decoded(r) == property_meta_spec(input@, domain@),
            r matches Ok((_, n)) ==> n <= input@.len(),
    {
        let total = input.len();
        assert(total == input@.len());
        let (variant, n) = PropertyVariant::decode(input, domain)?;
        proof {
            crate::head::meta::property::lemma_property_variant_bound(input@, domain@);
        }
        let (name, m) = decode_ascii_text(tail(input, n), "<name>")?;
        proof {
            crate::function::lemma_text_field_bound(input@.subrange(n as int, input@.len() as int));
        }
        Ok((PropertyBlock { name, variant }, n + m))
    }

    /// Writes the variant, the name and a line end.
    pub fn encode(&self, out: &mut Vec<u8>)
        ensures
            final(out)@ == old(out)@ + property_meta_bytes(self@),
    {
        self.variant.encode(out);
        push_all(out, self.name.as_bytes());
        out.push(LF);
        assert(final(out)@ =~= old(out)@ + property_meta_bytes(self@));
    }
}

impl Default for PropertyBlock {
    fn default() -> (r: Self)
        ensures
            r@ == (crate::keyword::kw_default(), PropertyVariantV::Scalar((kind_float(), 4u64))),
    {
        let b = crate::keyword::kw_default_bytes();
        let name = match AsciiString::from_slice(&b) {
            Ok(name) => name,
            Err(_) => {
                assert(false);
                AsciiString::new()
            },
        };
        PropertyBlock { name, variant: PropertyVariant::default() }
    }
}

} // verus!
