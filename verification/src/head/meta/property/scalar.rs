//! Scalar property metas of a head: the scalar properties of the domain.

use vstd::prelude::*;

pub use crate::head::block::property::scalar::{
    domain_lookup, kind_float, lemma_scalar_property_bound, lemma_scalar_property_roundtrip,
    list_kind, predefined_domain, scalar_property_bytes, scalar_property_spec, is_list_kind,
    ScalarProperty, ScalarPropertyDomain,
};

verus! {

/// A scalar property, as a meta of a head.
pub type ScalarPropertyMeta = ScalarProperty;

} // verus!
