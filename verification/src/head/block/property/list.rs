//! List property blocks of a head.

use vstd::prelude::*;

use crate::error::{decoded, Error};
use crate::head::meta::property::list::{decode_list_pair, list_property_bytes, list_property_spec};

use super::scalar::{ScalarProperty, ScalarPropertyBlock, ScalarPropertyDomain, INT, UCHAR};

verus! {

/// ## Syntax
///
/// ```plaintext
/// <list-property-block> :=
///     | <scalar-property-block> <scalar-property-block>
/// ```
#[derive(Clone, Debug, PartialEq, Eq, Hash, PartialOrd, Ord)]
pub struct ListPropertyBlock {
    pub count: ScalarPropertyBlock,
    pub value: ScalarPropertyBlock,
}

/// The count and entry kinds of a list property.
///
/// ## Syntax
///
/// ```plaintext
/// <list-property> :=
///     | <scalar-property> <scalar-property>
/// ```
#[derive(Clone, Debug, PartialEq, Eq, Hash, PartialOrd, Ord)]
pub struct ListProperty {
    pub count: ScalarProperty,
    pub entry: ScalarProperty,
}

impl View for ListPropertyBlock {
    type V = ((Seq<u8>, u64), (Seq<u8>, u64));

    open spec fn view(&self) -> ((Seq<u8>, u64), (Seq<u8>, u64)) {
        (self.count@, self.value@)
    }
}

impl View for ListProperty {
    type V = ((Seq<u8>, u64), (Seq<u8>, u64));

    open spec fn view(&self) -> ((Seq<u8>, u64), (Seq<u8>, u64)) {
        (self.count@, self.entry@)
    }
}

impl ListPropertyBlock {
    /// Reads the count and the value properties from the front of `input`.
    pub fn decode(input: &[u8], domain: &ScalarPropertyDomain) -> (r: Result<(Self, usize), Error>)
        ensures
            decoded(r) == list_property_spec(input@, domain@),
            r matches Ok((_, n)) ==> n <= input@.len(),
    {
        let ((count, value), n) = decode_list_pair(input, domain)?;
        Ok((ListPropertyBlock { count, value }, n))
    }

    /// Writes the count and the value properties.
    pub fn encode(&self, out: &mut Vec<u8>)
        ensures
            final(out)@ == old(out)@ + list_property_bytes(self@),
    {
        self.count.encode(out);
        self.value.encode(out);
        assert(final(out)@ =~= old(out)@ + list_property_bytes(self@));
    }
}

impl ListProperty {
    /// Reads the count and the entry properties from the front of `input`.
    pub fn decode(input: &[u8], domain: &ScalarPropertyDomain) -> (r: Result<(Self, usize), Error>)
        ensures
            decoded(r) == list_property_spec(input@, domain@),
            r matches Ok((_, n)) ==> n <= input@.len(),
    {
        let ((count, entry), n) = decode_list_pair(input, domain)?;
        Ok((ListProperty { count, entry }, n))
    }

    /// Writes the count and the entry properties.
    pub fn encode(&self, out: &mut Vec<u8>)
        ensures
            final(out)@ == old(out)@ + list_property_bytes(self@),
    {
        self.count.encode(out);
        self.entry.encode(out);
        assert(final(out)@ =~= old(out)@ + list_property_bytes(self@));
    }
}

impl Default for ListPropertyBlock {
    fn default() -> (r: Self)
        ensures
            r@ == ((super::scalar::kind_uchar(), 1u64), (super::scalar::kind_int(), 4u64)),
    {
        ListPropertyBlock { count: UCHAR(), value: INT() }
    }
}

impl Default for ListProperty {
    fn default() -> (r: Self)
        ensures
            r@ == ((super::scalar::kind_uchar(), 1u64), (super::scalar::kind_int(), 4u64)),
    {
        ListProperty { count: UCHAR(), entry: INT() }
    }
}

} // verus!
