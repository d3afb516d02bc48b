//! List property blocks.

use vstd::prelude::*;

use crate::error::{decoded, Error};
use crate::head::block::property::scalar::ScalarPropertyDomain;
use crate::head::meta::property::list::{decode_list_pair, list_property_bytes, list_property_spec};

pub use crate::head::block::property::list::ListProperty;

use super::scalar::ScalarPropertyBlockInfo;

verus! {

/// The data of a list property: one entry list per element.
pub type ListPropertyBlockData = Vec<Vec<u8>>;

/// ## Syntax
///
/// ```plaintext
/// <list-property-block> :=
///     | <scalar-property-block> <scalar-property-block>
/// ```
#[derive(Clone, Debug, Default, PartialEq, Eq, Hash, PartialOrd, Ord)]
pub struct ListPropertyBlockInfo {
    pub count: ScalarPropertyBlockInfo,
    pub value: ScalarPropertyBlockInfo,
}

/// A list property: its kinds and its data.
#[derive(Clone, Debug, Default, PartialEq, Eq, Hash, PartialOrd, Ord)]
pub struct ListPropertyBlock {
    pub data: ListPropertyBlockData,
    pub info: ListPropertyBlockInfo,
}

impl View for ListPropertyBlockInfo {
    type V = ((Seq<u8>, u64), (Seq<u8>, u64));

    open spec fn view(&self) -> ((Seq<u8>, u64), (Seq<u8>, u64)) {
        (self.count@, self.value@)
    }
}

impl ListPropertyBlockInfo {
    /// Reads the count and the value kinds from the front of `input`.
    pub fn decode(input: &[u8], domain: &ScalarPropertyDomain) -> (r: Result<(Self, usize), Error>)
        ensures
            decoded(r) == list_property_spec(input@, domain@),
            r matches Ok((_, n)) ==> n <= input@.len(),
    {
        let ((count, value), n) = decode_list_pair(input, domain)?;
        Ok((ListPropertyBlockInfo { count, value }, n))
    }

    /// Writes the count and the value kinds.
    pub fn encode(&self, out: &mut Vec<u8>)
        ensures
            final(out)@ == old(out)@ + list_property_bytes(self@),
    {
        self.count.encode(out);
        self.value.encode(out);
        assert(final(out)@ =~= old(out)@ + list_property_bytes(self@));
    }
}

impl std::ops::Deref for ListPropertyBlock {
    type Target = ListPropertyBlockInfo;

    fn deref(&self) -> (r: &ListPropertyBlockInfo)
        ensures
            r == &self.info,
    {
        &self.info
    }
}

} // verus!
