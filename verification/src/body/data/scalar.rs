//! Scalar data: the bytes of a scalar property.

use vstd::prelude::*;

verus! {

/// The bytes of a scalar property, one datum after another.
#[derive(Clone, Debug, Default, PartialEq, Eq, Hash, PartialOrd, Ord)]
pub struct ScalarData {
    inner: Vec<u8>,
}

impl View for ScalarData {
    type V = Seq<u8>;

    closed spec fn view(&self) -> Seq<u8> {
        self.inner@
    }
}

impl ScalarData {
    /// Empty data with room for `capacity` bytes.
    pub fn with_capacity(capacity: usize) -> (r: Self)
        ensures
            r@ == Seq::<u8>::empty(),
    {
        ScalarData { inner: Vec::with_capacity(capacity) }
    }

    /// The bytes, to change in place.
    pub fn as_mut_vec(&mut self) -> (r: &mut Vec<u8>)
        ensures
            r@ == old(self)@,
            final(self)@ == final(r)@,
    {
        &mut self.inner
    }

    /// The bytes, taken out.
    pub fn into_inner(self) -> (r: Vec<u8>)
        ensures
            r@ == self@,
    {
        self.inner
    }
}

impl vstd::std_specs::convert::FromSpecImpl<Vec<u8>> for ScalarData {
    open spec fn obeys_from_spec() -> bool {
        true
    }

    closed spec fn from_spec(inner: Vec<u8>) -> Self {
        ScalarData { inner }
    }
}

impl From<Vec<u8>> for ScalarData {
    fn from(inner: Vec<u8>) -> (r: Self)
        ensures
            r@ == inner@,
    {
        ScalarData { inner }
    }
}

impl std::ops::Deref for ScalarData {
    type Target = Vec<u8>;

    fn deref(&self) -> (r: &Vec<u8>)
        ensures
            r@ == self@,
    {
        &self.inner
    }
}

} // verus!
