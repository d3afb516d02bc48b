//! List data: the entry lists of a list property.

use vstd::prelude::*;

verus! {

/// The entry lists of a list property, one per element, each as bytes.
#[derive(Clone, Debug, Default, PartialEq, Eq, Hash, PartialOrd, Ord)]
pub struct ListData {
    inner: Vec<Box<[u8]>>,
}

impl View for ListData {
    type V = Seq<Seq<u8>>;

    closed spec fn view(&self) -> Seq<Seq<u8>> {
        self.inner@.map_values(|b: Box<[u8]>| b@)
    }
}

impl ListData {
    /// Empty data with room for `capacity` lists.
    pub fn with_capacity(capacity: usize) -> (r: Self)
        ensures
            r@ == Seq::<Seq<u8>>::empty(),
    {
        let r = ListData { inner: Vec::with_capacity(capacity) };
        assert(r@ =~= Seq::<Seq<u8>>::empty());
        r
    }

    /// The lists, to change in place.
    pub fn as_mut_vec(&mut self) -> (r: &mut Vec<Box<[u8]>>)
        ensures
            r@.map_values(|b: Box<[u8]>| b@) == old(self)@,
            final(self)@ == final(r)@.map_values(|b: Box<[u8]>| b@),
    {
        &mut self.inner
    }

    /// The lists, taken out.
    pub fn into_inner(self) -> (r: Vec<Box<[u8]>>)
        ensures
            r@.map_values(|b: Box<[u8]>| b@) == self@,
    {
        self.inner
    }
}

impl std::ops::Deref for ListData {
    type Target = Vec<Box<[u8]>>;

    fn deref(&self) -> (r: &Vec<Box<[u8]>>)
        ensures
            r@.map_values(|b: Box<[u8]>| b@) == self@,
    {
        &self.inner
    }
}

} // verus!
