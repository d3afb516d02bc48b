//! The body of a polygon file: the data of each element.

pub mod data;

pub use data::{Data, DataVariant, ListData, ScalarData};

use vstd::prelude::*;

verus! {

/// The data of each element: one vector of property data per element.
#[derive(Clone, Debug, Default, PartialEq, Eq, Hash, PartialOrd, Ord)]
pub struct Body {
    inner: Vec<Vec<Data>>,
}

/// The values of the data of each element.
pub open spec fn elements_view(inner: Seq<Vec<Data>>) -> Seq<Seq<Data>> {
    inner.map_values(|v: Vec<Data>| v@)
}

impl View for Body {
    type V = Seq<Seq<Data>>;

    closed spec fn view(&self) -> Seq<Seq<Data>> {
        elements_view(self.inner@)
    }
}

impl Body {
    /// An empty body with room for `capacity` elements.
    pub fn with_capacity(capacity: usize) -> (r: Self)
        ensures
            r@ == Seq::<Seq<Data>>::empty(),
    {
        let r = Body { inner: Vec::with_capacity(capacity) };
        assert(r@ =~= Seq::<Seq<Data>>::empty());
        r
    }

    /// The data of each element, in order.
    pub fn iters(&self) -> (r: Vec<Vec<&Data>>)
        ensures
            r@.len() == self@.len(),
            forall|i: int|
                0 <= i < r@.len() ==> (#[trigger] r@[i])@.len() == self@[i].len() && forall|j: int|
                    0 <= j < r@[i]@.len() ==> *r@[i]@[j] == self@[i][j],
    {
        let mut r: Vec<Vec<&Data>> = Vec::new();
        let mut i: usize = 0;
        while i < self.inner.len()
            invariant
                i <= self.inner@.len(),
                r@.len() == i,
                forall|k: int|
                    0 <= k < i ==> (#[trigger] r@[k])@.len() == self@[k].len() && forall|j: int|
                        0 <= j < r@[k]@.len() ==> *r@[k]@[j] == self@[k][j],
            decreases self.inner@.len() - i,
        {
            let element = &self.inner[i];
            let mut refs: Vec<&Data> = Vec::new();
            let mut j: usize = 0;
            while j < element.len()
                invariant
                    j <= element@.len(),
                    refs@.len() == j,
                    forall|k: int| 0 <= k < j ==> *refs@[k] == element@[k],
                decreases element@.len() - j,
            {
                refs.push(&element[j]);
                j += 1;
            }
            r.push(refs);
            i += 1;
        }
        r
    }

    /// The data of each element, to change in place.
    pub fn iters_mut(&mut self) -> (r: &mut Vec<Vec<Data>>)
        ensures
            elements_view(r@) == old(self)@,
            final(self)@ == elements_view(final(r)@),
    {
        &mut self.inner
    }
}

impl vstd::std_specs::convert::FromSpecImpl<Vec<Vec<Data>>> for Body {
    open spec fn obeys_from_spec() -> bool {
        true
    }

    closed spec fn from_spec(inner: Vec<Vec<Data>>) -> Self {
        Body { inner }
    }
}

impl From<Vec<Vec<Data>>> for Body {
    fn from(inner: Vec<Vec<Data>>) -> (r: Self)
        ensures
            r@ == elements_view(inner@),
    {
        Body { inner }
    }
}

impl std::ops::Deref for Body {
    type Target = Vec<Vec<Data>>;

    fn deref(&self) -> (r: &Vec<Vec<Data>>)
        ensures
            elements_view(r@) == self@,
    {
        &self.inner
    }
}

} // verus!
