//! The data of one property of one element.

pub mod list;
pub mod scalar;

pub use list::ListData;
pub use scalar::ScalarData;

use vstd::prelude::*;

verus! {

/// The data of a property.
#[derive(Clone, Debug, Default, PartialEq, Eq, Hash, PartialOrd, Ord)]
pub struct Data {
    variant: DataVariant,
}

/// The kinds of data.
#[derive(Clone, Debug, PartialEq, Eq, Hash, PartialOrd, Ord)]
pub enum DataVariant {
    List(ListData),
    Scalar(ScalarData),
}

impl Default for DataVariant {
    fn default() -> (r: Self)
        ensures
            r matches DataVariant::Scalar(s) && s@.len() == 0,
    {
        DataVariant::Scalar(ScalarData::with_capacity(0))
    }
}

impl Data {
    /// The kind of the data.
    pub closed spec fn spec_variant(&self) -> DataVariant {
        self.variant
    }

    /// Whether this is list data.
    pub fn is_list(&self) -> (r: bool)
        ensures
            r == (self.spec_variant() is List),
    {
        matches!(self.variant, DataVariant::List(_))
    }

    /// Whether this is scalar data.
    pub fn is_scalar(&self) -> (r: bool)
        ensures
            r == (self.spec_variant() is Scalar),
    {
        matches!(self.variant, DataVariant::Scalar(_))
    }

    /// The list data, when this is one.
    pub fn as_list(&self) -> (r: Option<&ListData>)
        ensures
            match self.spec_variant() {
                DataVariant::List(l) => r == Some(&l),
                _ => r is None,
            },
    {
        match &self.variant {
            DataVariant::List(l) => Some(l),
            _ => None,
        }
    }

    /// The scalar data, when this is one.
    pub fn as_scalar(&self) -> (r: Option<&ScalarData>)
        ensures
            match self.spec_variant() {
                DataVariant::Scalar(s) => r == Some(&s),
                _ => r is None,
            },
    {
        match &self.variant {
            DataVariant::Scalar(s) => Some(s),
            _ => None,
        }
    }

    /// The list data, to change in place, when this is one.
    pub fn as_list_mut(&mut self) -> (r: Option<&mut ListData>)
        ensures
            match old(self).spec_variant() {
                DataVariant::List(l) => r matches Some(x) && *x == l && final(self).spec_variant()
                    == DataVariant::List(*final(x)),
                _ => r is None && *final(self) == *old(self),
            },
    {
        match &mut self.variant {
            DataVariant::List(l) => Some(l),
            _ => None,
        }
    }

    /// The scalar data, to change in place, when this is one.
    pub fn as_scalar_mut(&mut self) -> (r: Option<&mut ScalarData>)
        ensures
            match old(self).spec_variant() {
                DataVariant::Scalar(s) => r matches Some(x) && *x == s && final(self).spec_variant()
                    == DataVariant::Scalar(*final(x)),
                _ => r is None && *final(self) == *old(self),
            },
    {
        match &mut self.variant {
            DataVariant::Scalar(s) => Some(s),
            _ => None,
        }
    }

    /// The kind of the data, to change in place.
    pub fn variant_mut(&mut self) -> (r: &mut DataVariant)
        ensures
            *r == old(self).spec_variant(),
            final(self).spec_variant() == *final(r),
    {
        &mut self.variant
    }
}

impl vstd::std_specs::convert::FromSpecImpl<DataVariant> for Data {
    open spec fn obeys_from_spec() -> bool {
        true
    }

    closed spec fn from_spec(variant: DataVariant) -> Self {
        Data { variant }
    }
}

impl From<DataVariant> for Data {
    fn from(variant: DataVariant) -> (r: Self)
        ensures
            r.spec_variant() == variant,
    {
        Data { variant }
    }
}

impl std::ops::Deref for Data {
    type Target = DataVariant;

    fn deref(&self) -> (r: &DataVariant)
        ensures
            *r == self.spec_variant(),
    {
        &self.variant
    }
}

} // verus!
