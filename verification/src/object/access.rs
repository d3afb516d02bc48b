//! Reading the elements and properties of an object by name.

use vstd::prelude::*;

use crate::header::property::{property_map_get_full, property_map_get_index, property_map_len, Property};
use crate::header::{element_map_get_full, element_map_get_index, element_map_len, Element};
use crate::index_map::{has_key, key_index};

use super::{min, payload_data, Object};

verus! {

/// An element of an object: its header entry and its data, one vector per
/// property.
#[derive(Clone, Copy, Debug, PartialEq, Eq)]
pub struct ElementEntry<'e> {
    pub meta: &'e Element,
    pub data: &'e Vec<Vec<u8>>,
}

/// A property of an element: its header entry and its data.
#[derive(Clone, Copy, Debug, PartialEq, Eq)]
pub struct PropertyEntry<'p> {
    pub meta: &'p Property,
    pub data: &'p Vec<u8>,
}

/// The data of an element entry.
pub open spec fn entry_data(e: ElementEntry) -> Seq<Seq<u8>> {
    e.data@.map_values(|p: Vec<u8>| p@)
}

/// The index of the named entry when the data goes that far.
pub open spec fn found_index<V, D>(entries: Seq<(Seq<u8>, V)>, data: Seq<D>, name: Seq<u8>) -> Option<int> {
    if has_key(entries, name) && key_index(entries, name) < data.len() {
        Some(key_index(entries, name))
    } else {
        None
    }
}

impl<'e> ElementEntry<'e> {
    /// The property of the name, with its data.
    pub fn get_property(&self, name: &[u8]) -> (r: Option<PropertyEntry<'e>>)
        ensures
            match found_index(self.meta@.properties, entry_data(*self), name@) {
                Some(j) => r matches Some(p) && p.meta@ == self.meta@.properties[j].1 && p.data@
                    == entry_data(*self)[j],
                None => r is None,
            },
    {
        let (index, _, meta) = property_map_get_full(&self.meta.properties.inner, name)?;
        if index >= self.data.len() {
            return None;
        }
        Some(PropertyEntry { meta, data: &self.data[index] })
    }

    /// The property of the name, with its data.
    pub fn prop(&self, name: &[u8]) -> (r: Option<PropertyEntry<'e>>)
        ensures
            match found_index(self.meta@.properties, entry_data(*self), name@) {
                Some(j) => r matches Some(p) && p.meta@ == self.meta@.properties[j].1 && p.data@
                    == entry_data(*self)[j],
                None => r is None,
            },
    {
        self.get_property(name)
    }

    /// Each property with its data, as far as both the properties and the
    /// data go.
    pub fn iter_properties(&self) -> (r: Vec<PropertyEntry<'e>>)
        ensures
            r@.len() == min(self.meta@.properties.len() as int, entry_data(*self).len() as int),
            forall|j: int|
                0 <= j < r@.len() ==> (#[trigger] r@[j]).meta@ == self.meta@.properties[j].1
                    && r@[j].data@ == entry_data(*self)[j],
    {
        let np = property_map_len(&self.meta.properties.inner);
        let n = if np <= self.data.len() {
            np
        } else {
            self.data.len()
        };
        let mut r: Vec<PropertyEntry<'e>> = Vec::new();
        let mut j: usize = 0;
        while j < n
            invariant
                j <= n,
                n == min(self.meta@.properties.len() as int, entry_data(*self).len() as int),
                r@.len() == j,
                forall|k: int|
                    0 <= k < j ==> (#[trigger] r@[k]).meta@ == self.meta@.properties[k].1
                        && r@[k].data@ == entry_data(*self)[k],
            decreases n - j,
        {
            match property_map_get_index(&self.meta.properties.inner, j) {
                Some((_, meta)) => {
                    r.push(PropertyEntry { meta, data: &self.data[j] });
                },
                None => {
                    assert(false);
                },
            }
            j += 1;
        }
        r
    }

    /// Each property with its data.
    pub fn props(&self) -> (r: Vec<PropertyEntry<'e>>)
        ensures
            r@.len() == min(self.meta@.properties.len() as int, entry_data(*self).len() as int),
            forall|j: int|
                0 <= j < r@.len() ==> (#[trigger] r@[j]).meta@ == self.meta@.properties[j].1
                    && r@[j].data@ == entry_data(*self)[j],
    {
        self.iter_properties()
    }
}

impl Object {
    /// The element of the name, with its data.
    pub fn get_element(&self, name: &[u8]) -> (r: Option<ElementEntry<'_>>)
        ensures
            match found_index(self.header@.elements, payload_data(self.payload), name@) {
                Some(i) => r matches Some(e) && e.meta@ == self.header@.elements[i].1 && entry_data(e)
                    == payload_data(self.payload)[i],
                None => r is None,
            },
    {
        let (index, _, meta) = element_map_get_full(&self.header.elements.inner, name)?;
        let data = &self.payload.as_scalar().data;
        if index >= data.len() {
            return None;
        }
        Some(ElementEntry { meta, data: &data[index] })
    }

    /// The element of the name, with its data.
    pub fn elem(&self, name: &[u8]) -> (r: Option<ElementEntry<'_>>)
        ensures
            match found_index(self.header@.elements, payload_data(self.payload), name@) {
                Some(i) => r matches Some(e) && e.meta@ == self.header@.elements[i].1 && entry_data(e)
                    == payload_data(self.payload)[i],
                None => r is None,
            },
    {
        self.get_element(name)
    }

    /// The property of the names, with its data.
    pub fn get_property_of_element(&self, element_name: &[u8], property_name: &[u8]) -> (r: Option<
        PropertyEntry<'_>,
    >)
        ensures
            match found_index(self.header@.elements, payload_data(self.payload), element_name@) {
                Some(i) => match found_index(
                    self.header@.elements[i].1.properties,
                    payload_data(self.payload)[i],
                    property_name@,
                ) {
                    Some(j) => r matches Some(p) && p.meta@ == self.header@.elements[i].1.properties[j].1
                        && p.data@ == payload_data(self.payload)[i][j],
                    None => r is None,
                },
                None => r is None,
            },
    {
        let element = self.get_element(element_name)?;
        element.get_property(property_name)
    }

    /// The property of the names, with its data.
    pub fn elem_prop(&self, element_name: &[u8], property_name: &[u8]) -> (r: Option<PropertyEntry<'_>>)
        ensures
            match found_index(self.header@.elements, payload_data(self.payload), element_name@) {
                Some(i) => match found_index(
                    self.header@.elements[i].1.properties,
                    payload_data(self.payload)[i],
                    property_name@,
                ) {
                    Some(j) => r matches Some(p) && p.meta@ == self.header@.elements[i].1.properties[j].1
                        && p.data@ == payload_data(self.payload)[i][j],
                    None => r is None,
                },
                None => r is None,
            },
    {
        self.get_property_of_element(element_name, property_name)
    }

    /// Each element with its data, as far as both the elements and the
    /// data go.
    pub fn iter_elements(&self) -> (r: Vec<ElementEntry<'_>>)
        ensures
            r@.len() == min(self.header@.elements.len() as int, payload_data(self.payload).len() as int),
            forall|i: int|
                0 <= i < r@.len() ==> (#[trigger] r@[i]).meta@ == self.header@.elements[i].1
                    && entry_data(r@[i]) == payload_data(self.payload)[i],
    {
        let data = &self.payload.as_scalar().data;
        let ne = element_map_len(&self.header.elements.inner);
        let n = if ne <= data.len() {
            ne
        } else {
            data.len()
        };
        let mut r: Vec<ElementEntry<'_>> = Vec::new();
        let mut i: usize = 0;
        while i < n
            invariant
                i <= n,
                n == min(self.header@.elements.len() as int, payload_data(self.payload).len() as int),
                payload_data(self.payload) == crate::payload::data_view(data@),
                r@.len() == i,
                forall|j: int|
                    0 <= j < i ==> (#[trigger] r@[j]).meta@ == self.header@.elements[j].1
                        && entry_data(r@[j]) == payload_data(self.payload)[j],
            decreases n - i,
        {
            match element_map_get_index(&self.header.elements.inner, i) {
                Some((_, meta)) => {
                    r.push(ElementEntry { meta, data: &data[i] });
                },
                None => {
                    assert(false);
                },
            }
            i += 1;
        }
        r
    }

    /// Each element with its data.
    pub fn elems(&self) -> (r: Vec<ElementEntry<'_>>)
        ensures
            r@.len() == min(self.header@.elements.len() as int, payload_data(self.payload).len() as int),
            forall|i: int|
                0 <= i < r@.len() ==> (#[trigger] r@[i]).meta@ == self.header@.elements[i].1
                    && entry_data(r@[i]) == payload_data(self.payload)[i],
    {
        self.iter_elements()
    }
}

} // verus!
