//! Changing the elements and properties of an object by name.

use vstd::prelude::*;

use crate::header::property::{property_map_get_full, property_map_get_full_mut, property_map_values_mut, Property};
use crate::header::{element_map_get_full, element_map_get_full_mut, element_map_values_mut, Element, ElementV};

use super::{min, payload_data, Object};
use super::access::found_index;
use crate::payload::Payload;

verus! {

/// An element of an object, to change in place: its header entry and its
/// data, one vector per property.
#[derive(Debug, PartialEq, Eq)]
pub struct ElementEntryMut<'e> {
    pub meta: &'e mut Element,
    pub data: &'e mut Vec<Vec<u8>>,
}

/// A property of an element, to change in place: its header entry and its
/// data.
#[derive(Debug, PartialEq, Eq)]
pub struct PropertyEntryMut<'p> {
    pub meta: &'p mut Property,
    pub data: &'p mut Vec<u8>,
}

/// The data of a vector per property.
pub open spec fn data_of(d: Vec<Vec<u8>>) -> Seq<Seq<u8>> {
    d@.map_values(|p: Vec<u8>| p@)
}

impl<'e> ElementEntryMut<'e> {
    /// The property of the name, with its data, to change in place.
    pub fn get_mut_property(&mut self, name: &[u8]) -> (r: Option<PropertyEntryMut<'_>>)
        ensures
            match found_index(old(self).meta@.properties, data_of(*old(self).data), name@) {
                Some(j) => r matches Some(p) && p.meta@ == old(self).meta@.properties[j].1
                    && p.data@ == data_of(*old(self).data)[j]
                    && final(self).meta@.properties == old(self).meta@.properties.update(
                        j,
                        (old(self).meta@.properties[j].0, final(p.meta)@),
                    )
                    && final(self).meta.count == old(self).meta.count
                    && final(self).meta.name == old(self).meta.name
                    && data_of(*final(self).data) == data_of(*old(self).data).update(j, final(p.data)@),
                None => r is None && *final(self) == *old(self),
            },
    {
        let (index, _, _) = property_map_get_full(&self.meta.properties.inner, name)?;
        if index >= self.data.len() {
            return None;
        }
        let (_, _, meta) = property_map_get_full_mut(&mut self.meta.properties.inner, name)?;
        Some(PropertyEntryMut { meta, data: &mut self.data[index] })
    }

    /// Each property with its data, to change in place, as far as both the
    /// properties and the data go.
    pub fn iter_mut_properties(&mut self) -> (r: Vec<PropertyEntryMut<'_>>)
        ensures
            r@.len() == min(old(self).meta@.properties.len() as int, old(self).data@.len() as int),
            forall|j: int|
                0 <= j < r@.len() ==> (#[trigger] r@[j]).meta@ == old(self).meta@.properties[j].1
                    && r@[j].data@ == data_of(*old(self).data)[j],
            final(self).meta@.properties == Seq::new(
                old(self).meta@.properties.len(),
                |j: int|
                    (
                        old(self).meta@.properties[j].0,
                        if j < r@.len() {
                            (*final(r@[j].meta))@
                        } else {
                            old(self).meta@.properties[j].1
                        },
                    ),
            ),
            final(self).meta.count == old(self).meta.count,
            final(self).meta.name == old(self).meta.name,
            data_of(*final(self).data) == Seq::new(
                old(self).data@.len(),
                |j: int|
                    if j < r@.len() {
                        (*final(r@[j].data))@
                    } else {
                        data_of(*old(self).data)[j]
                    },
            ),
    {
        let mut metas = property_map_values_mut(&mut self.meta.properties.inner);
        let ghost metas0 = metas@;
        let ghost data0 = self.data@;
        let mut rest: &mut [Vec<u8>] = self.data.as_mut_slice();
        let ghost rest_end = final(rest)@;
        let n = if metas.len() <= rest.len() {
            metas.len()
        } else {
            rest.len()
        };
        let mut r: Vec<PropertyEntryMut<'_>> = Vec::new();
        let mut j: usize = 0;
        while j < n
            invariant
                j <= n,
                n <= metas0.len(),
                n <= data0.len(),
                metas@ == metas0.subrange(j as int, metas0.len() as int),
                rest@ == data0.subrange(j as int, data0.len() as int),
                r@.len() == j,
                forall|k: int|
                    0 <= k < j ==> *(#[trigger] r@[k]).meta == *metas0[k] && *final(r@[k].meta) == *final(metas0[k]),
                forall|k: int| 0 <= k < j ==> *(#[trigger] r@[k]).data == data0[k],
                rest_end == Seq::new(j as nat, |k: int| *final(r@[k].data)) + final(rest)@,
            decreases n - j,
        {
            let meta = metas.remove(0);
            let (head, tail) = rest.split_at_mut(1);
            let data = &mut head[0];
            r.push(PropertyEntryMut { meta, data });
            rest = tail;
            j += 1;
        }
        proof {
            assert(has_resolved(metas));
            assert forall|k: int| n <= k < metas0.len() implies *final(metas0[k]) == *metas0[k] by {
                assert(metas@[k - n] == metas0[k]);
                assert(has_resolved(metas@[k - n]));
            }
        }
        r
    }

    /// Each property with its data, to change in place.
    pub fn props_mut(&mut self) -> (r: Vec<PropertyEntryMut<'_>>)
        ensures
            r@.len() == min(old(self).meta@.properties.len() as int, old(self).data@.len() as int),
            forall|j: int|
                0 <= j < r@.len() ==> (#[trigger] r@[j]).meta@ == old(self).meta@.properties[j].1
                    && r@[j].data@ == data_of(*old(self).data)[j],
            final(self).meta@.properties == Seq::new(
                old(self).meta@.properties.len(),
                |j: int|
                    (
                        old(self).meta@.properties[j].0,
                        if j < r@.len() {
                            (*final(r@[j].meta))@
                        } else {
                            old(self).meta@.properties[j].1
                        },
                    ),
            ),
            final(self).meta.count == old(self).meta.count,
            final(self).meta.name == old(self).meta.name,
            data_of(*final(self).data) == Seq::new(
                old(self).data@.len(),
                |j: int|
                    if j < r@.len() {
                        (*final(r@[j].data))@
                    } else {
                        data_of(*old(self).data)[j]
                    },
            ),
    {
        self.iter_mut_properties()
    }

    /// The property of the name, with its data, to change in place.
    pub fn prop_mut(&mut self, name: &[u8]) -> (r: Option<PropertyEntryMut<'_>>)
        ensures
            match found_index(old(self).meta@.properties, data_of(*old(self).data), name@) {
                Some(j) => r matches Some(p) && p.meta@ == old(self).meta@.properties[j].1
                    && p.data@ == data_of(*old(self).data)[j]
                    && final(self).meta@.properties == old(self).meta@.properties.update(
                        j,
                        (old(self).meta@.properties[j].0, final(p.meta)@),
                    )
                    && final(self).meta.count == old(self).meta.count
                    && final(self).meta.name == old(self).meta.name
                    && data_of(*final(self).data) == data_of(*old(self).data).update(j, final(p.data)@),
                None => r is None && *final(self) == *old(self),
            },
    {
        self.get_mut_property(name)
    }
}

impl Object {
    /// The element of the name, with its data, to change in place.
    pub fn get_mut_element(&mut self, name: &[u8]) -> (r: Option<ElementEntryMut<'_>>)
        ensures
            match found_index(old(self).header@.elements, payload_data(old(self).payload), name@) {
                Some(i) => r matches Some(e) && e.meta@ == old(self).header@.elements[i].1
                    && data_of(*e.data) == payload_data(old(self).payload)[i]
                    && final(self).header@.elements == old(self).header@.elements.update(
                        i,
                        (old(self).header@.elements[i].0, final(e.meta)@),
                    )
                    && payload_data(final(self).payload) == payload_data(old(self).payload).update(
                        i,
                        data_of(*final(e.data)),
                    )
                    && final(self).header.format == old(self).header.format
                    && final(self).header.version == old(self).header.version,
                None => r is None && *final(self) == *old(self),
            },
    {
        let (index, _, _) = element_map_get_full(&self.header.elements.inner, name)?;
        let data = match &mut self.payload {
            Payload::Scalar(p) => &mut p.data,
        };
        if index >= data.len() {
            return None;
        }
        let (_, _, meta) = element_map_get_full_mut(&mut self.header.elements.inner, name)?;
        Some(ElementEntryMut { meta, data: &mut data[index] })
    }

    /// The element of the name, with its data, to change in place.
    pub fn elem_mut(&mut self, name: &[u8]) -> (r: Option<ElementEntryMut<'_>>)
        ensures
            match found_index(old(self).header@.elements, payload_data(old(self).payload), name@) {
                Some(i) => r matches Some(e) && e.meta@ == old(self).header@.elements[i].1
                    && data_of(*e.data) == payload_data(old(self).payload)[i]
                    && final(self).header@.elements == old(self).header@.elements.update(
                        i,
                        (old(self).header@.elements[i].0, final(e.meta)@),
                    )
                    && payload_data(final(self).payload) == payload_data(old(self).payload).update(
                        i,
                        data_of(*final(e.data)),
                    )
                    && final(self).header.format == old(self).header.format
                    && final(self).header.version == old(self).header.version,
                None => r is None && *final(self) == *old(self),
            },
    {
        self.get_mut_element(name)
    }

    /// The property of the names, with its data, to change in place.
    pub fn get_mut_property_of_element(&mut self, element_name: &[u8], property_name: &[u8]) -> (r:
        Option<PropertyEntryMut<'_>>)
        ensures
            match found_index(old(self).header@.elements, payload_data(old(self).payload), element_name@) {
                Some(i) => match found_index(
                    old(self).header@.elements[i].1.properties,
                    payload_data(old(self).payload)[i],
                    property_name@,
                ) {
                    Some(j) => r matches Some(p) && p.meta@ == old(self).header@.elements[i].1.properties[j].1
                        && p.data@ == payload_data(old(self).payload)[i][j]
                        && final(self).header@.elements == old(self).header@.elements.update(
                            i,
                            (
                                old(self).header@.elements[i].0,
                                ElementV {
                                    properties: old(self).header@.elements[i].1.properties.update(
                                        j,
                                        (old(self).header@.elements[i].1.properties[j].0, final(p.meta)@),
                                    ),
                                    ..old(self).header@.elements[i].1
                                },
                            ),
                        )
                        && payload_data(final(self).payload) == payload_data(old(self).payload).update(
                            i,
                            payload_data(old(self).payload)[i].update(j, final(p.data)@),
                        )
                        && final(self).header.format == old(self).header.format
                        && final(self).header.version == old(self).header.version,
                    None => r is None && *final(self) == *old(self),
                },
                None => r is None && *final(self) == *old(self),
            },
    {
        let (i, _, element) = element_map_get_full(&self.header.elements.inner, element_name)?;
        let (j, _, _) = property_map_get_full(&element.properties.inner, property_name)?;
        let data = match &mut self.payload {
            Payload::Scalar(p) => &mut p.data,
        };
        if i >= data.len() || j >= data[i].len() {
            return None;
        }
        let (_, _, meta) = element_map_get_full_mut(&mut self.header.elements.inner, element_name)?;
        let (_, _, pmeta) = property_map_get_full_mut(&mut meta.properties.inner, property_name)?;
        let row = &mut data[i];
        let ghost row_now = *row;
        let ghost row_end = *final(row);
        let cell = &mut row[j];
        proof {
            assert(data_of(row_end) =~= data_of(row_now).update(j as int, final(cell)@));
        }
        Some(PropertyEntryMut { meta: pmeta, data: cell })
    }

    /// The property of the names, with its data, to change in place.
    pub fn elem_prop_mut(&mut self, element_name: &[u8], property_name: &[u8]) -> (r:
        Option<PropertyEntryMut<'_>>)
        ensures
            match found_index(old(self).header@.elements, payload_data(old(self).payload), element_name@) {
                Some(i) => match found_index(
                    old(self).header@.elements[i].1.properties,
                    payload_data(old(self).payload)[i],
                    property_name@,
                ) {
                    Some(j) => r matches Some(p) && p.meta@ == old(self).header@.elements[i].1.properties[j].1
                        && p.data@ == payload_data(old(self).payload)[i][j]
                        && final(self).header@.elements == old(self).header@.elements.update(
                            i,
                            (
                                old(self).header@.elements[i].0,
                                ElementV {
                                    properties: old(self).header@.elements[i].1.properties.update(
                                        j,
                                        (old(self).header@.elements[i].1.properties[j].0, final(p.meta)@),
                                    ),
                                    ..old(self).header@.elements[i].1
                                },
                            ),
                        )
                        && payload_data(final(self).payload) == payload_data(old(self).payload).update(
                            i,
                            payload_data(old(self).payload)[i].update(j, final(p.data)@),
                        )
                        && final(self).header.format == old(self).header.format
                        && final(self).header.version == old(self).header.version,
                    None => r is None && *final(self) == *old(self),
                },
                None => r is None && *final(self) == *old(self),
            },
    {
        self.get_mut_property_of_element(element_name, property_name)
    }

    /// Each element with its data, to change in place, as far as both the
    /// elements and the data go.
    pub fn iter_mut_elements(&mut self) -> (r: Vec<ElementEntryMut<'_>>)
        ensures
            r@.len() == min(
                old(self).header@.elements.len() as int,
                payload_data(old(self).payload).len() as int,
            ),
            forall|i: int|
                0 <= i < r@.len() ==> (#[trigger] r@[i]).meta@ == old(self).header@.elements[i].1
                    && data_of(*r@[i].data) == payload_data(old(self).payload)[i],
            final(self).header@.elements == Seq::new(
                old(self).header@.elements.len(),
                |i: int|
                    (
                        old(self).header@.elements[i].0,
                        if i < r@.len() {
                            (*final(r@[i].meta))@
                        } else {
                            old(self).header@.elements[i].1
                        },
                    ),
            ),
            payload_data(final(self).payload) == Seq::new(
                payload_data(old(self).payload).len(),
                |i: int|
                    if i < r@.len() {
                        data_of(*final(r@[i].data))
                    } else {
                        payload_data(old(self).payload)[i]
                    },
            ),
            final(self).header.format == old(self).header.format,
            final(self).header.version == old(self).header.version,
    {
        let mut metas = element_map_values_mut(&mut self.header.elements.inner);
        let ghost metas0 = metas@;
        let data = match &mut self.payload {
            Payload::Scalar(p) => &mut p.data,
        };
        let ghost data0 = data@;
        let mut rest: &mut [Vec<Vec<u8>>] = data.as_mut_slice();
        let ghost rest_end = final(rest)@;
        let n = if metas.len() <= rest.len() {
            metas.len()
        } else {
            rest.len()
        };
        let mut r: Vec<ElementEntryMut<'_>> = Vec::new();
        let mut i: usize = 0;
        while i < n
            invariant
                i <= n,
                n <= metas0.len(),
                n <= data0.len(),
                metas@ == metas0.subrange(i as int, metas0.len() as int),
                rest@ == data0.subrange(i as int, data0.len() as int),
                r@.len() == i,
                forall|k: int|
                    0 <= k < i ==> *(#[trigger] r@[k]).meta == *metas0[k] && *final(r@[k].meta) == *final(metas0[k]),
                forall|k: int| 0 <= k < i ==> *(#[trigger] r@[k]).data == data0[k],
                rest_end == Seq::new(i as nat, |k: int| *final(r@[k].data)) + final(rest)@,
            decreases n - i,
        {
            let meta = metas.remove(0);
            let (head, tail) = rest.split_at_mut(1);
            let data = &mut head[0];
            r.push(ElementEntryMut { meta, data });
            rest = tail;
            i += 1;
        }
        proof {
            assert(has_resolved(metas));
            assert forall|k: int| n <= k < metas0.len() implies *final(metas0[k]) == *metas0[k] by {
                assert(metas@[k - n] == metas0[k]);
                assert(has_resolved(metas@[k - n]));
            }
        }
        r
    }

    /// Each element with its data, to change in place.
    pub fn elems_mut(&mut self) -> (r: Vec<ElementEntryMut<'_>>)
        ensures
            r@.len() == min(
                old(self).header@.elements.len() as int,
                payload_data(old(self).payload).len() as int,
            ),
            forall|i: int|
                0 <= i < r@.len() ==> (#[trigger] r@[i]).meta@ == old(self).header@.elements[i].1
                    && data_of(*r@[i].data) == payload_data(old(self).payload)[i],
            final(self).header@.elements == Seq::new(
                old(self).header@.elements.len(),
                |i: int|
                    (
                        old(self).header@.elements[i].0,
                        if i < r@.len() {
                            (*final(r@[i].meta))@
                        } else {
                            old(self).header@.elements[i].1
                        },
                    ),
            ),
            payload_data(final(self).payload) == Seq::new(
                payload_data(old(self).payload).len(),
                |i: int|
                    if i < r@.len() {
                        data_of(*final(r@[i].data))
                    } else {
                        payload_data(old(self).payload)[i]
                    },
            ),
            final(self).header.format == old(self).header.format,
            final(self).header.version == old(self).header.version,
    {
        self.iter_mut_elements()
    }
}

} // verus!
