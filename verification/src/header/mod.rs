//! The header of a polygon file: its format, version and elements, each
//! element with its properties, in the order of the file.

pub mod decode;
pub mod decoded;
pub mod crlf;
pub mod encode;
pub mod notes;
pub mod prefix;
pub mod property;
pub mod roundtrip;

pub use property::{
    ListPropertyKind, Properties, Property, PropertyKind, PropertyKindV, PropertyV, ScalarSizes,
    ScalarPropertyKind,
};

use vstd::prelude::*;

use indexmap::IndexMap;

use crate::index_map::{distinct_keys, has_key, key_index, map_insert};


verus! {

/// An element: how many records it has, its name and its properties.
#[derive(Debug, PartialEq, Eq)]
pub struct Element {
    pub count: usize,
    pub name: Vec<u8>,
    pub properties: Properties,
}

/// The value of an element.
pub struct ElementV {
    pub count: usize,
    pub name: Seq<u8>,
    pub properties: Seq<(Seq<u8>, PropertyV)>,
}

impl View for Element {
    type V = ElementV;

    open spec fn view(&self) -> ElementV {
        ElementV { count: self.count, name: self.name@, properties: self.properties@ }
    }
}

/// The elements of a header by name, in the order of the file.
#[derive(Debug, PartialEq, Eq)]
pub struct Elements {
    pub inner: IndexMap<Vec<u8>, Element>,
}

/// The entries of a map of elements, in its order: each name with the
/// value of its element.
pub uninterp spec fn element_table(m: IndexMap<Vec<u8>, Element>) -> Seq<(Seq<u8>, ElementV)>;

impl View for Elements {
    type V = Seq<(Seq<u8>, ElementV)>;

    open spec fn view(&self) -> Seq<(Seq<u8>, ElementV)> {
        element_table(self.inner)
    }
}

/// The binary or text layouts of a payload.
#[derive(Clone, Copy, Debug, PartialEq, Eq, Structural, Hash)]
pub enum Format {
    BinaryLittleEndian,
    Ascii,
    BinaryBigEndian,
}

/// A header: its elements, format and version.
#[derive(Debug, PartialEq, Eq)]
pub struct Header {
    pub elements: Elements,
    pub format: Format,
    pub version: Vec<u8>,
}

/// The value of a header.
pub struct HeaderV {
    pub elements: Seq<(Seq<u8>, ElementV)>,
    pub format: Format,
    pub version: Seq<u8>,
}

impl View for Header {
    type V = HeaderV;

    open spec fn view(&self) -> HeaderV {
        HeaderV { elements: self.elements@, format: self.format, version: self.version@ }
    }
}

/// An empty map of elements.
///
/// Calls `IndexMap::new`, which makes an empty map.
#[verifier::external_body]
fn element_map_new() -> (r: IndexMap<Vec<u8>, Element>)
    ensures
        element_table(r) == Seq::<(Seq<u8>, ElementV)>::empty(),
{
    IndexMap::new()
}

/// The number of elements.
///
/// Calls `IndexMap::len`.
#[verifier::external_body]
pub(crate) fn element_map_len(m: &IndexMap<Vec<u8>, Element>) -> (r: usize)
    ensures
        r == element_table(*m).len(),
{
    m.len()
}

/// The element at an index.
///
/// Calls `IndexMap::get_index`, which gives the entry at a valid index.
#[verifier::external_body]
pub(crate) fn element_map_get_index<'a>(m: &'a IndexMap<Vec<u8>, Element>, index: usize) -> (r: Option<(&'a Vec<u8>, &'a Element)>)
    ensures
        match r {
            Some((k, v)) => index < element_table(*m).len() && element_table(*m)[index as int] == (k@, v@),
            None => index >= element_table(*m).len(),
        },
{
    m.get_index(index)
}

/// The index and element of a name.
///
/// Calls `IndexMap::get_full`, which gives the index, the key and the value
/// of the entry with the key; the keys of a map are distinct.
#[verifier::external_body]
pub(crate) fn element_map_get_full<'a>(m: &'a IndexMap<Vec<u8>, Element>, key: &[u8]) -> (r: Option<(usize, &'a Vec<u8>, &'a Element)>)
    ensures
        match r {
            Some((i, k, v)) => has_key(element_table(*m), key@) && i == key_index(element_table(*m), key@)
                && element_table(*m)[i as int] == (k@, v@),
            None => !has_key(element_table(*m), key@),
        },
{
    m.get_full(key)
}

/// The index and element of a name, to change in place.
///
/// Calls `IndexMap::get_full_mut`, which gives the index, the key and the
/// value of the entry with the key; the key stays as it is.
#[verifier::external_body]
pub(crate) fn element_map_get_full_mut<'a>(m: &'a mut IndexMap<Vec<u8>, Element>, key: &[u8]) -> (r: Option<(usize, &'a Vec<u8>, &'a mut Element)>)
    ensures
        match r {
            Some((i, k, v)) => has_key(element_table(*old(m)), key@) && i == key_index(element_table(*old(m)), key@)
                && element_table(*old(m))[i as int] == (k@, v@)
                && element_table(*final(m)) == element_table(*old(m)).update(i as int, (k@, final(v)@)),
            None => !has_key(element_table(*old(m)), key@) && *final(m) == *old(m),
        },
{
    m.get_full_mut(key)
}

/// Each element, to change in place, in the order of the map.
///
/// Calls `IndexMap::values_mut`, which hands out each value in order; the
/// keys stay as they are.
#[verifier::external_body]
pub(crate) fn element_map_values_mut<'a>(m: &'a mut IndexMap<Vec<u8>, Element>) -> (r: Vec<&'a mut Element>)
    ensures
        r@.len() == element_table(*old(m)).len(),
        forall|i: int| 0 <= i < r@.len() ==> (*r@[i])@ == element_table(*old(m))[i].1,
        element_table(*final(m)) == Seq::new(
            r@.len(),
            |i: int| (element_table(*old(m))[i].0, (*final(r@[i]))@),
        ),
{
    m.values_mut().collect()
}

/// A copy of a map of elements.
///
/// Calls `IndexMap::clone`, which clones each key and each element, in
/// order; a cloned byte vector and a cloned element hold the same values.
#[verifier::external_body]
fn element_map_clone(m: &IndexMap<Vec<u8>, Element>) -> (r: IndexMap<Vec<u8>, Element>)
    ensures
        element_table(r) == element_table(*m),
{
    m.clone()
}

/// Inserts an element.
///
/// Calls `IndexMap::insert`: the value of the entry with the key is
/// replaced in place, else the entry comes last; the keys of a map are
/// distinct. The old value that it hands back is dropped.
#[verifier::external_body]
fn element_map_insert(m: &mut IndexMap<Vec<u8>, Element>, key: Vec<u8>, value: Element)
    ensures
        element_table(*final(m)) == map_insert(element_table(*old(m)), key@, value@),
        distinct_keys(element_table(*final(m))),
{
    m.insert(key, value);
}

/// Takes the last element out.
///
/// Calls `IndexMap::pop`, which removes and hands back the last entry.
#[verifier::external_body]
fn element_map_pop(m: &mut IndexMap<Vec<u8>, Element>) -> (r: Option<(Vec<u8>, Element)>)
    ensures
        match r {
            Some((k, v)) => element_table(*old(m)).len() > 0 && (k@, v@) == element_table(*old(m)).last()
                && element_table(*final(m)) == element_table(*old(m)).drop_last(),
            None => element_table(*old(m)).len() == 0 && element_table(*final(m)) == element_table(*old(m)),
        },
{
    m.pop()
}

impl Elements {
    /// No elements.
    pub fn new() -> (r: Self)
        ensures
            r@ == Seq::<(Seq<u8>, ElementV)>::empty(),
    {
        Elements { inner: element_map_new() }
    }

    /// The number of elements.
    pub fn len(&self) -> (r: usize)
        ensures
            r == self@.len(),
    {
        element_map_len(&self.inner)
    }

    /// Inserts an element under a name: an element of that name is replaced
    /// in place, else the element comes last.
    pub fn insert(&mut self, name: Vec<u8>, element: Element)
        ensures
            final(self)@ == map_insert(old(self)@, name@, element@),
            distinct_keys(final(self)@),
    {
        element_map_insert(&mut self.inner, name, element);
    }

    /// Whether the two have the same element names in the same order, each
    /// element with the same property names in the same order.
    pub fn is_same_order(&self, other: &Self) -> (r: bool)
        ensures
            r == same_elements_order(self@, other@),
    {
        let n = self.len();
        if n != other.len() {
            return false;
        }
        let mut i: usize = 0;
        while i < n
            invariant
                n == self@.len() == other@.len(),
                i <= n,
                forall|j: int| 0 <= j < i ==> #[trigger] same_element_order(self@[j], other@[j]),
            decreases n - i,
        {
            let (ka, a) = match element_map_get_index(&self.inner, i) {
                Some(e) => e,
                None => {
                    assert(false);
                    return false;
                },
            };
            let (kb, b) = match element_map_get_index(&other.inner, i) {
                Some(e) => e,
                None => {
                    assert(false);
                    return false;
                },
            };
            if !crate::function::bytes_eq(ka.as_slice(), kb.as_slice()) {
                assert(!same_element_order(self@[i as int], other@[i as int]));
                return false;
            }
            if !a.properties.is_same_order(&b.properties) {
                assert(!same_element_order(self@[i as int], other@[i as int]));
                return false;
            }
            i += 1;
        }
        true
    }
}

/// Whether two elements have the same name and the same property names in
/// the same order.
pub open spec fn same_element_order(a: (Seq<u8>, ElementV), b: (Seq<u8>, ElementV)) -> bool {
    &&& a.0 == b.0
    &&& property::same_property_order(a.1.properties, b.1.properties)
}

/// Whether two maps of elements have the same element names, each with the
/// same property names, in the same order.
pub open spec fn same_elements_order(a: Seq<(Seq<u8>, ElementV)>, b: Seq<(Seq<u8>, ElementV)>) -> bool {
    a.len() == b.len() && forall|i: int| 0 <= i < a.len() ==> #[trigger] same_element_order(a[i], b[i])
}

/// Having the same order is an equivalence: every map of elements has the
/// order of itself, and the relation goes both ways and carries over.
pub proof fn lemma_same_order_equivalence(
    a: Seq<(Seq<u8>, ElementV)>,
    b: Seq<(Seq<u8>, ElementV)>,
    c: Seq<(Seq<u8>, ElementV)>,
)
    ensures
        same_elements_order(a, a),
        same_elements_order(a, b) ==> same_elements_order(b, a),
        same_elements_order(a, b) && same_elements_order(b, c) ==> same_elements_order(a, c),
{
    assert forall|i: int| 0 <= i < a.len() implies #[trigger] same_element_order(a[i], a[i]) by {}
    if same_elements_order(a, b) {
        assert forall|i: int| 0 <= i < b.len() implies #[trigger] same_element_order(b[i], a[i]) by {
            assert(same_element_order(a[i], b[i]));
        }
        if same_elements_order(b, c) {
            assert forall|i: int| 0 <= i < a.len() implies #[trigger] same_element_order(a[i], c[i]) by {
                assert(same_element_order(a[i], b[i]));
                assert(same_element_order(b[i], c[i]));
                let (pa, pb, pc) = (a[i].1.properties, b[i].1.properties, c[i].1.properties);
                assert forall|j: int| 0 <= j < pa.len() implies (#[trigger] pa[j]).0 == pc[j].0 by {
                    assert(pa[j].0 == pb[j].0);
                    assert(pb[j].0 == pc[j].0);
                }
            }
        }
    }
}

impl Clone for Element {
    fn clone(&self) -> (r: Self)
        ensures
            r@ == self@,
    {
        Element { count: self.count, name: self.name.clone(), properties: self.properties.clone() }
    }
}

impl Clone for Elements {
    fn clone(&self) -> (r: Self)
        ensures
            r@ == self@,
    {
        Elements { inner: element_map_clone(&self.inner) }
    }
}

impl Clone for Header {
    fn clone(&self) -> (r: Self)
        ensures
            r@ == self@,
    {
        Header { elements: self.elements.clone(), format: self.format, version: self.version.clone() }
    }
}

impl Default for Elements {
    fn default() -> (r: Self)
        ensures
            r@ == Seq::<(Seq<u8>, ElementV)>::empty(),
    {
        Elements::new()
    }
}

/// The binary format in the byte order of a machine that is little endian
/// or not.
pub open spec fn native_format_on(little_endian: bool) -> Format {
    if little_endian {
        Format::BinaryLittleEndian
    } else {
        Format::BinaryBigEndian
    }
}

/// Whether data in the format `f` is read and written with each datum's
/// bytes reversed on a machine that is little endian or not: exactly when
/// `f` is not the binary format in that machine's byte order.
pub open spec fn swapped_on(f: Format, little_endian: bool) -> bool {
    f != native_format_on(little_endian)
}

impl Format {
    /// Whether this is the ASCII format.
    pub fn is_ascii(&self) -> (r: bool)
        ensures
            r == (*self == Format::Ascii),
    {
        matches!(self, Format::Ascii)
    }

    /// Whether this is the big-endian binary format.
    pub fn is_binary_big_endian(&self) -> (r: bool)
        ensures
            r == (*self == Format::BinaryBigEndian),
    {
        matches!(self, Format::BinaryBigEndian)
    }

    /// Whether this is the little-endian binary format.
    pub fn is_binary_little_endian(&self) -> (r: bool)
        ensures
            r == (*self == Format::BinaryLittleEndian),
    {
        matches!(self, Format::BinaryLittleEndian)
    }

    /// Whether this is the binary format in the byte order of a machine that
    /// is little endian or not.
    pub fn is_binary_native_endian_on(&self, little_endian: bool) -> (r: bool)
        ensures
            r == (if little_endian {
                *self == Format::BinaryLittleEndian
            } else {
                *self == Format::BinaryBigEndian
            }),
    {
        if little_endian {
            self.is_binary_little_endian()
        } else {
            self.is_binary_big_endian()
        }
    }

    /// Whether this is the binary format in the byte order of this machine.
    pub fn is_binary_native_endian(&self) -> (r: bool)
        ensures
            r ==> *self != Format::Ascii,
    {
        self.is_binary_native_endian_on(crate::format::native_is_little_endian())
    }

    /// The binary format in the byte order of a machine that is little
    /// endian or not.
    pub fn binary_native_endian_on(little_endian: bool) -> (r: Self)
        ensures
            r == (if little_endian {
                Format::BinaryLittleEndian
            } else {
                Format::BinaryBigEndian
            }),
    {
        if little_endian {
            Format::BinaryLittleEndian
        } else {
            Format::BinaryBigEndian
        }
    }

    /// The binary format in the byte order of this machine.
    pub fn binary_native_endian() -> (r: Self)
        ensures
            r != Format::Ascii,
    {
        Format::binary_native_endian_on(crate::format::native_is_little_endian())
    }
}

impl Default for Format {
    fn default() -> (r: Self)
        ensures
            r == Format::BinaryLittleEndian,
    {
        Format::BinaryLittleEndian
    }
}

impl Default for Header {
    fn default() -> (r: Self)
        ensures
            r@.elements == Seq::<(Seq<u8>, ElementV)>::empty(),
            r@.format == Format::BinaryLittleEndian,
            r@.version == crate::head::meta::format::default_version(),
    {
        let version = crate::head::meta::format::default_version_ascii().into_bytes();
        Header { elements: Elements::new(), format: Format::BinaryLittleEndian, version }
    }
}

} // verus!
