//! Properties of the elements of a header.

use vstd::prelude::*;

use indexmap::IndexMap;

use crate::error::{Error, ErrorV};
use crate::function::bytes_eq;
use crate::index_map::{distinct_keys, has_key, key_index, lemma_map_insert_get, map_get, map_insert};

verus! {

/// The kind of scalar data of a property, by name.
#[derive(Clone, Debug, Default, PartialEq, Eq, Hash)]
pub struct ScalarPropertyKind {
    pub value: Vec<u8>,
}

/// The kinds of the count and of the entries of a list property.
#[derive(Clone, Debug, Default, PartialEq, Eq, Hash)]
pub struct ListPropertyKind {
    pub count: ScalarPropertyKind,
    pub value: ScalarPropertyKind,
}

/// The kind of a property.
#[derive(Clone, Debug, PartialEq, Eq, Hash)]
pub enum PropertyKind {
    List(ListPropertyKind),
    Scalar(ScalarPropertyKind),
}

/// A property: its kind and its name.
#[derive(Clone, Debug, Default, PartialEq, Eq, Hash)]
pub struct Property {
    pub kind: PropertyKind,
    pub name: Vec<u8>,
}

/// The value of a property kind.
pub enum PropertyKindV {
    List(Seq<u8>, Seq<u8>),
    Scalar(Seq<u8>),
}

/// The value of a property: its kind and its name.
pub type PropertyV = (PropertyKindV, Seq<u8>);

impl View for ScalarPropertyKind {
    type V = Seq<u8>;

    open spec fn view(&self) -> Seq<u8> {
        self.value@
    }
}

impl View for PropertyKind {
    type V = PropertyKindV;

    open spec fn view(&self) -> PropertyKindV {
        match self {
            PropertyKind::List(l) => PropertyKindV::List(l.count@, l.value@),
            PropertyKind::Scalar(s) => PropertyKindV::Scalar(s@),
        }
    }
}

impl View for Property {
    type V = PropertyV;

    open spec fn view(&self) -> PropertyV {
        (self.kind@, self.name@)
    }
}

impl Default for PropertyKind {
    fn default() -> (r: Self)
        ensures
            r@ == PropertyKindV::Scalar(Seq::empty()),
    {
        PropertyKind::Scalar(ScalarPropertyKind { value: Vec::new() })
    }
}

/// The properties of an element by name, in the order of the file.
#[derive(Debug, PartialEq, Eq)]
pub struct Properties {
    pub inner: IndexMap<Vec<u8>, Property>,
}

/// The entries of a map of properties, in its order: each name with the
/// value of its property.
pub uninterp spec fn property_table(m: IndexMap<Vec<u8>, Property>) -> Seq<(Seq<u8>, PropertyV)>;

impl View for Properties {
    type V = Seq<(Seq<u8>, PropertyV)>;

    open spec fn view(&self) -> Seq<(Seq<u8>, PropertyV)> {
        property_table(self.inner)
    }
}

/// An empty map of properties.
///
/// Calls `IndexMap::new`, which makes an empty map.
#[verifier::external_body]
fn property_map_new() -> (r: IndexMap<Vec<u8>, Property>)
    ensures
        property_table(r) == Seq::<(Seq<u8>, PropertyV)>::empty(),
{
    IndexMap::new()
}

/// The number of properties.
///
/// Calls `IndexMap::len`.
#[verifier::external_body]
pub(crate) fn property_map_len(m: &IndexMap<Vec<u8>, Property>) -> (r: usize)
    ensures
        r == property_table(*m).len(),
{
    m.len()
}

/// The property at an index.
///
/// Calls `IndexMap::get_index`, which gives the entry at a valid index.
#[verifier::external_body]
pub(crate) fn property_map_get_index<'a>(m: &'a IndexMap<Vec<u8>, Property>, index: usize) -> (r: Option<(&'a Vec<u8>, &'a Property)>)
    ensures
        match r {
            Some((k, v)) => index < property_table(*m).len() && property_table(*m)[index as int] == (k@, v@),
            None => index >= property_table(*m).len(),
        },
{
    m.get_index(index)
}

/// The index and property of a name.
///
/// Calls `IndexMap::get_full`, which gives the index, the key and the value
/// of the entry with the key; the keys of a map are distinct.
#[verifier::external_body]
pub(crate) fn property_map_get_full<'a>(m: &'a IndexMap<Vec<u8>, Property>, key: &[u8]) -> (r: Option<(usize, &'a Vec<u8>, &'a Property)>)
    ensures
        match r {
            Some((i, k, v)) => has_key(property_table(*m), key@) && i == key_index(property_table(*m), key@)
                && property_table(*m)[i as int] == (k@, v@),
            None => !has_key(property_table(*m), key@),
        },
{
    m.get_full(key)
}

/// The index and property of a name, to change in place.
///
/// Calls `IndexMap::get_full_mut`, which gives the index, the key and the
/// value of the entry with the key; the key stays as it is.
#[verifier::external_body]
pub(crate) fn property_map_get_full_mut<'a>(m: &'a mut IndexMap<Vec<u8>, Property>, key: &[u8]) -> (r: Option<(usize, &'a Vec<u8>, &'a mut Property)>)
    ensures
        match r {
            Some((i, k, v)) => has_key(property_table(*old(m)), key@) && i == key_index(property_table(*old(m)), key@)
                && property_table(*old(m))[i as int] == (k@, v@)
                && property_table(*final(m)) == property_table(*old(m)).update(i as int, (k@, final(v)@)),
            None => !has_key(property_table(*old(m)), key@) && *final(m) == *old(m),
        },
{
    m.get_full_mut(key)
}

/// Each property, to change in place, in the order of the map.
///
/// Calls `IndexMap::values_mut`, which hands out each value in order; the
/// keys stay as they are.
#[verifier::external_body]
pub(crate) fn property_map_values_mut<'a>(m: &'a mut IndexMap<Vec<u8>, Property>) -> (r: Vec<&'a mut Property>)
    ensures
        r@.len() == property_table(*old(m)).len(),
        forall|i: int| 0 <= i < r@.len() ==> (*r@[i])@ == property_table(*old(m))[i].1,
        property_table(*final(m)) == Seq::new(
            r@.len(),
            |i: int| (property_table(*old(m))[i].0, (*final(r@[i]))@),
        ),
{
    m.values_mut().collect()
}

/// A copy of a map of properties.
///
/// Calls `IndexMap::clone`, which clones each key and each property, in
/// order; a cloned byte vector and a cloned property hold the same values.
#[verifier::external_body]
fn property_map_clone(m: &IndexMap<Vec<u8>, Property>) -> (r: IndexMap<Vec<u8>, Property>)
    ensures
        property_table(r) == property_table(*m),
{
    m.clone()
}

/// Inserts a property.
///
/// Calls `IndexMap::insert`: the value of the entry with the key is
/// replaced in place, else the entry comes last; the keys of a map are
/// distinct. The old value that it hands back is dropped.
#[verifier::external_body]
fn property_map_insert(m: &mut IndexMap<Vec<u8>, Property>, key: Vec<u8>, value: Property)
    ensures
        property_table(*final(m)) == map_insert(property_table(*old(m)), key@, value@),
        distinct_keys(property_table(*final(m))),
{
    m.insert(key, value);
}

/// Whether two lists of properties have the same names in the same order.
pub open spec fn same_property_order(a: Seq<(Seq<u8>, PropertyV)>, b: Seq<(Seq<u8>, PropertyV)>) -> bool {
    &&& a.len() == b.len()
    &&& forall|i: int| 0 <= i < a.len() ==> (#[trigger] a[i]).0 == b[i].0
}

/// The entries of a map of sizes, in its order: each kind's name with its
/// size.
pub uninterp spec fn size_table(m: IndexMap<Vec<u8>, usize>) -> Seq<(Seq<u8>, usize)>;

/// An empty map of sizes.
///
/// Calls `IndexMap::new`, which makes an empty map.
#[verifier::external_body]
fn size_map_new() -> (r: IndexMap<Vec<u8>, usize>)
    ensures
        size_table(r) == Seq::<(Seq<u8>, usize)>::empty(),
{
    IndexMap::new()
}

/// The number of kinds in a map of sizes.
///
/// Calls `IndexMap::len`.
#[verifier::external_body]
fn size_map_len(m: &IndexMap<Vec<u8>, usize>) -> (r: usize)
    ensures
        r == size_table(*m).len(),
{
    m.len()
}

/// The size of a kind.
///
/// Calls `IndexMap::get`, which gives the value of the entry with the key;
/// the keys of a map are distinct.
#[verifier::external_body]
fn size_map_get(m: &IndexMap<Vec<u8>, usize>, key: &[u8]) -> (r: Option<usize>)
    requires
        distinct_keys(size_table(*m)),
    ensures
        r == map_get(size_table(*m), key@),
{
    m.get(key).copied()
}

/// Sets the size of a kind.
///
/// Calls `IndexMap::insert`: the value of the entry with the key is
/// replaced in place, and the old value is handed back; else the entry
/// comes last. The keys of a map are distinct.
#[verifier::external_body]
fn size_map_insert(m: &mut IndexMap<Vec<u8>, usize>, key: Vec<u8>, value: usize) -> (r: Option<usize>)
    requires
        distinct_keys(size_table(*old(m))),
    ensures
        r == map_get(size_table(*old(m)), key@),
        size_table(*final(m)) == map_insert(size_table(*old(m)), key@, value),
        distinct_keys(size_table(*final(m))),
{
    m.insert(key, value)
}

/// The size in bytes of one datum of each scalar kind, in the order the
/// kinds were added; a kind occurs once.
pub struct ScalarSizes {
    inner: IndexMap<Vec<u8>, usize>,
}

impl View for ScalarSizes {
    type V = Seq<(Seq<u8>, usize)>;

    closed spec fn view(&self) -> Seq<(Seq<u8>, usize)> {
        size_table(self.inner)
    }
}

/// The sizes that a table starts with: the common, general and special
/// scalar kinds.
pub open spec fn default_sizes() -> Seq<(Seq<u8>, usize)> {
    map_insert(map_insert(map_insert(map_insert(map_insert(map_insert(map_insert(map_insert(map_insert(map_insert(map_insert(map_insert(map_insert(map_insert(map_insert(map_insert(map_insert(map_insert(map_insert(map_insert(map_insert(map_insert(map_insert(map_insert(Seq::<(Seq<u8>, usize)>::empty(), seq![0x63u8, 0x68, 0x61, 0x72], 1usize), seq![0x75u8, 0x63, 0x68, 0x61, 0x72], 1usize), seq![0x73u8, 0x68, 0x6f, 0x72, 0x74], 2usize), seq![0x75u8, 0x73, 0x68, 0x6f, 0x72, 0x74], 2usize), seq![0x69u8, 0x6e, 0x74], 4usize), seq![0x75u8, 0x69, 0x6e, 0x74], 4usize), seq![0x66u8, 0x6c, 0x6f, 0x61, 0x74], 4usize), seq![0x64u8, 0x6f, 0x75, 0x62, 0x6c, 0x65], 8usize), seq![0x69u8, 0x6e, 0x74, 0x38], 1usize), seq![0x75u8, 0x69, 0x6e, 0x74, 0x38], 1usize), seq![0x69u8, 0x6e, 0x74, 0x31, 0x36], 2usize), seq![0x75u8, 0x69, 0x6e, 0x74, 0x31, 0x36], 2usize), seq![0x69u8, 0x6e, 0x74, 0x33, 0x32], 4usize), seq![0x75u8, 0x69, 0x6e, 0x74, 0x33, 0x32], 4usize), seq![0x66u8, 0x6c, 0x6f, 0x61, 0x74, 0x33, 0x32], 4usize), seq![0x66u8, 0x6c, 0x6f, 0x61, 0x74, 0x36, 0x34], 8usize), seq![0x62u8, 0x79, 0x74, 0x65], 1usize), seq![0x75u8, 0x62, 0x79, 0x74, 0x65], 1usize), seq![0x68u8, 0x61, 0x6c, 0x66], 2usize), seq![0x6cu8, 0x6f, 0x6e, 0x67], 8usize), seq![0x75u8, 0x6c, 0x6f, 0x6e, 0x67], 8usize), seq![0x66u8, 0x6c, 0x6f, 0x61, 0x74, 0x31, 0x36], 2usize), seq![0x69u8, 0x6e, 0x74, 0x36, 0x34], 8usize), seq![0x75u8, 0x69, 0x6e, 0x74, 0x36, 0x34], 8usize)
}

/// The size of one datum of a scalar kind in a table of sizes.
pub open spec fn scalar_kind_size(sizes: Seq<(Seq<u8>, usize)>, kind: Seq<u8>) -> Option<usize> {
    map_get(sizes, kind)
}

/// After an insertion into a map with distinct keys, a key finds the new
/// value when it is the inserted key, else what it found before.
proof fn lemma_insert_lookup(es: Seq<(Seq<u8>, usize)>, k: Seq<u8>, v: usize)
    requires
        distinct_keys(es),
    ensures
        distinct_keys(map_insert(es, k, v)),
        forall|o: Seq<u8>|
            #[trigger] map_get(map_insert(es, k, v), o) == (if o == k {
                Some(v)
            } else {
                map_get(es, o)
            }),
{
    assert forall|o: Seq<u8>|
        #[trigger] map_get(map_insert(es, k, v), o) == (if o == k {
            Some(v)
        } else {
            map_get(es, o)
        }) by {
        lemma_map_insert_get(es, k, v, o);
    }
    lemma_map_insert_get(es, k, v, k);
}

/// An insertion into a table of sizes, kept folded so that a long chain
/// of them stays cheap to reason about.
#[verifier::opaque]
spec fn size_insert(es: Seq<(Seq<u8>, usize)>, k: Seq<u8>, v: usize) -> Seq<(Seq<u8>, usize)> {
    map_insert(es, k, v)
}

/// A lookup in a table of sizes, kept folded like [`size_insert`].
#[verifier::opaque]
spec fn size_lookup(es: Seq<(Seq<u8>, usize)>, k: Seq<u8>) -> Option<usize> {
    map_get(es, k)
}

/// Whether the kinds of a table of sizes are distinct, kept folded like
/// [`size_insert`].
#[verifier::opaque]
spec fn size_keys_distinct(es: Seq<(Seq<u8>, usize)>) -> bool {
    distinct_keys(es)
}

proof fn lemma_size_insert_unfold(es: Seq<(Seq<u8>, usize)>, k: Seq<u8>, v: usize)
    ensures
        size_insert(es, k, v) == map_insert(es, k, v),
{
    reveal(size_insert);
}

proof fn lemma_size_insert_lookup(es: Seq<(Seq<u8>, usize)>, k: Seq<u8>, v: usize, o: Seq<u8>)
    requires
        size_keys_distinct(es),
    ensures
        size_keys_distinct(size_insert(es, k, v)),
        size_lookup(size_insert(es, k, v), o) == (if o == k {
            Some(v)
        } else {
            size_lookup(es, o)
        }),
{
    reveal(size_insert);
    reveal(size_lookup);
    reveal(size_keys_distinct);
    lemma_map_insert_get(es, k, v, o);
    lemma_map_insert_get(es, k, v, k);
}

/// The size of a kind in the table that [`ScalarSizes::new`] makes, looked
/// up from the kind added last to the kind added first.
spec fn default_size_of(kind: Seq<u8>) -> Option<usize> {
    if kind == seq![0x75u8, 0x69, 0x6e, 0x74, 0x36, 0x34] {
        Some(8usize)
    } else if kind == seq![0x69u8, 0x6e, 0x74, 0x36, 0x34] {
        Some(8usize)
    } else if kind == seq![0x66u8, 0x6c, 0x6f, 0x61, 0x74, 0x31, 0x36] {
        Some(2usize)
    } else if kind == seq![0x75u8, 0x6c, 0x6f, 0x6e, 0x67] {
        Some(8usize)
    } else if kind == seq![0x6cu8, 0x6f, 0x6e, 0x67] {
        Some(8usize)
    } else if kind == seq![0x68u8, 0x61, 0x6c, 0x66] {
        Some(2usize)
    } else if kind == seq![0x75u8, 0x62, 0x79, 0x74, 0x65] {
        Some(1usize)
    } else if kind == seq![0x62u8, 0x79, 0x74, 0x65] {
        Some(1usize)
    } else if kind == seq![0x66u8, 0x6c, 0x6f, 0x61, 0x74, 0x36, 0x34] {
        Some(8usize)
    } else if kind == seq![0x66u8, 0x6c, 0x6f, 0x61, 0x74, 0x33, 0x32] {
        Some(4usize)
    } else if kind == seq![0x75u8, 0x69, 0x6e, 0x74, 0x33, 0x32] {
        Some(4usize)
    } else if kind == seq![0x69u8, 0x6e, 0x74, 0x33, 0x32] {
        Some(4usize)
    } else if kind == seq![0x75u8, 0x69, 0x6e, 0x74, 0x31, 0x36] {
        Some(2usize)
    } else if kind == seq![0x69u8, 0x6e, 0x74, 0x31, 0x36] {
        Some(2usize)
    } else if kind == seq![0x75u8, 0x69, 0x6e, 0x74, 0x38] {
        Some(1usize)
    } else if kind == seq![0x69u8, 0x6e, 0x74, 0x38] {
        Some(1usize)
    } else if kind == seq![0x64u8, 0x6f, 0x75, 0x62, 0x6c, 0x65] {
        Some(8usize)
    } else if kind == seq![0x66u8, 0x6c, 0x6f, 0x61, 0x74] {
        Some(4usize)
    } else if kind == seq![0x75u8, 0x69, 0x6e, 0x74] {
        Some(4usize)
    } else if kind == seq![0x69u8, 0x6e, 0x74] {
        Some(4usize)
    } else if kind == seq![0x75u8, 0x73, 0x68, 0x6f, 0x72, 0x74] {
        Some(2usize)
    } else if kind == seq![0x73u8, 0x68, 0x6f, 0x72, 0x74] {
        Some(2usize)
    } else if kind == seq![0x75u8, 0x63, 0x68, 0x61, 0x72] {
        Some(1usize)
    } else if kind == seq![0x63u8, 0x68, 0x61, 0x72] {
        Some(1usize)
    } else {
        None
    }
}

#[verifier::rlimit(100)]
#[verifier::spinoff_prover]
proof fn lemma_default_sizes_lookup(kind: Seq<u8>)
    ensures
        map_get(default_sizes(), kind) == default_size_of(kind),
{
    let e0 = Seq::<(Seq<u8>, usize)>::empty();
    assert(size_keys_distinct(e0)) by {
        reveal(size_keys_distinct);
    }
    let e1 = size_insert(e0, seq![0x63u8, 0x68, 0x61, 0x72], 1);
    lemma_size_insert_lookup(e0, seq![0x63u8, 0x68, 0x61, 0x72], 1, kind);
    lemma_size_insert_unfold(e0, seq![0x63u8, 0x68, 0x61, 0x72], 1);
    let e2 = size_insert(e1, seq![0x75u8, 0x63, 0x68, 0x61, 0x72], 1);
    lemma_size_insert_lookup(e1, seq![0x75u8, 0x63, 0x68, 0x61, 0x72], 1, kind);
    lemma_size_insert_unfold(e1, seq![0x75u8, 0x63, 0x68, 0x61, 0x72], 1);
    let e3 = size_insert(e2, seq![0x73u8, 0x68, 0x6f, 0x72, 0x74], 2);
    lemma_size_insert_lookup(e2, seq![0x73u8, 0x68, 0x6f, 0x72, 0x74], 2, kind);
    lemma_size_insert_unfold(e2, seq![0x73u8, 0x68, 0x6f, 0x72, 0x74], 2);
    let e4 = size_insert(e3, seq![0x75u8, 0x73, 0x68, 0x6f, 0x72, 0x74], 2);
    lemma_size_insert_lookup(e3, seq![0x75u8, 0x73, 0x68, 0x6f, 0x72, 0x74], 2, kind);
    lemma_size_insert_unfold(e3, seq![0x75u8, 0x73, 0x68, 0x6f, 0x72, 0x74], 2);
    let e5 = size_insert(e4, seq![0x69u8, 0x6e, 0x74], 4);
    lemma_size_insert_lookup(e4, seq![0x69u8, 0x6e, 0x74], 4, kind);
    lemma_size_insert_unfold(e4, seq![0x69u8, 0x6e, 0x74], 4);
    let e6 = size_insert(e5, seq![0x75u8, 0x69, 0x6e, 0x74], 4);
    lemma_size_insert_lookup(e5, seq![0x75u8, 0x69, 0x6e, 0x74], 4, kind);
    lemma_size_insert_unfold(e5, seq![0x75u8, 0x69, 0x6e, 0x74], 4);
    let e7 = size_insert(e6, seq![0x66u8, 0x6c, 0x6f, 0x61, 0x74], 4);
    lemma_size_insert_lookup(e6, seq![0x66u8, 0x6c, 0x6f, 0x61, 0x74], 4, kind);
    lemma_size_insert_unfold(e6, seq![0x66u8, 0x6c, 0x6f, 0x61, 0x74], 4);
    let e8 = size_insert(e7, seq![0x64u8, 0x6f, 0x75, 0x62, 0x6c, 0x65], 8);
    lemma_size_insert_lookup(e7, seq![0x64u8, 0x6f, 0x75, 0x62, 0x6c, 0x65], 8, kind);
    lemma_size_insert_unfold(e7, seq![0x64u8, 0x6f, 0x75, 0x62, 0x6c, 0x65], 8);
    let e9 = size_insert(e8, seq![0x69u8, 0x6e, 0x74, 0x38], 1);
    lemma_size_insert_lookup(e8, seq![0x69u8, 0x6e, 0x74, 0x38], 1, kind);
    lemma_size_insert_unfold(e8, seq![0x69u8, 0x6e, 0x74, 0x38], 1);
    let e10 = size_insert(e9, seq![0x75u8, 0x69, 0x6e, 0x74, 0x38], 1);
    lemma_size_insert_lookup(e9, seq![0x75u8, 0x69, 0x6e, 0x74, 0x38], 1, kind);
    lemma_size_insert_unfold(e9, seq![0x75u8, 0x69, 0x6e, 0x74, 0x38], 1);
    let e11 = size_insert(e10, seq![0x69u8, 0x6e, 0x74, 0x31, 0x36], 2);
    lemma_size_insert_lookup(e10, seq![0x69u8, 0x6e, 0x74, 0x31, 0x36], 2, kind);
    lemma_size_insert_unfold(e10, seq![0x69u8, 0x6e, 0x74, 0x31, 0x36], 2);
    let e12 = size_insert(e11, seq![0x75u8, 0x69, 0x6e, 0x74, 0x31, 0x36], 2);
    lemma_size_insert_lookup(e11, seq![0x75u8, 0x69, 0x6e, 0x74, 0x31, 0x36], 2, kind);
    lemma_size_insert_unfold(e11, seq![0x75u8, 0x69, 0x6e, 0x74, 0x31, 0x36], 2);
    let e13 = size_insert(e12, seq![0x69u8, 0x6e, 0x74, 0x33, 0x32], 4);
    lemma_size_insert_lookup(e12, seq![0x69u8, 0x6e, 0x74, 0x33, 0x32], 4, kind);
    lemma_size_insert_unfold(e12, seq![0x69u8, 0x6e, 0x74, 0x33, 0x32], 4);
    let e14 = size_insert(e13, seq![0x75u8, 0x69, 0x6e, 0x74, 0x33, 0x32], 4);
    lemma_size_insert_lookup(e13, seq![0x75u8, 0x69, 0x6e, 0x74, 0x33, 0x32], 4, kind);
    lemma_size_insert_unfold(e13, seq![0x75u8, 0x69, 0x6e, 0x74, 0x33, 0x32], 4);
    let e15 = size_insert(e14, seq![0x66u8, 0x6c, 0x6f, 0x61, 0x74, 0x33, 0x32], 4);
    lemma_size_insert_lookup(e14, seq![0x66u8, 0x6c, 0x6f, 0x61, 0x74, 0x33, 0x32], 4, kind);
    lemma_size_insert_unfold(e14, seq![0x66u8, 0x6c, 0x6f, 0x61, 0x74, 0x33, 0x32], 4);
    let e16 = size_insert(e15, seq![0x66u8, 0x6c, 0x6f, 0x61, 0x74, 0x36, 0x34], 8);
    lemma_size_insert_lookup(e15, seq![0x66u8, 0x6c, 0x6f, 0x61, 0x74, 0x36, 0x34], 8, kind);
    lemma_size_insert_unfold(e15, seq![0x66u8, 0x6c, 0x6f, 0x61, 0x74, 0x36, 0x34], 8);
    let e17 = size_insert(e16, seq![0x62u8, 0x79, 0x74, 0x65], 1);
    lemma_size_insert_lookup(e16, seq![0x62u8, 0x79, 0x74, 0x65], 1, kind);
    lemma_size_insert_unfold(e16, seq![0x62u8, 0x79, 0x74, 0x65], 1);
    let e18 = size_insert(e17, seq![0x75u8, 0x62, 0x79, 0x74, 0x65], 1);
    lemma_size_insert_lookup(e17, seq![0x75u8, 0x62, 0x79, 0x74, 0x65], 1, kind);
    lemma_size_insert_unfold(e17, seq![0x75u8, 0x62, 0x79, 0x74, 0x65], 1);
    let e19 = size_insert(e18, seq![0x68u8, 0x61, 0x6c, 0x66], 2);
    lemma_size_insert_lookup(e18, seq![0x68u8, 0x61, 0x6c, 0x66], 2, kind);
    lemma_size_insert_unfold(e18, seq![0x68u8, 0x61, 0x6c, 0x66], 2);
    let e20 = size_insert(e19, seq![0x6cu8, 0x6f, 0x6e, 0x67], 8);
    lemma_size_insert_lookup(e19, seq![0x6cu8, 0x6f, 0x6e, 0x67], 8, kind);
    lemma_size_insert_unfold(e19, seq![0x6cu8, 0x6f, 0x6e, 0x67], 8);
    let e21 = size_insert(e20, seq![0x75u8, 0x6c, 0x6f, 0x6e, 0x67], 8);
    lemma_size_insert_lookup(e20, seq![0x75u8, 0x6c, 0x6f, 0x6e, 0x67], 8, kind);
    lemma_size_insert_unfold(e20, seq![0x75u8, 0x6c, 0x6f, 0x6e, 0x67], 8);
    let e22 = size_insert(e21, seq![0x66u8, 0x6c, 0x6f, 0x61, 0x74, 0x31, 0x36], 2);
    lemma_size_insert_lookup(e21, seq![0x66u8, 0x6c, 0x6f, 0x61, 0x74, 0x31, 0x36], 2, kind);
    lemma_size_insert_unfold(e21, seq![0x66u8, 0x6c, 0x6f, 0x61, 0x74, 0x31, 0x36], 2);
    let e23 = size_insert(e22, seq![0x69u8, 0x6e, 0x74, 0x36, 0x34], 8);
    lemma_size_insert_lookup(e22, seq![0x69u8, 0x6e, 0x74, 0x36, 0x34], 8, kind);
    lemma_size_insert_unfold(e22, seq![0x69u8, 0x6e, 0x74, 0x36, 0x34], 8);
    let e24 = size_insert(e23, seq![0x75u8, 0x69, 0x6e, 0x74, 0x36, 0x34], 8);
    lemma_size_insert_lookup(e23, seq![0x75u8, 0x69, 0x6e, 0x74, 0x36, 0x34], 8, kind);
    lemma_size_insert_unfold(e23, seq![0x75u8, 0x69, 0x6e, 0x74, 0x36, 0x34], 8);
    assert(size_lookup(e0, kind) is None) by {
        reveal(size_lookup);
    }
    assert(e24 == default_sizes());
    assert(map_get(default_sizes(), kind) == size_lookup(e24, kind)) by {
        reveal(size_lookup);
    }
}

/// Whether a table of sizes gives each standard scalar kind its width in
/// bytes: 1 for `char`, `uchar`, `int8`, `uint8`, `byte`, `ubyte`; 2 for
/// `short`, `ushort`, `int16`, `uint16`, `half`, `float16`; 4 for `int`,
/// `uint`, `int32`, `uint32`, `float`, `float32`; 8 for `double`, `float64`,
/// `long`, `ulong`, `int64`, `uint64`.
pub open spec fn has_standard_widths(sizes: Seq<(Seq<u8>, usize)>) -> bool {
    &&& scalar_kind_size(sizes, seq![0x63u8, 0x68, 0x61, 0x72]) == Some(1usize)  // char
    &&& scalar_kind_size(sizes, seq![0x75u8, 0x63, 0x68, 0x61, 0x72]) == Some(1usize)  // uchar
    &&& scalar_kind_size(sizes, seq![0x73u8, 0x68, 0x6f, 0x72, 0x74]) == Some(2usize)  // short
    &&& scalar_kind_size(sizes, seq![0x75u8, 0x73, 0x68, 0x6f, 0x72, 0x74]) == Some(2usize)  // ushort
    &&& scalar_kind_size(sizes, seq![0x69u8, 0x6e, 0x74]) == Some(4usize)  // int
    &&& scalar_kind_size(sizes, seq![0x75u8, 0x69, 0x6e, 0x74]) == Some(4usize)  // uint
    &&& scalar_kind_size(sizes, seq![0x66u8, 0x6c, 0x6f, 0x61, 0x74]) == Some(4usize)  // float
    &&& scalar_kind_size(sizes, seq![0x64u8, 0x6f, 0x75, 0x62, 0x6c, 0x65]) == Some(8usize)  // double
    &&& scalar_kind_size(sizes, seq![0x69u8, 0x6e, 0x74, 0x38]) == Some(1usize)  // int8
    &&& scalar_kind_size(sizes, seq![0x75u8, 0x69, 0x6e, 0x74, 0x38]) == Some(1usize)  // uint8
    &&& scalar_kind_size(sizes, seq![0x69u8, 0x6e, 0x74, 0x31, 0x36]) == Some(2usize)  // int16
    &&& scalar_kind_size(sizes, seq![0x75u8, 0x69, 0x6e, 0x74, 0x31, 0x36]) == Some(2usize)  // uint16
    &&& scalar_kind_size(sizes, seq![0x69u8, 0x6e, 0x74, 0x33, 0x32]) == Some(4usize)  // int32
    &&& scalar_kind_size(sizes, seq![0x75u8, 0x69, 0x6e, 0x74, 0x33, 0x32]) == Some(4usize)  // uint32
    &&& scalar_kind_size(sizes, seq![0x66u8, 0x6c, 0x6f, 0x61, 0x74, 0x33, 0x32]) == Some(4usize)  // float32
    &&& scalar_kind_size(sizes, seq![0x66u8, 0x6c, 0x6f, 0x61, 0x74, 0x36, 0x34]) == Some(8usize)  // float64
    &&& scalar_kind_size(sizes, seq![0x62u8, 0x79, 0x74, 0x65]) == Some(1usize)  // byte
    &&& scalar_kind_size(sizes, seq![0x75u8, 0x62, 0x79, 0x74, 0x65]) == Some(1usize)  // ubyte
    &&& scalar_kind_size(sizes, seq![0x68u8, 0x61, 0x6c, 0x66]) == Some(2usize)  // half
    &&& scalar_kind_size(sizes, seq![0x6cu8, 0x6f, 0x6e, 0x67]) == Some(8usize)  // long
    &&& scalar_kind_size(sizes, seq![0x75u8, 0x6c, 0x6f, 0x6e, 0x67]) == Some(8usize)  // ulong
    &&& scalar_kind_size(sizes, seq![0x66u8, 0x6c, 0x6f, 0x61, 0x74, 0x31, 0x36]) == Some(2usize)  // float16
    &&& scalar_kind_size(sizes, seq![0x69u8, 0x6e, 0x74, 0x36, 0x34]) == Some(8usize)  // int64
    &&& scalar_kind_size(sizes, seq![0x75u8, 0x69, 0x6e, 0x74, 0x36, 0x34]) == Some(8usize)  // uint64
}

/// The table of sizes that [`ScalarSizes::new`] makes gives each standard
/// scalar kind its width in bytes.
#[verifier::rlimit(100)]
pub proof fn lemma_default_sizes_widths()
    ensures
        has_standard_widths(default_sizes()),
{
    lemma_default_sizes_lookup(seq![0x63u8, 0x68, 0x61, 0x72]);
    assert(seq![0x63u8, 0x68, 0x61, 0x72].len() != seq![0x75u8, 0x69, 0x6e, 0x74, 0x36, 0x34].len());
    assert(seq![0x63u8, 0x68, 0x61, 0x72].len() != seq![0x69u8, 0x6e, 0x74, 0x36, 0x34].len());
    assert(seq![0x63u8, 0x68, 0x61, 0x72].len() != seq![0x66u8, 0x6c, 0x6f, 0x61, 0x74, 0x31, 0x36].len());
    assert(seq![0x63u8, 0x68, 0x61, 0x72].len() != seq![0x75u8, 0x6c, 0x6f, 0x6e, 0x67].len());
    assert(seq![0x63u8, 0x68, 0x61, 0x72][0] != seq![0x6cu8, 0x6f, 0x6e, 0x67][0]);
    assert(seq![0x63u8, 0x68, 0x61, 0x72][0] != seq![0x68u8, 0x61, 0x6c, 0x66][0]);
    assert(seq![0x63u8, 0x68, 0x61, 0x72].len() != seq![0x75u8, 0x62, 0x79, 0x74, 0x65].len());
    assert(seq![0x63u8, 0x68, 0x61, 0x72][0] != seq![0x62u8, 0x79, 0x74, 0x65][0]);
    assert(seq![0x63u8, 0x68, 0x61, 0x72].len() != seq![0x66u8, 0x6c, 0x6f, 0x61, 0x74, 0x36, 0x34].len());
    assert(seq![0x63u8, 0x68, 0x61, 0x72].len() != seq![0x66u8, 0x6c, 0x6f, 0x61, 0x74, 0x33, 0x32].len());
    assert(seq![0x63u8, 0x68, 0x61, 0x72].len() != seq![0x75u8, 0x69, 0x6e, 0x74, 0x33, 0x32].len());
    assert(seq![0x63u8, 0x68, 0x61, 0x72].len() != seq![0x69u8, 0x6e, 0x74, 0x33, 0x32].len());
    assert(seq![0x63u8, 0x68, 0x61, 0x72].len() != seq![0x75u8, 0x69, 0x6e, 0x74, 0x31, 0x36].len());
    assert(seq![0x63u8, 0x68, 0x61, 0x72].len() != seq![0x69u8, 0x6e, 0x74, 0x31, 0x36].len());
    assert(seq![0x63u8, 0x68, 0x61, 0x72].len() != seq![0x75u8, 0x69, 0x6e, 0x74, 0x38].len());
    assert(seq![0x63u8, 0x68, 0x61, 0x72][0] != seq![0x69u8, 0x6e, 0x74, 0x38][0]);
    assert(seq![0x63u8, 0x68, 0x61, 0x72].len() != seq![0x64u8, 0x6f, 0x75, 0x62, 0x6c, 0x65].len());
    assert(seq![0x63u8, 0x68, 0x61, 0x72].len() != seq![0x66u8, 0x6c, 0x6f, 0x61, 0x74].len());
    assert(seq![0x63u8, 0x68, 0x61, 0x72][0] != seq![0x75u8, 0x69, 0x6e, 0x74][0]);
    assert(seq![0x63u8, 0x68, 0x61, 0x72].len() != seq![0x69u8, 0x6e, 0x74].len());
    assert(seq![0x63u8, 0x68, 0x61, 0x72].len() != seq![0x75u8, 0x73, 0x68, 0x6f, 0x72, 0x74].len());
    assert(seq![0x63u8, 0x68, 0x61, 0x72].len() != seq![0x73u8, 0x68, 0x6f, 0x72, 0x74].len());
    assert(seq![0x63u8, 0x68, 0x61, 0x72].len() != seq![0x75u8, 0x63, 0x68, 0x61, 0x72].len());
    lemma_default_sizes_lookup(seq![0x75u8, 0x63, 0x68, 0x61, 0x72]);
    assert(seq![0x75u8, 0x63, 0x68, 0x61, 0x72].len() != seq![0x75u8, 0x69, 0x6e, 0x74, 0x36, 0x34].len());
    assert(seq![0x75u8, 0x63, 0x68, 0x61, 0x72][0] != seq![0x69u8, 0x6e, 0x74, 0x36, 0x34][0]);
    assert(seq![0x75u8, 0x63, 0x68, 0x61, 0x72].len() != seq![0x66u8, 0x6c, 0x6f, 0x61, 0x74, 0x31, 0x36].len());
    assert(seq![0x75u8, 0x63, 0x68, 0x61, 0x72][1] != seq![0x75u8, 0x6c, 0x6f, 0x6e, 0x67][1]);
    assert(seq![0x75u8, 0x63, 0x68, 0x61, 0x72].len() != seq![0x6cu8, 0x6f, 0x6e, 0x67].len());
    assert(seq![0x75u8, 0x63, 0x68, 0x61, 0x72].len() != seq![0x68u8, 0x61, 0x6c, 0x66].len());
    assert(seq![0x75u8, 0x63, 0x68, 0x61, 0x72][1] != seq![0x75u8, 0x62, 0x79, 0x74, 0x65][1]);
    assert(seq![0x75u8, 0x63, 0x68, 0x61, 0x72].len() != seq![0x62u8, 0x79, 0x74, 0x65].len());
    assert(seq![0x75u8, 0x63, 0x68, 0x61, 0x72].len() != seq![0x66u8, 0x6c, 0x6f, 0x61, 0x74, 0x36, 0x34].len());
    assert(seq![0x75u8, 0x63, 0x68, 0x61, 0x72].len() != seq![0x66u8, 0x6c, 0x6f, 0x61, 0x74, 0x33, 0x32].len());
    assert(seq![0x75u8, 0x63, 0x68, 0x61, 0x72].len() != seq![0x75u8, 0x69, 0x6e, 0x74, 0x33, 0x32].len());
    assert(seq![0x75u8, 0x63, 0x68, 0x61, 0x72][0] != seq![0x69u8, 0x6e, 0x74, 0x33, 0x32][0]);
    assert(seq![0x75u8, 0x63, 0x68, 0x61, 0x72].len() != seq![0x75u8, 0x69, 0x6e, 0x74, 0x31, 0x36].len());
    assert(seq![0x75u8, 0x63, 0x68, 0x61, 0x72][0] != seq![0x69u8, 0x6e, 0x74, 0x31, 0x36][0]);
    assert(seq![0x75u8, 0x63, 0x68, 0x61, 0x72][1] != seq![0x75u8, 0x69, 0x6e, 0x74, 0x38][1]);
    assert(seq![0x75u8, 0x63, 0x68, 0x61, 0x72].len() != seq![0x69u8, 0x6e, 0x74, 0x38].len());
    assert(seq![0x75u8, 0x63, 0x68, 0x61, 0x72].len() != seq![0x64u8, 0x6f, 0x75, 0x62, 0x6c, 0x65].len());
    assert(seq![0x75u8, 0x63, 0x68, 0x61, 0x72][0] != seq![0x66u8, 0x6c, 0x6f, 0x61, 0x74][0]);
    assert(seq![0x75u8, 0x63, 0x68, 0x61, 0x72].len() != seq![0x75u8, 0x69, 0x6e, 0x74].len());
    assert(seq![0x75u8, 0x63, 0x68, 0x61, 0x72].len() != seq![0x69u8, 0x6e, 0x74].len());
    assert(seq![0x75u8, 0x63, 0x68, 0x61, 0x72].len() != seq![0x75u8, 0x73, 0x68, 0x6f, 0x72, 0x74].len());
    assert(seq![0x75u8, 0x63, 0x68, 0x61, 0x72][0] != seq![0x73u8, 0x68, 0x6f, 0x72, 0x74][0]);
    lemma_default_sizes_lookup(seq![0x73u8, 0x68, 0x6f, 0x72, 0x74]);
    assert(seq![0x73u8, 0x68, 0x6f, 0x72, 0x74].len() != seq![0x75u8, 0x69, 0x6e, 0x74, 0x36, 0x34].len());
    assert(seq![0x73u8, 0x68, 0x6f, 0x72, 0x74][0] != seq![0x69u8, 0x6e, 0x74, 0x36, 0x34][0]);
    assert(seq![0x73u8, 0x68, 0x6f, 0x72, 0x74].len() != seq![0x66u8, 0x6c, 0x6f, 0x61, 0x74, 0x31, 0x36].len());
    assert(seq![0x73u8, 0x68, 0x6f, 0x72, 0x74][0] != seq![0x75u8, 0x6c, 0x6f, 0x6e, 0x67][0]);
    assert(seq![0x73u8, 0x68, 0x6f, 0x72, 0x74].len() != seq![0x6cu8, 0x6f, 0x6e, 0x67].len());
    assert(seq![0x73u8, 0x68, 0x6f, 0x72, 0x74].len() != seq![0x68u8, 0x61, 0x6c, 0x66].len());
    assert(seq![0x73u8, 0x68, 0x6f, 0x72, 0x74][0] != seq![0x75u8, 0x62, 0x79, 0x74, 0x65][0]);
    assert(seq![0x73u8, 0x68, 0x6f, 0x72, 0x74].len() != seq![0x62u8, 0x79, 0x74, 0x65].len());
    assert(seq![0x73u8, 0x68, 0x6f, 0x72, 0x74].len() != seq![0x66u8, 0x6c, 0x6f, 0x61, 0x74, 0x36, 0x34].len());
    assert(seq![0x73u8, 0x68, 0x6f, 0x72, 0x74].len() != seq![0x66u8, 0x6c, 0x6f, 0x61, 0x74, 0x33, 0x32].len());
    assert(seq![0x73u8, 0x68, 0x6f, 0x72, 0x74].len() != seq![0x75u8, 0x69, 0x6e, 0x74, 0x33, 0x32].len());
    assert(seq![0x73u8, 0x68, 0x6f, 0x72, 0x74][0] != seq![0x69u8, 0x6e, 0x74, 0x33, 0x32][0]);
    assert(seq![0x73u8, 0x68, 0x6f, 0x72, 0x74].len() != seq![0x75u8, 0x69, 0x6e, 0x74, 0x31, 0x36].len());
    assert(seq![0x73u8, 0x68, 0x6f, 0x72, 0x74][0] != seq![0x69u8, 0x6e, 0x74, 0x31, 0x36][0]);
    assert(seq![0x73u8, 0x68, 0x6f, 0x72, 0x74][0] != seq![0x75u8, 0x69, 0x6e, 0x74, 0x38][0]);
    assert(seq![0x73u8, 0x68, 0x6f, 0x72, 0x74].len() != seq![0x69u8, 0x6e, 0x74, 0x38].len());
    assert(seq![0x73u8, 0x68, 0x6f, 0x72, 0x74].len() != seq![0x64u8, 0x6f, 0x75, 0x62, 0x6c, 0x65].len());
    assert(seq![0x73u8, 0x68, 0x6f, 0x72, 0x74][0] != seq![0x66u8, 0x6c, 0x6f, 0x61, 0x74][0]);
    assert(seq![0x73u8, 0x68, 0x6f, 0x72, 0x74].len() != seq![0x75u8, 0x69, 0x6e, 0x74].len());
    assert(seq![0x73u8, 0x68, 0x6f, 0x72, 0x74].len() != seq![0x69u8, 0x6e, 0x74].len());
    assert(seq![0x73u8, 0x68, 0x6f, 0x72, 0x74].len() != seq![0x75u8, 0x73, 0x68, 0x6f, 0x72, 0x74].len());
    lemma_default_sizes_lookup(seq![0x75u8, 0x73, 0x68, 0x6f, 0x72, 0x74]);
    assert(seq![0x75u8, 0x73, 0x68, 0x6f, 0x72, 0x74][1] != seq![0x75u8, 0x69, 0x6e, 0x74, 0x36, 0x34][1]);
    assert(seq![0x75u8, 0x73, 0x68, 0x6f, 0x72, 0x74].len() != seq![0x69u8, 0x6e, 0x74, 0x36, 0x34].len());
    assert(seq![0x75u8, 0x73, 0x68, 0x6f, 0x72, 0x74].len() != seq![0x66u8, 0x6c, 0x6f, 0x61, 0x74, 0x31, 0x36].len());
    assert(seq![0x75u8, 0x73, 0x68, 0x6f, 0x72, 0x74].len() != seq![0x75u8, 0x6c, 0x6f, 0x6e, 0x67].len());
    assert(seq![0x75u8, 0x73, 0x68, 0x6f, 0x72, 0x74].len() != seq![0x6cu8, 0x6f, 0x6e, 0x67].len());
    assert(seq![0x75u8, 0x73, 0x68, 0x6f, 0x72, 0x74].len() != seq![0x68u8, 0x61, 0x6c, 0x66].len());
    assert(seq![0x75u8, 0x73, 0x68, 0x6f, 0x72, 0x74].len() != seq![0x75u8, 0x62, 0x79, 0x74, 0x65].len());
    assert(seq![0x75u8, 0x73, 0x68, 0x6f, 0x72, 0x74].len() != seq![0x62u8, 0x79, 0x74, 0x65].len());
    assert(seq![0x75u8, 0x73, 0x68, 0x6f, 0x72, 0x74].len() != seq![0x66u8, 0x6c, 0x6f, 0x61, 0x74, 0x36, 0x34].len());
    assert(seq![0x75u8, 0x73, 0x68, 0x6f, 0x72, 0x74].len() != seq![0x66u8, 0x6c, 0x6f, 0x61, 0x74, 0x33, 0x32].len());
    assert(seq![0x75u8, 0x73, 0x68, 0x6f, 0x72, 0x74][1] != seq![0x75u8, 0x69, 0x6e, 0x74, 0x33, 0x32][1]);
    assert(seq![0x75u8, 0x73, 0x68, 0x6f, 0x72, 0x74].len() != seq![0x69u8, 0x6e, 0x74, 0x33, 0x32].len());
    assert(seq![0x75u8, 0x73, 0x68, 0x6f, 0x72, 0x74][1] != seq![0x75u8, 0x69, 0x6e, 0x74, 0x31, 0x36][1]);
    assert(seq![0x75u8, 0x73, 0x68, 0x6f, 0x72, 0x74].len() != seq![0x69u8, 0x6e, 0x74, 0x31, 0x36].len());
    assert(seq![0x75u8, 0x73, 0x68, 0x6f, 0x72, 0x74].len() != seq![0x75u8, 0x69, 0x6e, 0x74, 0x38].len());
    assert(seq![0x75u8, 0x73, 0x68, 0x6f, 0x72, 0x74].len() != seq![0x69u8, 0x6e, 0x74, 0x38].len());
    assert(seq![0x75u8, 0x73, 0x68, 0x6f, 0x72, 0x74][0] != seq![0x64u8, 0x6f, 0x75, 0x62, 0x6c, 0x65][0]);
    assert(seq![0x75u8, 0x73, 0x68, 0x6f, 0x72, 0x74].len() != seq![0x66u8, 0x6c, 0x6f, 0x61, 0x74].len());
    assert(seq![0x75u8, 0x73, 0x68, 0x6f, 0x72, 0x74].len() != seq![0x75u8, 0x69, 0x6e, 0x74].len());
    assert(seq![0x75u8, 0x73, 0x68, 0x6f, 0x72, 0x74].len() != seq![0x69u8, 0x6e, 0x74].len());
    lemma_default_sizes_lookup(seq![0x69u8, 0x6e, 0x74]);
    assert(seq![0x69u8, 0x6e, 0x74].len() != seq![0x75u8, 0x69, 0x6e, 0x74, 0x36, 0x34].len());
    assert(seq![0x69u8, 0x6e, 0x74].len() != seq![0x69u8, 0x6e, 0x74, 0x36, 0x34].len());
    assert(seq![0x69u8, 0x6e, 0x74].len() != seq![0x66u8, 0x6c, 0x6f, 0x61, 0x74, 0x31, 0x36].len());
    assert(seq![0x69u8, 0x6e, 0x74].len() != seq![0x75u8, 0x6c, 0x6f, 0x6e, 0x67].len());
    assert(seq![0x69u8, 0x6e, 0x74].len() != seq![0x6cu8, 0x6f, 0x6e, 0x67].len());
    assert(seq![0x69u8, 0x6e, 0x74].len() != seq![0x68u8, 0x61, 0x6c, 0x66].len());
    assert(seq![0x69u8, 0x6e, 0x74].len() != seq![0x75u8, 0x62, 0x79, 0x74, 0x65].len());
    assert(seq![0x69u8, 0x6e, 0x74].len() != seq![0x62u8, 0x79, 0x74, 0x65].len());
    assert(seq![0x69u8, 0x6e, 0x74].len() != seq![0x66u8, 0x6c, 0x6f, 0x61, 0x74, 0x36, 0x34].len());
    assert(seq![0x69u8, 0x6e, 0x74].len() != seq![0x66u8, 0x6c, 0x6f, 0x61, 0x74, 0x33, 0x32].len());
    assert(seq![0x69u8, 0x6e, 0x74].len() != seq![0x75u8, 0x69, 0x6e, 0x74, 0x33, 0x32].len());
    assert(seq![0x69u8, 0x6e, 0x74].len() != seq![0x69u8, 0x6e, 0x74, 0x33, 0x32].len());
    assert(seq![0x69u8, 0x6e, 0x74].len() != seq![0x75u8, 0x69, 0x6e, 0x74, 0x31, 0x36].len());
    assert(seq![0x69u8, 0x6e, 0x74].len() != seq![0x69u8, 0x6e, 0x74, 0x31, 0x36].len());
    assert(seq![0x69u8, 0x6e, 0x74].len() != seq![0x75u8, 0x69, 0x6e, 0x74, 0x38].len());
    assert(seq![0x69u8, 0x6e, 0x74].len() != seq![0x69u8, 0x6e, 0x74, 0x38].len());
    assert(seq![0x69u8, 0x6e, 0x74].len() != seq![0x64u8, 0x6f, 0x75, 0x62, 0x6c, 0x65].len());
    assert(seq![0x69u8, 0x6e, 0x74].len() != seq![0x66u8, 0x6c, 0x6f, 0x61, 0x74].len());
    assert(seq![0x69u8, 0x6e, 0x74].len() != seq![0x75u8, 0x69, 0x6e, 0x74].len());
    lemma_default_sizes_lookup(seq![0x75u8, 0x69, 0x6e, 0x74]);
    assert(seq![0x75u8, 0x69, 0x6e, 0x74].len() != seq![0x75u8, 0x69, 0x6e, 0x74, 0x36, 0x34].len());
    assert(seq![0x75u8, 0x69, 0x6e, 0x74].len() != seq![0x69u8, 0x6e, 0x74, 0x36, 0x34].len());
    assert(seq![0x75u8, 0x69, 0x6e, 0x74].len() != seq![0x66u8, 0x6c, 0x6f, 0x61, 0x74, 0x31, 0x36].len());
    assert(seq![0x75u8, 0x69, 0x6e, 0x74].len() != seq![0x75u8, 0x6c, 0x6f, 0x6e, 0x67].len());
    assert(seq![0x75u8, 0x69, 0x6e, 0x74][0] != seq![0x6cu8, 0x6f, 0x6e, 0x67][0]);
    assert(seq![0x75u8, 0x69, 0x6e, 0x74][0] != seq![0x68u8, 0x61, 0x6c, 0x66][0]);
    assert(seq![0x75u8, 0x69, 0x6e, 0x74].len() != seq![0x75u8, 0x62, 0x79, 0x74, 0x65].len());
    assert(seq![0x75u8, 0x69, 0x6e, 0x74][0] != seq![0x62u8, 0x79, 0x74, 0x65][0]);
    assert(seq![0x75u8, 0x69, 0x6e, 0x74].len() != seq![0x66u8, 0x6c, 0x6f, 0x61, 0x74, 0x36, 0x34].len());
    assert(seq![0x75u8, 0x69, 0x6e, 0x74].len() != seq![0x66u8, 0x6c, 0x6f, 0x61, 0x74, 0x33, 0x32].len());
    assert(seq![0x75u8, 0x69, 0x6e, 0x74].len() != seq![0x75u8, 0x69, 0x6e, 0x74, 0x33, 0x32].len());
    assert(seq![0x75u8, 0x69, 0x6e, 0x74].len() != seq![0x69u8, 0x6e, 0x74, 0x33, 0x32].len());
    assert(seq![0x75u8, 0x69, 0x6e, 0x74].len() != seq![0x75u8, 0x69, 0x6e, 0x74, 0x31, 0x36].len());
    assert(seq![0x75u8, 0x69, 0x6e, 0x74].len() != seq![0x69u8, 0x6e, 0x74, 0x31, 0x36].len());
    assert(seq![0x75u8, 0x69, 0x6e, 0x74].len() != seq![0x75u8, 0x69, 0x6e, 0x74, 0x38].len());
    assert(seq![0x75u8, 0x69, 0x6e, 0x74][0] != seq![0x69u8, 0x6e, 0x74, 0x38][0]);
    assert(seq![0x75u8, 0x69, 0x6e, 0x74].len() != seq![0x64u8, 0x6f, 0x75, 0x62, 0x6c, 0x65].len());
    assert(seq![0x75u8, 0x69, 0x6e, 0x74].len() != seq![0x66u8, 0x6c, 0x6f, 0x61, 0x74].len());
    lemma_default_sizes_lookup(seq![0x66u8, 0x6c, 0x6f, 0x61, 0x74]);
    assert(seq![0x66u8, 0x6c, 0x6f, 0x61, 0x74].len() != seq![0x75u8, 0x69, 0x6e, 0x74, 0x36, 0x34].len());
    assert(seq![0x66u8, 0x6c, 0x6f, 0x61, 0x74][0] != seq![0x69u8, 0x6e, 0x74, 0x36, 0x34][0]);
    assert(seq![0x66u8, 0x6c, 0x6f, 0x61, 0x74].len() != seq![0x66u8, 0x6c, 0x6f, 0x61, 0x74, 0x31, 0x36].len());
    assert(seq![0x66u8, 0x6c, 0x6f, 0x61, 0x74][0] != seq![0x75u8, 0x6c, 0x6f, 0x6e, 0x67][0]);
    assert(seq![0x66u8, 0x6c, 0x6f, 0x61, 0x74].len() != seq![0x6cu8, 0x6f, 0x6e, 0x67].len());
    assert(seq![0x66u8, 0x6c, 0x6f, 0x61, 0x74].len() != seq![0x68u8, 0x61, 0x6c, 0x66].len());
    assert(seq![0x66u8, 0x6c, 0x6f, 0x61, 0x74][0] != seq![0x75u8, 0x62, 0x79, 0x74, 0x65][0]);
    assert(seq![0x66u8, 0x6c, 0x6f, 0x61, 0x74].len() != seq![0x62u8, 0x79, 0x74, 0x65].len());
    assert(seq![0x66u8, 0x6c, 0x6f, 0x61, 0x74].len() != seq![0x66u8, 0x6c, 0x6f, 0x61, 0x74, 0x36, 0x34].len());
    assert(seq![0x66u8, 0x6c, 0x6f, 0x61, 0x74].len() != seq![0x66u8, 0x6c, 0x6f, 0x61, 0x74, 0x33, 0x32].len());
    assert(seq![0x66u8, 0x6c, 0x6f, 0x61, 0x74].len() != seq![0x75u8, 0x69, 0x6e, 0x74, 0x33, 0x32].len());
    assert(seq![0x66u8, 0x6c, 0x6f, 0x61, 0x74][0] != seq![0x69u8, 0x6e, 0x74, 0x33, 0x32][0]);
    assert(seq![0x66u8, 0x6c, 0x6f, 0x61, 0x74].len() != seq![0x75u8, 0x69, 0x6e, 0x74, 0x31, 0x36].len());
    assert(seq![0x66u8, 0x6c, 0x6f, 0x61, 0x74][0] != seq![0x69u8, 0x6e, 0x74, 0x31, 0x36][0]);
    assert(seq![0x66u8, 0x6c, 0x6f, 0x61, 0x74][0] != seq![0x75u8, 0x69, 0x6e, 0x74, 0x38][0]);
    assert(seq![0x66u8, 0x6c, 0x6f, 0x61, 0x74].len() != seq![0x69u8, 0x6e, 0x74, 0x38].len());
    assert(seq![0x66u8, 0x6c, 0x6f, 0x61, 0x74].len() != seq![0x64u8, 0x6f, 0x75, 0x62, 0x6c, 0x65].len());
    lemma_default_sizes_lookup(seq![0x64u8, 0x6f, 0x75, 0x62, 0x6c, 0x65]);
    assert(seq![0x64u8, 0x6f, 0x75, 0x62, 0x6c, 0x65][0] != seq![0x75u8, 0x69, 0x6e, 0x74, 0x36, 0x34][0]);
    assert(seq![0x64u8, 0x6f, 0x75, 0x62, 0x6c, 0x65].len() != seq![0x69u8, 0x6e, 0x74, 0x36, 0x34].len());
    assert(seq![0x64u8, 0x6f, 0x75, 0x62, 0x6c, 0x65].len() != seq![0x66u8, 0x6c, 0x6f, 0x61, 0x74, 0x31, 0x36].len());
    assert(seq![0x64u8, 0x6f, 0x75, 0x62, 0x6c, 0x65].len() != seq![0x75u8, 0x6c, 0x6f, 0x6e, 0x67].len());
    assert(seq![0x64u8, 0x6f, 0x75, 0x62, 0x6c, 0x65].len() != seq![0x6cu8, 0x6f, 0x6e, 0x67].len());
    assert(seq![0x64u8, 0x6f, 0x75, 0x62, 0x6c, 0x65].len() != seq![0x68u8, 0x61, 0x6c, 0x66].len());
    assert(seq![0x64u8, 0x6f, 0x75, 0x62, 0x6c, 0x65].len() != seq![0x75u8, 0x62, 0x79, 0x74, 0x65].len());
    assert(seq![0x64u8, 0x6f, 0x75, 0x62, 0x6c, 0x65].len() != seq![0x62u8, 0x79, 0x74, 0x65].len());
    assert(seq![0x64u8, 0x6f, 0x75, 0x62, 0x6c, 0x65].len() != seq![0x66u8, 0x6c, 0x6f, 0x61, 0x74, 0x36, 0x34].len());
    assert(seq![0x64u8, 0x6f, 0x75, 0x62, 0x6c, 0x65].len() != seq![0x66u8, 0x6c, 0x6f, 0x61, 0x74, 0x33, 0x32].len());
    assert(seq![0x64u8, 0x6f, 0x75, 0x62, 0x6c, 0x65][0] != seq![0x75u8, 0x69, 0x6e, 0x74, 0x33, 0x32][0]);
    assert(seq![0x64u8, 0x6f, 0x75, 0x62, 0x6c, 0x65].len() != seq![0x69u8, 0x6e, 0x74, 0x33, 0x32].len());
    assert(seq![0x64u8, 0x6f, 0x75, 0x62, 0x6c, 0x65][0] != seq![0x75u8, 0x69, 0x6e, 0x74, 0x31, 0x36][0]);
    assert(seq![0x64u8, 0x6f, 0x75, 0x62, 0x6c, 0x65].len() != seq![0x69u8, 0x6e, 0x74, 0x31, 0x36].len());
    assert(seq![0x64u8, 0x6f, 0x75, 0x62, 0x6c, 0x65].len() != seq![0x75u8, 0x69, 0x6e, 0x74, 0x38].len());
    assert(seq![0x64u8, 0x6f, 0x75, 0x62, 0x6c, 0x65].len() != seq![0x69u8, 0x6e, 0x74, 0x38].len());
    lemma_default_sizes_lookup(seq![0x69u8, 0x6e, 0x74, 0x38]);
    assert(seq![0x69u8, 0x6e, 0x74, 0x38].len() != seq![0x75u8, 0x69, 0x6e, 0x74, 0x36, 0x34].len());
    assert(seq![0x69u8, 0x6e, 0x74, 0x38].len() != seq![0x69u8, 0x6e, 0x74, 0x36, 0x34].len());
    assert(seq![0x69u8, 0x6e, 0x74, 0x38].len() != seq![0x66u8, 0x6c, 0x6f, 0x61, 0x74, 0x31, 0x36].len());
    assert(seq![0x69u8, 0x6e, 0x74, 0x38].len() != seq![0x75u8, 0x6c, 0x6f, 0x6e, 0x67].len());
    assert(seq![0x69u8, 0x6e, 0x74, 0x38][0] != seq![0x6cu8, 0x6f, 0x6e, 0x67][0]);
    assert(seq![0x69u8, 0x6e, 0x74, 0x38][0] != seq![0x68u8, 0x61, 0x6c, 0x66][0]);
    assert(seq![0x69u8, 0x6e, 0x74, 0x38].len() != seq![0x75u8, 0x62, 0x79, 0x74, 0x65].len());
    assert(seq![0x69u8, 0x6e, 0x74, 0x38][0] != seq![0x62u8, 0x79, 0x74, 0x65][0]);
    assert(seq![0x69u8, 0x6e, 0x74, 0x38].len() != seq![0x66u8, 0x6c, 0x6f, 0x61, 0x74, 0x36, 0x34].len());
    assert(seq![0x69u8, 0x6e, 0x74, 0x38].len() != seq![0x66u8, 0x6c, 0x6f, 0x61, 0x74, 0x33, 0x32].len());
    assert(seq![0x69u8, 0x6e, 0x74, 0x38].len() != seq![0x75u8, 0x69, 0x6e, 0x74, 0x33, 0x32].len());
    assert(seq![0x69u8, 0x6e, 0x74, 0x38].len() != seq![0x69u8, 0x6e, 0x74, 0x33, 0x32].len());
    assert(seq![0x69u8, 0x6e, 0x74, 0x38].len() != seq![0x75u8, 0x69, 0x6e, 0x74, 0x31, 0x36].len());
    assert(seq![0x69u8, 0x6e, 0x74, 0x38].len() != seq![0x69u8, 0x6e, 0x74, 0x31, 0x36].len());
    assert(seq![0x69u8, 0x6e, 0x74, 0x38].len() != seq![0x75u8, 0x69, 0x6e, 0x74, 0x38].len());
    lemma_default_sizes_lookup(seq![0x75u8, 0x69, 0x6e, 0x74, 0x38]);
    assert(seq![0x75u8, 0x69, 0x6e, 0x74, 0x38].len() != seq![0x75u8, 0x69, 0x6e, 0x74, 0x36, 0x34].len());
    assert(seq![0x75u8, 0x69, 0x6e, 0x74, 0x38][0] != seq![0x69u8, 0x6e, 0x74, 0x36, 0x34][0]);
    assert(seq![0x75u8, 0x69, 0x6e, 0x74, 0x38].len() != seq![0x66u8, 0x6c, 0x6f, 0x61, 0x74, 0x31, 0x36].len());
    assert(seq![0x75u8, 0x69, 0x6e, 0x74, 0x38][1] != seq![0x75u8, 0x6c, 0x6f, 0x6e, 0x67][1]);
    assert(seq![0x75u8, 0x69, 0x6e, 0x74, 0x38].len() != seq![0x6cu8, 0x6f, 0x6e, 0x67].len());
    assert(seq![0x75u8, 0x69, 0x6e, 0x74, 0x38].len() != seq![0x68u8, 0x61, 0x6c, 0x66].len());
    assert(seq![0x75u8, 0x69, 0x6e, 0x74, 0x38][1] != seq![0x75u8, 0x62, 0x79, 0x74, 0x65][1]);
    assert(seq![0x75u8, 0x69, 0x6e, 0x74, 0x38].len() != seq![0x62u8, 0x79, 0x74, 0x65].len());
    assert(seq![0x75u8, 0x69, 0x6e, 0x74, 0x38].len() != seq![0x66u8, 0x6c, 0x6f, 0x61, 0x74, 0x36, 0x34].len());
    assert(seq![0x75u8, 0x69, 0x6e, 0x74, 0x38].len() != seq![0x66u8, 0x6c, 0x6f, 0x61, 0x74, 0x33, 0x32].len());
    assert(seq![0x75u8, 0x69, 0x6e, 0x74, 0x38].len() != seq![0x75u8, 0x69, 0x6e, 0x74, 0x33, 0x32].len());
    assert(seq![0x75u8, 0x69, 0x6e, 0x74, 0x38][0] != seq![0x69u8, 0x6e, 0x74, 0x33, 0x32][0]);
    assert(seq![0x75u8, 0x69, 0x6e, 0x74, 0x38].len() != seq![0x75u8, 0x69, 0x6e, 0x74, 0x31, 0x36].len());
    assert(seq![0x75u8, 0x69, 0x6e, 0x74, 0x38][0] != seq![0x69u8, 0x6e, 0x74, 0x31, 0x36][0]);
    lemma_default_sizes_lookup(seq![0x69u8, 0x6e, 0x74, 0x31, 0x36]);
    assert(seq![0x69u8, 0x6e, 0x74, 0x31, 0x36].len() != seq![0x75u8, 0x69, 0x6e, 0x74, 0x36, 0x34].len());
    assert(seq![0x69u8, 0x6e, 0x74, 0x31, 0x36][3] != seq![0x69u8, 0x6e, 0x74, 0x36, 0x34][3]);
    assert(seq![0x69u8, 0x6e, 0x74, 0x31, 0x36].len() != seq![0x66u8, 0x6c, 0x6f, 0x61, 0x74, 0x31, 0x36].len());
    assert(seq![0x69u8, 0x6e, 0x74, 0x31, 0x36][0] != seq![0x75u8, 0x6c, 0x6f, 0x6e, 0x67][0]);
    assert(seq![0x69u8, 0x6e, 0x74, 0x31, 0x36].len() != seq![0x6cu8, 0x6f, 0x6e, 0x67].len());
    assert(seq![0x69u8, 0x6e, 0x74, 0x31, 0x36].len() != seq![0x68u8, 0x61, 0x6c, 0x66].len());
    assert(seq![0x69u8, 0x6e, 0x74, 0x31, 0x36][0] != seq![0x75u8, 0x62, 0x79, 0x74, 0x65][0]);
    assert(seq![0x69u8, 0x6e, 0x74, 0x31, 0x36].len() != seq![0x62u8, 0x79, 0x74, 0x65].len());
    assert(seq![0x69u8, 0x6e, 0x74, 0x31, 0x36].len() != seq![0x66u8, 0x6c, 0x6f, 0x61, 0x74, 0x36, 0x34].len());
    assert(seq![0x69u8, 0x6e, 0x74, 0x31, 0x36].len() != seq![0x66u8, 0x6c, 0x6f, 0x61, 0x74, 0x33, 0x32].len());
    assert(seq![0x69u8, 0x6e, 0x74, 0x31, 0x36].len() != seq![0x75u8, 0x69, 0x6e, 0x74, 0x33, 0x32].len());
    assert(seq![0x69u8, 0x6e, 0x74, 0x31, 0x36][3] != seq![0x69u8, 0x6e, 0x74, 0x33, 0x32][3]);
    assert(seq![0x69u8, 0x6e, 0x74, 0x31, 0x36].len() != seq![0x75u8, 0x69, 0x6e, 0x74, 0x31, 0x36].len());
    lemma_default_sizes_lookup(seq![0x75u8, 0x69, 0x6e, 0x74, 0x31, 0x36]);
    assert(seq![0x75u8, 0x69, 0x6e, 0x74, 0x31, 0x36][4] != seq![0x75u8, 0x69, 0x6e, 0x74, 0x36, 0x34][4]);
    assert(seq![0x75u8, 0x69, 0x6e, 0x74, 0x31, 0x36].len() != seq![0x69u8, 0x6e, 0x74, 0x36, 0x34].len());
    assert(seq![0x75u8, 0x69, 0x6e, 0x74, 0x31, 0x36].len() != seq![0x66u8, 0x6c, 0x6f, 0x61, 0x74, 0x31, 0x36].len());
    assert(seq![0x75u8, 0x69, 0x6e, 0x74, 0x31, 0x36].len() != seq![0x75u8, 0x6c, 0x6f, 0x6e, 0x67].len());
    assert(seq![0x75u8, 0x69, 0x6e, 0x74, 0x31, 0x36].len() != seq![0x6cu8, 0x6f, 0x6e, 0x67].len());
    assert(seq![0x75u8, 0x69, 0x6e, 0x74, 0x31, 0x36].len() != seq![0x68u8, 0x61, 0x6c, 0x66].len());
    assert(seq![0x75u8, 0x69, 0x6e, 0x74, 0x31, 0x36].len() != seq![0x75u8, 0x62, 0x79, 0x74, 0x65].len());
    assert(seq![0x75u8, 0x69, 0x6e, 0x74, 0x31, 0x36].len() != seq![0x62u8, 0x79, 0x74, 0x65].len());
    assert(seq![0x75u8, 0x69, 0x6e, 0x74, 0x31, 0x36].len() != seq![0x66u8, 0x6c, 0x6f, 0x61, 0x74, 0x36, 0x34].len());
    assert(seq![0x75u8, 0x69, 0x6e, 0x74, 0x31, 0x36].len() != seq![0x66u8, 0x6c, 0x6f, 0x61, 0x74, 0x33, 0x32].len());
    assert(seq![0x75u8, 0x69, 0x6e, 0x74, 0x31, 0x36][4] != seq![0x75u8, 0x69, 0x6e, 0x74, 0x33, 0x32][4]);
    assert(seq![0x75u8, 0x69, 0x6e, 0x74, 0x31, 0x36].len() != seq![0x69u8, 0x6e, 0x74, 0x33, 0x32].len());
    lemma_default_sizes_lookup(seq![0x69u8, 0x6e, 0x74, 0x33, 0x32]);
    assert(seq![0x69u8, 0x6e, 0x74, 0x33, 0x32].len() != seq![0x75u8, 0x69, 0x6e, 0x74, 0x36, 0x34].len());
    assert(seq![0x69u8, 0x6e, 0x74, 0x33, 0x32][3] != seq![0x69u8, 0x6e, 0x74, 0x36, 0x34][3]);
    assert(seq![0x69u8, 0x6e, 0x74, 0x33, 0x32].len() != seq![0x66u8, 0x6c, 0x6f, 0x61, 0x74, 0x31, 0x36].len());
    assert(seq![0x69u8, 0x6e, 0x74, 0x33, 0x32][0] != seq![0x75u8, 0x6c, 0x6f, 0x6e, 0x67][0]);
    assert(seq![0x69u8, 0x6e, 0x74, 0x33, 0x32].len() != seq![0x6cu8, 0x6f, 0x6e, 0x67].len());
    assert(seq![0x69u8, 0x6e, 0x74, 0x33, 0x32].len() != seq![0x68u8, 0x61, 0x6c, 0x66].len());
    assert(seq![0x69u8, 0x6e, 0x74, 0x33, 0x32][0] != seq![0x75u8, 0x62, 0x79, 0x74, 0x65][0]);
    assert(seq![0x69u8, 0x6e, 0x74, 0x33, 0x32].len() != seq![0x62u8, 0x79, 0x74, 0x65].len());
    assert(seq![0x69u8, 0x6e, 0x74, 0x33, 0x32].len() != seq![0x66u8, 0x6c, 0x6f, 0x61, 0x74, 0x36, 0x34].len());
    assert(seq![0x69u8, 0x6e, 0x74, 0x33, 0x32].len() != seq![0x66u8, 0x6c, 0x6f, 0x61, 0x74, 0x33, 0x32].len());
    assert(seq![0x69u8, 0x6e, 0x74, 0x33, 0x32].len() != seq![0x75u8, 0x69, 0x6e, 0x74, 0x33, 0x32].len());
    lemma_default_sizes_lookup(seq![0x75u8, 0x69, 0x6e, 0x74, 0x33, 0x32]);
    assert(seq![0x75u8, 0x69, 0x6e, 0x74, 0x33, 0x32][4] != seq![0x75u8, 0x69, 0x6e, 0x74, 0x36, 0x34][4]);
    assert(seq![0x75u8, 0x69, 0x6e, 0x74, 0x33, 0x32].len() != seq![0x69u8, 0x6e, 0x74, 0x36, 0x34].len());
    assert(seq![0x75u8, 0x69, 0x6e, 0x74, 0x33, 0x32].len() != seq![0x66u8, 0x6c, 0x6f, 0x61, 0x74, 0x31, 0x36].len());
    assert(seq![0x75u8, 0x69, 0x6e, 0x74, 0x33, 0x32].len() != seq![0x75u8, 0x6c, 0x6f, 0x6e, 0x67].len());
    assert(seq![0x75u8, 0x69, 0x6e, 0x74, 0x33, 0x32].len() != seq![0x6cu8, 0x6f, 0x6e, 0x67].len());
    assert(seq![0x75u8, 0x69, 0x6e, 0x74, 0x33, 0x32].len() != seq![0x68u8, 0x61, 0x6c, 0x66].len());
    assert(seq![0x75u8, 0x69, 0x6e, 0x74, 0x33, 0x32].len() != seq![0x75u8, 0x62, 0x79, 0x74, 0x65].len());
    assert(seq![0x75u8, 0x69, 0x6e, 0x74, 0x33, 0x32].len() != seq![0x62u8, 0x79, 0x74, 0x65].len());
    assert(seq![0x75u8, 0x69, 0x6e, 0x74, 0x33, 0x32].len() != seq![0x66u8, 0x6c, 0x6f, 0x61, 0x74, 0x36, 0x34].len());
    assert(seq![0x75u8, 0x69, 0x6e, 0x74, 0x33, 0x32].len() != seq![0x66u8, 0x6c, 0x6f, 0x61, 0x74, 0x33, 0x32].len());
    lemma_default_sizes_lookup(seq![0x66u8, 0x6c, 0x6f, 0x61, 0x74, 0x33, 0x32]);
    assert(seq![0x66u8, 0x6c, 0x6f, 0x61, 0x74, 0x33, 0x32].len() != seq![0x75u8, 0x69, 0x6e, 0x74, 0x36, 0x34].len());
    assert(seq![0x66u8, 0x6c, 0x6f, 0x61, 0x74, 0x33, 0x32].len() != seq![0x69u8, 0x6e, 0x74, 0x36, 0x34].len());
    assert(seq![0x66u8, 0x6c, 0x6f, 0x61, 0x74, 0x33, 0x32][5] != seq![0x66u8, 0x6c, 0x6f, 0x61, 0x74, 0x31, 0x36][5]);
    assert(seq![0x66u8, 0x6c, 0x6f, 0x61, 0x74, 0x33, 0x32].len() != seq![0x75u8, 0x6c, 0x6f, 0x6e, 0x67].len());
    assert(seq![0x66u8, 0x6c, 0x6f, 0x61, 0x74, 0x33, 0x32].len() != seq![0x6cu8, 0x6f, 0x6e, 0x67].len());
    assert(seq![0x66u8, 0x6c, 0x6f, 0x61, 0x74, 0x33, 0x32].len() != seq![0x68u8, 0x61, 0x6c, 0x66].len());
    assert(seq![0x66u8, 0x6c, 0x6f, 0x61, 0x74, 0x33, 0x32].len() != seq![0x75u8, 0x62, 0x79, 0x74, 0x65].len());
    assert(seq![0x66u8, 0x6c, 0x6f, 0x61, 0x74, 0x33, 0x32].len() != seq![0x62u8, 0x79, 0x74, 0x65].len());
    assert(seq![0x66u8, 0x6c, 0x6f, 0x61, 0x74, 0x33, 0x32][5] != seq![0x66u8, 0x6c, 0x6f, 0x61, 0x74, 0x36, 0x34][5]);
    lemma_default_sizes_lookup(seq![0x66u8, 0x6c, 0x6f, 0x61, 0x74, 0x36, 0x34]);
    assert(seq![0x66u8, 0x6c, 0x6f, 0x61, 0x74, 0x36, 0x34].len() != seq![0x75u8, 0x69, 0x6e, 0x74, 0x36, 0x34].len());
    assert(seq![0x66u8, 0x6c, 0x6f, 0x61, 0x74, 0x36, 0x34].len() != seq![0x69u8, 0x6e, 0x74, 0x36, 0x34].len());
    assert(seq![0x66u8, 0x6c, 0x6f, 0x61, 0x74, 0x36, 0x34][5] != seq![0x66u8, 0x6c, 0x6f, 0x61, 0x74, 0x31, 0x36][5]);
    assert(seq![0x66u8, 0x6c, 0x6f, 0x61, 0x74, 0x36, 0x34].len() != seq![0x75u8, 0x6c, 0x6f, 0x6e, 0x67].len());
    assert(seq![0x66u8, 0x6c, 0x6f, 0x61, 0x74, 0x36, 0x34].len() != seq![0x6cu8, 0x6f, 0x6e, 0x67].len());
    assert(seq![0x66u8, 0x6c, 0x6f, 0x61, 0x74, 0x36, 0x34].len() != seq![0x68u8, 0x61, 0x6c, 0x66].len());
    assert(seq![0x66u8, 0x6c, 0x6f, 0x61, 0x74, 0x36, 0x34].len() != seq![0x75u8, 0x62, 0x79, 0x74, 0x65].len());
    assert(seq![0x66u8, 0x6c, 0x6f, 0x61, 0x74, 0x36, 0x34].len() != seq![0x62u8, 0x79, 0x74, 0x65].len());
    lemma_default_sizes_lookup(seq![0x62u8, 0x79, 0x74, 0x65]);
    assert(seq![0x62u8, 0x79, 0x74, 0x65].len() != seq![0x75u8, 0x69, 0x6e, 0x74, 0x36, 0x34].len());
    assert(seq![0x62u8, 0x79, 0x74, 0x65].len() != seq![0x69u8, 0x6e, 0x74, 0x36, 0x34].len());
    assert(seq![0x62u8, 0x79, 0x74, 0x65].len() != seq![0x66u8, 0x6c, 0x6f, 0x61, 0x74, 0x31, 0x36].len());
    assert(seq![0x62u8, 0x79, 0x74, 0x65].len() != seq![0x75u8, 0x6c, 0x6f, 0x6e, 0x67].len());
    assert(seq![0x62u8, 0x79, 0x74, 0x65][0] != seq![0x6cu8, 0x6f, 0x6e, 0x67][0]);
    assert(seq![0x62u8, 0x79, 0x74, 0x65][0] != seq![0x68u8, 0x61, 0x6c, 0x66][0]);
    assert(seq![0x62u8, 0x79, 0x74, 0x65].len() != seq![0x75u8, 0x62, 0x79, 0x74, 0x65].len());
    lemma_default_sizes_lookup(seq![0x75u8, 0x62, 0x79, 0x74, 0x65]);
    assert(seq![0x75u8, 0x62, 0x79, 0x74, 0x65].len() != seq![0x75u8, 0x69, 0x6e, 0x74, 0x36, 0x34].len());
    assert(seq![0x75u8, 0x62, 0x79, 0x74, 0x65][0] != seq![0x69u8, 0x6e, 0x74, 0x36, 0x34][0]);
    assert(seq![0x75u8, 0x62, 0x79, 0x74, 0x65].len() != seq![0x66u8, 0x6c, 0x6f, 0x61, 0x74, 0x31, 0x36].len());
    assert(seq![0x75u8, 0x62, 0x79, 0x74, 0x65][1] != seq![0x75u8, 0x6c, 0x6f, 0x6e, 0x67][1]);
    assert(seq![0x75u8, 0x62, 0x79, 0x74, 0x65].len() != seq![0x6cu8, 0x6f, 0x6e, 0x67].len());
    assert(seq![0x75u8, 0x62, 0x79, 0x74, 0x65].len() != seq![0x68u8, 0x61, 0x6c, 0x66].len());
    lemma_default_sizes_lookup(seq![0x68u8, 0x61, 0x6c, 0x66]);
    assert(seq![0x68u8, 0x61, 0x6c, 0x66].len() != seq![0x75u8, 0x69, 0x6e, 0x74, 0x36, 0x34].len());
    assert(seq![0x68u8, 0x61, 0x6c, 0x66].len() != seq![0x69u8, 0x6e, 0x74, 0x36, 0x34].len());
    assert(seq![0x68u8, 0x61, 0x6c, 0x66].len() != seq![0x66u8, 0x6c, 0x6f, 0x61, 0x74, 0x31, 0x36].len());
    assert(seq![0x68u8, 0x61, 0x6c, 0x66].len() != seq![0x75u8, 0x6c, 0x6f, 0x6e, 0x67].len());
    assert(seq![0x68u8, 0x61, 0x6c, 0x66][0] != seq![0x6cu8, 0x6f, 0x6e, 0x67][0]);
    lemma_default_sizes_lookup(seq![0x6cu8, 0x6f, 0x6e, 0x67]);
    assert(seq![0x6cu8, 0x6f, 0x6e, 0x67].len() != seq![0x75u8, 0x69, 0x6e, 0x74, 0x36, 0x34].len());
    assert(seq![0x6cu8, 0x6f, 0x6e, 0x67].len() != seq![0x69u8, 0x6e, 0x74, 0x36, 0x34].len());
    assert(seq![0x6cu8, 0x6f, 0x6e, 0x67].len() != seq![0x66u8, 0x6c, 0x6f, 0x61, 0x74, 0x31, 0x36].len());
    assert(seq![0x6cu8, 0x6f, 0x6e, 0x67].len() != seq![0x75u8, 0x6c, 0x6f, 0x6e, 0x67].len());
    lemma_default_sizes_lookup(seq![0x75u8, 0x6c, 0x6f, 0x6e, 0x67]);
    assert(seq![0x75u8, 0x6c, 0x6f, 0x6e, 0x67].len() != seq![0x75u8, 0x69, 0x6e, 0x74, 0x36, 0x34].len());
    assert(seq![0x75u8, 0x6c, 0x6f, 0x6e, 0x67][0] != seq![0x69u8, 0x6e, 0x74, 0x36, 0x34][0]);
    assert(seq![0x75u8, 0x6c, 0x6f, 0x6e, 0x67].len() != seq![0x66u8, 0x6c, 0x6f, 0x61, 0x74, 0x31, 0x36].len());
    lemma_default_sizes_lookup(seq![0x66u8, 0x6c, 0x6f, 0x61, 0x74, 0x31, 0x36]);
    assert(seq![0x66u8, 0x6c, 0x6f, 0x61, 0x74, 0x31, 0x36].len() != seq![0x75u8, 0x69, 0x6e, 0x74, 0x36, 0x34].len());
    assert(seq![0x66u8, 0x6c, 0x6f, 0x61, 0x74, 0x31, 0x36].len() != seq![0x69u8, 0x6e, 0x74, 0x36, 0x34].len());
    lemma_default_sizes_lookup(seq![0x69u8, 0x6e, 0x74, 0x36, 0x34]);
    assert(seq![0x69u8, 0x6e, 0x74, 0x36, 0x34].len() != seq![0x75u8, 0x69, 0x6e, 0x74, 0x36, 0x34].len());
    lemma_default_sizes_lookup(seq![0x75u8, 0x69, 0x6e, 0x74, 0x36, 0x34]);
}

impl ScalarSizes {
    #[verifier::type_invariant]
    spec fn wf(self) -> bool {
        distinct_keys(self@)
    }

    /// An empty table.
    pub fn empty() -> (r: Self)
        ensures
            r@ == Seq::<(Seq<u8>, usize)>::empty(),
    {
        ScalarSizes { inner: size_map_new() }
    }

    /// The table of the sizes of the common, general and special scalar
    /// kinds.
    pub fn new() -> (r: Self)
        ensures
            r@ == default_sizes(),
            has_standard_widths(r@),
    {
        proof {
            lemma_default_sizes_widths();
        }
        let mut r = ScalarSizes::empty();
        let k = [0x63u8, 0x68, 0x61, 0x72];
        assert(k@ =~= seq![0x63u8, 0x68, 0x61, 0x72]);
        r.insert(&k, 1);
        let k = [0x75u8, 0x63, 0x68, 0x61, 0x72];
        assert(k@ =~= seq![0x75u8, 0x63, 0x68, 0x61, 0x72]);
        r.insert(&k, 1);
        let k = [0x73u8, 0x68, 0x6f, 0x72, 0x74];
        assert(k@ =~= seq![0x73u8, 0x68, 0x6f, 0x72, 0x74]);
        r.insert(&k, 2);
        let k = [0x75u8, 0x73, 0x68, 0x6f, 0x72, 0x74];
        assert(k@ =~= seq![0x75u8, 0x73, 0x68, 0x6f, 0x72, 0x74]);
        r.insert(&k, 2);
        let k = [0x69u8, 0x6e, 0x74];
        assert(k@ =~= seq![0x69u8, 0x6e, 0x74]);
        r.insert(&k, 4);
        let k = [0x75u8, 0x69, 0x6e, 0x74];
        assert(k@ =~= seq![0x75u8, 0x69, 0x6e, 0x74]);
        r.insert(&k, 4);
        let k = [0x66u8, 0x6c, 0x6f, 0x61, 0x74];
        assert(k@ =~= seq![0x66u8, 0x6c, 0x6f, 0x61, 0x74]);
        r.insert(&k, 4);
        let k = [0x64u8, 0x6f, 0x75, 0x62, 0x6c, 0x65];
        assert(k@ =~= seq![0x64u8, 0x6f, 0x75, 0x62, 0x6c, 0x65]);
        r.insert(&k, 8);
        let k = [0x69u8, 0x6e, 0x74, 0x38];
        assert(k@ =~= seq![0x69u8, 0x6e, 0x74, 0x38]);
        r.insert(&k, 1);
        let k = [0x75u8, 0x69, 0x6e, 0x74, 0x38];
        assert(k@ =~= seq![0x75u8, 0x69, 0x6e, 0x74, 0x38]);
        r.insert(&k, 1);
        let k = [0x69u8, 0x6e, 0x74, 0x31, 0x36];
        assert(k@ =~= seq![0x69u8, 0x6e, 0x74, 0x31, 0x36]);
        r.insert(&k, 2);
        let k = [0x75u8, 0x69, 0x6e, 0x74, 0x31, 0x36];
        assert(k@ =~= seq![0x75u8, 0x69, 0x6e, 0x74, 0x31, 0x36]);
        r.insert(&k, 2);
        let k = [0x69u8, 0x6e, 0x74, 0x33, 0x32];
        assert(k@ =~= seq![0x69u8, 0x6e, 0x74, 0x33, 0x32]);
        r.insert(&k, 4);
        let k = [0x75u8, 0x69, 0x6e, 0x74, 0x33, 0x32];
        assert(k@ =~= seq![0x75u8, 0x69, 0x6e, 0x74, 0x33, 0x32]);
        r.insert(&k, 4);
        let k = [0x66u8, 0x6c, 0x6f, 0x61, 0x74, 0x33, 0x32];
        assert(k@ =~= seq![0x66u8, 0x6c, 0x6f, 0x61, 0x74, 0x33, 0x32]);
        r.insert(&k, 4);
        let k = [0x66u8, 0x6c, 0x6f, 0x61, 0x74, 0x36, 0x34];
        assert(k@ =~= seq![0x66u8, 0x6c, 0x6f, 0x61, 0x74, 0x36, 0x34]);
        r.insert(&k, 8);
        let k = [0x62u8, 0x79, 0x74, 0x65];
        assert(k@ =~= seq![0x62u8, 0x79, 0x74, 0x65]);
        r.insert(&k, 1);
        let k = [0x75u8, 0x62, 0x79, 0x74, 0x65];
        assert(k@ =~= seq![0x75u8, 0x62, 0x79, 0x74, 0x65]);
        r.insert(&k, 1);
        let k = [0x68u8, 0x61, 0x6c, 0x66];
        assert(k@ =~= seq![0x68u8, 0x61, 0x6c, 0x66]);
        r.insert(&k, 2);
        let k = [0x6cu8, 0x6f, 0x6e, 0x67];
        assert(k@ =~= seq![0x6cu8, 0x6f, 0x6e, 0x67]);
        r.insert(&k, 8);
        let k = [0x75u8, 0x6c, 0x6f, 0x6e, 0x67];
        assert(k@ =~= seq![0x75u8, 0x6c, 0x6f, 0x6e, 0x67]);
        r.insert(&k, 8);
        let k = [0x66u8, 0x6c, 0x6f, 0x61, 0x74, 0x31, 0x36];
        assert(k@ =~= seq![0x66u8, 0x6c, 0x6f, 0x61, 0x74, 0x31, 0x36]);
        r.insert(&k, 2);
        let k = [0x69u8, 0x6e, 0x74, 0x36, 0x34];
        assert(k@ =~= seq![0x69u8, 0x6e, 0x74, 0x36, 0x34]);
        r.insert(&k, 8);
        let k = [0x75u8, 0x69, 0x6e, 0x74, 0x36, 0x34];
        assert(k@ =~= seq![0x75u8, 0x69, 0x6e, 0x74, 0x36, 0x34]);
        r.insert(&k, 8);
        r
    }

    /// The number of kinds.
    pub fn len(&self) -> (r: usize)
        ensures
            r == self@.len(),
    {
        size_map_len(&self.inner)
    }

    /// The size of `kind`, when the table has it.
    pub fn get(&self, kind: &[u8]) -> (r: Option<usize>)
        ensures
            r == scalar_kind_size(self@, kind@),
    {
        proof {
            use_type_invariant(self);
        }
        size_map_get(&self.inner, kind)
    }

    /// Sets the size of `kind`: the size of a kind that the table has is
    /// replaced in place, else the kind comes last. Gives back the size it
    /// had.
    pub fn insert(&mut self, kind: &[u8], size: usize) -> (r: Option<usize>)
        ensures
            final(self)@ == map_insert(old(self)@, kind@, size),
            r == scalar_kind_size(old(self)@, kind@),
    {
        proof {
            use_type_invariant(&*self);
        }
        let mut inner = size_map_new();
        std::mem::swap(&mut inner, &mut self.inner);
        let r = size_map_insert(&mut inner, vstd::slice::slice_to_vec(kind), size);
        self.inner = inner;
        r
    }
}

impl Default for ScalarSizes {
    fn default() -> (r: Self)
        ensures
            r@ == default_sizes(),
            has_standard_widths(r@),
    {
        ScalarSizes::new()
    }
}


/// The written form of a property kind: a scalar kind's name, or `"list"`,
/// a space, the count kind, a space and the value kind.
pub open spec fn kind_text(kind: PropertyKindV) -> Seq<u8> {
    match kind {
        PropertyKindV::Scalar(v) => v,
        PropertyKindV::List(c, v) => crate::keyword::kw_list_() + c + seq![crate::function::SPACE] + v,
    }
}

/// The size of one datum of a property: its scalar kind's size, or the
/// error that names a list kind or an unknown kind.
pub open spec fn property_size_spec(p: PropertyV, sizes: Seq<(Seq<u8>, usize)>) -> Result<usize, ErrorV> {
    match p.0 {
        PropertyKindV::List(_, _) => Err(ErrorV::InvalidKind(crate::error::utf8_lossy(kind_text(p.0)))),
        PropertyKindV::Scalar(v) => match scalar_kind_size(sizes, v) {
            Some(n) => Ok(n),
            None => Err(ErrorV::InvalidKind(crate::error::utf8_lossy(v))),
        },
    }
}

impl ScalarPropertyKind {
    /// The size of one datum of the kind, when the table has the kind.
    pub fn size(&self, sizes: &ScalarSizes) -> (r: Option<usize>)
        ensures
            r == scalar_kind_size(sizes@, self@),
    {
        sizes.get(self.value.as_slice())
    }
}

impl PropertyKind {
    /// Whether this is a list kind.
    pub fn is_list(&self) -> (r: bool)
        ensures
            r == (self is List),
    {
        matches!(self, PropertyKind::List(_))
    }

    /// Whether this is a scalar kind.
    pub fn is_scalar(&self) -> (r: bool)
        ensures
            r == (self is Scalar),
    {
        matches!(self, PropertyKind::Scalar(_))
    }

    /// The written form of the kind (see [`kind_text`]).
    pub fn to_text(&self) -> (r: Vec<u8>)
        ensures
            r@ == kind_text(self@),
    {
        match self {
            PropertyKind::Scalar(s) => vstd::slice::slice_to_vec(s.value.as_slice()),
            PropertyKind::List(l) => {
                let mut r: Vec<u8> = Vec::new();
                crate::function::push_all(&mut r, &crate::keyword::kw_list__bytes());
                crate::function::push_all(&mut r, l.count.value.as_slice());
                r.push(crate::function::SPACE);
                crate::function::push_all(&mut r, l.value.value.as_slice());
                assert(r@ =~= kind_text(self@));
                r
            },
        }
    }
}

impl Property {
    /// The size of one datum of the property (see [`property_size_spec`]).
    fn size(&self, sizes: &ScalarSizes) -> (r: Result<usize, Error>)
        ensures
            match r {
                Ok(n) => property_size_spec(self@, sizes@) == Ok::<usize, ErrorV>(n),
                Err(e) => property_size_spec(self@, sizes@) == Err::<usize, ErrorV>(e@),
            },
    {
        match &self.kind {
            PropertyKind::List(_) => Err(Error::InvalidKind(crate::error::lossy_text(self.kind.to_text().as_slice()))),
            PropertyKind::Scalar(s) => match s.size(sizes) {
                Some(n) => Ok(n),
                None => Err(Error::InvalidKind(crate::error::lossy_text(s.value.as_slice()))),
            },
        }
    }
}

impl Properties {
    /// No properties.
    pub fn new() -> (r: Self)
        ensures
            r@ == Seq::<(Seq<u8>, PropertyV)>::empty(),
    {
        Properties { inner: property_map_new() }
    }

    /// The number of properties.
    pub fn len(&self) -> (r: usize)
        ensures
            r == self@.len(),
    {
        property_map_len(&self.inner)
    }

    /// Inserts a property under a name: a property of that name is replaced
    /// in place, else the property comes last.
    pub fn insert(&mut self, name: Vec<u8>, property: Property)
        ensures
            final(self)@ == map_insert(old(self)@, name@, property@),
            distinct_keys(final(self)@),
    {
        property_map_insert(&mut self.inner, name, property);
    }

    /// The size of one datum of each property, in order (see
    /// [`property_size_spec`]).
    pub fn property_sizes(&self, sizes: &ScalarSizes) -> (r: Vec<Result<usize, Error>>)
        ensures
            r@.len() == self@.len(),
            forall|i: int|
                0 <= i < r@.len() ==> match #[trigger] r@[i] {
                    Ok(n) => property_size_spec(self@[i].1, sizes@) == Ok::<usize, ErrorV>(n),
                    Err(e) => property_size_spec(self@[i].1, sizes@) == Err::<usize, ErrorV>(e@),
                },
    {
        let n = self.len();
        let mut r: Vec<Result<usize, Error>> = Vec::new();
        let mut i: usize = 0;
        while i < n
            invariant
                n == self@.len(),
                i <= n,
                r@.len() == i,
                forall|j: int|
                    0 <= j < i ==> match #[trigger] r@[j] {
                        Ok(n) => property_size_spec(self@[j].1, sizes@) == Ok::<usize, ErrorV>(n),
                        Err(e) => property_size_spec(self@[j].1, sizes@) == Err::<usize, ErrorV>(e@),
                    },
            decreases n - i,
        {
            match property_map_get_index(&self.inner, i) {
                Some((_, p)) => r.push(p.size(sizes)),
                None => {
                    assert(false);
                },
            }
            i += 1;
        }
        r
    }

    /// Whether the two have the same property names in the same order.
    pub fn is_same_order(&self, other: &Self) -> (r: bool)
        ensures
            r == same_property_order(self@, other@),
    {
        let n = self.len();
        if n != other.len() {
            return false;
        }
        let mut i: usize = 0;
        while i < n
            invariant
                n == self@.len() == other@.len(),
                i <= n,
                forall|j: int| 0 <= j < i ==> (#[trigger] self@[j]).0 == other@[j].0,
            decreases n - i,
        {
            let ka = match property_map_get_index(&self.inner, i) {
                Some((k, _)) => k,
                None => {
                    assert(false);
                    return false;
                },
            };
            let kb = match property_map_get_index(&other.inner, i) {
                Some((k, _)) => k,
                None => {
                    assert(false);
                    return false;
                },
            };
            if !bytes_eq(ka.as_slice(), kb.as_slice()) {
                return false;
            }
            i += 1;
        }
        true
    }
}

impl Clone for Properties {
    fn clone(&self) -> (r: Self)
        ensures
            r@ == self@,
    {
        Properties { inner: property_map_clone(&self.inner) }
    }
}

impl Default for Properties {
    fn default() -> (r: Self)
        ensures
            r@ == Seq::<(Seq<u8>, PropertyV)>::empty(),
    {
        Properties::new()
    }
}

} // verus!
