//! Groups: which properties belong to which element, by identifiers.

use vstd::prelude::*;

use indexmap::IndexMap;

use crate::group::id::Id;
use crate::index_map::{distinct_keys, lemma_map_insert_get, map_get, map_insert};
use crate::head::meta::ElementMeta;

verus! {

/// The entries of a map from element identifiers to property identifiers,
/// in the order of the map.
pub uninterp spec fn element_entries(m: IndexMap<Id, Vec<Id>>) -> Seq<(Id, Seq<Id>)>;

/// The entries of a map from property identifiers to element identifiers,
/// in the order of the map.
pub uninterp spec fn property_entries(m: IndexMap<Id, Id>) -> Seq<(Id, Id)>;

/// The entries after `x` is appended to the list of the key (a new entry
/// with the list `[x]` when there is none).
pub open spec fn map_push(es: Seq<(Id, Seq<Id>)>, k: Id, x: Id) -> Seq<(Id, Seq<Id>)> {
    match map_get(es, k) {
        Some(list) => map_insert(es, k, list.push(x)),
        None => map_insert(es, k, seq![x]),
    }
}

/// An empty map.
///
/// Calls `IndexMap::with_capacity`, which makes an empty map.
#[verifier::external_body]
fn element_map_with_capacity(capacity: usize) -> (r: IndexMap<Id, Vec<Id>>)
    ensures
        element_entries(r) == Seq::<(Id, Seq<Id>)>::empty(),
{
    IndexMap::with_capacity(capacity)
}

/// An empty map.
///
/// Calls `IndexMap::with_capacity`, which makes an empty map.
#[verifier::external_body]
fn property_map_with_capacity(capacity: usize) -> (r: IndexMap<Id, Id>)
    ensures
        property_entries(r) == Seq::<(Id, Id)>::empty(),
{
    IndexMap::with_capacity(capacity)
}

/// A copy of a map from elements to their properties.
///
/// Calls `IndexMap::clone`, which clones each key and each list, in order;
/// cloned identifiers and lists of them hold the same values.
#[verifier::external_body]
fn element_map_clone(map: &IndexMap<Id, Vec<Id>>) -> (r: IndexMap<Id, Vec<Id>>)
    ensures
        element_entries(r) == element_entries(*map),
{
    map.clone()
}

/// A copy of a map from properties to their elements.
///
/// Calls `IndexMap::clone`, which clones each key and value, in order;
/// cloned identifiers hold the same values.
#[verifier::external_body]
fn property_map_clone(map: &IndexMap<Id, Id>) -> (r: IndexMap<Id, Id>)
    ensures
        property_entries(r) == property_entries(*map),
{
    map.clone()
}

/// The list of the key, made empty and appended when the key is new.
///
/// Calls `IndexMap::entry` and `Entry::or_default`: the entry of the key
/// keeps its place when there is one, a new one with an empty list comes
/// last otherwise, and the list is handed out to change in place. The keys
/// of a map are distinct.
#[verifier::external_body]
fn element_map_entry<'a>(map: &'a mut IndexMap<Id, Vec<Id>>, key: Id) -> (r: &'a mut Vec<Id>)
    requires
        distinct_keys(element_entries(*old(map))),
    ensures
        r@ == (match map_get(element_entries(*old(map)), key) {
            Some(list) => list,
            None => Seq::<Id>::empty(),
        }),
        element_entries(*final(map)) == map_insert(element_entries(*old(map)), key, final(r)@),
        distinct_keys(element_entries(*final(map))),
{
    map.entry(key).or_default()
}

/// Inserts the entry.
///
/// Calls `IndexMap::insert`: the value of the entry with the key is
/// replaced in place, and the old value is handed back; else the entry
/// comes last. The keys of a map are distinct.
#[verifier::external_body]
fn property_map_insert(map: &mut IndexMap<Id, Id>, key: Id, value: Id) -> (r: Option<Id>)
    requires
        distinct_keys(property_entries(*old(map))),
    ensures
        r == map_get(property_entries(*old(map)), key),
        property_entries(*final(map)) == map_insert(property_entries(*old(map)), key, value),
        distinct_keys(property_entries(*final(map))),
{
    map.insert(key, value)
}

/// The list of the key.
///
/// Calls `IndexMap::get`, which gives the value of the entry with the key.
#[verifier::external_body]
fn element_map_get<'a>(map: &'a IndexMap<Id, Vec<Id>>, key: &Id) -> (r: Option<&'a Vec<Id>>)
    requires
        distinct_keys(element_entries(*map)),
    ensures
        match r {
            Some(list) => map_get(element_entries(*map), *key) == Some(list@),
            None => map_get(element_entries(*map), *key) is None,
        },
{
    map.get(key)
}

/// The value of the key.
///
/// Calls `IndexMap::get`, which gives the value of the entry with the key.
#[verifier::external_body]
fn property_map_get<'a>(map: &'a IndexMap<Id, Id>, key: &Id) -> (r: Option<&'a Id>)
    requires
        distinct_keys(property_entries(*map)),
    ensures
        match r {
            Some(v) => map_get(property_entries(*map), *key) == Some(*v),
            None => map_get(property_entries(*map), *key) is None,
        },
{
    map.get(key)
}

/// The number of entries.
///
/// Calls `IndexMap::len`.
#[verifier::external_body]
fn element_map_len(map: &IndexMap<Id, Vec<Id>>) -> (r: usize)
    ensures
        r == element_entries(*map).len(),
{
    map.len()
}

/// The entry at the index.
///
/// Calls `IndexMap::get_index`, which gives the entry at a valid index.
#[verifier::external_body]
fn element_map_get_index<'a>(map: &'a IndexMap<Id, Vec<Id>>, index: usize) -> (r: Option<(&'a Id, &'a Vec<Id>)>)
    ensures
        match r {
            Some((k, v)) => index < element_entries(*map).len() && element_entries(*map)[index as int] == (*k, v@),
            None => index >= element_entries(*map).len(),
        },
{
    map.get_index(index)
}

/// The values of listed entries.
pub open spec fn entries_of(r: Seq<(&Id, &[Id])>) -> Seq<(Id, Seq<Id>)> {
    r.map_values(|e: (&Id, &[Id])| (*e.0, e.1@))
}

/// The relations between elements and properties of a head.
#[derive(Debug, PartialEq, Eq)]
pub struct Group {
    element_id_to_property_ids: IndexMap<Id, Vec<Id>>,
    property_id_to_element_id: IndexMap<Id, Id>,
}

/// The value of a group: for each element, the list of its properties;
/// for each property, its element.
pub struct GroupV {
    pub elements: Seq<(Id, Seq<Id>)>,
    pub properties: Seq<(Id, Id)>,
}

impl View for Group {
    type V = GroupV;

    closed spec fn view(&self) -> GroupV {
        GroupV {
            elements: element_entries(self.element_id_to_property_ids),
            properties: property_entries(self.property_id_to_element_id),
        }
    }
}

impl Group {
    #[verifier::type_invariant]
    spec fn wf(self) -> bool {
        &&& distinct_keys(element_entries(self.element_id_to_property_ids))
        &&& distinct_keys(property_entries(self.property_id_to_element_id))
    }

    /// An empty group with room for `capacity` properties.
    pub fn with_capacity(capacity: usize) -> (r: Self)
        ensures
            r@.elements == Seq::<(Id, Seq<Id>)>::empty(),
            r@.properties == Seq::<(Id, Id)>::empty(),
            distinct_keys(r@.elements),
            distinct_keys(r@.properties),
    {
        Group {
            element_id_to_property_ids: element_map_with_capacity(2),
            property_id_to_element_id: property_map_with_capacity(capacity),
        }
    }

    /// The element of a property.
    pub fn get_element_id(&self, property_id: Id) -> (r: Option<Id>)
        ensures
            r == map_get(self@.properties, property_id),
    {
        proof {
            use_type_invariant(self);
        }
        match property_map_get(&self.property_id_to_element_id, &property_id) {
            Some(id) => Some(*id),
            None => None,
        }
    }

    /// The properties of an element.
    pub fn get_property_ids(&self, element_id: Id) -> (r: Option<&[Id]>)
        ensures
            match r {
                Some(ids) => map_get(self@.elements, element_id) == Some(ids@),
                None => map_get(self@.elements, element_id) is None,
            },
    {
        proof {
            use_type_invariant(self);
        }
        match element_map_get(&self.element_id_to_property_ids, &element_id) {
            Some(ids) => Some(ids.as_slice()),
            None => None,
        }
    }

    /// Relates a property to an element: the property is appended to the
    /// element's properties, and its element is set.
    pub fn set_property_id(&mut self, property_id: Id, element_id: Id) -> (r: &mut Self)
        ensures
            r@.elements == map_push(old(self)@.elements, element_id, property_id),
            r@.properties == map_insert(old(self)@.properties, property_id, element_id),
            map_get(r@.properties, property_id) == Some(element_id),
            map_get(r@.elements, element_id) == Some(
                match map_get(old(self)@.elements, element_id) {
                    Some(list) => list.push(property_id),
                    None => seq![property_id],
                },
            ),
            forall|q: Id| q != property_id ==> #[trigger] map_get(r@.properties, q) == map_get(old(self)@.properties, q),
            forall|e: Id| e != element_id ==> #[trigger] map_get(r@.elements, e) == map_get(old(self)@.elements, e),
            distinct_keys(r@.elements),
            distinct_keys(r@.properties),
            *final(self) == *final(r),
    {
        proof {
            use_type_invariant(&*self);
            let g = self@;
            lemma_set_property_id_then_get(g, property_id, element_id, property_id, element_id);
            assert forall|q: Id| q != property_id implies #[trigger] map_get(
                map_insert(g.properties, property_id, element_id),
                q,
            ) == map_get(g.properties, q) by {
                lemma_set_property_id_then_get(g, property_id, element_id, q, element_id);
            }
            assert forall|e: Id| e != element_id implies #[trigger] map_get(
                map_push(g.elements, element_id, property_id),
                e,
            ) == map_get(g.elements, e) by {
                lemma_set_property_id_then_get(g, property_id, element_id, property_id, e);
            }
        }
        let mut elements = element_map_with_capacity(0);
        std::mem::swap(&mut elements, &mut self.element_id_to_property_ids);
        let ids = element_map_entry(&mut elements, element_id);
        ids.push(property_id);
        self.element_id_to_property_ids = elements;
        let mut properties = property_map_with_capacity(0);
        std::mem::swap(&mut properties, &mut self.property_id_to_element_id);
        property_map_insert(&mut properties, property_id, element_id);
        self.property_id_to_element_id = properties;
        self
    }

    /// Each element with its properties, in order.
    pub fn iter_element_id_and_property_ids(&self) -> (r: Vec<(&Id, &[Id])>)
        ensures
            entries_of(r@) == self@.elements,
    {
        let n = element_map_len(&self.element_id_to_property_ids);
        let mut r: Vec<(&Id, &[Id])> = Vec::new();
        let mut i: usize = 0;
        while i < n
            invariant
                i <= n == element_entries(self.element_id_to_property_ids).len(),
                entries_of(r@) == element_entries(
                    self.element_id_to_property_ids,
                ).subrange(0, i as int),
            decreases n - i,
        {
            match element_map_get_index(&self.element_id_to_property_ids, i) {
                Some((k, v)) => {
                    let ghost before = r@;
                    r.push((k, v.as_slice()));
                    assert(entries_of(r@) =~= entries_of(before).push((*k, v@)));
                },
                None => {
                    assert(false);
                },
            }
            i += 1;
            assert(entries_of(r@) =~= element_entries(
                self.element_id_to_property_ids,
            ).subrange(0, i as int));
        }
        assert(element_entries(self.element_id_to_property_ids).subrange(0, n as int)
            =~= element_entries(self.element_id_to_property_ids));
        r
    }
}

/// Relating a property to an element, then asking for the property's element
/// gives that element, and asking for the element's properties gives the
/// list it had with the property appended (the list `[property]` for a new
/// element); the other properties and elements read as before.
pub proof fn lemma_set_property_id_then_get(
    g: GroupV,
    property_id: Id,
    element_id: Id,
    other_property: Id,
    other_element: Id,
)
    requires
        distinct_keys(g.elements),
        distinct_keys(g.properties),
    ensures
        map_get(map_insert(g.properties, property_id, element_id), property_id) == Some(element_id),
        map_get(map_push(g.elements, element_id, property_id), element_id) == Some(
            match map_get(g.elements, element_id) {
                Some(list) => list.push(property_id),
                None => seq![property_id],
            },
        ),
        other_property != property_id ==> map_get(
            map_insert(g.properties, property_id, element_id),
            other_property,
        ) == map_get(g.properties, other_property),
        other_element != element_id ==> map_get(
            map_push(g.elements, element_id, property_id),
            other_element,
        ) == map_get(g.elements, other_element),
{
    lemma_map_insert_get(g.properties, property_id, element_id, other_property);
    let list = match map_get(g.elements, element_id) {
        Some(list) => list.push(property_id),
        None => seq![property_id],
    };
    lemma_map_insert_get(g.elements, element_id, list, other_element);
}

impl Clone for Group {
    fn clone(&self) -> (r: Self)
        ensures
            r@ == self@,
            distinct_keys(r@.elements),
            distinct_keys(r@.properties),
    {
        proof {
            use_type_invariant(self);
        }
        Group {
            element_id_to_property_ids: element_map_clone(&self.element_id_to_property_ids),
            property_id_to_element_id: property_map_clone(&self.property_id_to_element_id),
        }
    }
}

impl Default for Group {
    fn default() -> (r: Self)
        ensures
            r@.elements == Seq::<(Id, Seq<Id>)>::empty(),
            r@.properties == Seq::<(Id, Id)>::empty(),
    {
        Group::with_capacity(0)
    }
}

/// What a head gives while it is read, to build a [`Group`]: the element
/// read last, its identifier, and each property identifier read after an
/// element, with that element's identifier.
#[derive(Clone, Debug, PartialEq, Eq, Hash, PartialOrd, Ord)]
pub struct GroupBuilder {
    pub element: Option<ElementMeta>,
    pub element_id: Option<Id>,
    pub element_id_and_property_id: Vec<(Id, Id)>,
}

/// The relations that a list of (element, property) pairs makes, related
/// one after another.
pub open spec fn group_of_pairs(pairs: Seq<(Id, Id)>) -> GroupV
    decreases pairs.len(),
{
    if pairs.len() == 0 {
        GroupV { elements: Seq::empty(), properties: Seq::empty() }
    } else {
        let g = group_of_pairs(pairs.drop_last());
        let (e, p) = pairs.last();
        GroupV { elements: map_push(g.elements, e, p), properties: map_insert(g.properties, p, e) }
    }
}

/// In the group that pairs build, each property belongs to the element of
/// its last pair, and no identifier is a key twice.
pub proof fn lemma_group_of_pairs(pairs: Seq<(Id, Id)>)
    ensures
        distinct_keys(group_of_pairs(pairs).elements),
        distinct_keys(group_of_pairs(pairs).properties),
        forall|i: int|
            0 <= i < pairs.len() && (forall|j: int| i < j < pairs.len() ==> pairs[j].1 != pairs[i].1)
                ==> #[trigger] map_get(group_of_pairs(pairs).properties, pairs[i].1) == Some(pairs[i].0),
    decreases pairs.len(),
{
    if pairs.len() > 0 {
        let init = pairs.drop_last();
        lemma_group_of_pairs(init);
        let g = group_of_pairs(init);
        let (e, p) = pairs.last();
        lemma_map_insert_get(g.properties, p, e, p);
        let list = match map_get(g.elements, e) {
            Some(list) => list.push(p),
            None => seq![p],
        };
        lemma_map_insert_get(g.elements, e, list, e);
        assert forall|i: int|
            0 <= i < pairs.len() && (forall|j: int| i < j < pairs.len() ==> pairs[j].1 != pairs[i].1)
                implies #[trigger] map_get(group_of_pairs(pairs).properties, pairs[i].1) == Some(pairs[i].0) by {
            if i < pairs.len() - 1 {
                assert(pairs[pairs.len() - 1].1 != pairs[i].1);
                assert(init[i] == pairs[i]);
                assert forall|j: int| i < j < init.len() implies init[j].1 != init[i].1 by {
                    assert(init[j] == pairs[j]);
                }
                lemma_map_insert_get(g.properties, p, e, pairs[i].1);
            }
        }
    }
}

/// The property identifiers of the pairs with the element `e`, in the order
/// of the pairs.
pub open spec fn properties_of(pairs: Seq<(Id, Id)>, e: Id) -> Seq<Id>
    decreases pairs.len(),
{
    if pairs.len() == 0 {
        Seq::empty()
    } else {
        let rest = properties_of(pairs.drop_last(), e);
        if pairs.last().0 == e {
            rest.push(pairs.last().1)
        } else {
            rest
        }
    }
}

/// In the group that pairs build, each element has the properties of its
/// pairs, in the order of the pairs, and an element without pairs has no
/// entry; a property without a pair has no element.
pub proof fn lemma_group_of_pairs_lists(pairs: Seq<(Id, Id)>)
    ensures
        forall|e: Id|
            #[trigger] map_get(group_of_pairs(pairs).elements, e) == (if properties_of(pairs, e).len() == 0 {
                None
            } else {
                Some(properties_of(pairs, e))
            }),
        forall|p: Id|
            (forall|i: int| 0 <= i < pairs.len() ==> (#[trigger] pairs[i]).1 != p) ==> #[trigger] map_get(
                group_of_pairs(pairs).properties,
                p,
            ) is None,
    decreases pairs.len(),
{
    if pairs.len() > 0 {
        let init = pairs.drop_last();
        lemma_group_of_pairs_lists(init);
        lemma_group_of_pairs(init);
        let g = group_of_pairs(init);
        let (e, p) = pairs.last();
        let list = match map_get(g.elements, e) {
            Some(list) => list.push(p),
            None => seq![p],
        };
        assert forall|x: Id|
            #[trigger] map_get(group_of_pairs(pairs).elements, x) == (if properties_of(pairs, x).len() == 0 {
                None
            } else {
                Some(properties_of(pairs, x))
            }) by {
            lemma_map_insert_get(g.elements, e, list, x);
            if x == e {
                assert(map_get(g.elements, e) == (if properties_of(init, e).len() == 0 {
                    None
                } else {
                    Some(properties_of(init, e))
                }));
                if properties_of(init, e).len() == 0 {
                    assert(properties_of(init, e) =~= Seq::<Id>::empty());
                    assert(properties_of(pairs, e) =~= seq![p]);
                }
            } else {
                assert(map_get(g.elements, x) == (if properties_of(init, x).len() == 0 {
                    None
                } else {
                    Some(properties_of(init, x))
                }));
            }
        }
        assert forall|q: Id|
            (forall|i: int| 0 <= i < pairs.len() ==> (#[trigger] pairs[i]).1 != q) implies #[trigger] map_get(
                group_of_pairs(pairs).properties,
                q,
            ) is None by {
            assert(pairs[pairs.len() - 1].1 != q);
            assert forall|i: int| 0 <= i < init.len() implies (#[trigger] init[i]).1 != q by {
                assert(init[i] == pairs[i]);
            }
            lemma_map_insert_get(g.properties, p, e, q);
        }
    }
}

impl GroupBuilder {
    /// Records the property with the identifier of the current element;
    /// without a current element nothing is recorded and `None` comes back.
    pub fn add_property_id(&mut self, property_id: Id) -> (r: Option<()>)
        ensures
            final(self).element == old(self).element,
            final(self).element_id == old(self).element_id,
            match old(self).element_id {
                Some(e) => r is Some && final(self).element_id_and_property_id@
                    == old(self).element_id_and_property_id@.push((e, property_id)),
                None => r is None && final(self).element_id_and_property_id@
                    == old(self).element_id_and_property_id@,
            },
    {
        match self.element_id {
            Some(e) => {
                self.element_id_and_property_id.push((e, property_id));
                Some(())
            },
            None => None,
        }
    }

    /// Takes the current element out.
    pub fn take_element(&mut self) -> (r: Option<ElementMeta>)
        ensures
            r == old(self).element,
            final(self).element is None,
            final(self).element_id == old(self).element_id,
            final(self).element_id_and_property_id == old(self).element_id_and_property_id,
    {
        self.element.take()
    }

    /// Sets the current element.
    pub fn set_element(&mut self, element: ElementMeta)
        ensures
            final(self).element == Some(element),
            final(self).element_id == old(self).element_id,
            final(self).element_id_and_property_id == old(self).element_id_and_property_id,
    {
        self.element = Some(element);
    }

    /// Sets the identifier of the current element.
    pub fn set_element_id(&mut self, element_id: Id)
        ensures
            final(self).element_id == Some(element_id),
            final(self).element == old(self).element,
            final(self).element_id_and_property_id == old(self).element_id_and_property_id,
    {
        self.element_id = Some(element_id);
    }

    /// The group of the recorded pairs, related one after another.
    pub fn build(self) -> (r: Group)
        ensures
            r@ == group_of_pairs(self.element_id_and_property_id@),
            distinct_keys(r@.elements),
            distinct_keys(r@.properties),
            forall|e: Id|
                #[trigger] map_get(r@.elements, e) == (if properties_of(self.element_id_and_property_id@, e).len()
                    == 0 {
                    None
                } else {
                    Some(properties_of(self.element_id_and_property_id@, e))
                }),
    {
        proof {
            lemma_group_of_pairs_lists(self.element_id_and_property_id@);
        }
        let pairs = &self.element_id_and_property_id;
        let mut group = Group::with_capacity(pairs.len());
        let mut i: usize = 0;
        assert(pairs@.subrange(0, 0) =~= Seq::<(Id, Id)>::empty());
        while i < pairs.len()
            invariant
                i <= pairs@.len(),
                group@ == group_of_pairs(pairs@.subrange(0, i as int)),
            decreases pairs@.len() - i,
        {
            let (e, p) = pairs[i];
            group.set_property_id(p, e);
            proof {
                let next = pairs@.subrange(0, i + 1);
                assert(next.drop_last() =~= pairs@.subrange(0, i as int));
                assert(next.last() == (e, p));
            }
            i += 1;
        }
        assert(pairs@.subrange(0, i as int) =~= pairs@);
        proof {
            use_type_invariant(&group);
        }
        group
    }
}

impl Default for GroupBuilder {
    fn default() -> (r: Self)
        ensures
            r.element is None,
            r.element_id is None,
            r.element_id_and_property_id@ == Seq::<(Id, Id)>::empty(),
    {
        GroupBuilder { element: None, element_id: None, element_id_and_property_id: Vec::new() }
    }
}

} // verus!
