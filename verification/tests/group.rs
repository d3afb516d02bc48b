use polygon::group::{Id, IdCounter};
use polygon::head::group::{Group, GroupBuilder};
use polygon::head::meta::ElementMeta;

#[test]
fn build_on_simple_tree() {
    let mut ids = IdCounter::new();
    let source_element_id = Id::new(&mut ids);
    let source_property_ids = [Id::new(&mut ids), Id::new(&mut ids)];

    let mut group = GroupBuilder::default();
    group.set_element_id(source_element_id);
    group.add_property_id(source_property_ids[0]).unwrap();
    group.add_property_id(source_property_ids[1]).unwrap();
    let group = group.build();

    let target = source_property_ids[1];
    let output = group.get_property_ids(source_element_id).unwrap()[1];
    assert_eq!(output, target);

    let target = source_element_id;
    let output = group.get_element_id(source_property_ids[0]).unwrap();
    assert_eq!(output, target);
    let output = group.get_element_id(source_property_ids[1]).unwrap();
    assert_eq!(output, target);
}

#[test]
fn build_on_misplaced_property() {
    let mut ids = IdCounter::new();
    let output = GroupBuilder::default().add_property_id(Id::new(&mut ids));
    assert_eq!(output, None);
}

#[test]
fn get_and_set_property_id() {
    let mut ids = IdCounter::new();
    let mut group = Group::default();
    let element_id = Id::new(&mut ids);
    let property_id = Id::new(&mut ids);
    group.set_property_id(property_id, element_id);

    let output = group.get_element_id(property_id).unwrap();
    assert_eq!(output, element_id);

    let output = group.get_property_ids(element_id).unwrap();
    assert_eq!(output, &[property_id]);
}

#[test]
fn group_keeps_element_order_and_moves_properties() {
    let mut ids = IdCounter::new();
    let a = Id::new(&mut ids);
    let b = Id::new(&mut ids);
    let p = Id::new(&mut ids);
    let q = Id::new(&mut ids);

    let mut group = Group::with_capacity(4);
    group.set_property_id(p, a);
    group.set_property_id(q, b);
    group.set_property_id(p, b);

    assert_eq!(group.get_element_id(p), Some(b));
    assert_eq!(group.get_property_ids(a).unwrap(), &[p]);
    assert_eq!(group.get_property_ids(b).unwrap(), &[q, p]);

    let listed = group.iter_element_id_and_property_ids();
    assert_eq!(listed.len(), 2);
    assert_eq!(*listed[0].0, a);
    assert_eq!(*listed[1].0, b);
}

#[test]
fn builder_takes_and_sets_the_element() {
    let mut builder = GroupBuilder::default();
    assert_eq!(builder.take_element(), None);
    builder.set_element(ElementMeta::default());
    assert_eq!(builder.take_element(), Some(ElementMeta::default()));
    assert_eq!(builder.take_element(), None);
}

#[test]
fn group_clone_keeps_both_relations() {
    let mut counter = IdCounter::new();
    let element = Id::new(&mut counter);
    let property = Id::new(&mut counter);
    let mut group = Group::with_capacity(1);
    group.set_property_id(property, element);
    let copy = group.clone();
    assert_eq!(copy, group);
    assert_eq!(copy.get_element_id(property), Some(element));
}

#[test]
fn build_gives_each_element_its_properties_in_order() {
    let mut ids = IdCounter::new();
    let a = Id::new(&mut ids);
    let b = Id::new(&mut ids);
    let p = [Id::new(&mut ids), Id::new(&mut ids), Id::new(&mut ids), Id::new(&mut ids)];
    let unused = Id::new(&mut ids);

    let mut builder = GroupBuilder::default();
    builder.set_element_id(a);
    builder.add_property_id(p[0]).unwrap();
    builder.set_element_id(b);
    builder.add_property_id(p[1]).unwrap();
    builder.set_element_id(a);
    builder.add_property_id(p[2]).unwrap();
    builder.add_property_id(p[3]).unwrap();
    let group = builder.build();

    assert_eq!(group.get_property_ids(a).unwrap(), &[p[0], p[2], p[3]]);
    assert_eq!(group.get_property_ids(b).unwrap(), &[p[1]]);
    assert!(group.get_property_ids(unused).is_none());
    assert_eq!(group.get_element_id(p[1]), Some(b));
    assert_eq!(group.get_element_id(p[3]), Some(a));
    assert!(group.get_element_id(unused).is_none());
}
