use polygon::group::{Id, IdCounter};
use polygon::object::id::{Id as ObjectId, IdCounter as ObjectIdCounter};

#[test]
fn default_and_deref_and_into() {
    let mut counter = IdCounter::new();
    let _: u64 = Id::new(&mut counter).into();
    let target: u64 = (*Id::new(&mut counter) + 1).into();
    let output: usize = Id::new(&mut counter).into();
    assert_eq!(output as u64, target);
}

#[test]
fn id_display() {
    let mut counter = IdCounter::new();
    let id = Id::new(&mut counter);
    let output = u64::from_str_radix(id.to_ascii_string().as_str(), 10).is_ok();
    assert!(output);
}

#[test]
fn id_debug() {
    let mut counter = ObjectIdCounter::new();
    let output = ObjectId::new(&mut counter).to_ascii_string().as_str().parse::<u64>().is_ok();
    assert!(output);
}

#[test]
fn default_and_deref() {
    let mut counter = ObjectIdCounter::new();
    let target: u64 = *ObjectId::new(&mut counter) + 1;
    let output: u64 = *ObjectId::new(&mut counter);
    assert_eq!(output, target);
}

#[test]
fn id_counter_starts_at_zero_and_counts_up() {
    let mut counter = IdCounter::new();
    assert_eq!(Id::new(&mut counter).value(), 0);
    assert_eq!(Id::new(&mut counter).value(), 1);
    assert_eq!(Id::new(&mut counter).to_ascii_string().as_bytes(), b"2");
}
