use polygon::block::CommentBlock;
use polygon::error::Error;
use polygon::head::block::property::scalar::{ScalarProperty, ScalarPropertyDomain};
use polygon::head::CommentMeta;

#[test]
fn invalid_bytes_are_reported_as_lossy_text() {
    let lossy = Error::InvalidAscii("\u{fffd}".to_owned());
    assert_eq!(ScalarProperty::try_new(&[0x80], 1).unwrap_err(), lossy);
    let mut domain = ScalarPropertyDomain::new();
    assert_eq!(ScalarProperty::register(&mut domain, &[0x80], 1).unwrap_err(), lossy);
    assert_eq!(CommentBlock::new(&[0x80]).unwrap_err(), lossy);
    assert_eq!(CommentMeta::new(&[0x80]).unwrap_err(), lossy);
    assert_eq!(
        CommentMeta::new("caf\u{e9}".as_bytes()).unwrap_err(),
        Error::InvalidAscii("caf\u{e9}".to_owned())
    );
    assert_eq!(
        ScalarProperty::register(&mut domain, b"list", 1).unwrap_err(),
        Error::InvalidPolygonPropertyKind("list".to_owned())
    );
}

#[test]
fn list_stays_in_the_domain() {
    let mut domain = ScalarPropertyDomain::new();
    assert!(ScalarProperty::register(&mut domain, b"list", 4).is_err());
    assert!(ScalarProperty::unregister(&mut domain, b"list").is_none());
    ScalarProperty::register(&mut domain, b"vec3", 12).unwrap();
    ScalarProperty::unregister(&mut domain, b"float").unwrap();
    let list = ScalarProperty::search(&domain, b"list").unwrap();
    assert_eq!(list.size, 0);
    assert!(ScalarProperty::search(&domain, &[0x80]).is_none());
}
