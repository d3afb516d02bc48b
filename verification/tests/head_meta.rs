use polygon::error::Error;
use polygon::head::block::property::scalar::{
    ScalarProperty, FLOAT, FLOAT32, INT, UCHAR, UINT, USHORT,
};
use polygon::head::meta::{
    CommentMeta, ElementMeta, FormatMeta, FormatMetaVariant, ListPropertyMeta, PropertyMeta,
    PropertyMetaVariant, ScalarPropertyDomain, ScalarPropertyMeta,
};

#[test]
fn mod_decode() {
    let source = b"Hello, World!\n";
    let target = source.len() - 1;
    let output = CommentMeta::decode(source).unwrap().0.len();
    assert_eq!(output, target);

    CommentMeta::decode(b"    ").unwrap_err();
}

#[test]
fn mod_decode_on_invalid_ascii_message() {
    CommentMeta::decode("\u{ae}".as_bytes()).unwrap_err();
}

#[test]
fn element_decode() {
    let (output, _) = ElementMeta::decode(b"color 7\n").unwrap();
    assert_eq!(output.name.as_bytes(), b"color");
    assert_eq!(output.size, 7);

    ElementMeta::decode(b"rgb 888 100\n").unwrap_err();
    ElementMeta::decode(b"     point    ").unwrap_err();
    ElementMeta::decode(b"vertex 3 \n").unwrap_err();
    ElementMeta::decode(b" ").unwrap_err();
    ElementMeta::decode(b"").unwrap_err();
}

#[test]
fn element_decode_on_invalid_ascii_name() {
    ElementMeta::decode("\u{ae} 3\n".as_bytes()).unwrap_err();
}

#[test]
fn element_decode_on_invalid_usize_size() {
    ElementMeta::decode(b"none -1\n").unwrap_err();
    ElementMeta::decode(b"unicode \x8e\xcd\n").unwrap_err();
}

#[test]
fn element_default() {
    let output = ElementMeta::default();
    assert_eq!(output.name.as_bytes(), b"default");
    assert_eq!(output.size, 0);
}

#[test]
fn format_decode() {
    let (output, _) = FormatMeta::decode(b"format ascii 1.0\n").unwrap();
    assert_eq!(output.variant, FormatMetaVariant::Ascii);
    assert_eq!(output.version.as_bytes(), b"1.0");

    let (output, _) = FormatMeta::decode(b"format binary_little_endian 1.0.1\n").unwrap();
    assert_eq!(output.variant, FormatMetaVariant::BinaryLittleEndian);
    assert_eq!(output.version.as_bytes(), b"1.0.1");

    let (output, _) = FormatMeta::decode(b"format    binary_big_endian private    \n").unwrap();
    assert_eq!(output.variant, FormatMetaVariant::BinaryBigEndian);
    assert_eq!(output.version.as_bytes(), b"private    ");
}

#[test]
fn decode_on_invalid_meta() {
    FormatMeta::decode(b"format binary_big_endian     ").unwrap_err();
    FormatMeta::decode(b"format binary_middle_endian 1.0\n").unwrap_err();
    FormatMeta::decode("format ascii 1.0+\u{ae}\n".as_bytes()).unwrap_err();
    FormatMeta::decode(b"formatascii 1.0\n").unwrap_err();
    FormatMeta::decode(b"format ascii").unwrap_err();
    FormatMeta::decode(b"format ").unwrap_err();
    FormatMeta::decode(b"fromat ").unwrap_err();
    FormatMeta::decode(b"form").unwrap_err();
    FormatMeta::decode(b"").unwrap_err();
}

#[test]
fn format_default() {
    let output = FormatMeta::default();
    assert_eq!(output.variant, FormatMetaVariant::default());
    assert_eq!(output.version.as_bytes(), b"1.0");
}

#[test]
fn format_matcher_is() {
    assert!(FormatMetaVariant::Ascii.is_ascii());
    assert!(FormatMetaVariant::BinaryBigEndian.is_binary_big_endian());
    assert!(FormatMetaVariant::BinaryLittleEndian.is_binary_little_endian());
    assert!(!FormatMetaVariant::BinaryLittleEndian.is_ascii());
    assert!(!FormatMetaVariant::BinaryBigEndian.is_binary_little_endian());
    assert!(!FormatMetaVariant::Ascii.is_binary_big_endian());
}

#[test]
fn mod_decode_list() {
    let domain = ScalarPropertyDomain::new();

    let (output, _) = PropertyMeta::decode(b"list uchar int vertex_indices\n", &domain).unwrap();
    assert_eq!(output.name.as_bytes(), b"vertex_indices");
    let target = PropertyMetaVariant::List(ListPropertyMeta { count: UCHAR(), value: INT() });
    assert_eq!(output.variant, target);

    let (output, _) =
        PropertyMeta::decode(b"list ushort uint    point_indices\n", &domain).unwrap();
    assert_eq!(output.name.as_bytes(), b"point_indices");
    let target = PropertyMetaVariant::List(ListPropertyMeta { count: USHORT(), value: UINT() });
    assert_eq!(output.variant, target);

    PropertyMeta::decode(b"listuchar int vertex_indices\n", &domain).unwrap_err();
}

#[test]
fn mod_decode_scalar() {
    let domain = ScalarPropertyDomain::new();

    let (output, _) = PropertyMeta::decode(b"float 32x\r\n", &domain).unwrap();
    assert_eq!(output.name.as_bytes(), b"32x");
    assert_eq!(output.variant, PropertyMetaVariant::Scalar(FLOAT()));

    let (output, _) = PropertyMeta::decode(b"float32 x\n", &domain).unwrap();
    assert_eq!(output.name.as_bytes(), b"x");
    assert_eq!(output.variant, PropertyMetaVariant::Scalar(FLOAT32()));

    let (output, _) = PropertyMeta::decode(b"int    y\n", &domain).unwrap();
    assert_eq!(output.name.as_bytes(), b"y");
    assert_eq!(output.variant, PropertyMetaVariant::Scalar(INT()));

    let (output, _) = PropertyMeta::decode(b"int    y\n", &domain).unwrap();
    assert_eq!(output.name.as_bytes(), b"y");
    assert_eq!(output.variant, PropertyMetaVariant::Scalar(INT()));

    let (output, _) = PropertyMeta::decode(b"int    y    \r\n", &domain).unwrap();
    assert_eq!(output.name.as_bytes(), b"y    ");
    assert_eq!(output.variant, PropertyMetaVariant::Scalar(INT()));

    let (output, _) = PropertyMeta::decode(b"         int y\n", &domain).unwrap();
    assert_eq!(output.name.as_bytes(), b"y");
    assert_eq!(output.variant, PropertyMetaVariant::Scalar(INT()));

    let (output, _) = PropertyMeta::decode(b"uchar  \n", &domain).unwrap();
    assert_eq!(output.name.as_bytes(), b"\n");
    assert_eq!(output.variant, PropertyMetaVariant::Scalar(UCHAR()));

    PropertyMeta::decode(b"\nuchar\n", &domain).unwrap_err();
    PropertyMeta::decode(b"uchar   ", &domain).unwrap_err();
    PropertyMeta::decode(b"uchar ", &domain).unwrap_err();
    PropertyMeta::decode(b"uchar", &domain).unwrap_err();
    PropertyMeta::decode(b"", &domain).unwrap_err();
}

#[test]
fn mod_decode_on_invalid_ascii_name() {
    let domain = ScalarPropertyDomain::new();
    let target = "\u{ae}".to_owned();
    let output = PropertyMeta::decode(b"float \xc2\xae\n", &domain).unwrap_err();
    match output {
        Error::InvalidAscii(output) => assert_eq!(output, target),
        error => panic!("{error:?}"),
    }
}

#[test]
fn mod_default() {
    let output = PropertyMeta::default().name;
    assert_eq!(output.as_bytes(), b"default");
    let target = PropertyMetaVariant::Scalar(ScalarPropertyMeta::default());
    let output = PropertyMetaVariant::default();
    assert_eq!(output, target);
}

#[test]
fn mod_matcher_is() {
    assert!(PropertyMetaVariant::List(ListPropertyMeta::default()).is_list());
    assert!(PropertyMetaVariant::Scalar(ScalarPropertyMeta::default()).is_scalar());
    assert!(!PropertyMetaVariant::Scalar(ScalarPropertyMeta::default()).is_list());
    assert!(!PropertyMetaVariant::List(ListPropertyMeta::default()).is_scalar());
}

#[test]
fn matcher_as() {
    let target = Some(ListPropertyMeta::default());
    let output = PropertyMetaVariant::List(ListPropertyMeta::default()).as_list().cloned();
    assert_eq!(output, target);

    let target = Some(ScalarPropertyMeta::default());
    let output = PropertyMetaVariant::Scalar(ScalarPropertyMeta::default()).as_scalar().cloned();
    assert_eq!(output, target);

    let target: Option<ListPropertyMeta> = None;
    let output = PropertyMetaVariant::Scalar(ScalarPropertyMeta::default()).as_list().cloned();
    assert_eq!(output, target);

    let target: Option<ScalarProperty> = None;
    let output = PropertyMetaVariant::List(ListPropertyMeta::default()).as_scalar().cloned();
    assert_eq!(output, target);
}
