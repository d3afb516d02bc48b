use polygon::error::Error;
use polygon::head::block::property::scalar::{
    ScalarProperty, FLOAT, FLOAT32, FLOAT64, INT, LIST, UCHAR, UINT, USHORT,
};
use polygon::head::block::{
    CommentBlock, ElementBlock, FormatBlock, FormatVariant, ListProperty, ListPropertyBlock,
    PropertyBlock, PropertyVariant, ScalarPropertyDomain,
};

#[test]
fn head_block_comment_decode() {
    let source = b"Hello, World!\n";
    let target = source.len() - 1;
    let output = CommentBlock::decode(source).unwrap().0.message.len();
    assert_eq!(output, target);

    CommentBlock::decode(b"    ").unwrap_err();
}

#[test]
fn head_block_comment_decode_on_invalid_ascii_message() {
    CommentBlock::decode("\u{ae}".as_bytes()).unwrap_err();
}

#[test]
fn head_block_comment_default() {
    let output = CommentBlock::default().message;
    assert_eq!(output.as_bytes(), b"default");
}

#[test]
fn head_block_element_decode() {
    let (output, _) = ElementBlock::decode(b"color 7\n").unwrap();
    assert_eq!(output.name.as_bytes(), b"color");
    assert_eq!(output.size, 7);

    ElementBlock::decode(b"rgb 888 100\n").unwrap_err();
    ElementBlock::decode(b"     point    ").unwrap_err();
    ElementBlock::decode(b"vertex 3 \n").unwrap_err();
    ElementBlock::decode(b" ").unwrap_err();
    ElementBlock::decode(b"").unwrap_err();
}

#[test]
fn head_block_element_decode_on_invalid_ascii_name() {
    ElementBlock::decode("\u{ae} 3\n".as_bytes()).unwrap_err();
}

#[test]
fn decode_on_invalid_u64_size() {
    ElementBlock::decode(b"none -1\n").unwrap_err();
    ElementBlock::decode(b"unicode \x8e\xcd\n").unwrap_err();
}

#[test]
fn head_block_element_default() {
    let output = ElementBlock::default();
    assert_eq!(output.name.as_bytes(), b"default");
    assert_eq!(output.size, 0);
}

#[test]
fn head_block_format_decode() {
    let (output, _) = FormatBlock::decode(b"format ascii 1.0\n").unwrap();
    assert_eq!(output.variant, FormatVariant::Ascii);
    assert_eq!(output.version.as_bytes(), b"1.0");

    let (output, _) = FormatBlock::decode(b"format binary_little_endian 1.0.1\n").unwrap();
    assert_eq!(output.variant, FormatVariant::BinaryLittleEndian);
    assert_eq!(output.version.as_bytes(), b"1.0.1");

    let (output, _) = FormatBlock::decode(b"format    binary_big_endian private    \n").unwrap();
    assert_eq!(output.variant, FormatVariant::BinaryBigEndian);
    assert_eq!(output.version.as_bytes(), b"private    ");
}

#[test]
fn format_decode_on_invalid_block() {
    FormatBlock::decode(b"format binary_big_endian     ").unwrap_err();
    FormatBlock::decode(b"format binary_middle_endian 1.0\n").unwrap_err();
    FormatBlock::decode("format ascii 1.0+\u{ae}\n".as_bytes()).unwrap_err();
    FormatBlock::decode(b"formatascii 1.0\n").unwrap_err();
    FormatBlock::decode(b"format ascii").unwrap_err();
    FormatBlock::decode(b"format ").unwrap_err();
    FormatBlock::decode(b"form").unwrap_err();
    FormatBlock::decode(b"").unwrap_err();
}

#[test]
fn head_block_format_default() {
    let output = FormatBlock::default();
    assert_eq!(output.variant, FormatVariant::default());
    assert_eq!(output.version.as_bytes(), b"1.0");
}

#[test]
fn list_default() {
    let domain = ScalarPropertyDomain::new();
    let property = ListPropertyBlock::default();
    ScalarProperty::search(&domain, property.count.kind.as_bytes()).unwrap();
    ScalarProperty::search(&domain, property.value.kind.as_bytes()).unwrap();
}

#[test]
fn head_block_property_decode_list() {
    let domain = ScalarPropertyDomain::new();

    let (output, _) = PropertyBlock::decode(b"list uchar int vertex_indices\n", &domain).unwrap();
    assert_eq!(output.name.as_bytes(), b"vertex_indices");
    let target = PropertyVariant::List(ListProperty { count: UCHAR(), entry: INT() });
    assert_eq!(output.variant, target);

    let (output, _) =
        PropertyBlock::decode(b"list ushort uint    point_indices\n", &domain).unwrap();
    assert_eq!(output.name.as_bytes(), b"point_indices");
    let target = PropertyVariant::List(ListProperty { count: USHORT(), entry: UINT() });
    assert_eq!(output.variant, target);

    PropertyBlock::decode(b"listuchar int vertex_indices\n", &domain).unwrap_err();
}

#[test]
fn head_block_property_decode_scalar() {
    let domain = ScalarPropertyDomain::new();

    let (output, _) = PropertyBlock::decode(b"float 32x\r\n", &domain).unwrap();
    assert_eq!(output.name.as_bytes(), b"32x");
    assert_eq!(output.variant, PropertyVariant::Scalar(FLOAT()));

    let (output, _) = PropertyBlock::decode(b"float32 x\n", &domain).unwrap();
    assert_eq!(output.name.as_bytes(), b"x");
    assert_eq!(output.variant, PropertyVariant::Scalar(FLOAT32()));

    let (output, _) = PropertyBlock::decode(b"int    y\n", &domain).unwrap();
    assert_eq!(output.name.as_bytes(), b"y");
    assert_eq!(output.variant, PropertyVariant::Scalar(INT()));

    let (output, _) = PropertyBlock::decode(b"int    y\n", &domain).unwrap();
    assert_eq!(output.name.as_bytes(), b"y");
    assert_eq!(output.variant, PropertyVariant::Scalar(INT()));

    let (output, _) = PropertyBlock::decode(b"int    y    \r\n", &domain).unwrap();
    assert_eq!(output.name.as_bytes(), b"y    ");
    assert_eq!(output.variant, PropertyVariant::Scalar(INT()));

    let (output, _) = PropertyBlock::decode(b"         int y\n", &domain).unwrap();
    assert_eq!(output.name.as_bytes(), b"y");
    assert_eq!(output.variant, PropertyVariant::Scalar(INT()));

    let (output, _) = PropertyBlock::decode(b"uchar  \n", &domain).unwrap();
    assert_eq!(output.name.as_bytes(), b"\n");
    assert_eq!(output.variant, PropertyVariant::Scalar(UCHAR()));

    PropertyBlock::decode(b"\nuchar\n", &domain).unwrap_err();
    PropertyBlock::decode(b"uchar   ", &domain).unwrap_err();
    PropertyBlock::decode(b"uchar ", &domain).unwrap_err();
    PropertyBlock::decode(b"uchar", &domain).unwrap_err();
}

#[test]
fn head_block_property_decode_on_invalid_ascii_name() {
    let domain = ScalarPropertyDomain::new();
    let target = "\u{ae}".to_owned();
    let output = PropertyBlock::decode(b"float \xc2\xae\n", &domain).unwrap_err();
    match output {
        Error::InvalidAscii(output) => assert_eq!(output, target),
        error => panic!("{error:?}"),
    }
}

#[test]
fn head_block_property_default() {
    let output = PropertyBlock::default().name;
    assert_eq!(output.as_bytes(), b"default");
    let target = PropertyVariant::Scalar(ScalarProperty::default());
    let output = PropertyVariant::default();
    assert_eq!(output, target);
}

#[test]
fn scalar_decode() {
    let domain = ScalarPropertyDomain::new();

    let (output, _) = ScalarProperty::decode(b"float ", &domain).unwrap();
    assert_eq!(output, FLOAT());
    let (output, _) = ScalarProperty::decode(b"float64 ", &domain).unwrap();
    assert_eq!(output, FLOAT64());
    let (output, _) = ScalarProperty::decode(b"  int ", &domain).unwrap();
    assert_eq!(output, INT());
    let (output, _) = ScalarProperty::decode(b"uchar ", &domain).unwrap();
    assert_eq!(output, UCHAR());

    ScalarProperty::decode(b"uchar\n", &domain).unwrap_err();
    ScalarProperty::decode(b"example ", &domain).unwrap_err();
    ScalarProperty::decode(b"", &domain).unwrap_err();
}

#[test]
fn scalar_default() {
    let domain = ScalarPropertyDomain::new();
    ScalarProperty::search(&domain, ScalarProperty::default().kind.as_bytes()).unwrap();
}

#[test]
fn scalar_display() {
    assert_eq!(FLOAT().to_display_bytes(), b"float".to_vec());
    assert_eq!(FLOAT32().to_display_bytes(), b"float32".to_vec());
}

#[test]
fn register_and_search_and_unregister() {
    let mut domain = ScalarPropertyDomain::new();

    ScalarProperty::search(&domain, b"uint").unwrap();
    let target = UINT();
    let output = ScalarProperty::register(&mut domain, b"uint", 4).unwrap().unwrap();
    assert_eq!(output, target);
    let output = ScalarProperty::search(&domain, b"uint").unwrap();
    assert_eq!(output, target);

    let output = ScalarProperty::search(&domain, b"example");
    assert_eq!(output, None);
    let output = ScalarProperty::register(&mut domain, b"example", 1).unwrap();
    assert_eq!(output, None);

    let target = ScalarProperty::try_new(b"example", 1).unwrap();
    let output = ScalarProperty::search(&domain, b"example").unwrap();
    assert_eq!(output, target);
    let output = ScalarProperty::unregister(&mut domain, b"example").unwrap();
    assert_eq!(output, target);

    let output = ScalarProperty::search(&domain, b"example");
    assert_eq!(output, None);
}

#[test]
fn register_on_list() {
    let mut domain = ScalarPropertyDomain::new();
    ScalarProperty::search(&domain, b"list").unwrap();
    ScalarProperty::register(&mut domain, b"list", 0).unwrap_err();
}

#[test]
fn search_on_invalid_ascii_kind() {
    let domain = ScalarPropertyDomain::new();
    let output = ScalarProperty::search(&domain, "\u{ae}".as_bytes());
    assert_eq!(output, None);
}

#[test]
fn try_new_on_invalid_ascii_kind() {
    ScalarProperty::try_new("\u{ae}".as_bytes(), 1).unwrap_err();
}

#[test]
fn unregister_on_invalid_ascii_kind() {
    let mut domain = ScalarPropertyDomain::new();
    let output = ScalarProperty::unregister(&mut domain, "\u{ae}".as_bytes());
    assert_eq!(output, None);
}

#[test]
fn unregister_on_list() {
    let mut domain = ScalarPropertyDomain::new();
    let output = ScalarProperty::unregister(&mut domain, b"list");
    assert_eq!(output, None);
    let output = ScalarProperty::search(&domain, b"list").unwrap();
    assert_eq!(output, LIST());
}

#[test]
fn head_blocks_encode_then_decode_give_back_the_blocks() {
    let format = FormatBlock {
        variant: FormatVariant::BinaryBigEndian,
        version: polygon::ascii::AsciiString::from_slice(b"1.0").unwrap(),
    };
    let mut text = vec![];
    format.encode(&mut text);
    let length = text.len();
    text.extend_from_slice(b"element");
    let (again, consumed) = FormatBlock::decode(&text).unwrap();
    assert_eq!(again, format);
    assert_eq!(consumed, length);

    let info = polygon::head::block::ObjInfoBlock {
        message: polygon::ascii::AsciiString::from_slice(b"made by hand").unwrap(),
    };
    let mut text = vec![];
    info.encode(&mut text);
    let (again, consumed) = polygon::head::block::ObjInfoBlock::decode(&text).unwrap();
    assert_eq!(again, info);
    assert_eq!(consumed, text.len());

    let domain = ScalarPropertyDomain::new();
    let list = ListProperty { count: UCHAR(), entry: INT() };
    let mut text = vec![];
    list.encode(&mut text);
    text.extend_from_slice(b"vertex_indices\n");
    let (again, consumed) = ListProperty::decode(&text, &domain).unwrap();
    assert_eq!(again, list);
    assert_eq!(consumed, b"uchar int ".len());
}
