use polygon::ascii::AsciiString;
use polygon::block::comment::tagged::{CommentBlock as TaggedComment, CommentVariant};
use polygon::block::property::scalar::{FLOAT, FLOAT32, INT, UCHAR, UINT, UINT32, USHORT};
use polygon::block::property::ScalarPropertyBlockData;
use polygon::block::{
    BlockVariant, CommentBlock, ElementBlock, FormatBlock, FormatVariant, ListProperty,
    ListPropertyBlockInfo, PropertyBlock, PropertyBlockVariant, ScalarPropertyBlock,
};
use polygon::error::Error;
use polygon::head::block::property::scalar::{ScalarProperty, ScalarPropertyDomain};

#[test]
fn block_comment_decode() {
    let source = b"Hello, World!\n";
    let target = source.len() - 1;
    let output = CommentBlock::decode(source).unwrap().0.len();
    assert_eq!(output, target);

    CommentBlock::decode(b"    ").unwrap_err();
}

#[test]
fn block_comment_decode_on_invalid_ascii_message() {
    CommentBlock::decode("\u{ae}".as_bytes()).unwrap_err();
}

#[test]
fn accessbility() {
    let mut element = ElementBlock::new(b"vertex", 10).unwrap();
    assert_eq!(element.name.as_bytes(), b"vertex");
    assert_eq!((*element).as_bytes(), b"vertex");
    element.name = AsciiString::from_slice(b"vertex^2").unwrap();
    element.size = 10 * 10;
    assert_eq!((*element).as_bytes(), b"vertex^2");
}

#[test]
fn block_element_decode() {
    let (output, _) = ElementBlock::decode(b"color 7\n").unwrap();
    assert_eq!(output.name.as_bytes(), b"color");
    assert_eq!(output.size, 7);

    ElementBlock::decode(b"rgb 888 100\n").unwrap_err();
    ElementBlock::decode(b"     point    ").unwrap_err();
    ElementBlock::decode(b"vertex 3 \n").unwrap_err();
    ElementBlock::decode(b" ").unwrap_err();
    ElementBlock::decode(b"").unwrap_err();
}

#[test]
fn block_element_decode_on_invalid_ascii_name() {
    ElementBlock::decode("\u{ae} 3\n".as_bytes()).unwrap_err();
}

#[test]
fn block_element_decode_on_invalid_usize_size() {
    ElementBlock::decode(b"none -1\n").unwrap_err();
    ElementBlock::decode(b"unicode \x8e\xcd\n").unwrap_err();
}

#[test]
fn new_on_invalid_ascii_name() {
    ElementBlock::new("\u{ae}".as_bytes(), 0).unwrap_err();
    ElementBlock::new("\u{a7}".as_bytes(), 1).unwrap_err();
}

#[test]
fn block_format_decode() {
    let (output, _) = FormatBlock::decode(b"ascii 1.0\n").unwrap();
    assert_eq!(output.variant, FormatVariant::Ascii);
    assert_eq!(output.version.as_bytes(), b"1.0");

    let (output, _) = FormatBlock::decode(b"binary_little_endian 1.0.1\n").unwrap();
    assert_eq!(output.variant, FormatVariant::BinaryLittleEndian);
    assert_eq!(output.version.as_bytes(), b"1.0.1");

    let (output, _) = FormatBlock::decode(b"    binary_big_endian private    \n").unwrap();
    assert_eq!(output.variant, FormatVariant::BinaryBigEndian);
    assert_eq!(output.version.as_bytes(), b"private    ");

    FormatBlock::decode(b"binary_big_endian     ").unwrap_err();
    FormatBlock::decode(b"binary_middle_endian\n").unwrap_err();
    FormatBlock::decode("ascii 1.0+\u{ae}\n".as_bytes()).unwrap_err();
    FormatBlock::decode(b"").unwrap_err();
}

#[test]
fn block_format_default() {
    let output = FormatBlock::default();
    assert_eq!(output.variant, FormatVariant::default());
    assert_eq!(output.version.as_bytes(), b"1.0");
}

#[test]
fn block_mod_default() {
    let target = BlockVariant::Comment(Default::default());
    let output = BlockVariant::default();
    assert_eq!(output, target);
}

#[test]
fn list_decode() {
    let domain = ScalarPropertyDomain::new();
    let target = ListProperty { count: UCHAR(), entry: INT() };
    let (output, _) = ListProperty::decode(b"uchar int ", &domain).unwrap();
    assert_eq!(output, target);
}

#[test]
fn block_list_default() {
    let domain = ScalarPropertyDomain::new();
    let property = ListProperty::default();
    ScalarProperty::search(&domain, property.count.kind.as_bytes()).unwrap();
    ScalarProperty::search(&domain, property.entry.kind.as_bytes()).unwrap();
}

#[test]
fn block_property_decode_list() {
    let domain = ScalarPropertyDomain::new();

    let (output, _) = PropertyBlock::decode(b"list uchar int vertex_indices\n", &domain).unwrap();
    assert_eq!(output.name.as_bytes(), b"vertex_indices");
    let target = ListPropertyBlockInfo { count: UCHAR(), value: INT() };
    assert_eq!(output.as_list().unwrap().info, target);

    let (output, _) =
        PropertyBlock::decode(b"list ushort uint    point_indices\n", &domain).unwrap();
    assert_eq!(output.name.as_bytes(), b"point_indices");
    let target = ListPropertyBlockInfo { count: USHORT(), value: UINT() };
    assert_eq!(output.as_list().unwrap().info, target);

    PropertyBlock::decode(b"listuchar int vertex_indices\n", &domain).unwrap_err();
}

#[test]
fn block_property_decode_scalar() {
    let domain = ScalarPropertyDomain::new();

    let (output, _) = PropertyBlock::decode(b"float 32x\r\n", &domain).unwrap();
    assert_eq!(output.name.as_bytes(), b"32x");
    assert_eq!(output.as_scalar().unwrap().info, FLOAT());

    let (output, _) = PropertyBlock::decode(b"float32 x\n", &domain).unwrap();
    assert_eq!(output.name.as_bytes(), b"x");
    assert_eq!(output.as_scalar().unwrap().info, FLOAT32());

    let (output, _) = PropertyBlock::decode(b"int    y\n", &domain).unwrap();
    assert_eq!(output.name.as_bytes(), b"y");
    assert_eq!(output.as_scalar().unwrap().info, INT());

    let (output, _) = PropertyBlock::decode(b"int    y\n", &domain).unwrap();
    assert_eq!(output.name.as_bytes(), b"y");
    assert_eq!(output.as_scalar().unwrap().info, INT());

    let (output, _) = PropertyBlock::decode(b"int    y    \r\n", &domain).unwrap();
    assert_eq!(output.name.as_bytes(), b"y    ");
    assert_eq!(output.as_scalar().unwrap().info, INT());

    let (output, _) = PropertyBlock::decode(b"         int y\n", &domain).unwrap();
    assert_eq!(output.name.as_bytes(), b"y");
    assert_eq!(output.as_scalar().unwrap().info, INT());

    let (output, _) = PropertyBlock::decode(b"uchar  \n", &domain).unwrap();
    assert_eq!(output.name.as_bytes(), b"\n");
    assert_eq!(output.as_scalar().unwrap().info, UCHAR());

    PropertyBlock::decode(b"\nuchar\n", &domain).unwrap_err();
    PropertyBlock::decode(b"uchar   ", &domain).unwrap_err();
    PropertyBlock::decode(b"uchar ", &domain).unwrap_err();
    PropertyBlock::decode(b"uchar", &domain).unwrap_err();
    PropertyBlock::decode(b"", &domain).unwrap_err();
}

#[test]
fn block_property_decode_on_invalid_ascii_name() {
    let domain = ScalarPropertyDomain::new();
    let target = "\u{ae}".to_owned();
    let output = PropertyBlock::decode(b"float \xc2\xae\n", &domain).unwrap_err();
    match output {
        Error::InvalidAscii(output) => assert_eq!(output, target),
        error => panic!("{error:?}"),
    }
}

#[test]
fn block_property_default() {
    match PropertyBlockVariant::default() {
        PropertyBlockVariant::Scalar(_) => {},
        variant => panic!("{variant:?}"),
    }
}

#[test]
fn mod_debug() {
    let block = ScalarPropertyBlock {
        data: ScalarPropertyBlockData::from([0, 0, 0, 0, 0, 0, 0, 0]),
        info: UINT32(),
    };
    assert_eq!(block.summary(), b"{ uint32 [2] }".to_vec());
}

#[test]
fn tagged_comment_key() {
    let comment = TaggedComment { message: "made by hand".to_string(), variant: CommentVariant::Comment };
    assert_eq!(comment.key(), "comment");
    let info = TaggedComment { message: "x".to_string(), variant: CommentVariant::ObjInfo };
    assert_eq!(info.key(), "obj_info");
}

#[test]
fn format_block_encode_then_decode_gives_back_the_block() {
    let format = FormatBlock {
        variant: FormatVariant::BinaryLittleEndian,
        version: AsciiString::from_slice(b"1.0").unwrap(),
    };
    let mut text = vec![];
    format.encode(&mut text);
    assert_eq!(text, b"binary_little_endian 1.0\n".to_vec());
    let (again, consumed) = FormatBlock::decode(&text).unwrap();
    assert_eq!(again, format);
    assert_eq!(consumed, text.len());
}
