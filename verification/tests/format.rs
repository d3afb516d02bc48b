use polygon::ascii::AsciiString;
use polygon::body::{Body, Data, DataVariant, ListData, ScalarData};
use polygon::format::{little_endian_order, Format, FormatVariant};

fn ascii(s: &str) -> AsciiString {
    AsciiString::from_slice(s.as_bytes()).unwrap()
}

#[test]
fn format_line_decode() {
    let (output, _) = Format::decode(b"format ascii 1.0\n").unwrap();
    assert_eq!(output, Format { variant: FormatVariant::Ascii, version: ascii("1.0") });

    let (output, _) = Format::decode(b"format binary_little_endian 1.0.1\n").unwrap();
    assert_eq!(output, Format { variant: FormatVariant::BinaryLittleEndian, version: ascii("1.0.1") });

    let (output, _) = Format::decode(b"format    binary_big_endian private    \n").unwrap();
    assert_eq!(output, Format { variant: FormatVariant::BinaryBigEndian, version: ascii("private    ") });
}

#[test]
fn format_line_decode_on_invalid_block() {
    Format::decode(b"format binary_big_endian     ").unwrap_err();
    Format::decode(b"format binary_middle_endian 1.0\n").unwrap_err();
    Format::decode("format ascii 1.0+\u{ae}\n".as_bytes()).unwrap_err();
    Format::decode(b"formatascii 1.0\n").unwrap_err();
    Format::decode(b"format ascii").unwrap_err();
    Format::decode(b"format ").unwrap_err();
    Format::decode(b"fromat ").unwrap_err();
    Format::decode(b"form").unwrap_err();
    Format::decode(b"").unwrap_err();
}

#[test]
fn encode_on_slice() {
    let mut output = Vec::new();
    Format::default().encode(&mut output);
    assert_eq!(output.as_slice(), b"format ascii 1.0\n");
}

#[test]
fn new() {
    let target = Format { variant: FormatVariant::Ascii, version: ascii("1.0") };
    let output = Format::new(FormatVariant::Ascii, b"1.0").unwrap();
    assert_eq!(output, target);
    assert!(!output.is_binary_native_endian());

    Format::new(FormatVariant::default(), "\u{ae}".as_bytes()).unwrap_err();
}

#[test]
fn format_variant_native_endian_on_each_machine() {
    assert!(FormatVariant::BinaryLittleEndian.is_binary_native_endian_on(true));
    assert!(!FormatVariant::BinaryLittleEndian.is_binary_native_endian_on(false));
    assert!(FormatVariant::BinaryBigEndian.is_binary_native_endian_on(false));
    assert!(!FormatVariant::Ascii.is_binary_native_endian_on(true));
    let native = if (1u16.to_ne_bytes()[0] == 1) {
        FormatVariant::BinaryLittleEndian
    } else {
        FormatVariant::BinaryBigEndian
    };
    assert!(native.is_binary_native_endian());
}

#[test]
fn body_holds_the_data_of_each_element() {
    let scalar = Data::from(DataVariant::Scalar(ScalarData::from(vec![1, 2, 3])));
    let list = Data::from(DataVariant::List(ListData::with_capacity(2)));
    assert!(scalar.is_scalar());
    assert!(list.is_list());
    assert_eq!(scalar.as_scalar().unwrap().clone().into_inner(), vec![1, 2, 3]);
    assert!(scalar.as_list().is_none());

    let mut body = Body::from(vec![vec![scalar.clone(), list.clone()], vec![scalar.clone()]]);
    let iters = body.iters();
    assert_eq!(iters.len(), 2);
    assert_eq!(iters[0].len(), 2);
    assert_eq!(iters[1][0], &scalar);

    body.iters_mut()[1].push(list.clone());
    assert_eq!(body.iters()[1].len(), 2);

    assert!(Body::with_capacity(4).is_empty());
    assert!(ScalarData::with_capacity(4).is_empty());
    assert!(ListData::with_capacity(4).into_inner().is_empty());
    assert!(Data::default().is_scalar());
}

#[test]
fn data_changes_in_place() {
    let mut scalar = Data::from(DataVariant::Scalar(ScalarData::from(vec![1, 2, 3])));
    assert!(scalar.as_list_mut().is_none());
    scalar.as_scalar_mut().unwrap().as_mut_vec().push(4);
    assert_eq!(scalar.as_scalar().unwrap().clone().into_inner(), vec![1, 2, 3, 4]);

    let mut list = Data::from(DataVariant::List(ListData::with_capacity(1)));
    assert!(list.as_scalar_mut().is_none());
    list.as_list_mut().unwrap().as_mut_vec().push(vec![5u8, 6].into_boxed_slice());
    assert_eq!(list.as_list().unwrap().len(), 1);

    *list.variant_mut() = DataVariant::Scalar(ScalarData::from(vec![7]));
    assert!(list.is_scalar());
}

#[test]
fn little_endian_order_reads_the_first_byte_of_one() {
    assert!(little_endian_order([1, 0]));
    assert!(!little_endian_order([0, 1]));
    assert_eq!(little_endian_order(1u16.to_ne_bytes()), 1u16.to_le_bytes() == 1u16.to_ne_bytes());
}
