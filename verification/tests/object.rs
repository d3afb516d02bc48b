use polygon::error::Error;
use polygon::header::{Element, Format, Header, Properties, Property, PropertyKind, ScalarPropertyKind, ScalarSizes};
use polygon::object::Object;
use polygon::payload::{Payload, ScalarPayload};

const TRIANGLE_HEADER_LE: &[u8] =
    b"ply\nformat binary_little_endian 1.0\nelement vertex 3\nproperty float x\nproperty float y\nend_header\n";
const TRIANGLE_HEADER_BE: &[u8] =
    b"ply\nformat binary_big_endian 1.0\nelement vertex 3\nproperty float x\nproperty float y\nend_header\n";

const X: [[u8; 4]; 3] = [[0x8f, 0xc3, 0xf5, 0x3d], [0, 0, 0, 0], [0x8f, 0xc2, 0x75, 0xbe]];
const Y: [[u8; 4]; 3] = [[0x8f, 0xc2, 0xf5, 0xbd], [0, 0, 0, 0], [0x00, 0x00, 0x80, 0x00]];

fn triangle(big_endian: bool) -> Vec<u8> {
    let mut source = if big_endian { TRIANGLE_HEADER_BE.to_vec() } else { TRIANGLE_HEADER_LE.to_vec() };
    for i in 0..3 {
        for datum in [X[i], Y[i]] {
            let mut datum = datum.to_vec();
            if big_endian {
                datum.reverse();
            }
            source.extend(datum);
        }
    }
    source
}

fn scalar_property(kind: &str, name: &str) -> Property {
    Property {
        kind: PropertyKind::Scalar(ScalarPropertyKind { value: kind.as_bytes().to_vec() }),
        name: name.as_bytes().to_vec(),
    }
}

fn floats(bytes: &[u8]) -> Vec<f32> {
    bytes.chunks(4).map(|c| f32::from_le_bytes([c[0], c[1], c[2], c[3]])).collect()
}

#[test]
fn decode_on_example_triangle() {
    let source = triangle(false);
    let (object, consumed) = Object::decode(&source, &ScalarSizes::new()).unwrap();
    assert_eq!(consumed, source.len());

    let target = vec![vec![
        vec![0x8f, 0xc3, 0xf5, 0x3d, 0x00, 0x00, 0x00, 0x00, 0x8f, 0xc2, 0x75, 0xbe],
        vec![0x8f, 0xc2, 0xf5, 0xbd, 0x00, 0x00, 0x00, 0x00, 0x00, 0x00, 0x80, 0x00],
    ]];
    assert_eq!(object.payload.as_scalar().data, target);

    let element = object.get_element(b"vertex").unwrap();
    assert_eq!(element.data, &target[0]);

    let x = object.get_property_of_element(b"vertex", b"x").unwrap();
    assert_eq!(floats(x.data), vec![0.1200019046664238f32, 0.0, -0.23999999463558197]);
    assert_eq!(x.meta.kind, PropertyKind::Scalar(ScalarPropertyKind { value: b"float".to_vec() }));

    let y = object.get_property_of_element(b"vertex", b"y").unwrap();
    assert_eq!(floats(y.data), vec![-0.11999999731779099f32, 0.0, 1.1754943508222875e-38]);

    assert!(object.get_property_of_element(b"vretex", b"x").is_none());
    assert!(object.get_property_of_element(b"vertex", b"z").is_none());
}

#[test]
fn decode_on_invalid_property_kind() {
    let source = b"ply\nformat binary_little_endian 1.0\nelement point 1\nproperty flaot x\nend_header\n\0\0\0\0";
    let output = Object::decode(source, &ScalarSizes::new()).unwrap_err();
    assert_eq!(output, Error::InvalidKind("flaot".to_owned()));
}

#[test]
fn decode_on_no_data() {
    let source = b"ply\nformat binary_little_endian 1.0\nelement point 1\nproperty float x\nend_header\n";
    let output = Object::decode(source, &ScalarSizes::new()).unwrap_err();
    assert_eq!(output, Error::UnexpectedEof);
}

#[test]
fn encode_on_default() {
    let object = Object::default();
    let target = b"ply\nformat binary_little_endian 1.0\nend_header\n";
    let mut output = vec![];
    object.encode(&mut output, &ScalarSizes::new()).unwrap();
    assert_eq!(output, target.to_vec());
}

#[test]
fn encode_on_invalid_header() {
    let mut object = Object::default();
    object.header.version = "\u{4e00}\u{9ede}\u{96f6}".as_bytes().to_vec();
    let mut output = vec![];
    object.encode(&mut output, &ScalarSizes::new()).unwrap_err();
}

fn point_object(kind: &str) -> Object {
    let mut object = Object::default();
    let mut properties = Properties::new();
    properties.insert(b"x".to_vec(), scalar_property(kind, "x"));
    object.header.elements.insert(b"point".to_vec(), Element { count: 1, name: b"point".to_vec(), properties });
    object.payload = Payload::Scalar(ScalarPayload { data: vec![vec![vec![0x00; 8]]] });
    object
}

#[test]
fn encode_on_invalid_kind() {
    let target = b"ply\nformat binary_little_endian 1.0\nelement point 1\nproperty double x\nend_header\n\0\0\0\0\0\0\0\0";

    let object = point_object("duoble");
    let mut output = vec![];
    object.encode(&mut output, &ScalarSizes::new()).unwrap_err();

    let mut object = point_object("double");
    let mut output = vec![];
    object.encode(&mut output, &ScalarSizes::new()).unwrap();
    assert_eq!(output, target.to_vec());

    let Payload::Scalar(payload) = &mut object.payload;
    payload.data[0][0].pop().unwrap();
    let mut output = vec![];
    let error = object.encode(&mut output, &ScalarSizes::new()).unwrap_err();
    assert_eq!(error, Error::OutOfBounds(8, 8, "element index 0".to_owned()));
}

#[test]
fn encode_on_no_native_endian() {
    let source_be = triangle(true);
    let source_le = triangle(false);

    let (object, _) = Object::decode(&source_be, &ScalarSizes::new()).unwrap();
    let mut target = vec![];
    object.encode(&mut target, &ScalarSizes::new()).unwrap();

    let (mut object, _) = Object::decode(&source_le, &ScalarSizes::new()).unwrap();
    object.header.format = Format::BinaryBigEndian;
    let mut output = vec![];
    object.encode(&mut output, &ScalarSizes::new()).unwrap();
    assert_eq!(output, target);
    assert_eq!(output, source_be);

    let (object, _) = Object::decode(&source_le, &ScalarSizes::new()).unwrap();
    let mut target = vec![];
    object.encode(&mut target, &ScalarSizes::new()).unwrap();

    let (mut object, _) = Object::decode(&source_be, &ScalarSizes::new()).unwrap();
    object.header.format = Format::BinaryLittleEndian;
    let mut output = vec![];
    object.encode(&mut output, &ScalarSizes::new()).unwrap();
    assert_eq!(output, target);
    assert_eq!(output, source_le);
}

#[test]
fn encode_on_triangle_in_memory() {
    let target = b"ply\nformat binary_little_endian 1.0\nelement vertex 1\nproperty float x\nproperty float y\nend_header\n\0\0\x80\0\0\0\0\0";

    let mut object = Object::default();
    let mut properties = Properties::new();
    properties.insert(b"x".to_vec(), scalar_property("float", "x"));
    properties.insert(b"y".to_vec(), scalar_property("float", "y"));
    object.header.elements.insert(b"vertex".to_vec(), Element { count: 1, name: b"vertex".to_vec(), properties });
    object.payload = Payload::Scalar(ScalarPayload {
        data: vec![vec![vec![0x00, 0x00, 0x80, 0x00], vec![0x00, 0x00, 0x00, 0x00]]],
    });

    let mut output = vec![];
    object.encode(&mut output, &ScalarSizes::new()).unwrap();
    assert_eq!(output, target.to_vec());

    let Payload::Scalar(payload) = &mut object.payload;
    payload.data[0].pop().unwrap();
    assert!(object.get_property_of_element(b"vertex", b"y").is_none());
    assert!(object.get_property_of_element(b"vertex", b"x").is_some());

    let Payload::Scalar(payload) = &mut object.payload;
    payload.data.pop().unwrap();
    assert!(object.get_element(b"vertex").is_none());
    assert!(object.get_property_of_element(b"vertex", b"x").is_none());
}

#[test]
fn default_and_display() {
    let output = Payload::default();
    assert!(output.is_scalar());

    let Payload::Scalar(mut output) = output;
    output.data = vec![vec![vec![0u8; 4]; 7]; 3];
    output.data[0] = vec![vec![0u8; 4]; 8];
    assert_eq!(output.summary(), b"[3 elements, 22 properties, 88 bytes]".to_vec());
}

#[test]
fn object_roundtrip_with_big_endian_records() {
    let source = b"ply\nformat binary_big_endian 1.0\nelement point 2\nproperty short a\nproperty uchar b\nend_header\n\x01\x02\x03\x04\x05\x06";
    let (object, consumed) = Object::decode(source, &ScalarSizes::new()).unwrap();
    assert_eq!(consumed, source.len());
    let data = &object.payload.as_scalar().data;
    if (1u16.to_ne_bytes()[0] == 1) {
        assert_eq!(data, &vec![vec![vec![0x02, 0x01, 0x05, 0x04], vec![0x03, 0x06]]]);
    }
    let mut output = vec![];
    object.encode(&mut output, &ScalarSizes::new()).unwrap();
    assert_eq!(output, source.to_vec());
}

#[test]
fn decode_with_order_reverses_each_datum() {
    let (header, n) = Header::decode(
        b"ply\nformat binary_little_endian 1.0\nelement point 1\nproperty int a\nend_header\n",
    )
    .unwrap();
    assert_eq!(n, 78);
    let (payload, m) = Payload::decode_with_order(&[1, 2, 3, 4, 9], &header, true, &ScalarSizes::new()).unwrap();
    assert_eq!(m, 4);
    assert_eq!(payload.as_scalar().data, vec![vec![vec![4, 3, 2, 1]]]);
    let (payload, _) = Payload::decode_with_order(&[1, 2, 3, 4], &header, false, &ScalarSizes::new()).unwrap();
    assert_eq!(payload.as_scalar().data, vec![vec![vec![1, 2, 3, 4]]]);
}

#[test]
fn mutable_accessors_change_the_object_in_place() {
    let (mut object, _) = Object::decode(&triangle(false), &ScalarSizes::new()).unwrap();

    let entry = object.get_mut_element(b"vertex").unwrap();
    assert_eq!(entry.meta.count, 3);
    entry.data[0][0] = 7;
    entry.meta.count = 2;
    let mut property = object.elem_mut(b"vertex").unwrap();
    let y = property.get_mut_property(b"y").unwrap();
    y.data.clear();
    y.meta.name = b"why".to_vec();
    assert!(object.get_mut_element(b"face").is_none());

    let x = object.get_mut_property_of_element(b"vertex", b"x").unwrap();
    x.data.push(1);
    assert!(object.elem_prop_mut(b"vertex", b"z").is_none());
    assert!(object.elem_prop_mut(b"face", b"x").is_none());

    let vertex = object.get_element(b"vertex").unwrap();
    assert_eq!(vertex.meta.count, 2);
    assert_eq!(vertex.data[0][0], 7);
    assert_eq!(vertex.data[0].len(), 13);
    assert_eq!(vertex.data[0][12], 1);
    let y = vertex.get_property(b"y").unwrap();
    assert!(y.data.is_empty());
    assert_eq!(y.meta.name, b"why".to_vec());
}

#[test]
fn object_encode_then_decode_gives_back_the_object() {
    let mut object = Object::default();
    let mut properties = Properties::new();
    properties.insert(b"a".to_vec(), scalar_property("short", "a"));
    properties.insert(b"b".to_vec(), scalar_property("uchar", "b"));
    object.header.elements.insert(b"point".to_vec(), Element { count: 2, name: b"point".to_vec(), properties });
    object.header.elements.insert(
        b"empty".to_vec(),
        Element { count: 0, name: b"empty".to_vec(), properties: Properties::new() },
    );
    object.payload = Payload::Scalar(ScalarPayload {
        data: vec![vec![vec![1, 2, 3, 4], vec![5, 6]], vec![]],
    });

    let mut output = vec![];
    object.encode(&mut output, &ScalarSizes::new()).unwrap();
    let length = output.len();
    output.extend_from_slice(b"trailing");
    let (decoded, consumed) = Object::decode(&output, &ScalarSizes::new()).unwrap();
    assert_eq!(consumed, length);
    assert_eq!(decoded, object);
}

#[test]
fn iterating_mutably_changes_each_entry() {
    let (mut object, _) = Object::decode(&triangle(false), &ScalarSizes::new()).unwrap();

    let mut elements = object.iter_mut_elements();
    assert_eq!(elements.len(), 1);
    let mut vertex = elements.remove(0);
    for property in vertex.iter_mut_properties() {
        property.data.truncate(4);
        property.meta.name.push(b'1');
    }
    let mut properties = vertex.props_mut();
    assert_eq!(properties.len(), 2);
    properties[1].data[0] = 9;
    drop(properties);
    vertex.prop_mut(b"x").unwrap().data.push(3);

    let vertex = object.get_element(b"vertex").unwrap();
    assert_eq!(vertex.data[0], vec![0x8f, 0xc3, 0xf5, 0x3d, 3]);
    assert_eq!(vertex.data[1], vec![9, 0xc2, 0xf5, 0xbd]);
    let names: Vec<Vec<u8>> = vertex.iter_properties().iter().map(|p| p.meta.name.clone()).collect();
    assert_eq!(names, vec![b"x1".to_vec(), b"y1".to_vec()]);

    for element in object.elems_mut() {
        element.meta.count = 1;
    }
    assert_eq!(object.get_element(b"vertex").unwrap().meta.count, 1);
}

#[test]
fn objects_and_headers_clone() {
    let (object, _) = Object::decode(&triangle(true), &ScalarSizes::new()).unwrap();
    let copy = object.clone();
    assert_eq!(copy, object);
    let header = object.header.clone();
    assert_eq!(header.elements.inner.get(&b"vertex".to_vec()).unwrap().count, 3);
    assert_eq!(header, object.header);
}

#[test]
fn a_kind_added_to_the_sizes_is_read() {
    let source = b"ply\nformat binary_little_endian 1.0\nelement point 1\nproperty vec3 p\nend_header\n\x01\x02\x03";
    assert_eq!(
        Object::decode(source, &ScalarSizes::new()).unwrap_err(),
        Error::InvalidKind("vec3".to_owned())
    );
    let mut sizes = ScalarSizes::new();
    sizes.insert(b"vec3", 3);
    let (object, consumed) = Object::decode(source, &sizes).unwrap();
    assert_eq!(consumed, source.len());
    assert_eq!(object.payload.as_scalar().data, vec![vec![vec![1, 2, 3]]]);
}

#[test]
fn decode_on_and_encode_on_follow_the_declared_format() {
    let source_le = triangle(false);
    let source_be = triangle(true);
    let expected = vec![vec![
        vec![0x8f, 0xc3, 0xf5, 0x3d, 0x00, 0x00, 0x00, 0x00, 0x8f, 0xc2, 0x75, 0xbe],
        vec![0x8f, 0xc2, 0xf5, 0xbd, 0x00, 0x00, 0x00, 0x00, 0x00, 0x00, 0x80, 0x00],
    ]];
    let reversed: Vec<Vec<Vec<u8>>> = expected
        .iter()
        .map(|e| {
            e.iter()
                .map(|p| p.chunks(4).flat_map(|c| c.iter().rev().copied().collect::<Vec<u8>>()).collect())
                .collect()
        })
        .collect();

    // On a little-endian machine, little-endian data is kept as it is and
    // big-endian data is reversed datum by datum.
    let (object, n) = Object::decode_on(&source_le, true, &ScalarSizes::new()).unwrap();
    assert_eq!(n, source_le.len());
    assert_eq!(object.payload.as_scalar().data, expected);
    let mut output = vec![];
    object.encode_on(&mut output, true, &ScalarSizes::new()).unwrap();
    assert_eq!(output, source_le);

    let (object, _) = Object::decode_on(&source_be, true, &ScalarSizes::new()).unwrap();
    assert_eq!(object.payload.as_scalar().data, expected);
    let mut output = vec![];
    object.encode_on(&mut output, true, &ScalarSizes::new()).unwrap();
    assert_eq!(output, source_be);

    // On a big-endian machine it is the other way round.
    let (object, _) = Object::decode_on(&source_le, false, &ScalarSizes::new()).unwrap();
    assert_eq!(object.payload.as_scalar().data, reversed);
    let mut output = vec![];
    object.encode_on(&mut output, false, &ScalarSizes::new()).unwrap();
    assert_eq!(output, source_le);

    let (object, _) = Object::decode_on(&source_be, false, &ScalarSizes::new()).unwrap();
    assert_eq!(object.payload.as_scalar().data, reversed);

    // Changing the declared format alone changes the order written.
    let (mut object, _) = Object::decode_on(&source_le, true, &ScalarSizes::new()).unwrap();
    object.header.format = Format::BinaryBigEndian;
    let mut output = vec![];
    object.encode_on(&mut output, true, &ScalarSizes::new()).unwrap();
    assert_eq!(output, source_be);
}

#[test]
fn decode_with_on_follows_the_declared_format() {
    let (header, _) = Header::decode(
        b"ply\nformat binary_big_endian 1.0\nelement point 1\nproperty int a\nend_header\n",
    )
    .unwrap();
    let (payload, m) = Payload::decode_with_on(&[1, 2, 3, 4], &header, true, &ScalarSizes::new()).unwrap();
    assert_eq!(m, 4);
    assert_eq!(payload.as_scalar().data, vec![vec![vec![4, 3, 2, 1]]]);
    let (payload, _) = Payload::decode_with_on(&[1, 2, 3, 4], &header, false, &ScalarSizes::new()).unwrap();
    assert_eq!(payload.as_scalar().data, vec![vec![vec![1, 2, 3, 4]]]);
}

#[test]
fn encode_names_the_record_that_lacks_data() {
    let mut object = Object::default();
    let mut properties = Properties::new();
    properties.insert(b"a".to_vec(), scalar_property("short", "a"));
    object.header.elements.insert(b"point".to_vec(), Element { count: 12, name: b"point".to_vec(), properties });
    object.payload = Payload::Scalar(ScalarPayload { data: vec![vec![vec![0x00; 21]]] });
    let mut output = vec![];
    let error = object.encode_on(&mut output, true, &ScalarSizes::new()).unwrap_err();
    assert_eq!(error, Error::OutOfBounds(22, 24, "element index 10".to_owned()));
}
