use polygon::error::Error;
use polygon::header::{
    Element, Elements, Format, Header, ListPropertyKind, Properties, Property, PropertyKind,
    ScalarPropertyKind, ScalarSizes,
};

const ANOTHER_CUBE: &[u8] = b"ply\n\
format ascii 1.0\n\
comment author: Greg Turk\n\
comment object: another cube\n\
element vertex 8\n\
property float x\n\
property float y\n\
property float z\n\
property uchar red\n\
property uchar green\n\
property uchar blue\n\
element face 7\n\
property list uchar int vertex_index\n\
element edge 5\n\
property int vertex1\n\
property int vertex2\n\
property uchar red\n\
property uchar green\n\
property uchar blue\n\
end_header\n\
0 0 0 255 0 0\n";

const MISPLACED_PROPERTY: &[u8] = b"ply\nformat ascii 1.0\nproperty float x\nelement vertex 8\nend_header\n";

fn scalar(kind: &str, name: &str) -> Property {
    Property {
        kind: PropertyKind::Scalar(ScalarPropertyKind { value: kind.as_bytes().to_vec() }),
        name: name.as_bytes().to_vec(),
    }
}

fn element_of<'a>(header: &'a Header, name: &str) -> &'a Element {
    header.elements.inner.get(name.as_bytes()).unwrap()
}

fn properties_of(element: &Element) -> Vec<Property> {
    element.properties.inner.values().cloned().collect()
}

#[test]
fn decode_on_example_another_cube() {
    let (header, _) = Header::decode(ANOTHER_CUBE).unwrap();

    assert_eq!(header.format, Format::Ascii);
    assert_eq!(header.version, b"1.0".to_vec());

    let keys: Vec<&[u8]> = header.elements.inner.keys().map(|k| k.as_slice()).collect();
    assert_eq!(keys, vec![&b"vertex"[..], &b"face"[..], &b"edge"[..]]);

    let counts: Vec<usize> = header.elements.inner.values().map(|e| e.count).collect();
    assert_eq!(counts, vec![8, 7, 5]);

    let target = vec![
        scalar("float", "x"),
        scalar("float", "y"),
        scalar("float", "z"),
        scalar("uchar", "red"),
        scalar("uchar", "green"),
        scalar("uchar", "blue"),
    ];
    assert_eq!(properties_of(element_of(&header, "vertex")), target);

    let target = vec![Property {
        kind: PropertyKind::List(ListPropertyKind {
            count: ScalarPropertyKind { value: b"uchar".to_vec() },
            value: ScalarPropertyKind { value: b"int".to_vec() },
        }),
        name: b"vertex_index".to_vec(),
    }];
    assert_eq!(properties_of(element_of(&header, "face")), target);

    let target = vec![
        scalar("int", "vertex1"),
        scalar("int", "vertex2"),
        scalar("uchar", "red"),
        scalar("uchar", "green"),
        scalar("uchar", "blue"),
    ];
    assert_eq!(properties_of(element_of(&header, "edge")), target);
}

#[test]
fn decode_on_example_err() {
    let duplicate_format = b"ply\nformat ascii 1.0\nformat ascii 1.0\nend_header\n";
    Header::decode(duplicate_format).unwrap_err();
    Header::decode(MISPLACED_PROPERTY).unwrap_err();
}

#[test]
fn decode_on_example_ok() {
    Header::decode(ANOTHER_CUBE).unwrap();
    Header::decode(b"ply\nformat binary_big_endian 1.0\nelement vertex 0\nproperty float x\nend_header\n").unwrap();
    Header::decode(b"ply\nformat binary_little_endian 1.0\nelement vertex 0\nend_header\n").unwrap();
    Header::decode(b"ply\nformat ascii 1.0\nend_header\n").unwrap();
    Header::decode(b"ply\r\nformat ascii 1.0\r\nelement vertex 1\r\nproperty double x\r\nend_header\r\n").unwrap();
}

#[test]
fn decode_on_no_signature() {
    Header::decode(b"plr").unwrap_err();
    Header::decode(b"ply").unwrap_err();
}

#[test]
fn decode_on_no_format_keyword() {
    Header::decode(b"ply\n").unwrap_err();
}

#[test]
fn decode_on_no_format() {
    Header::decode(b"ply\nformat ").unwrap_err();
    Header::decode(b"ply\nformta ").unwrap_err();
    Header::decode(b"ply\nformat e").unwrap_err();
    Header::decode(b"ply\nformat binary").unwrap_err();
    Header::decode(b"ply\nformat binary_").unwrap_err();
    Header::decode(b"ply\nformat binarg_").unwrap_err();
    Header::decode(b"ply\nformat binary_B").unwrap_err();
    Header::decode(b"ply\nformat binary_little").unwrap_err();
    Header::decode(b"ply\nformat binary_little_endiam ").unwrap_err();
    Header::decode(b"ply\nformat binary_big").unwrap_err();
    Header::decode(b"ply\nformat binary_big_endien ").unwrap_err();
    Header::decode(b"ply\nformat ascii").unwrap_err();
    Header::decode(b"ply\nformat acsii ").unwrap_err();
}

#[test]
fn decode_on_no_version() {
    Header::decode(b"ply\nformat ascii 1.0").unwrap_err();
    Header::decode(b"ply\nformat binary_big_endian 1.0").unwrap_err();
    Header::decode(b"ply\nformat binary_little_endian 1.0").unwrap_err();
    Header::decode("ply\nformat ascii \u{b9}.\u{ba}\n".as_bytes()).unwrap_err();
    Header::decode(b"ply\nformat ascii 1.\xff\n").unwrap_err();
}

#[test]
fn decode_on_no_keyword() {
    Header::decode(b"ply\nformat ascii 1.0\nunknown").unwrap_err();
    Header::decode(b"ply\nformat ascii 1.0\nunknown \nend_header\n").unwrap_err();
}

#[test]
fn decode_on_no_end_header() {
    Header::decode(b"ply\nformat ascii 1.0\nend_head\n").unwrap_err();
    Header::decode(b"ply\nformat ascii 1.0\nend_headre").unwrap_err();
    Header::decode(b"ply\nformat ascii 1.0\nend_header").unwrap_err();
}

#[test]
fn decode_on_no_property() {
    Header::decode(b"ply\nformat ascii 1.0\nproperty").unwrap_err();
    Header::decode(b"ply\nformat ascii 1.0\nproperty\nend_header\n").unwrap_err();
}

#[test]
fn decode_on_no_property_kind() {
    Header::decode(MISPLACED_PROPERTY).unwrap_err();
    Header::decode(b"ply\nformat ascii 1.0\nelement vertex 0\nproperty  ").unwrap_err();
    Header::decode(b"ply\nformat ascii 1.0\nelement vertex 0\nproperty float").unwrap_err();
    Header::decode("ply\nformat ascii 1.0\nelement vertex 0\nproperty \u{ae} ".as_bytes()).unwrap_err();
    Header::decode(b"ply\nformat ascii 1.0\nelement vertex 0\nproperty \xff ").unwrap_err();
    Header::decode(b"ply\nformat ascii 1.0\nelement vertex 0\nproperty list ").unwrap_err();
    Header::decode(b"ply\nformat ascii 1.0\nelement vertex 0\nproperty list uchar").unwrap_err();
    Header::decode("ply\nformat ascii 1.0\nelement vertex 0\nproperty list \u{ae} ".as_bytes()).unwrap_err();
    Header::decode(b"ply\nformat ascii 1.0\nelement vertex 0\nproperty list \xff ").unwrap_err();
    Header::decode(b"ply\nformat ascii 1.0\nelement vertex 0\nproperty list uchar ").unwrap_err();
    Header::decode(b"ply\nformat ascii 1.0\nelement vertex 0\nproperty list uchar int").unwrap_err();
    Header::decode("ply\nformat ascii 1.0\nelement vertex 0\nproperty list uchar \u{ae} ".as_bytes()).unwrap_err();
    Header::decode(b"ply\nformat ascii 1.0\nelement vertex 0\nproperty list uchar \xff ").unwrap_err();
    Header::decode(b"ply\nformat ascii 1.0\nelement vertex 0\nproperty float x").unwrap_err();
    Header::decode("ply\nformat ascii 1.0\nelement vertex 0\nproperty float \u{ae}\n".as_bytes()).unwrap_err();
    Header::decode(b"ply\nformat ascii 1.0\nelement vertex 0\nproperty float \xff\n").unwrap_err();
}

#[test]
fn decode_on_no_element() {
    Header::decode(b"ply\nformat ascii 1.0\nelement ").unwrap_err();
    Header::decode(b"ply\nformat ascii 1.0\nelement vertex").unwrap_err();
    Header::decode("ply\nformat ascii 1.0\nelement \u{ae} ".as_bytes()).unwrap_err();
    Header::decode(b"ply\nformat ascii 1.0\nelement \xff ").unwrap_err();
    Header::decode(b"ply\nformat ascii 1.0\nelement vertex 1").unwrap_err();
    Header::decode(b"ply\nformat ascii 1.0\nelement vertex 1 \n").unwrap_err();
    Header::decode(b"ply\nformat ascii 1.0\nelement vertex g\n").unwrap_err();
    Header::decode("ply\nformat ascii 1.0\nelement vertex \u{ae}\n".as_bytes()).unwrap_err();
    Header::decode(b"ply\nformat ascii 1.0\nelement vertex \xff\n").unwrap_err();
}

#[test]
fn decode_on_no_comment() {
    Header::decode(b"ply\nformat ascii 1.0\ncomment  ").unwrap_err();
    Header::decode(b"ply\nformat ascii 1.0\nobj_info  ").unwrap_err();
}

#[test]
fn encode_on_example_another_cube() {
    let source = ANOTHER_CUBE;
    let (header, _) = Header::decode(source).unwrap();
    let mut output_1 = Vec::new();
    header.encode(&mut output_1).unwrap();

    let (header, _) = Header::decode(&output_1).unwrap();
    let mut output_2 = Vec::new();
    header.encode(&mut output_2).unwrap();

    assert_eq!(output_1, output_2);
    assert!(output_1.is_ascii());
    assert!(output_1.len() > 4 && output_1.len() <= source.len());
}

#[test]
fn encode_on_invalid_ascii() {
    let mut header = Header::default();
    header.version = "\u{2077}".as_bytes().to_vec();
    let mut output = Vec::new();
    let error = header.encode(&mut output).unwrap_err();
    assert!(matches!(error, Error::InvalidAscii(_)));
    assert!(output.is_empty());
}

#[test]
fn header_default() {
    let property_kind = PropertyKind::default();
    assert!(property_kind.is_scalar());
    assert!(property_kind.to_text().is_empty());

    let target = b"ply\nformat binary_little_endian 1.0\nend_header\n";
    assert_eq!(Header::default().to_text(), target.to_vec());

    Header::decode(target).unwrap();
}

#[test]
fn is_same_order() {
    assert!(Elements::default().is_same_order(&Elements::default()));

    let (a, _) = Header::decode(
        b"ply\nformat binary_little_endian 1.0\nelement vertex 365\nproperty float x\nproperty float y\nend_header\n",
    )
    .unwrap();
    let (mut b, _) = Header::decode(
        b"ply\nformat binary_little_endian 1.0\nelement vertex 900\nproperty float y\nproperty float x\nend_header\n",
    )
    .unwrap();
    assert!(!a.elements.is_same_order(&b.elements));

    b.elements.inner.get_mut(&b"vertex"[..]).unwrap().properties.inner.swap_indices(0, 1);
    assert!(a.elements.is_same_order(&b.elements));
}

#[test]
fn format_on_native_endian() {
    let target = if (1u16.to_ne_bytes()[0] == 0) {
        Format::BinaryBigEndian
    } else {
        Format::BinaryLittleEndian
    };
    assert_eq!(Format::binary_native_endian(), target);
    assert!(target.is_binary_native_endian());
    assert!(!Format::Ascii.is_binary_native_endian());
}

#[test]
fn header_decode_errors_and_sizes() {
    let output = Header::decode(b"ply\nformat ascii 1.0\nelement vertex x\nend_header\n");
    assert_eq!(output.unwrap_err(), Error::ParseInt("x".to_owned()));

    let output = Header::decode(b"ply\nformat ascii 1.0\nproperty float x\n");
    assert_eq!(output.unwrap_err(), Error::MissingSymbol("element"));

    let output = Header::decode(b"ply\nformat binary_middle_endian 1.0\n");
    assert_eq!(output.unwrap_err(), Error::MissingSymbol("binary_little_endian or binary_big_endian"));

    let (header, consumed) = Header::decode(
        b"junk ply\nformat binary_big_endian 1.0\nelement point 2\nproperty double x\nproperty list uchar int y\nproperty byte z\nend_header\nDATA",
    )
    .unwrap();
    assert_eq!(header.format, Format::BinaryBigEndian);
    assert_eq!(consumed, 125);
    let point = element_of(&header, "point");
    let sizes = point.properties.property_sizes(&ScalarSizes::new());
    assert_eq!(sizes[0], Ok(8));
    assert_eq!(sizes[1], Err(Error::InvalidKind("list uchar int".to_owned())));
    assert_eq!(sizes[2], Ok(1));
}

#[test]
fn header_element_insert_replaces_in_place() {
    let mut elements = Elements::new();
    elements.insert(b"a".to_vec(), Element { count: 1, name: b"a".to_vec(), properties: Properties::new() });
    elements.insert(b"b".to_vec(), Element { count: 2, name: b"b".to_vec(), properties: Properties::new() });
    elements.insert(b"a".to_vec(), Element { count: 3, name: b"a".to_vec(), properties: Properties::new() });
    let counts: Vec<usize> = elements.inner.values().map(|e| e.count).collect();
    assert_eq!(counts, vec![3, 2]);
}

#[test]
fn header_encode_then_decode_gives_back_the_header() {
    let mut properties = Properties::new();
    properties.insert(b"x".to_vec(), scalar("float", "x"));
    properties.insert(
        b"vertex_indices".to_vec(),
        Property {
            kind: PropertyKind::List(ListPropertyKind {
                count: ScalarPropertyKind { value: b"uchar".to_vec() },
                value: ScalarPropertyKind { value: b"int".to_vec() },
            }),
            name: b"vertex_indices".to_vec(),
        },
    );
    let mut elements = Elements::new();
    elements.insert(b"vertex".to_vec(), Element { count: 12, name: b"vertex".to_vec(), properties });
    elements.insert(b"face".to_vec(), Element { count: 0, name: b"face".to_vec(), properties: Properties::new() });
    let header = Header { elements, format: Format::BinaryBigEndian, version: b"1.0".to_vec() };

    let mut text = Vec::new();
    header.encode(&mut text).unwrap();
    let length = text.len();
    text.extend_from_slice(b"\x01\x02");
    let (decoded, consumed) = Header::decode(&text).unwrap();
    assert_eq!(decoded, header);
    assert_eq!(consumed, length);
}

#[test]
fn header_from_str() {
    let header: Header = "ply\nformat binary_big_endian 1.0\nelement point 2\nproperty int a\nend_header\n"
        .parse()
        .unwrap();
    assert_eq!(header.format, Format::BinaryBigEndian);
    assert_eq!(header.elements.len(), 1);
    let error = "ply\nformat ascii 1.0\n".parse::<Header>().unwrap_err();
    assert_eq!(error, Error::UnexpectedEof);
}

#[test]
fn same_order_goes_both_ways() {
    let (a, _) = Header::decode(ANOTHER_CUBE).unwrap();
    let mut b = a.clone();
    assert!(a.elements.is_same_order(&a.elements));
    assert!(a.elements.is_same_order(&b.elements) && b.elements.is_same_order(&a.elements));
    b.elements.insert(b"extra".to_vec(), Element { count: 1, name: b"extra".to_vec(), properties: Properties::new() });
    assert!(!a.elements.is_same_order(&b.elements) && !b.elements.is_same_order(&a.elements));
}

#[test]
fn decode_on_another_cube_example() {
    let text = std::str::from_utf8(ANOTHER_CUBE).unwrap();
    let header: Header = text.parse().unwrap();

    assert_eq!(header.format, Format::Ascii);
    assert_eq!(header.version, b"1.0".to_vec());

    let keys: Vec<&[u8]> = header.elements.inner.keys().map(|k| k.as_slice()).collect();
    assert_eq!(keys, vec![&b"vertex"[..], &b"face"[..], &b"edge"[..]]);

    let counts: Vec<usize> = header.elements.inner.values().map(|e| e.count).collect();
    assert_eq!(counts, vec![8, 7, 5]);

    let target = vec![
        scalar("float", "x"),
        scalar("float", "y"),
        scalar("float", "z"),
        scalar("uchar", "red"),
        scalar("uchar", "green"),
        scalar("uchar", "blue"),
    ];
    assert_eq!(properties_of(element_of(&header, "vertex")), target);

    let target = vec![Property {
        kind: PropertyKind::List(ListPropertyKind {
            count: ScalarPropertyKind { value: b"uchar".to_vec() },
            value: ScalarPropertyKind { value: b"int".to_vec() },
        }),
        name: b"vertex_index".to_vec(),
    }];
    assert_eq!(properties_of(element_of(&header, "face")), target);

    let target = vec![
        scalar("int", "vertex1"),
        scalar("int", "vertex2"),
        scalar("uchar", "red"),
        scalar("uchar", "green"),
        scalar("uchar", "blue"),
    ];
    assert_eq!(properties_of(element_of(&header, "edge")), target);
}

#[test]
fn comment_and_obj_info_lines_leave_no_trace() {
    let plain = b"ply\nformat binary_little_endian 1.0\nelement vertex 2\nproperty float x\nend_header\n";
    let commented = b"ply\nformat binary_little_endian 1.0\ncomment made by hand\nelement vertex 2\nobj_info note\nproperty float x\ncomment last\nend_header\n";
    let (a, n) = Header::decode(plain).unwrap();
    let (b, m) = Header::decode(commented).unwrap();
    assert_eq!(a, b);
    assert_eq!(n, plain.len());
    assert_eq!(m, commented.len());
}

#[test]
fn no_strict_prefix_of_a_header_is_read() {
    let text = b"ply\nformat ascii 1.0\ncomment x\nelement vertex 12\nproperty list uchar int idx\nend_header\n";
    assert!(Header::decode(text).is_ok());
    for k in 0..text.len() {
        assert!(Header::decode(&text[..k]).is_err(), "prefix of length {k}");
    }
}

#[test]
fn sizes_table_takes_new_kinds() {
    let mut sizes = ScalarSizes::new();
    assert_eq!(sizes.len(), 24);
    assert_eq!(sizes.get(b"float"), Some(4));
    assert_eq!(sizes.get(b"vec3"), None);
    assert_eq!(sizes.insert(b"vec3", 12), None);
    assert_eq!(sizes.insert(b"float", 8), Some(4));
    assert_eq!(sizes.len(), 25);
    let kind = ScalarPropertyKind { value: b"vec3".to_vec() };
    assert_eq!(kind.size(&sizes), Some(12));
    assert_eq!(kind.size(&ScalarSizes::new()), None);
}

#[test]
fn a_note_line_at_any_line_start_leaves_no_trace() {
    let plain: &[u8] = b"ply\nformat binary_little_endian 1.0\nelement vertex 2\nproperty float x\nelement face 1\nproperty list uchar int vertex_indices\nend_header\n\x01\x02";
    let (target, n) = Header::decode(plain).unwrap();
    let line_starts = [36usize, 53, 70, 85, 124];
    for k in line_starts {
        for note in [&b"comment made by hand \xff\r\n"[..], &b"obj_info size 3\n"[..]] {
            let mut source = plain[..k].to_vec();
            source.extend_from_slice(note);
            source.extend_from_slice(&plain[k..]);
            let (output, m) = Header::decode(&source).unwrap();
            assert_eq!(output, target);
            assert_eq!(m, n + note.len());
        }
    }
}
