use polygon::error::Error;
use polygon::head::{FormatMetaVariant, Head, ScalarPropertyDomain};

const VALID_KEYWORD: &[u8] = b"ply\n\
format ascii 1.0\n\
comment made by a test\n\
obj_info a list and scalars\n\
element vertex 8\n\
property float x\n\
property float y\n\
property float z\n\
element face 6\n\
property list uchar int vertex_indices\n\
comment the end\n\
end_header\n";

const MISPLACED_PROPERTY: &[u8] = b"ply\n\
format ascii 1.0\n\
property float x\n\
element vertex 8\n\
end_header\n";

const EMPTY_HEAD: &[u8] = b"ply\nformat ascii 1.0\nend_header\n";

const ANOTHER_CUBE: &[u8] = b"ply\n\
format ascii 1.0\n\
comment author: Greg Turk\n\
comment object: another cube\n\
element vertex 8\n\
property float x\n\
property float y\n\
property float z\n\
property uchar red\n\
property uchar green\n\
property uchar blue\n\
element face 7\n\
property list uchar int vertex_index\n\
element edge 5\n\
property int vertex1\n\
property int vertex2\n\
property uchar red\n\
property uchar green\n\
property uchar blue\n\
end_header\n\
0 0 0 255 0 0\n";

#[test]
fn decode_and_encode() {
    let domain = ScalarPropertyDomain::new();
    let source = VALID_KEYWORD;
    let (output, _) = Head::decode(source, &domain).unwrap();

    let mut writer = vec![];
    output.encode(&mut writer);
    assert_eq!(writer, source);
}

#[test]
fn decode_on_misplaced_property() {
    let domain = ScalarPropertyDomain::new();
    Head::decode(MISPLACED_PROPERTY, &domain).unwrap_err();
}

#[test]
fn decode_on_empty_head() {
    let domain = ScalarPropertyDomain::new();
    let source = EMPTY_HEAD;

    let (output, consumed) = Head::decode(source, &domain).unwrap();
    assert_eq!(output, Head::default());
    assert_eq!(consumed, source.len());

    let (output, _) = Head::decode(&source[..source.len() - 1], &domain).unwrap();
    assert_eq!(output, Head::default());

    let source_2 = [&source[..source.len() - 1], b" not newline"].concat();
    Head::decode(&source_2, &domain).unwrap_err();

    Head::decode(b"ply\nend_header\n", &domain).unwrap_err();

    Head::decode(b"ply", &domain).unwrap_err();
}

#[test]
fn decode_on_invalid_signature() {
    let domain = ScalarPropertyDomain::new();
    let source = EMPTY_HEAD;

    let source_2 = [b"plh", &source[3..]].concat();
    Head::decode(&source_2, &domain).unwrap_err();

    let source_3 = [b"ply\r\n", &source[4..]].concat();
    let (output, _) = Head::decode(&source_3, &domain).unwrap();
    assert_eq!(output, Head::default());
}

#[test]
fn get_and_set_format() {
    let mut head = Head::default();

    let output = head.get_format();
    assert_eq!(output, FormatMetaVariant::Ascii);

    let target = FormatMetaVariant::BinaryBigEndian;
    head.set_format(target);
    assert_eq!(head.get_format(), target);

    let target = FormatMetaVariant::Ascii;
    head.set_format(FormatMetaVariant::Ascii);
    assert_eq!(head.get_format(), target);

    let target = FormatMetaVariant::BinaryLittleEndian;
    head.set_format(FormatMetaVariant::BinaryLittleEndian);
    assert_eq!(head.get_format(), target);
}

#[test]
fn get_and_set_version() {
    let mut head = Head::default();

    assert_eq!(head.get_version(), "1.0");

    let target = "1.1.10";
    head.set_version(target.as_bytes()).unwrap();
    assert_eq!(head.get_version(), target);

    head.set_version("private+\u{ae}".as_bytes()).unwrap_err();
}

#[test]
fn remove_comment_on_all() {
    let domain = ScalarPropertyDomain::new();
    let (mut head, _) = Head::decode(ANOTHER_CUBE, &domain).unwrap();

    let output = head.iter().filter(|meta| meta.is_comment()).count();
    assert_eq!(output, 2);

    head.metas_mut().retain(|meta| !meta.is_comment());

    let output = head.iter().filter(|meta| meta.is_comment()).count();
    assert_eq!(output, 0);
}

#[test]
fn head_decode_consumes_the_head_only() {
    let domain = ScalarPropertyDomain::new();
    let (head, consumed) = Head::decode(ANOTHER_CUBE, &domain).unwrap();
    assert_eq!(&ANOTHER_CUBE[consumed..], b"0 0 0 255 0 0\n");
    assert_eq!(head.len(), 17);
}

#[test]
fn head_groups_and_pairs() {
    let domain = ScalarPropertyDomain::new();
    let (head, _) = Head::decode(ANOTHER_CUBE, &domain).unwrap();

    let groups = head.iter_element_then_property();
    let names: Vec<&[u8]> = groups.iter().map(|(e, _)| e.name.as_bytes()).collect();
    assert_eq!(names, vec![&b"vertex"[..], &b"face"[..], &b"edge"[..]]);
    let counts: Vec<usize> = groups.iter().map(|(_, ps)| ps.len()).collect();
    assert_eq!(counts, vec![6, 1, 5]);

    let pairs = head.iter_element_and_property();
    assert_eq!(pairs.len(), 12);
    assert_eq!(pairs[6].0.name.as_bytes(), b"face");
    assert_eq!(pairs[6].1.name.as_bytes(), b"vertex_index");
}

#[test]
fn head_decode_errors() {
    let domain = ScalarPropertyDomain::new();

    let output = Head::decode(b"ply\nformat ascii 1.0\nelemant x 1\nend_header\n", &domain);
    assert_eq!(output.unwrap_err(), Error::InvalidPolygonKeyword("elemant ".to_owned()));

    let output = Head::decode(b"ply\nformat ascii 1.0\nxx\n", &domain);
    assert_eq!(output.unwrap_err(), Error::InvalidPolygonKeyword("xx".to_owned()));

    let output = Head::decode(b"ply\nformat ascii 1.0\nend_header x\n", &domain);
    assert_eq!(output.unwrap_err(), Error::InvalidPolygonKeyword("end_header x".to_owned()));

    let output = Head::decode(MISPLACED_PROPERTY, &domain);
    assert_eq!(output.unwrap_err(), Error::MissingToken("element "));

    let output = Head::decode(b"ply\nformat ascii 1.0\ne", &domain);
    assert_eq!(output.unwrap_err(), Error::UnexpectedEof);
}

#[test]
fn head_encode_then_decode_gives_back_the_head() {
    let domain = ScalarPropertyDomain::new();
    let (head, _) = Head::decode(ANOTHER_CUBE, &domain).unwrap();
    let mut text = vec![];
    head.encode(&mut text);
    let length = text.len();
    text.extend_from_slice(b"0 0 0\n");
    let (again, consumed) = Head::decode(&text, &domain).unwrap();
    assert_eq!(again, head);
    assert_eq!(consumed, length);
}

#[test]
fn pairs_are_the_groups_flattened() {
    let domain = ScalarPropertyDomain::new();
    let (head, _) = Head::decode(VALID_KEYWORD, &domain).unwrap();
    let flattened: Vec<(Vec<u8>, Vec<u8>)> = head
        .iter_element_then_property()
        .iter()
        .flat_map(|(e, ps)| ps.iter().map(move |p| (e.name.as_bytes().to_vec(), p.name.as_bytes().to_vec())))
        .collect();
    let pairs: Vec<(Vec<u8>, Vec<u8>)> = head
        .iter_element_and_property()
        .iter()
        .map(|(e, p)| (e.name.as_bytes().to_vec(), p.name.as_bytes().to_vec()))
        .collect();
    assert_eq!(pairs, flattened);
    assert_eq!(pairs.len(), 4);
}
