use graphplay::ply::binary::{DecodeError, FloatBits};
use graphplay::ply::data::{
    read_ascii_row, read_ascii_value, read_binary_row, read_binary_value, AsciiValue, BinaryValue, RowError,
};
use graphplay::ply::header::{is_magic, Header, HeaderError, Property};
use graphplay::ply::text::{after_first_token, parse_i32, parse_i64, parse_usize, spells, token};
use graphplay::ply::{DataType, Format};

/// Reads a header as a file would be read: the first line with its end of line, the others
/// without, up to the line that ends the header.
fn read_header(text: &str) -> Result<Header, HeaderError> {
    let mut header = Header::new();
    for line in text.lines().skip(1) {
        if header.read_line(line.as_bytes())? {
            break;
        }
    }
    Ok(header)
}

fn header_error(text: &str) -> HeaderError {
    read_header(text).unwrap_err()
}

const OCTOHEDRON: &str = "ply
format ascii 1.0
comment Simple Test Geometry
element vertex 6
property float32 x
property float32 y
property float32 z
element face 8
property list uint8 int32 vertex_indices
end_header
1.0 0.0 0.0
-1.0 0.0 0.0
";

const OCTOHEDRON_BINARY_LE: &str = "ply
format binary_little_endian 1.0
comment Simple Test Geometry
element vertex 6
property float32 x
property float32 y
property float32 z
element face 8
property list uint8 int32 vertex_indices
end_header
";

fn octohedron() -> Header {
    read_header(OCTOHEDRON).unwrap()
}

fn octohedron_binary_le() -> Header {
    read_header(OCTOHEDRON_BINARY_LE).unwrap()
}

#[test]
fn read_format() {
    assert_eq!(Format::Ascii, octohedron().format());
    assert_eq!(Format::BinaryLittleEndian, octohedron_binary_le().format());
}

#[test]
fn read_comment() {
    let doc = octohedron();
    assert_eq!(1, doc.comments().len());
    assert_eq!(b"Simple Test Geometry".to_vec(), doc.comments()[0]);
}

#[test]
fn read_element() {
    let doc = octohedron();
    let elements = doc.elements();
    assert_eq!(2, elements.len());
    assert_eq!(b"vertex", elements[0].name());
    assert_eq!(6, elements[0].count());
    assert_eq!(b"face", elements[1].name());
    assert_eq!(8, elements[1].count());
}

#[test]
fn read_properties() {
    let doc = octohedron();
    let vertex = &doc.elements()[0];
    let face = &doc.elements()[1];
    assert_eq!(3, vertex.properties().len());
    for (property, name) in vertex.properties().iter().zip([b"x", b"y", b"z"]) {
        assert_eq!(name, property.name());
        assert!(!property.is_list());
        assert!(!property.is_int());
        assert_eq!(DataType::Float32, property.value_type());
        assert_eq!(None, property.count_type());
    }
    assert_eq!(1, face.properties().len());
    let indices = &face.properties()[0];
    assert_eq!(b"vertex_indices", indices.name());
    assert!(indices.is_list());
    assert!(indices.is_int());
    assert_eq!(DataType::Int32, indices.value_type());
    assert_eq!(Some(DataType::Uint8), indices.count_type());
}

#[test]
fn bad_magic() {
    assert!(!is_magic(b"ply 2\n"));
    assert!(is_magic(b"ply\n"));
    assert!(is_magic(b"ply\r\n"));
    assert!(!is_magic(b"ply"));
    assert!(!is_magic(b"ply\r"));
    assert!(!is_magic(b"PLY\n"));
    assert!(!is_magic(b" ply\n"));
    assert!(!is_magic(b""));
}

#[test]
fn bad_format() {
    assert_eq!(HeaderError::MissingFormat, header_error("ply\nformat\n"));
    assert_eq!(HeaderError::UnknownFormat, header_error("ply\nformat blahdeblah 1.0\n"));
}

#[test]
fn bad_element() {
    assert_eq!(HeaderError::MissingElementName, header_error("ply\nelement\n"));
    assert_eq!(HeaderError::MissingElementCount, header_error("ply\nelement vertex\n"));
    assert_eq!(HeaderError::BadElementCount, header_error("ply\nelement vertex green\n"));
}

#[test]
fn bad_property() {
    assert_eq!(HeaderError::NoCurrentElement, header_error("ply\nproperty float32 x\n"));
    assert_eq!(HeaderError::MissingPropertyType, header_error("ply\nelement vertex 12\nproperty\n"));
    assert_eq!(HeaderError::MissingPropertyName, header_error("ply\nelement vertex 12\nproperty float32\n"));
    assert_eq!(HeaderError::UnknownDataType, header_error("ply\nelement vertex 12\nproperty puppy x\n"));
    assert_eq!(HeaderError::MissingListCountType, header_error("ply\nelement vertex 12\nproperty list\n"));
    assert_eq!(HeaderError::MissingListValueType, header_error("ply\nelement vertex 12\nproperty list uint8\n"));
    assert_eq!(
        HeaderError::MissingListPropertyName,
        header_error("ply\nelement vertex 12\nproperty list uint8 int32\n")
    );
    assert_eq!(
        HeaderError::UnknownDataType,
        header_error("ply\nelement face 12\nproperty list puppy int32 vertex_indices")
    );
    assert_eq!(
        HeaderError::UnknownDataType,
        header_error("ply\nelement face 12\nproperty list uint8 puppy vertex_indices")
    );
}

#[test]
fn refused_line_leaves_the_header_as_it_was() {
    let mut header = Header::new();
    assert_eq!(Ok(false), header.read_line(b"format binary_big_endian 1.0"));
    assert_eq!(Ok(false), header.read_line(b"element vertex 3"));
    let before = header.clone();
    assert_eq!(Err(HeaderError::UnknownFormat), header.read_line(b"format text 1.0"));
    assert_eq!(Err(HeaderError::BadElementCount), header.read_line(b"element face 3000000000"));
    assert_eq!(Err(HeaderError::UnknownDataType), header.read_line(b"property list uchar int64 v"));
    assert_eq!(before, header);
    assert_eq!(Format::BinaryBigEndian, header.format());
}

#[test]
fn new_header_is_empty_and_ascii() {
    let header = Header::new();
    assert_eq!(Format::Ascii, header.format());
    assert!(header.comments().is_empty());
    assert!(header.elements().is_empty());
}

#[test]
fn header_ends_at_end_header_only() {
    let mut header = Header::new();
    assert_eq!(Ok(false), header.read_line(b""));
    assert_eq!(Ok(false), header.read_line(b"obj_info something"));
    assert_eq!(Ok(false), header.read_line(b" end_header"));
    assert_eq!(Ok(false), header.read_line(b"end_header_"));
    assert_eq!(Ok(false), header.read_line(b"comment end_header"));
    assert_eq!(Ok(true), header.read_line(b"end_header"));
    assert_eq!(Ok(true), header.read_line(b"end_header and more"));
    assert_eq!(1, header.comments().len());
    assert!(header.elements().is_empty());
}

#[test]
fn properties_go_to_the_element_opened_last() {
    let mut header = Header::new();
    for line in ["element a 1", "property int x", "element b -2", "property uchar y", "property list ushort double z"] {
        assert_eq!(Ok(false), header.read_line(line.as_bytes()));
    }
    let elements = header.elements();
    assert_eq!(2, elements.len());
    assert_eq!(1, elements[0].properties().len());
    assert_eq!(b"x", elements[0].properties()[0].name());
    assert_eq!(-2, elements[1].count());
    assert_eq!(2, elements[1].properties().len());
    assert_eq!(DataType::Uint8, elements[1].properties()[0].value_type());
    assert_eq!(Some(DataType::Uint16), elements[1].properties()[1].count_type());
    assert_eq!(DataType::Float64, elements[1].properties()[1].value_type());
    assert!(!elements[1].properties()[1].is_int());
}

#[test]
fn comment_is_what_follows_the_keyword() {
    let mut header = Header::new();
    for line in ["comment", "comment ", "comment a", "comment   two  spaces ", "comment\ttab", "comments no"] {
        assert_eq!(Ok(false), header.read_line(line.as_bytes()));
    }
    let comments = header.comments();
    assert_eq!(4, comments.len());
    assert_eq!(b"".to_vec(), comments[0]);
    assert_eq!(b"".to_vec(), comments[1]);
    assert_eq!(b"a".to_vec(), comments[2]);
    assert_eq!(b"two  spaces ".to_vec(), comments[3]);
    assert_eq!(b"x y", after_first_token(b"comment x y"));
    assert_eq!(b"", after_first_token(b"comment"));
    assert_eq!(b"a  b", after_first_token(b" a  b"));
}

#[test]
fn tokens_are_the_pieces_between_spaces() {
    let line = b"element vertex 6";
    assert_eq!(Some(&b"element"[..]), token(line, 0));
    assert_eq!(Some(&b"vertex"[..]), token(line, 1));
    assert_eq!(Some(&b"6"[..]), token(line, 2));
    assert_eq!(None, token(line, 3));
    assert_eq!(None, token(line, 100));
    // The empty line is one empty token, and every space starts a new one.
    assert_eq!(Some(&b""[..]), token(b"", 0));
    assert_eq!(None, token(b"", 1));
    assert_eq!(Some(&b""[..]), token(b" ", 0));
    assert_eq!(Some(&b""[..]), token(b" ", 1));
    assert_eq!(None, token(b" ", 2));
    assert_eq!(Some(&b""[..]), token(b"a  b", 1));
    assert_eq!(Some(&b"b"[..]), token(b"a  b", 2));
    assert_eq!(Some(&b""[..]), token(b"a b ", 2));
    assert_eq!(None, token(b"a b ", 3));
    // Nothing but the space separates.
    assert_eq!(Some(&b"a\tb\r"[..]), token(b"a\tb\r c", 0));
}

#[test]
fn spells_compares_byte_for_byte() {
    assert!(spells(b"list", "list"));
    assert!(!spells(b"List", "list"));
    assert!(!spells(b"lis", "list"));
    assert!(!spells(b"lists", "list"));
    assert!(spells(b"", ""));
    assert!(!spells(b"", "a"));
}

#[test]
fn whole_numbers_in_base_ten() {
    assert_eq!(Some(0), parse_i32(b"0"));
    assert_eq!(Some(6), parse_i32(b"6"));
    assert_eq!(Some(12), parse_i32(b"+12"));
    assert_eq!(Some(-12), parse_i32(b"-12"));
    assert_eq!(Some(0), parse_i32(b"-0"));
    assert_eq!(Some(7), parse_i32(b"0000000000000000000000000007"));
    assert_eq!(Some(2147483647), parse_i32(b"2147483647"));
    assert_eq!(None, parse_i32(b"2147483648"));
    assert_eq!(Some(-2147483648), parse_i32(b"-2147483648"));
    assert_eq!(None, parse_i32(b"-2147483649"));
    assert_eq!(None, parse_i32(b"99999999999999999999999999999999"));
    for text in ["", "+", "-", "green", "12a", "a12", " 12", "12 ", "1.0", "--1", "+-1", "1e3", "0x10", "\u{663}"] {
        assert_eq!(None, parse_i32(text.as_bytes()));
        assert_eq!(None, parse_i64(text.as_bytes()));
        assert_eq!(None, parse_usize(text.as_bytes()));
    }
    assert_eq!(Some(i64::MAX), parse_i64(b"9223372036854775807"));
    assert_eq!(None, parse_i64(b"9223372036854775808"));
    assert_eq!(Some(i64::MIN), parse_i64(b"-9223372036854775808"));
    assert_eq!(None, parse_i64(b"-9223372036854775809"));
    assert_eq!(Some(-4000000000), parse_i64(b"-4000000000"));
    assert_eq!(Some(3), parse_usize(b"3"));
    assert_eq!(Some(3), parse_usize(b"+3"));
    assert_eq!(None, parse_usize(b"-3"));
    assert_eq!(None, parse_usize(b"-0"));
    assert_eq!(Some(usize::MAX), parse_usize(usize::MAX.to_string().as_bytes()));
    assert_eq!(None, parse_usize(b"340282366920938463463374607431768211456"));
}

#[test]
fn parsers_agree_with_the_standard_library() {
    for text in ["0", "-1", "+1", "007", "-", "", "2147483648", "-2147483648", "12x", "+-3", "4294967296"] {
        assert_eq!(text.parse::<i32>().ok(), parse_i32(text.as_bytes()));
        assert_eq!(text.parse::<i64>().ok(), parse_i64(text.as_bytes()));
        assert_eq!(text.parse::<usize>().ok(), parse_usize(text.as_bytes()));
    }
}

#[test]
fn formats_by_name() {
    assert_eq!(Some(Format::Ascii), Format::from_name(b"ascii"));
    assert_eq!(Some(Format::BinaryLittleEndian), Format::from_name(b"binary_little_endian"));
    assert_eq!(Some(Format::BinaryBigEndian), Format::from_name(b"binary_big_endian"));
    assert_eq!(None, Format::from_name(b"blahdeblah"));
    assert_eq!(None, Format::from_name(b"ASCII"));
    assert_eq!(None, Format::from_name(b""));
}

#[test]
fn data_types_by_name() {
    let names: [(&[u8], &[u8], DataType); 8] = [
        (b"char", b"int8", DataType::Int8),
        (b"uchar", b"uint8", DataType::Uint8),
        (b"short", b"int16", DataType::Int16),
        (b"ushort", b"uint16", DataType::Uint16),
        (b"int", b"int32", DataType::Int32),
        (b"uint", b"uint32", DataType::Uint32),
        (b"float", b"float32", DataType::Float32),
        (b"double", b"float64", DataType::Float64),
    ];
    for (old, new, data_type) in names {
        assert_eq!(Some(data_type), DataType::from_name(old));
        assert_eq!(Some(data_type), DataType::from_name(new));
    }
    for name in ["puppy", "", "list", "int64", "Int8", "float 32"] {
        assert_eq!(None, DataType::from_name(name.as_bytes()));
    }
}

#[test]
fn data_type_is_int() {
    assert!(DataType::Int8.is_int());
    assert!(DataType::Uint8.is_int());
    assert!(DataType::Int16.is_int());
    assert!(DataType::Uint16.is_int());
    assert!(DataType::Int32.is_int());
    assert!(DataType::Uint32.is_int());
    assert!(!DataType::Float32.is_int());
    assert!(!DataType::Float64.is_int());
}

#[test]
fn data_type_byte_size() {
    assert_eq!(DataType::Int8.byte_size(), 1);
    assert_eq!(DataType::Uint8.byte_size(), 1);
    assert_eq!(DataType::Int16.byte_size(), 2);
    assert_eq!(DataType::Uint16.byte_size(), 2);
    assert_eq!(DataType::Int32.byte_size(), 4);
    assert_eq!(DataType::Uint32.byte_size(), 4);
    assert_eq!(DataType::Float32.byte_size(), 4);
    assert_eq!(DataType::Float64.byte_size(), 8);
}

#[test]
fn whole_numbers_in_either_byte_order() {
    let bytes = [0x01, 0x82, 0x03, 0x84, 0xff];
    let le = Format::BinaryLittleEndian;
    let be = Format::BinaryBigEndian;
    assert_eq!(Ok(0x8201), DataType::Uint16.decode_int(&bytes, le));
    assert_eq!(Ok(0x0182), DataType::Uint16.decode_int(&bytes, be));
    assert_eq!(Ok(0x8201 - 0x1_0000), DataType::Int16.decode_int(&bytes, le));
    assert_eq!(Ok(0x0182), DataType::Int16.decode_int(&bytes, be));
    assert_eq!(Ok(0x8403_8201), DataType::Uint32.decode_int(&bytes, le));
    assert_eq!(Ok(0x0182_0384), DataType::Uint32.decode_int(&bytes, be));
    assert_eq!(Ok(0x8403_8201 - 0x1_0000_0000), DataType::Int32.decode_int(&bytes, le));
    assert_eq!(Ok(0x0182_0384), DataType::Int32.decode_int(&bytes, be));
    assert_eq!(Ok(-2), DataType::Int16.decode_int(&[0xff, 0xfe], be));
    assert_eq!(Ok(-257), DataType::Int16.decode_int(&[0xff, 0xfe], le));
    assert_eq!(Ok(-1), DataType::Int32.decode_int(&[0xff; 4], le));
    assert_eq!(Ok(4294967295), DataType::Uint32.decode_int(&[0xff; 4], be));
    assert_eq!(Ok(i32::MIN as i64), DataType::Int32.decode_int(&[0x80, 0, 0, 0], be));
    assert_eq!(Ok(i32::MIN as i64), DataType::Int32.decode_int(&[0, 0, 0, 0x80], le));
}

#[test]
fn single_bytes_in_any_format() {
    for format in [Format::Ascii, Format::BinaryLittleEndian, Format::BinaryBigEndian] {
        assert_eq!(Ok(1), DataType::Uint8.decode_int(&[1, 2], format));
        assert_eq!(Ok(200), DataType::Uint8.decode_int(&[200], format));
        assert_eq!(Ok(-56), DataType::Int8.decode_int(&[200], format));
        assert_eq!(Ok(127), DataType::Int8.decode_int(&[127], format));
        assert_eq!(Ok(-128), DataType::Int8.decode_int(&[128], format));
        assert_eq!(Err(DecodeError::NotEnoughBytes), DataType::Int8.decode_int(&[], format));
        assert_eq!(Err(DecodeError::NotEnoughBytes), DataType::Uint8.decode_int(&[], format));
    }
}

#[test]
fn what_cannot_be_decoded_as_a_whole_number() {
    let bytes = [0u8; 8];
    for format in [Format::Ascii, Format::BinaryLittleEndian, Format::BinaryBigEndian] {
        assert_eq!(Err(DecodeError::NotAnInteger), DataType::Float32.decode_int(&bytes, format));
        assert_eq!(Err(DecodeError::NotAnInteger), DataType::Float64.decode_int(&bytes, format));
        assert_eq!(Err(DecodeError::NotAnInteger), DataType::Float64.decode_int(&[], format));
    }
    for data_type in [DataType::Int16, DataType::Uint16, DataType::Int32, DataType::Uint32] {
        assert_eq!(Err(DecodeError::NotAnInteger), data_type.decode_int(&bytes, Format::Ascii));
        assert_eq!(Err(DecodeError::NotAnInteger), data_type.decode_int(&[], Format::Ascii));
        assert_eq!(Err(DecodeError::NotEnoughBytes), data_type.decode_int(&[1], Format::BinaryLittleEndian));
        assert_eq!(Err(DecodeError::NotEnoughBytes), data_type.decode_int(&[1], Format::BinaryBigEndian));
    }
    assert_eq!(Err(DecodeError::NotEnoughBytes), DataType::Int32.decode_int(&[1, 2, 3], Format::BinaryBigEndian));
    assert_eq!(Ok(0x0102), DataType::Int16.decode_int(&[1, 2], Format::BinaryBigEndian));
}

/// The properties that the lines of a header declare for its one element.
fn properties(lines: &[&str]) -> Vec<Property> {
    let mut header = Header::new();
    assert_eq!(Ok(false), header.read_line(b"element row 1"));
    for line in lines {
        assert_eq!(Ok(false), header.read_line(line.as_bytes()));
    }
    header.elements()[0].properties().to_vec()
}

/// Reads a row of text, and tells its values or why it is refused.
fn read_row<'a>(line: &'a str, properties: &[Property]) -> Result<Vec<AsciiValue<'a>>, RowError> {
    match read_ascii_row(line.as_bytes(), properties) {
        Ok((values, _)) => Ok(values),
        Err((_, error)) => Err(error),
    }
}

#[test]
fn read_ascii_data() {
    let vertex = properties(&["property float32 x", "property float32 y", "property float32 z"]);
    let rows = ["1.0 0.0 0.0", "-1.0 0.0 0.0", "0.0 0.0 1.0", "0.0 0.0 -1.0", "0.0 -1.0 0.0", "0.0 1.0 0.0"];
    let mut columns: [Vec<f64>; 3] = [vec![], vec![], vec![]];
    for row in rows {
        let values = read_row(row, &vertex).unwrap();
        assert_eq!(3, values.len());
        for (column, value) in columns.iter_mut().zip(values) {
            match value {
                AsciiValue::Float(text) => column.push(std::str::from_utf8(text).unwrap().parse().unwrap()),
                other => panic!("not the text of a float: {:?}", other),
            }
        }
    }
    assert_eq!(vec![1.0, -1.0, 0.0, 0.0, 0.0, 0.0], columns[0]);
    assert_eq!(vec![0.0, 0.0, 0.0, 0.0, -1.0, 1.0], columns[1]);
    assert_eq!(vec![0.0, 0.0, 1.0, -1.0, 0.0, 0.0], columns[2]);

    let face = properties(&["property list uint8 int32 vertex_indices"]);
    let rows = ["3 4 0 2", "3 4 3 0", "3 4 1 3", "3 4 2 1", "3 5 2 0", "3 5 0 3", "3 5 3 1", "3 5 1 2"];
    let expected = [[4, 0, 2], [4, 3, 0], [4, 1, 3], [4, 2, 1], [5, 2, 0], [5, 0, 3], [5, 3, 1], [5, 1, 2]];
    for (row, indices) in rows.iter().zip(expected) {
        assert_eq!(Ok(vec![AsciiValue::IntList(indices.to_vec())]), read_row(row, &face));
    }
}

#[test]
fn bad_ascii_data() {
    // Scalar data.
    let floats = properties(&["property float32 x", "property float32 y"]);
    assert_eq!(Err(RowError::MissingScalarValue), read_row("1.0", &floats));
    let int_and_float = properties(&["property int32 x", "property float32 y"]);
    assert_eq!(Err(RowError::BadInt(0)), read_row("1.0 1.0", &int_and_float));
    // What spells no float is found where floats are made numbers.
    assert_eq!(Ok(vec![AsciiValue::Float(b"1.0"), AsciiValue::Float(b"puppy")]), read_row("1.0 puppy", &floats));

    // List data.
    let list = properties(&["property list uint8 int32 vertex_indices"]);
    assert_eq!(Ok(vec![AsciiValue::IntList(vec![1, 2, 3])]), read_row("3 1 2 3", &list));
    assert_eq!(Err(RowError::BadListCount(0)), read_row("", &list));
    assert_eq!(Err(RowError::MissingListValue), read_row("3 1 2", &list));
    assert_eq!(Err(RowError::BadInt(1)), read_row("3 1.0 2 3", &list));
}

#[test]
fn values_start_where_the_last_one_ended() {
    let mixed = properties(&[
        "property list uchar float a",
        "property short b",
        "property list int int c",
        "property double d",
    ]);
    assert_eq!(
        Ok(vec![
            AsciiValue::FloatList(vec![b"1.5", b"x"]),
            AsciiValue::Int(-7),
            AsciiValue::IntList(vec![]),
            AsciiValue::Float(b"1e9"),
        ]),
        read_row("2 1.5 x -7 0 1e9 and more", &mixed)
    );
    let line = b"2 1.5 x -7 0 1e9";
    assert_eq!(Ok((AsciiValue::FloatList(vec![b"1.5", b"x"]), 3)), read_ascii_value(line, 0, &mixed[0]));
    assert_eq!(Ok((AsciiValue::Int(-7), 4)), read_ascii_value(line, 3, &mixed[1]));
    assert_eq!(Ok((AsciiValue::IntList(vec![]), 5)), read_ascii_value(line, 4, &mixed[2]));
    assert_eq!(Ok((AsciiValue::Float(b"1e9"), 6)), read_ascii_value(line, 5, &mixed[3]));
    assert_eq!(Err(RowError::MissingScalarValue), read_ascii_value(line, 6, &mixed[3]));
    assert_eq!(Err(RowError::MissingListCount), read_ascii_value(line, 6, &mixed[0]));
    assert_eq!(Err(RowError::MissingListCount), read_ascii_value(line, usize::MAX, &mixed[0]));
}

#[test]
fn row_of_text_tells_the_values_before_its_fault() {
    let mixed = properties(&["property float x", "property list uchar int y", "property int z"]);
    assert_eq!(
        Ok((vec![AsciiValue::Float(b"a"), AsciiValue::IntList(vec![7]), AsciiValue::Int(8)], 4)),
        read_ascii_row(b"a 1 7 8 left over", &mixed)
    );
    assert_eq!(
        Err((vec![AsciiValue::Float(b"a"), AsciiValue::IntList(vec![7])], RowError::MissingScalarValue)),
        read_ascii_row(b"a 1 7", &mixed)
    );
    assert_eq!(
        Err((vec![AsciiValue::Float(b"a")], RowError::BadListCount(1))),
        read_ascii_row(b"a b 7 8", &mixed)
    );
    assert_eq!(Err((vec![AsciiValue::Float(b"a")], RowError::BadInt(3))), read_ascii_row(b"a 2 7 x 8", &mixed));
    assert_eq!(Err((vec![], RowError::MissingListValue)), read_ascii_row(b"1", &mixed[1..]));
    assert_eq!(
        Err((vec![AsciiValue::Int(5)], RowError::MissingListCount)),
        read_ascii_row(b"5", &[mixed[2].clone(), mixed[1].clone()])
    );
    assert_eq!(Ok((vec![], 0)), read_ascii_row(b"anything", &[]));
    assert_eq!(Ok((vec![], 0)), read_binary_row(b"anything", &[], Format::BinaryBigEndian));
}

#[test]
fn what_a_row_of_text_is_refused_for() {
    let int = properties(&["property int x"]);
    let ints = properties(&["property list uchar int x"]);
    let floats = properties(&["property list uchar float x"]);
    // An empty token is a token: it is there, and spells nothing.
    assert_eq!(Err(RowError::BadInt(0)), read_row("", &int));
    assert_eq!(Err(RowError::BadInt(0)), read_row(" 5", &int));
    assert_eq!(Err(RowError::BadInt(0)), read_row("9223372036854775808", &int));
    assert_eq!(Ok(vec![AsciiValue::Int(i64::MIN)]), read_row("-9223372036854775808", &int));
    assert_eq!(Err(RowError::BadListCount(0)), read_row("-1", &ints));
    assert_eq!(Err(RowError::BadListCount(0)), read_row("three 1 2 3", &ints));
    assert_eq!(Err(RowError::BadListCount(0)), read_row("3.0 1 2 3", &ints));
    assert_eq!(Err(RowError::BadListCount(0)), read_row("99999999999999999999999999 1", &ints));
    assert_eq!(Err(RowError::MissingListValue), read_row("18446744073709551615 1", &ints));
    assert_eq!(Err(RowError::MissingListValue), read_row("1", &floats));
    assert_eq!(Ok(vec![AsciiValue::FloatList(vec![b""])]), read_row("1 ", &floats));
    // The row is counted before it is read: a token that is missing is found first.
    assert_eq!(Err(RowError::MissingListValue), read_row("3 x 2", &ints));
    assert_eq!(Err(RowError::BadInt(1)), read_row("3 x y 3", &ints));
    assert_eq!(Err(RowError::BadInt(3)), read_row("+3 1 2 z", &ints));
}

#[test]
fn read_binary_le_data() {
    let le = Format::BinaryLittleEndian;
    let vertex = properties(&["property float32 x", "property float32 y", "property float32 z"]);
    let rows: [[f32; 3]; 6] = [
        [1.0, 0.0, 0.0],
        [-1.0, 0.0, 0.0],
        [0.0, 0.0, 1.0],
        [0.0, 0.0, -1.0],
        [0.0, -1.0, 0.0],
        [0.0, 1.0, 0.0],
    ];
    for row in rows {
        let mut bytes = vec![];
        for value in row {
            bytes.extend_from_slice(&value.to_le_bytes());
        }
        let (values, taken) = read_binary_row(&bytes, &vertex, le).unwrap();
        assert_eq!(12, taken);
        let floats: Vec<f32> = values
            .iter()
            .map(|value| match value {
                BinaryValue::Float(FloatBits::Single(bits)) => f32::from_bits(*bits),
                other => panic!("not a float of single precision: {:?}", other),
            })
            .collect();
        assert_eq!(row.to_vec(), floats);
    }
    let face = properties(&["property list uint8 int32 vertex_indices"]);
    let expected = [[4, 0, 2], [4, 3, 0], [4, 1, 3], [4, 2, 1], [5, 2, 0], [5, 0, 3], [5, 3, 1], [5, 1, 2]];
    for indices in expected {
        let mut bytes = vec![3u8];
        for index in indices {
            bytes.extend_from_slice(&(index as i32).to_le_bytes());
        }
        assert_eq!(
            Ok((vec![BinaryValue::IntList(indices.to_vec())], 13)),
            read_binary_row(&bytes, &face, le)
        );
    }
}

#[test]
fn binary_values_in_either_byte_order() {
    let mixed = properties(&[
        "property short a",
        "property double b",
        "property list ushort float c",
        "property list int uchar d",
        "property uint e",
    ]);
    let (a, b, c, e): (i16, f64, [f32; 2], u32) = (-300, 2.5, [0.5, -8.0], 4_000_000_000);
    let mut le = vec![];
    le.extend_from_slice(&a.to_le_bytes());
    le.extend_from_slice(&b.to_le_bytes());
    le.extend_from_slice(&2u16.to_le_bytes());
    le.extend_from_slice(&c[0].to_le_bytes());
    le.extend_from_slice(&c[1].to_le_bytes());
    le.extend_from_slice(&(-1i32).to_le_bytes());
    le.extend_from_slice(&e.to_le_bytes());
    le.push(0xee);
    let mut be = vec![];
    be.extend_from_slice(&a.to_be_bytes());
    be.extend_from_slice(&b.to_be_bytes());
    be.extend_from_slice(&2u16.to_be_bytes());
    be.extend_from_slice(&c[0].to_be_bytes());
    be.extend_from_slice(&c[1].to_be_bytes());
    be.extend_from_slice(&(-1i32).to_be_bytes());
    be.extend_from_slice(&e.to_be_bytes());
    be.push(0xee);
    let expected = vec![
        BinaryValue::Int(-300),
        BinaryValue::Float(FloatBits::Double(b.to_bits())),
        BinaryValue::FloatList(vec![FloatBits::Single(c[0].to_bits()), FloatBits::Single(c[1].to_bits())]),
        // A negative count is the count of an empty list.
        BinaryValue::IntList(vec![]),
        BinaryValue::Int(4_000_000_000),
    ];
    assert_eq!(Ok((expected.clone(), 28)), read_binary_row(&le, &mixed, Format::BinaryLittleEndian));
    assert_eq!(Ok((expected.clone(), 28)), read_binary_row(&be, &mixed, Format::BinaryBigEndian));
    assert_ne!(Ok((expected.clone(), 28)), read_binary_row(&le, &mixed, Format::BinaryBigEndian));
}

#[test]
fn float_bits_in_either_byte_order() {
    let bytes = [0x3f, 0x80, 0x00, 0x00, 0x00, 0x00, 0x00, 0x00, 0xff];
    assert_eq!(
        Ok(FloatBits::Single(1.0f32.to_bits())),
        DataType::Float32.decode_float(&bytes, Format::BinaryBigEndian)
    );
    assert_eq!(
        Ok(FloatBits::Single(0x0000_803f)),
        DataType::Float32.decode_float(&bytes, Format::BinaryLittleEndian)
    );
    assert_eq!(
        Ok(FloatBits::Double(0x3f80_0000_0000_0000)),
        DataType::Float64.decode_float(&bytes, Format::BinaryBigEndian)
    );
    assert_eq!(
        Ok(FloatBits::Double(0x0000_0000_0000_803f)),
        DataType::Float64.decode_float(&bytes, Format::BinaryLittleEndian)
    );
    let pi = std::f64::consts::PI;
    assert_eq!(
        Ok(FloatBits::Double(pi.to_bits())),
        DataType::Float64.decode_float(&pi.to_le_bytes(), Format::BinaryLittleEndian)
    );
    assert_eq!(
        Ok(FloatBits::Double(pi.to_bits())),
        DataType::Float64.decode_float(&pi.to_be_bytes(), Format::BinaryBigEndian)
    );
}

#[test]
fn what_cannot_be_decoded_as_a_float() {
    let bytes = [0u8; 8];
    for format in [Format::Ascii, Format::BinaryLittleEndian, Format::BinaryBigEndian] {
        for data_type in [
            DataType::Int8,
            DataType::Uint8,
            DataType::Int16,
            DataType::Uint16,
            DataType::Int32,
            DataType::Uint32,
        ] {
            assert_eq!(Err(DecodeError::NotAFloat), data_type.decode_float(&bytes, format));
        }
    }
    assert_eq!(Err(DecodeError::NotAFloat), DataType::Float32.decode_float(&bytes, Format::Ascii));
    assert_eq!(Err(DecodeError::NotAFloat), DataType::Float64.decode_float(&[], Format::Ascii));
    for format in [Format::BinaryLittleEndian, Format::BinaryBigEndian] {
        assert_eq!(Err(DecodeError::NotEnoughBytes), DataType::Float32.decode_float(&bytes[..3], format));
        assert_eq!(Err(DecodeError::NotEnoughBytes), DataType::Float64.decode_float(&bytes[..7], format));
        assert_eq!(Ok(FloatBits::Single(0)), DataType::Float32.decode_float(&bytes[..4], format));
        assert_eq!(Ok(FloatBits::Double(0)), DataType::Float64.decode_float(&bytes, format));
    }
}

#[test]
fn what_binary_data_are_refused_for() {
    let le = Format::BinaryLittleEndian;
    let ints = properties(&["property list uchar int x"]);
    let floats = properties(&["property list uchar double x"]);
    let counted_in_floats = properties(&["property list float int x"]);
    let scalar = properties(&["property ushort x"]);
    assert_eq!(Err(DecodeError::NotEnoughBytes), read_binary_row(&[], &ints, le));
    assert_eq!(Ok((vec![BinaryValue::IntList(vec![])], 1)), read_binary_row(&[0], &ints, le));
    assert_eq!(Err(DecodeError::NotEnoughBytes), read_binary_row(&[1], &ints, le));
    assert_eq!(Err(DecodeError::NotEnoughBytes), read_binary_row(&[2, 1, 0, 0, 0, 2, 0, 0], &ints, le));
    assert_eq!(
        Ok((vec![BinaryValue::IntList(vec![1, 2])], 9)),
        read_binary_row(&[2, 1, 0, 0, 0, 2, 0, 0, 0], &ints, le)
    );
    assert_eq!(Err(DecodeError::NotEnoughBytes), read_binary_row(&[255, 1, 0, 0, 0], &floats, le));
    assert_eq!(Err(DecodeError::NotAnInteger), read_binary_row(&[0; 16], &counted_in_floats, le));
    assert_eq!(Err(DecodeError::NotEnoughBytes), read_binary_row(&[7], &scalar, le));
    // In text only single bytes are whole numbers, and nothing is a float.
    assert_eq!(Err(DecodeError::NotAnInteger), read_binary_row(&[7, 0], &scalar, Format::Ascii));
    assert_eq!(Err(DecodeError::NotAnInteger), read_binary_row(&[1, 0, 0, 0, 0], &ints, Format::Ascii));
    assert_eq!(Ok((vec![BinaryValue::IntList(vec![])], 1)), read_binary_row(&[0], &ints, Format::Ascii));
    assert_eq!(Err(DecodeError::NotAFloat), read_binary_row(&[1, 0, 0, 0, 0, 0, 0, 0, 0], &floats, Format::Ascii));
}
