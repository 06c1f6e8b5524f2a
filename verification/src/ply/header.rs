use vstd::prelude::*;
use vstd::slice::slice_to_vec;
use vstd::string::{is_ascii, is_ascii_spec_bytes, StringSliceAdditionalSpecFns};
use crate::ply::text::{
    after_first_token, decimal_within, lemma_tokens_unfold, parse_i32, spells, text_after_first_token, token, tokens,
};
use crate::ply::{DataType, Format};

verus! {

/// Why a line of a header was refused.
#[derive(Clone, Copy, Debug, PartialEq, Eq, Structural)]
pub enum HeaderError {
    /// A `format` line without the name of a format.
    MissingFormat,
    /// A `format` line with a name that is not that of a format.
    UnknownFormat,
    /// An `element` line without a name.
    MissingElementName,
    /// An `element` line without a count.
    MissingElementCount,
    /// An `element` line whose count is not a whole number that `i32` holds.
    BadElementCount,
    /// A `property` line before the first `element` line.
    NoCurrentElement,
    /// A `property` line without a type.
    MissingPropertyType,
    /// A `property` line with a type and no name.
    MissingPropertyName,
    /// A `property list` line without the type of the counts.
    MissingListCountType,
    /// A `property list` line without the type of the values.
    MissingListValueType,
    /// A `property list` line with both types and no name.
    MissingListPropertyName,
    /// A `property` line with a name that is not that of a type where a type must stand.
    UnknownDataType,
}

/// The format that a name stands for.
pub open spec fn format_named(name: Seq<u8>) -> Option<Format> {
    if name == "ascii".spec_bytes() {
        Some(Format::Ascii)
    } else if name == "binary_little_endian".spec_bytes() {
        Some(Format::BinaryLittleEndian)
    } else if name == "binary_big_endian".spec_bytes() {
        Some(Format::BinaryBigEndian)
    } else {
        None
    }
}

/// The data type that a name stands for. Every type has two names.
pub open spec fn type_named(name: Seq<u8>) -> Option<DataType> {
    if name == "char".spec_bytes() || name == "int8".spec_bytes() {
        Some(DataType::Int8)
    } else if name == "uchar".spec_bytes() || name == "uint8".spec_bytes() {
        Some(DataType::Uint8)
    } else if name == "short".spec_bytes() || name == "int16".spec_bytes() {
        Some(DataType::Int16)
    } else if name == "ushort".spec_bytes() || name == "uint16".spec_bytes() {
        Some(DataType::Uint16)
    } else if name == "int".spec_bytes() || name == "int32".spec_bytes() {
        Some(DataType::Int32)
    } else if name == "uint".spec_bytes() || name == "uint32".spec_bytes() {
        Some(DataType::Uint32)
    } else if name == "float".spec_bytes() || name == "float32".spec_bytes() {
        Some(DataType::Float32)
    } else if name == "double".spec_bytes() || name == "float64".spec_bytes() {
        Some(DataType::Float64)
    } else {
        None
    }
}

impl Format {
    /// The format that a name stands for, if it is the name of one.
    pub fn from_name(name: &[u8]) -> (r: Option<Format>)
        ensures
            r == format_named(name@),
    {
        if spells(name, "ascii") {
            Some(Format::Ascii)
        } else if spells(name, "binary_little_endian") {
            Some(Format::BinaryLittleEndian)
        } else if spells(name, "binary_big_endian") {
            Some(Format::BinaryBigEndian)
        } else {
            None
        }
    }
}

impl DataType {
    /// The data type that a name stands for, if it is the name of one.
    pub fn from_name(name: &[u8]) -> (r: Option<DataType>)
        ensures
            r == type_named(name@),
    {
        if spells(name, "char") || spells(name, "int8") {
            Some(DataType::Int8)
        } else if spells(name, "uchar") || spells(name, "uint8") {
            Some(DataType::Uint8)
        } else if spells(name, "short") || spells(name, "int16") {
            Some(DataType::Int16)
        } else if spells(name, "ushort") || spells(name, "uint16") {
            Some(DataType::Uint16)
        } else if spells(name, "int") || spells(name, "int32") {
            Some(DataType::Int32)
        } else if spells(name, "uint") || spells(name, "uint32") {
            Some(DataType::Uint32)
        } else if spells(name, "float") || spells(name, "float32") {
            Some(DataType::Float32)
        } else if spells(name, "double") || spells(name, "float64") {
            Some(DataType::Float64)
        } else {
            None
        }
    }
}

/// What a property is, to its users.
pub struct PropertyView {
    pub name: Seq<u8>,
    /// The type of the values.
    pub value_type: DataType,
    /// For a list property, the type of the number that leads each list.
    pub count_type: Option<DataType>,
}

/// What an element is, to its users.
pub struct ElementView {
    pub name: Seq<u8>,
    /// The number of rows of data that the file holds for this element.
    pub count: i32,
    pub properties: Seq<PropertyView>,
}

/// What a header is, to its users.
pub struct HeaderView {
    pub format: Format,
    pub comments: Seq<Seq<u8>>,
    pub elements: Seq<ElementView>,
}

/// The property that the tokens of a `property` line declare.
pub open spec fn declared_property(tokens: Seq<Seq<u8>>) -> Result<PropertyView, HeaderError> {
    if tokens.len() < 2 {
        Err(HeaderError::MissingPropertyType)
    } else if tokens[1] == "list".spec_bytes() {
        if tokens.len() < 3 {
            Err(HeaderError::MissingListCountType)
        } else if tokens.len() < 4 {
            Err(HeaderError::MissingListValueType)
        } else if tokens.len() < 5 {
            Err(HeaderError::MissingListPropertyName)
        } else {
            match (type_named(tokens[2]), type_named(tokens[3])) {
                (Some(count_type), Some(value_type)) => Ok(
                    PropertyView { name: tokens[4], value_type, count_type: Some(count_type) },
                ),
                _ => Err(HeaderError::UnknownDataType),
            }
        }
    } else if tokens.len() < 3 {
        Err(HeaderError::MissingPropertyName)
    } else {
        match type_named(tokens[1]) {
            Some(value_type) => Ok(PropertyView { name: tokens[2], value_type, count_type: None }),
            None => Err(HeaderError::UnknownDataType),
        }
    }
}

/// The element that the tokens of an `element` line declare. It has no property yet.
pub open spec fn declared_element(tokens: Seq<Seq<u8>>) -> Result<ElementView, HeaderError> {
    if tokens.len() < 2 {
        Err(HeaderError::MissingElementName)
    } else if tokens.len() < 3 {
        Err(HeaderError::MissingElementCount)
    } else {
        match decimal_within(tokens[2], true, i32::MIN as int, i32::MAX as int) {
            Some(count) => Ok(ElementView { name: tokens[1], count: count as i32, properties: Seq::empty() }),
            None => Err(HeaderError::BadElementCount),
        }
    }
}

/// The word that ends the header is none of those that declare something.
proof fn lemma_end_header_is_no_declaration()
    ensures
        "end_header".spec_bytes() != "format".spec_bytes(),
        "end_header".spec_bytes() != "comment".spec_bytes(),
        "end_header".spec_bytes() != "element".spec_bytes(),
        "end_header".spec_bytes() != "property".spec_bytes(),
{
    reveal_strlit("end_header");
    reveal_strlit("format");
    reveal_strlit("comment");
    reveal_strlit("element");
    reveal_strlit("property");
    is_ascii_spec_bytes("end_header");
    is_ascii_spec_bytes("format");
    is_ascii_spec_bytes("comment");
    is_ascii_spec_bytes("element");
    is_ascii_spec_bytes("property");
    assert(is_ascii("end_header"));
    assert(is_ascii("format"));
    assert(is_ascii("comment"));
    assert(is_ascii("element"));
    assert(is_ascii("property"));
    assert("end_header".spec_bytes().len() == 10);
    assert("format".spec_bytes().len() == 6);
    assert("comment".spec_bytes().len() == 7);
    assert("element".spec_bytes().len() == 7);
    assert("property".spec_bytes().len() == 8);
}

/// Whether a line ends the header.
pub open spec fn ends_header(line: Seq<u8>) -> bool {
    tokens(line)[0] == "end_header".spec_bytes()
}

impl HeaderView {
    /// The header after one more of its lines, or why the line is refused. The first token
    /// of the line says what it is. A `format` line sets the format. A `comment` line adds
    /// a comment: what follows the keyword. An `element` line opens an element. A `property`
    /// line adds a property to the element opened last. Any other line changes nothing.
    pub open spec fn after_line(self, line: Seq<u8>) -> Result<HeaderView, HeaderError> {
        let tokens = tokens(line);
        let keyword = tokens[0];
        if keyword == "format".spec_bytes() {
            if tokens.len() < 2 {
                Err(HeaderError::MissingFormat)
            } else {
                match format_named(tokens[1]) {
                    Some(format) => Ok(HeaderView { format, ..self }),
                    None => Err(HeaderError::UnknownFormat),
                }
            }
        } else if keyword == "comment".spec_bytes() {
            Ok(HeaderView { comments: self.comments.push(text_after_first_token(line)), ..self })
        } else if keyword == "element".spec_bytes() {
            match declared_element(tokens) {
                Ok(element) => Ok(HeaderView { elements: self.elements.push(element), ..self }),
                Err(error) => Err(error),
            }
        } else if keyword == "property".spec_bytes() {
            if self.elements.len() == 0 {
                Err(HeaderError::NoCurrentElement)
            } else {
                match declared_property(tokens) {
                    Ok(property) => {
                        let last = self.elements.last();
                        Ok(
                            HeaderView {
                                elements: self.elements.update(
                                    self.elements.len() - 1,
                                    ElementView { properties: last.properties.push(property), ..last },
                                ),
                                ..self
                            },
                        )
                    },
                    Err(error) => Err(error),
                }
            }
        } else {
            Ok(self)
        }
    }
}

/// The declaration of a property: its name and the types of its data.
#[derive(Clone, Debug, PartialEq, Eq)]
pub struct Property {
    name: Vec<u8>,
    value_type: DataType,
    count_type: Option<DataType>,
}

impl View for Property {
    type V = PropertyView;

    closed spec fn view(&self) -> PropertyView {
        PropertyView { name: self.name@, value_type: self.value_type, count_type: self.count_type }
    }
}

impl Property {
    pub fn name(&self) -> (name: &[u8])
        ensures
            name@ == self@.name,
    {
        self.name.as_slice()
    }

    /// Whether each value of the property is a list.
    pub fn is_list(&self) -> (r: bool)
        ensures
            r == self@.count_type is Some,
    {
        self.count_type.is_some()
    }

    /// Whether the values of the property are whole numbers.
    pub fn is_int(&self) -> (r: bool)
        ensures
            r == self@.value_type.is_int_spec(),
    {
        self.value_type.is_int()
    }

    pub fn value_type(&self) -> (r: DataType)
        ensures
            r == self@.value_type,
    {
        self.value_type
    }

    pub fn count_type(&self) -> (r: Option<DataType>)
        ensures
            r == self@.count_type,
    {
        self.count_type
    }
}

/// The models of a sequence of properties.
pub open spec fn property_views(properties: Seq<Property>) -> Seq<PropertyView> {
    Seq::new(properties.len(), |i: int| properties[i]@)
}

/// The declaration of an element: its name, the number of its rows, and its properties in
/// the order in which a row holds them.
#[derive(Clone, Debug, PartialEq, Eq)]
pub struct Element {
    name: Vec<u8>,
    count: i32,
    properties: Vec<Property>,
}

impl View for Element {
    type V = ElementView;

    closed spec fn view(&self) -> ElementView {
        ElementView { name: self.name@, count: self.count, properties: property_views(self.properties@) }
    }
}

impl Element {
    pub fn name(&self) -> (name: &[u8])
        ensures
            name@ == self@.name,
    {
        self.name.as_slice()
    }

    pub fn count(&self) -> (r: i32)
        ensures
            r == self@.count,
    {
        self.count
    }

    pub fn properties(&self) -> (list: &[Property])
        ensures
            list@.len() == self@.properties.len(),
            forall|i: int| 0 <= i < list@.len() ==> (#[trigger] list@[i])@ == self@.properties[i],
    {
        self.properties.as_slice()
    }
}

/// The models of a sequence of elements.
spec fn element_views(elements: Seq<Element>) -> Seq<ElementView> {
    Seq::new(elements.len(), |i: int| elements[i]@)
}

/// The models of a sequence of byte strings.
spec fn text_views(texts: Seq<Vec<u8>>) -> Seq<Seq<u8>> {
    Seq::new(texts.len(), |i: int| texts[i]@)
}

/// The header of a PLY file, as far as it has been read: the format of the data, the
/// comments, and the elements with their properties.
#[derive(Clone, Debug, PartialEq, Eq)]
pub struct Header {
    format: Format,
    comments: Vec<Vec<u8>>,
    elements: Vec<Element>,
}

impl View for Header {
    type V = HeaderView;

    closed spec fn view(&self) -> HeaderView {
        HeaderView {
            format: self.format,
            comments: text_views(self.comments@),
            elements: element_views(self.elements@),
        }
    }
}

/// Whether a line, with the end of line that it was read with, is the first line of a PLY
/// file.
pub fn is_magic(line: &[u8]) -> (r: bool)
    ensures
        r == (line@ == "ply\n".spec_bytes() || line@ == "ply\r\n".spec_bytes()),
{
    spells(line, "ply\n") || spells(line, "ply\r\n")
}

/// The property that a `property` line declares.
fn parse_property(line: &[u8]) -> (r: Result<Property, HeaderError>)
    ensures
        match declared_property(tokens(line@)) {
            Ok(property) => r matches Ok(p) && p@ == property,
            Err(error) => r == Err::<Property, HeaderError>(error),
        },
{
    let prop_type = match token(line, 1) {
        Some(t) => t,
        None => { return Err(HeaderError::MissingPropertyType); },
    };
    if spells(prop_type, "list") {
        let count_name = match token(line, 2) {
            Some(t) => t,
            None => { return Err(HeaderError::MissingListCountType); },
        };
        let value_name = match token(line, 3) {
            Some(t) => t,
            None => { return Err(HeaderError::MissingListValueType); },
        };
        let name = match token(line, 4) {
            Some(t) => t,
            None => { return Err(HeaderError::MissingListPropertyName); },
        };
        let count_type = match DataType::from_name(count_name) {
            Some(t) => t,
            None => { return Err(HeaderError::UnknownDataType); },
        };
        let value_type = match DataType::from_name(value_name) {
            Some(t) => t,
            None => { return Err(HeaderError::UnknownDataType); },
        };
        Ok(Property { name: slice_to_vec(name), value_type, count_type: Some(count_type) })
    } else {
        let name = match token(line, 2) {
            Some(t) => t,
            None => { return Err(HeaderError::MissingPropertyName); },
        };
        let value_type = match DataType::from_name(prop_type) {
            Some(t) => t,
            None => { return Err(HeaderError::UnknownDataType); },
        };
        Ok(Property { name: slice_to_vec(name), value_type, count_type: None })
    }
}

/// The element that an `element` line declares.
fn parse_element(line: &[u8]) -> (r: Result<Element, HeaderError>)
    ensures
        match declared_element(tokens(line@)) {
            Ok(element) => r matches Ok(e) && e@ == element,
            Err(error) => r == Err::<Element, HeaderError>(error),
        },
{
    let name = match token(line, 1) {
        Some(t) => t,
        None => { return Err(HeaderError::MissingElementName); },
    };
    let count_text = match token(line, 2) {
        Some(t) => t,
        None => { return Err(HeaderError::MissingElementCount); },
    };
    let count = match parse_i32(count_text) {
        Some(c) => c,
        None => { return Err(HeaderError::BadElementCount); },
    };
    let element = Element { name: slice_to_vec(name), count, properties: Vec::new() };
    assert(element@.properties =~= Seq::empty());
    Ok(element)
}

impl Header {
    /// The header before its first line: no comment, no element, and the format that a file
    /// has unless it says otherwise.
    pub fn new() -> (header: Header)
        ensures
            header@ == (HeaderView { format: Format::Ascii, comments: Seq::empty(), elements: Seq::empty() }),
    {
        let header = Header { format: Format::Ascii, comments: Vec::new(), elements: Vec::new() };
        assert(header@.comments =~= Seq::empty());
        assert(header@.elements =~= Seq::empty());
        header
    }

    pub fn format(&self) -> (r: Format)
        ensures
            r == self@.format,
    {
        self.format
    }

    /// The comments, in the order of their lines.
    pub fn comments(&self) -> (list: &[Vec<u8>])
        ensures
            list@.len() == self@.comments.len(),
            forall|i: int| 0 <= i < list@.len() ==> (#[trigger] list@[i])@ == self@.comments[i],
    {
        self.comments.as_slice()
    }

    /// The elements, in the order of their lines, which is the order of their data.
    pub fn elements(&self) -> (list: &[Element])
        ensures
            list@.len() == self@.elements.len(),
            forall|i: int| 0 <= i < list@.len() ==> (#[trigger] list@[i])@ == self@.elements[i],
    {
        self.elements.as_slice()
    }

    /// Takes in the next line of the header, without its end of line, and says whether it
    /// was the last one. A line that is refused leaves the header as it was.
    pub fn read_line(&mut self, line: &[u8]) -> (r: Result<bool, HeaderError>)
        ensures
            match old(self)@.after_line(line@) {
                Ok(header) => r == Ok::<bool, HeaderError>(ends_header(line@)) && final(self)@ == header,
                Err(error) => r == Err::<bool, HeaderError>(error) && final(self)@ == old(self)@,
            },
    {
        proof {
            lemma_tokens_unfold(line@);
            lemma_end_header_is_no_declaration();
        }
        let keyword = match token(line, 0) {
            Some(t) => t,
            None => { return Ok(false); },
        };
        if spells(keyword, "format") {
            let name = match token(line, 1) {
                Some(t) => t,
                None => { return Err(HeaderError::MissingFormat); },
            };
            match Format::from_name(name) {
                Some(format) => {
                    self.format = format;
                    Ok(false)
                },
                None => Err(HeaderError::UnknownFormat),
            }
        } else if spells(keyword, "comment") {
            self.comments.push(slice_to_vec(after_first_token(line)));
            assert(self@.comments =~= old(self)@.comments.push(text_after_first_token(line@)));
            Ok(false)
        } else if spells(keyword, "element") {
            match parse_element(line) {
                Ok(element) => {
                    self.elements.push(element);
                    assert(self@.elements =~= old(self)@.elements.push(element@));
                    Ok(false)
                },
                Err(error) => Err(error),
            }
        } else if spells(keyword, "property") {
            if self.elements.len() == 0 {
                return Err(HeaderError::NoCurrentElement);
            }
            match parse_property(line) {
                Ok(property) => {
                    let last = self.elements.len() - 1;
                    let ghost before = self.elements@[last as int]@;
                    self.elements[last].properties.push(property);
                    assert(self.elements@[last as int]@.properties =~= before.properties.push(property@));
                    assert(self@.elements =~= old(self)@.elements.update(
                        last as int,
                        ElementView { properties: before.properties.push(property@), ..before },
                    ));
                    Ok(false)
                },
                Err(error) => Err(error),
            }
        } else {
            Ok(spells(keyword, "end_header"))
        }
    }
}

} // verus!
