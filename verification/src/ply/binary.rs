use byteorder::{BigEndian, ByteOrder, LittleEndian};
use vstd::prelude::*;
use crate::ply::{DataType, Format};

verus! {

/// The number that two bytes spell with the low byte first.
pub open spec fn le16(b: Seq<u8>) -> int {
    b[0] + 256 * b[1]
}

/// The number that four bytes spell with the low byte first.
pub open spec fn le32(b: Seq<u8>) -> int {
    b[0] + 256 * b[1] + 65536 * b[2] + 16777216 * b[3]
}

/// The number that two bytes spell with the high byte first.
pub open spec fn be16(b: Seq<u8>) -> int {
    256 * b[0] + b[1]
}

/// The number that four bytes spell with the high byte first.
pub open spec fn be32(b: Seq<u8>) -> int {
    16777216 * b[0] + 65536 * b[1] + 256 * b[2] + b[3]
}

/// The number that eight bytes spell with the low byte first.
pub open spec fn le64(b: Seq<u8>) -> int {
    le32(b) + 0x1_0000_0000 * le32(b.skip(4))
}

/// The number that eight bytes spell with the high byte first.
pub open spec fn be64(b: Seq<u8>) -> int {
    0x1_0000_0000 * be32(b) + be32(b.skip(4))
}

/// The signed number that an unsigned one of the given width stands for in two's
/// complement: the upper half of the range counts up from the least number.
pub open spec fn signed(value: int, range: int) -> int {
    if 2 * value < range {
        value
    } else {
        value - range
    }
}

/// `byteorder::LittleEndian::read_u16`: the first two bytes of `buf` as a number, low byte
/// first. It panics on a shorter slice.
#[verifier::external_body]
fn read_u16_le(buf: &[u8]) -> (r: u16)
    requires
        buf@.len() >= 2,
    ensures
        r == le16(buf@),
{
    LittleEndian::read_u16(buf)
}

/// `byteorder::LittleEndian::read_i16`: the first two bytes of `buf`, low byte first, as a
/// number in two's complement. It panics on a shorter slice.
#[verifier::external_body]
fn read_i16_le(buf: &[u8]) -> (r: i16)
    requires
        buf@.len() >= 2,
    ensures
        r == signed(le16(buf@), 0x1_0000),
{
    LittleEndian::read_i16(buf)
}

/// `byteorder::LittleEndian::read_u32`: the first four bytes of `buf` as a number, low byte
/// first. It panics on a shorter slice.
#[verifier::external_body]
fn read_u32_le(buf: &[u8]) -> (r: u32)
    requires
        buf@.len() >= 4,
    ensures
        r == le32(buf@),
{
    LittleEndian::read_u32(buf)
}

/// `byteorder::LittleEndian::read_i32`: the first four bytes of `buf`, low byte first, as a
/// number in two's complement. It panics on a shorter slice.
#[verifier::external_body]
fn read_i32_le(buf: &[u8]) -> (r: i32)
    requires
        buf@.len() >= 4,
    ensures
        r == signed(le32(buf@), 0x1_0000_0000),
{
    LittleEndian::read_i32(buf)
}

/// `byteorder::BigEndian::read_u16`: the first two bytes of `buf` as a number, high byte
/// first. It panics on a shorter slice.
#[verifier::external_body]
fn read_u16_be(buf: &[u8]) -> (r: u16)
    requires
        buf@.len() >= 2,
    ensures
        r == be16(buf@),
{
    BigEndian::read_u16(buf)
}

/// `byteorder::BigEndian::read_i16`: the first two bytes of `buf`, high byte first, as a
/// number in two's complement. It panics on a shorter slice.
#[verifier::external_body]
fn read_i16_be(buf: &[u8]) -> (r: i16)
    requires
        buf@.len() >= 2,
    ensures
        r == signed(be16(buf@), 0x1_0000),
{
    BigEndian::read_i16(buf)
}

/// `byteorder::BigEndian::read_u32`: the first four bytes of `buf` as a number, high byte
/// first. It panics on a shorter slice.
#[verifier::external_body]
fn read_u32_be(buf: &[u8]) -> (r: u32)
    requires
        buf@.len() >= 4,
    ensures
        r == be32(buf@),
{
    BigEndian::read_u32(buf)
}

/// `byteorder::BigEndian::read_i32`: the first four bytes of `buf`, high byte first, as a
/// number in two's complement. It panics on a shorter slice.
#[verifier::external_body]
fn read_i32_be(buf: &[u8]) -> (r: i32)
    requires
        buf@.len() >= 4,
    ensures
        r == signed(be32(buf@), 0x1_0000_0000),
{
    BigEndian::read_i32(buf)
}

/// `byteorder::LittleEndian::read_u64`: the first eight bytes of `buf` as a number, low byte
/// first. It panics on a shorter slice.
#[verifier::external_body]
fn read_u64_le(buf: &[u8]) -> (r: u64)
    requires
        buf@.len() >= 8,
    ensures
        r == le64(buf@),
{
    LittleEndian::read_u64(buf)
}

/// `byteorder::BigEndian::read_u64`: the first eight bytes of `buf` as a number, high byte
/// first. It panics on a shorter slice.
#[verifier::external_body]
fn read_u64_be(buf: &[u8]) -> (r: u64)
    requires
        buf@.len() >= 8,
    ensures
        r == be64(buf@),
{
    BigEndian::read_u64(buf)
}

/// Why bytes could not be decoded as a value.
#[derive(Clone, Copy, Debug, PartialEq, Eq, Structural)]
pub enum DecodeError {
    /// A whole number was asked for, and the type, in this format, is not one of whole
    /// numbers: it is a floating-point type, or it takes more than one byte and the format
    /// is not a binary one.
    NotAnInteger,
    /// A floating-point number was asked for, and the type is one of whole numbers, or the
    /// format is not a binary one.
    NotAFloat,
    /// There are fewer bytes than a value of the type takes.
    NotEnoughBytes,
}

/// A floating-point number as the bits that spell it, in the layout of IEEE 754: of single
/// precision in thirty-two bits, of double precision in sixty-four.
#[derive(Clone, Copy, Debug, PartialEq, Eq, Structural)]
pub enum FloatBits {
    Single(u32),
    Double(u64),
}

impl DataType {
    /// Whether values of this type can be decoded as whole numbers in the given format:
    /// single bytes in any format, wider whole numbers in the binary formats.
    pub open spec fn decodes_as_int(self, format: Format) -> bool {
        self is Int8 || self is Uint8 || (self.is_int_spec() && !(format is Ascii))
    }

    /// The whole number that the first bytes of `bytes` spell as a value of this type.
    pub open spec fn int_value(self, bytes: Seq<u8>, format: Format) -> int {
        match self {
            DataType::Int8 => signed(bytes[0] as int, 0x100),
            DataType::Uint8 => bytes[0] as int,
            DataType::Int16 => if format is BinaryLittleEndian {
                signed(le16(bytes), 0x1_0000)
            } else {
                signed(be16(bytes), 0x1_0000)
            },
            DataType::Uint16 => if format is BinaryLittleEndian {
                le16(bytes)
            } else {
                be16(bytes)
            },
            DataType::Int32 => if format is BinaryLittleEndian {
                signed(le32(bytes), 0x1_0000_0000)
            } else {
                signed(be32(bytes), 0x1_0000_0000)
            },
            _ => if format is BinaryLittleEndian {
                le32(bytes)
            } else {
                be32(bytes)
            },
        }
    }

    /// What `decode_int` returns.
    pub open spec fn decode_int_spec(self, bytes: Seq<u8>, format: Format) -> Result<i64, DecodeError> {
        if !self.decodes_as_int(format) {
            Err(DecodeError::NotAnInteger)
        } else if bytes.len() < self.byte_size_spec() {
            Err(DecodeError::NotEnoughBytes)
        } else {
            Ok(self.int_value(bytes, format) as i64)
        }
    }

    /// Whether values of this type can be decoded as floating-point numbers in the given
    /// format: the floating-point types in the binary formats.
    pub open spec fn decodes_as_float(self, format: Format) -> bool {
        !self.is_int_spec() && !(format is Ascii)
    }

    /// The bits of the floating-point number that the first bytes of `bytes` spell as a
    /// value of this type.
    pub open spec fn float_bits(self, bytes: Seq<u8>, format: Format) -> FloatBits {
        if self is Float32 {
            FloatBits::Single(
                (if format is BinaryLittleEndian {
                    le32(bytes)
                } else {
                    be32(bytes)
                }) as u32,
            )
        } else {
            FloatBits::Double(
                (if format is BinaryLittleEndian {
                    le64(bytes)
                } else {
                    be64(bytes)
                }) as u64,
            )
        }
    }

    /// What `decode_float` returns.
    pub open spec fn decode_float_spec(self, bytes: Seq<u8>, format: Format) -> Result<FloatBits, DecodeError> {
        if !self.decodes_as_float(format) {
            Err(DecodeError::NotAFloat)
        } else if bytes.len() < self.byte_size_spec() {
            Err(DecodeError::NotEnoughBytes)
        } else {
            Ok(self.float_bits(bytes, format))
        }
    }

    /// Decodes the first bytes of `bytes` as the bits of a floating-point number of this
    /// type, in the byte order of the format. Bytes beyond the size of the type are not
    /// looked at.
    pub fn decode_float(&self, bytes: &[u8], format: Format) -> (r: Result<FloatBits, DecodeError>)
        ensures
            r == self.decode_float_spec(bytes@, format),
    {
        let little = match format {
            Format::Ascii => { return Err(DecodeError::NotAFloat); },
            Format::BinaryLittleEndian => true,
            Format::BinaryBigEndian => false,
        };
        match *self {
            DataType::Float32 => {
                if bytes.len() < 4 {
                    Err(DecodeError::NotEnoughBytes)
                } else if little {
                    Ok(FloatBits::Single(read_u32_le(bytes)))
                } else {
                    Ok(FloatBits::Single(read_u32_be(bytes)))
                }
            },
            DataType::Float64 => {
                if bytes.len() < 8 {
                    Err(DecodeError::NotEnoughBytes)
                } else if little {
                    Ok(FloatBits::Double(read_u64_le(bytes)))
                } else {
                    Ok(FloatBits::Double(read_u64_be(bytes)))
                }
            },
            _ => Err(DecodeError::NotAFloat),
        }
    }

    /// Decodes the first bytes of `bytes` as a whole number of this type, in the byte order
    /// of the format. Bytes beyond the size of the type are not looked at.
    pub fn decode_int(&self, bytes: &[u8], format: Format) -> (r: Result<i64, DecodeError>)
        ensures
            r == self.decode_int_spec(bytes@, format),
            r matches Ok(v) ==> v == self.int_value(bytes@, format),
    {
        let little = match format {
            Format::BinaryLittleEndian => true,
            _ => false,
        };
        let binary = match format {
            Format::Ascii => false,
            _ => true,
        };
        match *self {
            DataType::Int8 => {
                if bytes.len() < 1 {
                    Err(DecodeError::NotEnoughBytes)
                } else {
                    let byte = bytes[0];
                    if byte < 128 {
                        Ok(byte as i64)
                    } else {
                        Ok(byte as i64 - 256)
                    }
                }
            },
            DataType::Uint8 => {
                if bytes.len() < 1 {
                    Err(DecodeError::NotEnoughBytes)
                } else {
                    Ok(bytes[0] as i64)
                }
            },
            DataType::Int16 => {
                if !binary {
                    Err(DecodeError::NotAnInteger)
                } else if bytes.len() < 2 {
                    Err(DecodeError::NotEnoughBytes)
                } else if little {
                    Ok(read_i16_le(bytes) as i64)
                } else {
                    Ok(read_i16_be(bytes) as i64)
                }
            },
            DataType::Uint16 => {
                if !binary {
                    Err(DecodeError::NotAnInteger)
                } else if bytes.len() < 2 {
                    Err(DecodeError::NotEnoughBytes)
                } else if little {
                    Ok(read_u16_le(bytes) as i64)
                } else {
                    Ok(read_u16_be(bytes) as i64)
                }
            },
            DataType::Int32 => {
                if !binary {
                    Err(DecodeError::NotAnInteger)
                } else if bytes.len() < 4 {
                    Err(DecodeError::NotEnoughBytes)
                } else if little {
                    Ok(read_i32_le(bytes) as i64)
                } else {
                    Ok(read_i32_be(bytes) as i64)
                }
            },
            DataType::Uint32 => {
                if !binary {
                    Err(DecodeError::NotAnInteger)
                } else if bytes.len() < 4 {
                    Err(DecodeError::NotEnoughBytes)
                } else if little {
                    Ok(read_u32_le(bytes) as i64)
                } else {
                    Ok(read_u32_be(bytes) as i64)
                }
            },
            DataType::Float32 | DataType::Float64 => Err(DecodeError::NotAnInteger),
        }
    }
}

} // verus!
