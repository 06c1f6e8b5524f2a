//! The PLY file format, as far as it is a matter of bytes: the header, and the whole numbers
//! of the data in text and in either byte order.

use vstd::prelude::*;

pub mod binary;
pub mod data;
pub mod header;
pub mod text;

verus! {

/// How the data of a PLY file is written down.
#[derive(Clone, Copy, Debug, PartialEq, Eq, Structural)]
pub enum Format {
    Ascii,
    BinaryBigEndian,
    BinaryLittleEndian,
}

/// The type of a property's values in a PLY file.
#[derive(Clone, Copy, Debug, PartialEq, Eq, Structural)]
pub enum DataType {
    Int8,
    Uint8,
    Int16,
    Uint16,
    Int32,
    Uint32,
    Float32,
    Float64,
}

impl DataType {
    /// Whether values of this type are whole numbers.
    pub open spec fn is_int_spec(self) -> bool {
        !(self is Float32 || self is Float64)
    }

    pub fn is_int(&self) -> (r: bool)
        ensures
            r == self.is_int_spec(),
    {
        match *self {
            DataType::Float32 | DataType::Float64 => false,
            _ => true,
        }
    }

    /// The number of bytes that a value of this type takes in a binary file.
    pub open spec fn byte_size_spec(self) -> int {
        match self {
            DataType::Int8 | DataType::Uint8 => 1,
            DataType::Int16 | DataType::Uint16 => 2,
            DataType::Int32 | DataType::Uint32 | DataType::Float32 => 4,
            DataType::Float64 => 8,
        }
    }

    pub fn byte_size(&self) -> (r: i32)
        ensures
            r == self.byte_size_spec(),
    {
        match *self {
            DataType::Int8 | DataType::Uint8 => 1,
            DataType::Int16 | DataType::Uint16 => 2,
            DataType::Int32 | DataType::Uint32 => 4,
            DataType::Float32 => 4,
            DataType::Float64 => 8,
        }
    }
}

} // verus!
