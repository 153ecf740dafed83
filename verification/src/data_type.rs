//! Stable runtime type descriptors used as conversion endpoints.

use vstd::prelude::*;

verus! {

/// Stable runtime type descriptor of a conversion source or target.
///
/// Platform-sized `isize` and `usize` are intentionally absent because their
/// representation depends on the target platform.
#[derive(Clone, Copy, Debug, PartialEq, Eq, Structural, Hash)]
pub enum DataType {
    /// Boolean.
    Bool,
    /// Unicode scalar value.
    Char,
    /// 8-bit signed integer.
    Int8,
    /// 16-bit signed integer.
    Int16,
    /// 32-bit signed integer.
    Int32,
    /// 64-bit signed integer.
    Int64,
    /// 128-bit signed integer.
    Int128,
    /// 8-bit unsigned integer.
    UInt8,
    /// 16-bit unsigned integer.
    UInt16,
    /// 32-bit unsigned integer.
    UInt32,
    /// 64-bit unsigned integer.
    UInt64,
    /// 128-bit unsigned integer.
    UInt128,
    /// 32-bit floating-point number.
    Float32,
    /// 64-bit floating-point number.
    Float64,
    /// Arbitrary-precision integer.
    BigInteger,
    /// Arbitrary-precision decimal.
    BigDecimal,
    /// UTF-8 text.
    String,
    /// Calendar date without a time zone.
    Date,
    /// Clock time without a date or time zone.
    Time,
    /// Local date and time without a time zone.
    DateTime,
    /// UTC instant.
    Instant,
    /// Non-negative time span.
    Duration,
    /// Absolute URL.
    Url,
    /// String-to-string map.
    StringMap,
    /// JSON value.
    Json,
}

/// The catalog of every data type in declaration order.
pub open spec fn all_data_types() -> Seq<DataType> {
    seq![
        DataType::Bool, DataType::Char, DataType::Int8, DataType::Int16, DataType::Int32,
        DataType::Int64, DataType::Int128, DataType::UInt8, DataType::UInt16, DataType::UInt32,
        DataType::UInt64, DataType::UInt128, DataType::Float32, DataType::Float64,
        DataType::BigInteger, DataType::BigDecimal, DataType::String, DataType::Date,
        DataType::Time, DataType::DateTime, DataType::Instant, DataType::Duration, DataType::Url,
        DataType::StringMap, DataType::Json,
    ]
}

impl DataType {
    /// Whether this type is one of the integer families, big integers included.
    pub open spec fn spec_is_integer(self) -> bool {
        match self {
            DataType::Int8 | DataType::Int16 | DataType::Int32 | DataType::Int64
            | DataType::Int128 | DataType::UInt8 | DataType::UInt16 | DataType::UInt32
            | DataType::UInt64 | DataType::UInt128 | DataType::BigInteger => true,
            _ => false,
        }
    }

    /// Returns every data type in stable declaration order.
    pub fn all() -> (types: Vec<DataType>)
        ensures
            types@ == all_data_types(),
    {
        let types = vec![
            DataType::Bool, DataType::Char, DataType::Int8, DataType::Int16, DataType::Int32,
            DataType::Int64, DataType::Int128, DataType::UInt8, DataType::UInt16, DataType::UInt32,
            DataType::UInt64, DataType::UInt128, DataType::Float32, DataType::Float64,
            DataType::BigInteger, DataType::BigDecimal, DataType::String, DataType::Date,
            DataType::Time, DataType::DateTime, DataType::Instant, DataType::Duration, DataType::Url,
            DataType::StringMap, DataType::Json,
        ];
        assert(types@ =~= all_data_types());
        types
    }

    /// Reports whether this type is an integer family.
    #[verifier::when_used_as_spec(spec_is_integer)]
    pub fn is_integer(self) -> (result: bool)
        ensures
            result == self.spec_is_integer(),
    {
        match self {
            DataType::Int8 | DataType::Int16 | DataType::Int32 | DataType::Int64
            | DataType::Int128 | DataType::UInt8 | DataType::UInt16 | DataType::UInt32
            | DataType::UInt64 | DataType::UInt128 | DataType::BigInteger => true,
            _ => false,
        }
    }

    /// The stable lowercase spelling of this type.
    pub open spec fn spec_as_str(self) -> &'static str {
        match self {
            DataType::Bool => "bool",
            DataType::Char => "char",
            DataType::Int8 => "int8",
            DataType::Int16 => "int16",
            DataType::Int32 => "int32",
            DataType::Int64 => "int64",
            DataType::Int128 => "int128",
            DataType::UInt8 => "uint8",
            DataType::UInt16 => "uint16",
            DataType::UInt32 => "uint32",
            DataType::UInt64 => "uint64",
            DataType::UInt128 => "uint128",
            DataType::Float32 => "float32",
            DataType::Float64 => "float64",
            DataType::BigInteger => "biginteger",
            DataType::BigDecimal => "bigdecimal",
            DataType::String => "string",
            DataType::Date => "date",
            DataType::Time => "time",
            DataType::DateTime => "datetime",
            DataType::Instant => "instant",
            DataType::Duration => "duration",
            DataType::Url => "url",
            DataType::StringMap => "stringmap",
            DataType::Json => "json",
        }
    }

    /// Returns the stable lowercase spelling of this type.
    #[verifier::when_used_as_spec(spec_as_str)]
    pub fn as_str(self) -> (name: &'static str)
        ensures
            name == self.spec_as_str(),
    {
        match self {
            DataType::Bool => "bool",
            DataType::Char => "char",
            DataType::Int8 => "int8",
            DataType::Int16 => "int16",
            DataType::Int32 => "int32",
            DataType::Int64 => "int64",
            DataType::Int128 => "int128",
            DataType::UInt8 => "uint8",
            DataType::UInt16 => "uint16",
            DataType::UInt32 => "uint32",
            DataType::UInt64 => "uint64",
            DataType::UInt128 => "uint128",
            DataType::Float32 => "float32",
            DataType::Float64 => "float64",
            DataType::BigInteger => "biginteger",
            DataType::BigDecimal => "bigdecimal",
            DataType::String => "string",
            DataType::Date => "date",
            DataType::Time => "time",
            DataType::DateTime => "datetime",
            DataType::Instant => "instant",
            DataType::Duration => "duration",
            DataType::Url => "url",
            DataType::StringMap => "stringmap",
            DataType::Json => "json",
        }
    }
}

} // verus!
