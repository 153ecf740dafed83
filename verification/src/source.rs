//! Construction of runtime source values from the values they wrap.

use vstd::prelude::*;

use crate::big_decimal::BigDecimal;
use crate::big_integer::BigInteger;
use crate::converter::DataConverter;
use crate::duration::Duration;
use crate::temporal::{Date, DateTime, Instant, Time};
use crate::url_value::Url;

verus! {

impl From<bool> for DataConverter {
    /// Wraps the value as a source of its own type.
    fn from(value: bool) -> (converter: Self) {
        DataConverter::Bool(value)
    }
}

impl vstd::std_specs::convert::FromSpecImpl<bool> for DataConverter {
    open spec fn obeys_from_spec() -> bool {
        true
    }

    open spec fn from_spec(value: bool) -> Self {
        DataConverter::Bool(value)
    }
}

impl From<char> for DataConverter {
    /// Wraps the value as a source of its own type.
    fn from(value: char) -> (converter: Self) {
        DataConverter::Char(value)
    }
}

impl vstd::std_specs::convert::FromSpecImpl<char> for DataConverter {
    open spec fn obeys_from_spec() -> bool {
        true
    }

    open spec fn from_spec(value: char) -> Self {
        DataConverter::Char(value)
    }
}

impl From<i8> for DataConverter {
    /// Wraps the value as a source of its own type.
    fn from(value: i8) -> (converter: Self) {
        DataConverter::Int8(value)
    }
}

impl vstd::std_specs::convert::FromSpecImpl<i8> for DataConverter {
    open spec fn obeys_from_spec() -> bool {
        true
    }

    open spec fn from_spec(value: i8) -> Self {
        DataConverter::Int8(value)
    }
}

impl From<i16> for DataConverter {
    /// Wraps the value as a source of its own type.
    fn from(value: i16) -> (converter: Self) {
        DataConverter::Int16(value)
    }
}

impl vstd::std_specs::convert::FromSpecImpl<i16> for DataConverter {
    open spec fn obeys_from_spec() -> bool {
        true
    }

    open spec fn from_spec(value: i16) -> Self {
        DataConverter::Int16(value)
    }
}

impl From<i32> for DataConverter {
    /// Wraps the value as a source of its own type.
    fn from(value: i32) -> (converter: Self) {
        DataConverter::Int32(value)
    }
}

impl vstd::std_specs::convert::FromSpecImpl<i32> for DataConverter {
    open spec fn obeys_from_spec() -> bool {
        true
    }

    open spec fn from_spec(value: i32) -> Self {
        DataConverter::Int32(value)
    }
}

impl From<i64> for DataConverter {
    /// Wraps the value as a source of its own type.
    fn from(value: i64) -> (converter: Self) {
        DataConverter::Int64(value)
    }
}

impl vstd::std_specs::convert::FromSpecImpl<i64> for DataConverter {
    open spec fn obeys_from_spec() -> bool {
        true
    }

    open spec fn from_spec(value: i64) -> Self {
        DataConverter::Int64(value)
    }
}

impl From<i128> for DataConverter {
    /// Wraps the value as a source of its own type.
    fn from(value: i128) -> (converter: Self) {
        DataConverter::Int128(value)
    }
}

impl vstd::std_specs::convert::FromSpecImpl<i128> for DataConverter {
    open spec fn obeys_from_spec() -> bool {
        true
    }

    open spec fn from_spec(value: i128) -> Self {
        DataConverter::Int128(value)
    }
}

impl From<u8> for DataConverter {
    /// Wraps the value as a source of its own type.
    fn from(value: u8) -> (converter: Self) {
        DataConverter::UInt8(value)
    }
}

impl vstd::std_specs::convert::FromSpecImpl<u8> for DataConverter {
    open spec fn obeys_from_spec() -> bool {
        true
    }

    open spec fn from_spec(value: u8) -> Self {
        DataConverter::UInt8(value)
    }
}

impl From<u16> for DataConverter {
    /// Wraps the value as a source of its own type.
    fn from(value: u16) -> (converter: Self) {
        DataConverter::UInt16(value)
    }
}

impl vstd::std_specs::convert::FromSpecImpl<u16> for DataConverter {
    open spec fn obeys_from_spec() -> bool {
        true
    }

    open spec fn from_spec(value: u16) -> Self {
        DataConverter::UInt16(value)
    }
}

impl From<u32> for DataConverter {
    /// Wraps the value as a source of its own type.
    fn from(value: u32) -> (converter: Self) {
        DataConverter::UInt32(value)
    }
}

impl vstd::std_specs::convert::FromSpecImpl<u32> for DataConverter {
    open spec fn obeys_from_spec() -> bool {
        true
    }

    open spec fn from_spec(value: u32) -> Self {
        DataConverter::UInt32(value)
    }
}

impl From<u64> for DataConverter {
    /// Wraps the value as a source of its own type.
    fn from(value: u64) -> (converter: Self) {
        DataConverter::UInt64(value)
    }
}

impl vstd::std_specs::convert::FromSpecImpl<u64> for DataConverter {
    open spec fn obeys_from_spec() -> bool {
        true
    }

    open spec fn from_spec(value: u64) -> Self {
        DataConverter::UInt64(value)
    }
}

impl From<u128> for DataConverter {
    /// Wraps the value as a source of its own type.
    fn from(value: u128) -> (converter: Self) {
        DataConverter::UInt128(value)
    }
}

impl vstd::std_specs::convert::FromSpecImpl<u128> for DataConverter {
    open spec fn obeys_from_spec() -> bool {
        true
    }

    open spec fn from_spec(value: u128) -> Self {
        DataConverter::UInt128(value)
    }
}

impl From<String> for DataConverter {
    /// Wraps the value as a source of its own type.
    fn from(value: String) -> (converter: Self) {
        DataConverter::String(value)
    }
}

impl vstd::std_specs::convert::FromSpecImpl<String> for DataConverter {
    open spec fn obeys_from_spec() -> bool {
        true
    }

    open spec fn from_spec(value: String) -> Self {
        DataConverter::String(value)
    }
}

impl From<Duration> for DataConverter {
    /// Wraps the value as a source of its own type.
    fn from(value: Duration) -> (converter: Self) {
        DataConverter::Duration(value)
    }
}

impl vstd::std_specs::convert::FromSpecImpl<Duration> for DataConverter {
    open spec fn obeys_from_spec() -> bool {
        true
    }

    open spec fn from_spec(value: Duration) -> Self {
        DataConverter::Duration(value)
    }
}

impl From<BigInteger> for DataConverter {
    /// Wraps the value as a source of its own type.
    fn from(value: BigInteger) -> (converter: Self) {
        DataConverter::BigInteger(value)
    }
}

impl vstd::std_specs::convert::FromSpecImpl<BigInteger> for DataConverter {
    open spec fn obeys_from_spec() -> bool {
        true
    }

    open spec fn from_spec(value: BigInteger) -> Self {
        DataConverter::BigInteger(value)
    }
}

impl From<BigDecimal> for DataConverter {
    /// Wraps the value as a source of its own type.
    fn from(value: BigDecimal) -> (converter: Self) {
        DataConverter::BigDecimal(value)
    }
}

impl vstd::std_specs::convert::FromSpecImpl<BigDecimal> for DataConverter {
    open spec fn obeys_from_spec() -> bool {
        true
    }

    open spec fn from_spec(value: BigDecimal) -> Self {
        DataConverter::BigDecimal(value)
    }
}

impl From<Url> for DataConverter {
    /// Wraps the value as a source of its own type.
    fn from(value: Url) -> (converter: Self) {
        DataConverter::Url(value)
    }
}

impl vstd::std_specs::convert::FromSpecImpl<Url> for DataConverter {
    open spec fn obeys_from_spec() -> bool {
        true
    }

    open spec fn from_spec(value: Url) -> Self {
        DataConverter::Url(value)
    }
}

impl From<Date> for DataConverter {
    /// Wraps the value as a source of its own type.
    fn from(value: Date) -> (converter: Self) {
        DataConverter::Date(value)
    }
}

impl vstd::std_specs::convert::FromSpecImpl<Date> for DataConverter {
    open spec fn obeys_from_spec() -> bool {
        true
    }

    open spec fn from_spec(value: Date) -> Self {
        DataConverter::Date(value)
    }
}

impl From<Time> for DataConverter {
    /// Wraps the value as a source of its own type.
    fn from(value: Time) -> (converter: Self) {
        DataConverter::Time(value)
    }
}

impl vstd::std_specs::convert::FromSpecImpl<Time> for DataConverter {
    open spec fn obeys_from_spec() -> bool {
        true
    }

    open spec fn from_spec(value: Time) -> Self {
        DataConverter::Time(value)
    }
}

impl From<DateTime> for DataConverter {
    /// Wraps the value as a source of its own type.
    fn from(value: DateTime) -> (converter: Self) {
        DataConverter::DateTime(value)
    }
}

impl vstd::std_specs::convert::FromSpecImpl<DateTime> for DataConverter {
    open spec fn obeys_from_spec() -> bool {
        true
    }

    open spec fn from_spec(value: DateTime) -> Self {
        DataConverter::DateTime(value)
    }
}

impl From<Instant> for DataConverter {
    /// Wraps the value as a source of its own type.
    fn from(value: Instant) -> (converter: Self) {
        DataConverter::Instant(value)
    }
}

impl vstd::std_specs::convert::FromSpecImpl<Instant> for DataConverter {
    open spec fn obeys_from_spec() -> bool {
        true
    }

    open spec fn from_spec(value: Instant) -> Self {
        DataConverter::Instant(value)
    }
}

} // verus!
