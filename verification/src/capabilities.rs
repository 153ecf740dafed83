//! Discovery of the conversion paths this build implements.

use vstd::prelude::*;

use crate::data_type::{all_data_types, DataType};

verus! {

/// Whether the build has a source representation and converters for a type.
/// This build carries every optional type family, so each type is available.
pub open spec fn is_available_type(data_type: DataType) -> bool {
    match data_type {
        DataType::Bool | DataType::Char | DataType::Int8 | DataType::Int16 | DataType::Int32
        | DataType::Int64 | DataType::Int128 | DataType::UInt8 | DataType::UInt16
        | DataType::UInt32 | DataType::UInt64 | DataType::UInt128 | DataType::Float32
        | DataType::Float64 | DataType::String | DataType::Duration | DataType::StringMap
        | DataType::BigInteger | DataType::BigDecimal | DataType::Url | DataType::Date
        | DataType::Time | DataType::DateTime | DataType::Instant | DataType::Json => true,
    }
}

/// A fixed-width integer type.
pub open spec fn is_fixed_integer_type(data_type: DataType) -> bool {
    match data_type {
        DataType::Int8 | DataType::Int16 | DataType::Int32 | DataType::Int64 | DataType::Int128
        | DataType::UInt8 | DataType::UInt16 | DataType::UInt32 | DataType::UInt64
        | DataType::UInt128 => true,
        _ => false,
    }
}

/// A floating-point type.
pub open spec fn is_float_type(data_type: DataType) -> bool {
    data_type == DataType::Float32 || data_type == DataType::Float64
}

/// Whether a conversion implementation exists from `from` to `to`.
pub open spec fn has_conversion_path(from: DataType, to: DataType) -> bool {
    let from_integer = is_fixed_integer_type(from) || from == DataType::BigInteger;
    if is_fixed_integer_type(to) || to == DataType::BigInteger {
        from_integer || is_float_type(from) || from == DataType::Bool || from == DataType::Char
            || from == DataType::String || from == DataType::Duration || from
            == DataType::BigDecimal
    } else if is_float_type(to) {
        from_integer || is_float_type(from) || from == DataType::Bool || from == DataType::Char
            || from == DataType::String || from == DataType::BigDecimal
    } else {
        match to {
            DataType::BigDecimal => from_integer || is_float_type(from) || from == DataType::Bool
                || from == DataType::Char || from == DataType::String || from
                == DataType::BigDecimal,
            DataType::Url | DataType::Date | DataType::Time | DataType::DateTime
            | DataType::Instant => from == DataType::String || from == to,
            DataType::Bool => from == DataType::Bool || from == DataType::String || from_integer,
            DataType::Char => from == DataType::Char || from == DataType::String,
            DataType::String => is_available_type(from),
            DataType::Duration => from == DataType::Duration || from == DataType::String
                || from_integer,
            DataType::StringMap => from == DataType::StringMap || from == DataType::String,
            DataType::Json => from == DataType::Json || from == DataType::StringMap || from
                == DataType::String,
            _ => false,
        }
    }
}

/// Whether the build converts values of `from` to `to`.
pub open spec fn supports_conversion(from: DataType, to: DataType) -> bool {
    is_available_type(from) && is_available_type(to) && has_conversion_path(from, to)
}

/// Describes the conversion paths compiled into this build.
///
/// Capability checks describe whether an implementation path exists; a
/// supported path can still reject malformed, out-of-range or
/// policy-disallowed input.
#[derive(Clone, Copy, Debug, PartialEq, Eq)]
pub struct ConversionCapabilities {
    /// Prevents construction of build states other than the current one.
    private: (),
}

impl ConversionCapabilities {
    /// Returns the capabilities of this build.
    pub fn current() -> (capabilities: Self) {
        ConversionCapabilities { private: () }
    }

    /// Reports whether this build has a representation and converters for a
    /// type.
    pub fn is_available(self, data_type: DataType) -> (available: bool)
        ensures
            available == is_available_type(data_type),
    {
        match data_type {
            DataType::Bool | DataType::Char | DataType::Int8 | DataType::Int16 | DataType::Int32
            | DataType::Int64 | DataType::Int128 | DataType::UInt8 | DataType::UInt16
            | DataType::UInt32 | DataType::UInt64 | DataType::UInt128 | DataType::Float32
            | DataType::Float64 | DataType::String | DataType::Duration | DataType::StringMap
            | DataType::BigInteger | DataType::BigDecimal | DataType::Url | DataType::Date
            | DataType::Time | DataType::DateTime | DataType::Instant | DataType::Json => true,
        }
    }

    /// Reports whether this build converts values of `from` to `to`.
    pub fn supports(self, from: DataType, to: DataType) -> (supported: bool)
        ensures
            supported == supports_conversion(from, to),
    {
        if !self.is_available(from) || !self.is_available(to) {
            return false;
        }
        let from_integer = is_fixed_integer(from) || from == DataType::BigInteger;
        let from_float = from == DataType::Float32 || from == DataType::Float64;
        if is_fixed_integer(to) || to == DataType::BigInteger {
            return from_integer || from_float || from == DataType::Bool || from == DataType::Char
                || from == DataType::String || from == DataType::Duration || from
                == DataType::BigDecimal;
        }
        if to == DataType::Float32 || to == DataType::Float64 {
            return from_integer || from_float || from == DataType::Bool || from == DataType::Char
                || from == DataType::String || from == DataType::BigDecimal;
        }
        match to {
            DataType::BigDecimal => from_integer || from_float || from == DataType::Bool || from
                == DataType::Char || from == DataType::String || from == DataType::BigDecimal,
            DataType::Url | DataType::Date | DataType::Time | DataType::DateTime
            | DataType::Instant => from == DataType::String || from == to,
            DataType::Bool => from == DataType::Bool || from == DataType::String || from_integer,
            DataType::Char => from == DataType::Char || from == DataType::String,
            DataType::String => true,
            DataType::Duration => from == DataType::Duration || from == DataType::String
                || from_integer,
            DataType::StringMap => from == DataType::StringMap || from == DataType::String,
            DataType::Json => from == DataType::Json || from == DataType::StringMap || from
                == DataType::String,
            _ => false,
        }
    }

    /// Lists the targets supported for one source, in catalog order.
    pub fn supported_targets(self, from: DataType) -> (targets: Vec<DataType>)
        ensures
            targets@ == all_data_types().filter(|to: DataType| supports_conversion(from, to)),
    {
        let all = DataType::all();
        let ghost pred = |to: DataType| supports_conversion(from, to);
        let mut targets: Vec<DataType> = Vec::new();
        let mut i: usize = 0;
        assert(all@.take(0) =~= Seq::<DataType>::empty());
        reveal_with_fuel(Seq::<DataType>::filter, 1);
        while i < all.len()
            invariant
                i <= all.len(),
                all@ == all_data_types(),
                pred == (|to: DataType| supports_conversion(from, to)),
                targets@ == all@.take(i as int).filter(pred),
            decreases all.len() - i,
        {
            reveal_with_fuel(Seq::<DataType>::filter, 1);
            assert(all@.take(i + 1).drop_last() =~= all@.take(i as int));
            if self.supports(from, all[i]) {
                targets.push(all[i]);
            }
            i += 1;
        }
        assert(all@.take(all.len() as int) =~= all@);
        targets
    }
}

/// Reports whether a type is a fixed-width integer type.
fn is_fixed_integer(data_type: DataType) -> (result: bool)
    ensures
        result == is_fixed_integer_type(data_type),
{
    match data_type {
        DataType::Int8 | DataType::Int16 | DataType::Int32 | DataType::Int64 | DataType::Int128
        | DataType::UInt8 | DataType::UInt16 | DataType::UInt32 | DataType::UInt64
        | DataType::UInt128 => true,
        _ => false,
    }
}

} // verus!
