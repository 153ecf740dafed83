//! Target-type conversion trait implemented by [`DataConverter`].

use vstd::prelude::*;

use crate::big_decimal::BigDecimal;
use crate::big_integer::BigInteger;
use crate::temporal::{Date, DateTime, Instant, Time};
use crate::url_value::Url;
use crate::converter::DataConverter;
use crate::data_type::DataType;
use crate::duration::Duration;
use crate::error::DataConversionError;
use crate::options::DataConversionOptions;

verus! {

/// The model of a conversion result: the converted value's view, or the
/// error.
pub open spec fn result_view<T: View>(result: Result<T, DataConversionError>) -> Result<
    T::V,
    DataConversionError,
> {
    match result {
        Ok(value) => Ok(value@),
        Err(error) => Err(error),
    }
}

/// Defines conversion from a [`DataConverter`] to target type `T`.
pub trait DataConvertTo<T: View> {
    /// What converting this source to `T` under `options` yields.
    spec fn conversion_result(&self, options: DataConversionOptions) -> Result<
        T::V,
        DataConversionError,
    >;

    /// The runtime type of `T`.
    spec fn spec_target_type() -> DataType;

    /// Returns the runtime type of `T`.
    fn target_type() -> (data_type: DataType)
        ensures
            data_type == Self::spec_target_type(),
    ;

    /// Converts the source value to `T`.
    fn convert(&self, options: &DataConversionOptions) -> (result: Result<T, DataConversionError>)
        ensures
            result_view(result) == self.conversion_result(*options),
    ;
}

impl DataConvertTo<bool> for DataConverter {
    open spec fn conversion_result(&self, options: DataConversionOptions) -> Result<
        bool,
        DataConversionError,
    > {
        self.bool_result(options)
    }

    open spec fn spec_target_type() -> DataType {
        DataType::Bool
    }

    fn target_type() -> (data_type: DataType) {
        DataType::Bool
    }

    fn convert(&self, options: &DataConversionOptions) -> (result: Result<bool, DataConversionError>) {
        self.to_bool(options)
    }
}

impl DataConvertTo<char> for DataConverter {
    open spec fn conversion_result(&self, options: DataConversionOptions) -> Result<
        char,
        DataConversionError,
    > {
        self.char_result(options)
    }

    open spec fn spec_target_type() -> DataType {
        DataType::Char
    }

    fn target_type() -> (data_type: DataType) {
        DataType::Char
    }

    fn convert(&self, options: &DataConversionOptions) -> (result: Result<char, DataConversionError>) {
        self.to_char(options)
    }
}

impl DataConvertTo<String> for DataConverter {
    open spec fn conversion_result(&self, options: DataConversionOptions) -> Result<
        Seq<char>,
        DataConversionError,
    > {
        self.string_result(options)
    }

    open spec fn spec_target_type() -> DataType {
        DataType::String
    }

    fn target_type() -> (data_type: DataType) {
        DataType::String
    }

    fn convert(&self, options: &DataConversionOptions) -> (result: Result<String, DataConversionError>) {
        self.to_text(options)
    }
}

impl DataConvertTo<Duration> for DataConverter {
    open spec fn conversion_result(&self, options: DataConversionOptions) -> Result<
        nat,
        DataConversionError,
    > {
        self.duration_result(options)
    }

    open spec fn spec_target_type() -> DataType {
        DataType::Duration
    }

    fn target_type() -> (data_type: DataType) {
        DataType::Duration
    }

    fn convert(&self, options: &DataConversionOptions) -> (result: Result<Duration, DataConversionError>) {
        self.to_duration(options)
    }
}

impl DataConvertTo<BigInteger> for DataConverter {
    open spec fn conversion_result(&self, options: DataConversionOptions) -> Result<
        int,
        DataConversionError,
    > {
        self.big_integer_result(options, DataType::BigInteger)
    }

    open spec fn spec_target_type() -> DataType {
        DataType::BigInteger
    }

    fn target_type() -> (data_type: DataType) {
        DataType::BigInteger
    }

    fn convert(&self, options: &DataConversionOptions) -> (result: Result<BigInteger, DataConversionError>) {
        self.source_to_bigint(options, DataType::BigInteger)
    }
}

impl DataConvertTo<BigDecimal> for DataConverter {
    open spec fn conversion_result(&self, options: DataConversionOptions) -> Result<
        (int, int),
        DataConversionError,
    > {
        self.big_decimal_result(options)
    }

    open spec fn spec_target_type() -> DataType {
        DataType::BigDecimal
    }

    fn target_type() -> (data_type: DataType) {
        DataType::BigDecimal
    }

    fn convert(&self, options: &DataConversionOptions) -> (result: Result<BigDecimal, DataConversionError>) {
        self.to_big_decimal(options)
    }
}

impl DataConvertTo<Url> for DataConverter {
    open spec fn conversion_result(&self, options: DataConversionOptions) -> Result<
        Seq<char>,
        DataConversionError,
    > {
        self.url_result(options)
    }

    open spec fn spec_target_type() -> DataType {
        DataType::Url
    }

    fn target_type() -> (data_type: DataType) {
        DataType::Url
    }

    fn convert(&self, options: &DataConversionOptions) -> (result: Result<Url, DataConversionError>) {
        self.to_url(options)
    }
}

impl DataConvertTo<Date> for DataConverter {
    open spec fn conversion_result(&self, options: DataConversionOptions) -> Result<
        (int, int, int),
        DataConversionError,
    > {
        self.date_result(options)
    }

    open spec fn spec_target_type() -> DataType {
        DataType::Date
    }

    fn target_type() -> (data_type: DataType) {
        DataType::Date
    }

    fn convert(&self, options: &DataConversionOptions) -> (result: Result<Date, DataConversionError>) {
        self.to_date(options)
    }
}

impl DataConvertTo<Time> for DataConverter {
    open spec fn conversion_result(&self, options: DataConversionOptions) -> Result<
        (int, int, int, int),
        DataConversionError,
    > {
        self.time_result(options)
    }

    open spec fn spec_target_type() -> DataType {
        DataType::Time
    }

    fn target_type() -> (data_type: DataType) {
        DataType::Time
    }

    fn convert(&self, options: &DataConversionOptions) -> (result: Result<Time, DataConversionError>) {
        self.to_time(options)
    }
}

impl DataConvertTo<DateTime> for DataConverter {
    open spec fn conversion_result(&self, options: DataConversionOptions) -> Result<
        ((int, int, int), (int, int, int, int)),
        DataConversionError,
    > {
        self.date_time_result(options)
    }

    open spec fn spec_target_type() -> DataType {
        DataType::DateTime
    }

    fn target_type() -> (data_type: DataType) {
        DataType::DateTime
    }

    fn convert(&self, options: &DataConversionOptions) -> (result: Result<DateTime, DataConversionError>) {
        self.to_datetime(options)
    }
}

impl DataConvertTo<Instant> for DataConverter {
    open spec fn conversion_result(&self, options: DataConversionOptions) -> Result<
        (int, int),
        DataConversionError,
    > {
        self.instant_result(options)
    }

    open spec fn spec_target_type() -> DataType {
        DataType::Instant
    }

    fn target_type() -> (data_type: DataType) {
        DataType::Instant
    }

    fn convert(&self, options: &DataConversionOptions) -> (result: Result<Instant, DataConversionError>) {
        self.to_instant(options)
    }
}

impl DataConvertTo<i8> for DataConverter {
    open spec fn conversion_result(&self, options: DataConversionOptions) -> Result<
        i8,
        DataConversionError,
    > {
        match self.integer_result(options, DataType::Int8, i8::MIN as int, i8::MAX as int) {
            Ok(v) => Ok(v as i8),
            Err(e) => Err(e),
        }
    }

    open spec fn spec_target_type() -> DataType {
        DataType::Int8
    }

    fn target_type() -> (data_type: DataType) {
        DataType::Int8
    }

    fn convert(&self, options: &DataConversionOptions) -> (result: Result<i8, DataConversionError>) {
        let value = self.to_signed(options, DataType::Int8, i8::MIN as i128, i8::MAX as i128)?;
        Ok(value as i8)
    }
}

impl DataConvertTo<i16> for DataConverter {
    open spec fn conversion_result(&self, options: DataConversionOptions) -> Result<
        i16,
        DataConversionError,
    > {
        match self.integer_result(options, DataType::Int16, i16::MIN as int, i16::MAX as int) {
            Ok(v) => Ok(v as i16),
            Err(e) => Err(e),
        }
    }

    open spec fn spec_target_type() -> DataType {
        DataType::Int16
    }

    fn target_type() -> (data_type: DataType) {
        DataType::Int16
    }

    fn convert(&self, options: &DataConversionOptions) -> (result: Result<i16, DataConversionError>) {
        let value = self.to_signed(options, DataType::Int16, i16::MIN as i128, i16::MAX as i128)?;
        Ok(value as i16)
    }
}

impl DataConvertTo<i32> for DataConverter {
    open spec fn conversion_result(&self, options: DataConversionOptions) -> Result<
        i32,
        DataConversionError,
    > {
        match self.integer_result(options, DataType::Int32, i32::MIN as int, i32::MAX as int) {
            Ok(v) => Ok(v as i32),
            Err(e) => Err(e),
        }
    }

    open spec fn spec_target_type() -> DataType {
        DataType::Int32
    }

    fn target_type() -> (data_type: DataType) {
        DataType::Int32
    }

    fn convert(&self, options: &DataConversionOptions) -> (result: Result<i32, DataConversionError>) {
        let value = self.to_signed(options, DataType::Int32, i32::MIN as i128, i32::MAX as i128)?;
        Ok(value as i32)
    }
}

impl DataConvertTo<i64> for DataConverter {
    open spec fn conversion_result(&self, options: DataConversionOptions) -> Result<
        i64,
        DataConversionError,
    > {
        match self.integer_result(options, DataType::Int64, i64::MIN as int, i64::MAX as int) {
            Ok(v) => Ok(v as i64),
            Err(e) => Err(e),
        }
    }

    open spec fn spec_target_type() -> DataType {
        DataType::Int64
    }

    fn target_type() -> (data_type: DataType) {
        DataType::Int64
    }

    fn convert(&self, options: &DataConversionOptions) -> (result: Result<i64, DataConversionError>) {
        let value = self.to_signed(options, DataType::Int64, i64::MIN as i128, i64::MAX as i128)?;
        Ok(value as i64)
    }
}

impl DataConvertTo<i128> for DataConverter {
    open spec fn conversion_result(&self, options: DataConversionOptions) -> Result<
        i128,
        DataConversionError,
    > {
        match self.integer_result(options, DataType::Int128, i128::MIN as int, i128::MAX as int) {
            Ok(v) => Ok(v as i128),
            Err(e) => Err(e),
        }
    }

    open spec fn spec_target_type() -> DataType {
        DataType::Int128
    }

    fn target_type() -> (data_type: DataType) {
        DataType::Int128
    }

    fn convert(&self, options: &DataConversionOptions) -> (result: Result<i128, DataConversionError>) {
        self.to_signed(options, DataType::Int128, i128::MIN, i128::MAX)
    }
}

impl DataConvertTo<u8> for DataConverter {
    open spec fn conversion_result(&self, options: DataConversionOptions) -> Result<
        u8,
        DataConversionError,
    > {
        match self.integer_result(options, DataType::UInt8, 0, u8::MAX as int) {
            Ok(v) => Ok(v as u8),
            Err(e) => Err(e),
        }
    }

    open spec fn spec_target_type() -> DataType {
        DataType::UInt8
    }

    fn target_type() -> (data_type: DataType) {
        DataType::UInt8
    }

    fn convert(&self, options: &DataConversionOptions) -> (result: Result<u8, DataConversionError>) {
        let value = self.to_unsigned(options, DataType::UInt8, u8::MAX as u128)?;
        Ok(value as u8)
    }
}

impl DataConvertTo<u16> for DataConverter {
    open spec fn conversion_result(&self, options: DataConversionOptions) -> Result<
        u16,
        DataConversionError,
    > {
        match self.integer_result(options, DataType::UInt16, 0, u16::MAX as int) {
            Ok(v) => Ok(v as u16),
            Err(e) => Err(e),
        }
    }

    open spec fn spec_target_type() -> DataType {
        DataType::UInt16
    }

    fn target_type() -> (data_type: DataType) {
        DataType::UInt16
    }

    fn convert(&self, options: &DataConversionOptions) -> (result: Result<u16, DataConversionError>) {
        let value = self.to_unsigned(options, DataType::UInt16, u16::MAX as u128)?;
        Ok(value as u16)
    }
}

impl DataConvertTo<u32> for DataConverter {
    open spec fn conversion_result(&self, options: DataConversionOptions) -> Result<
        u32,
        DataConversionError,
    > {
        match self.integer_result(options, DataType::UInt32, 0, u32::MAX as int) {
            Ok(v) => Ok(v as u32),
            Err(e) => Err(e),
        }
    }

    open spec fn spec_target_type() -> DataType {
        DataType::UInt32
    }

    fn target_type() -> (data_type: DataType) {
        DataType::UInt32
    }

    fn convert(&self, options: &DataConversionOptions) -> (result: Result<u32, DataConversionError>) {
        let value = self.to_unsigned(options, DataType::UInt32, u32::MAX as u128)?;
        Ok(value as u32)
    }
}

impl DataConvertTo<u64> for DataConverter {
    open spec fn conversion_result(&self, options: DataConversionOptions) -> Result<
        u64,
        DataConversionError,
    > {
        match self.integer_result(options, DataType::UInt64, 0, u64::MAX as int) {
            Ok(v) => Ok(v as u64),
            Err(e) => Err(e),
        }
    }

    open spec fn spec_target_type() -> DataType {
        DataType::UInt64
    }

    fn target_type() -> (data_type: DataType) {
        DataType::UInt64
    }

    fn convert(&self, options: &DataConversionOptions) -> (result: Result<u64, DataConversionError>) {
        let value = self.to_unsigned(options, DataType::UInt64, u64::MAX as u128)?;
        Ok(value as u64)
    }
}

impl DataConvertTo<u128> for DataConverter {
    open spec fn conversion_result(&self, options: DataConversionOptions) -> Result<
        u128,
        DataConversionError,
    > {
        match self.integer_result(options, DataType::UInt128, 0, u128::MAX as int) {
            Ok(v) => Ok(v as u128),
            Err(e) => Err(e),
        }
    }

    open spec fn spec_target_type() -> DataType {
        DataType::UInt128
    }

    fn target_type() -> (data_type: DataType) {
        DataType::UInt128
    }

    fn convert(&self, options: &DataConversionOptions) -> (result: Result<u128, DataConversionError>) {
        self.to_unsigned(options, DataType::UInt128, u128::MAX)
    }
}

impl DataConverter {
    /// Converts this source to `T` under explicit options.
    pub fn to_with<T: View>(&self, options: &DataConversionOptions) -> (result: Result<
        T,
        DataConversionError,
    >) where Self: DataConvertTo<T>
        ensures
            result_view(result) == <Self as DataConvertTo<T>>::conversion_result(self, *options),
    {
        <Self as DataConvertTo<T>>::convert(self, options)
    }

    /// Converts this source to `T` under the default options, the strict
    /// ones.
    pub fn to<T: View>(&self) -> (result: Result<T, DataConversionError>) where
        Self: DataConvertTo<T>,
        ensures
            exists|options: DataConversionOptions|
                #[trigger] options.is_strict() && result_view(result) == <Self as DataConvertTo<
                    T,
                >>::conversion_result(self, options),
    {
        let options = DataConversionOptions::strict();
        let result = self.to_with(&options);
        assert(options.is_strict());
        result
    }
}

} // verus!
