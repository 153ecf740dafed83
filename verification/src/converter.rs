//! The runtime source value and its conversions to booleans, characters,
//! text, durations, fixed-width and arbitrary-precision numbers, URLs, dates
//! and times.

use vstd::prelude::*;

use crate::big_decimal::{
    decimal_display, decimal_integer_result, decimal_to_bigint, number_text_result, parse_number,
    BigDecimal, NumberView, ParsedNumber,
};
use crate::big_integer::{abs, BigInteger};
use crate::temporal::{
    date_display, date_text_value, date_time_year, date_time_display, date_time_text_value, instant_display,
    is_canonical_year_instant, parse_date, parse_datetime, parse_instant, parse_time,
    parsed_instant, temporal_syntax_error, time_display, time_text_value, Date, DateTime,
    Instant, Time,
};
use crate::url_value::{parse_url_text, parsed_url, url_parse_result, Url};
use crate::boolean_options::BooleanOptionsView;
use crate::data_type::DataType;
use crate::decimal::{decimal_text, i128_to_text, string_from_chars, u128_to_text};
use crate::duration::{
    duration_to_u128, duration_units_result, is_multi_second_unit, max_duration_nanos,
    unit_for_suffix, unit_nanos, unit_seconds, unit_suffix, Duration, DurationUnit,
};
use crate::error::{text_error, DataConversionError, DataConversionErrorKind};
use crate::numeric_text::{
    big_integer_text_result, chars_are_integer_syntax, has_minus_sign, integer_text_result,
    is_integer_text, lemma_digits_value_nonneg, lemma_digits_value_step, parse_text_bigint,
    parse_text_integer, strip_sign,
};
use crate::options::DataConversionOptions;
use crate::policy::BooleanNumericPolicy;
use crate::text::{
    all_digits, char_digit_value, char_is_ascii_digit, chars_of, copy_range, digits_value,
    is_ascii_digit,
};

verus! {

/// A runtime source value for policy-driven conversion.
///
/// The wrapper erases the concrete Rust source type while preserving its
/// [`DataType`]; [`DataConverter::Unset`] is a missing value whose declared
/// type remains known.
#[derive(Clone, Debug, PartialEq, Eq)]
pub enum DataConverter {
    /// Missing source whose declared type remains known.
    Unset(DataType),
    /// Boolean source value.
    Bool(bool),
    /// Unicode scalar source value.
    Char(char),
    /// 8-bit signed integer source value.
    Int8(i8),
    /// 16-bit signed integer source value.
    Int16(i16),
    /// 32-bit signed integer source value.
    Int32(i32),
    /// 64-bit signed integer source value.
    Int64(i64),
    /// 128-bit signed integer source value.
    Int128(i128),
    /// 8-bit unsigned integer source value.
    UInt8(u8),
    /// 16-bit unsigned integer source value.
    UInt16(u16),
    /// 32-bit unsigned integer source value.
    UInt32(u32),
    /// 64-bit unsigned integer source value.
    UInt64(u64),
    /// 128-bit unsigned integer source value.
    UInt128(u128),
    /// UTF-8 text source value.
    String(String),
    /// Non-negative span source value.
    Duration(Duration),
    /// Arbitrary-precision integer source value.
    BigInteger(BigInteger),
    /// Arbitrary-precision decimal source value.
    BigDecimal(BigDecimal),
    /// Absolute URL source value.
    Url(Url),
    /// Calendar date source value.
    Date(Date),
    /// Clock time source value.
    Time(Time),
    /// Local date-time source value.
    DateTime(DateTime),
    /// UTC instant source value.
    Instant(Instant),
}

/// Sign and magnitude of an integer.
pub open spec fn signed_magnitude(v: int) -> (bool, u128) {
    if v < 0 {
        (true, (-v) as u128)
    } else {
        (false, v as u128)
    }
}

/// The integer a sign and magnitude denote.
pub open spec fn signed_value(negative: bool, magnitude: u128) -> int {
    if negative {
        -(magnitude as int)
    } else {
        magnitude as int
    }
}

/// What a conversion to an integer target whose range is `min..=max` yields.
pub open spec fn integer_target_result(
    intermediate: Result<(bool, u128), DataConversionError>,
    from: DataType,
    to: DataType,
    min: int,
    max: int,
) -> Result<int, DataConversionError> {
    match intermediate {
        Err(error) => Err(error),
        Ok((negative, magnitude)) => {
            let v = signed_value(negative, magnitude);
            if min <= v && v <= max {
                Ok(v)
            } else {
                Err(
                    DataConversionError::InvalidValue {
                        from,
                        to,
                        reason: DataConversionErrorKind::OutOfRange,
                    },
                )
            }
        },
    }
}

/// What the integer-to-boolean policy selects for an integer that is zero,
/// one, or neither.
pub open spec fn integer_bool_result(
    zero: bool,
    one: bool,
    policy: BooleanNumericPolicy,
    from: DataType,
) -> Result<bool, DataConversionError> {
    let rejected = DataConversionError::InvalidValue {
        from,
        to: DataType::Bool,
        reason: DataConversionErrorKind::InvalidBoolean,
    };
    match policy {
        BooleanNumericPolicy::ZeroOrOne => if zero {
            Ok(false)
        } else if one {
            Ok(true)
        } else {
            Err(rejected)
        },
        BooleanNumericPolicy::NonZero => Ok(!zero),
        BooleanNumericPolicy::Reject => Err(rejected),
    }
}

/// What converting normalized text to a boolean yields: a configured
/// literal, otherwise an integer under the numeric-boolean policy.
pub open spec fn text_bool_result(t: Seq<char>, boolean: BooleanOptionsView) -> Result<
    bool,
    DataConversionError,
> {
    match boolean.parse(t) {
        Some(b) => Ok(b),
        None => if !is_integer_text(t) {
            Err(text_error(DataType::Bool, DataConversionErrorKind::InvalidBoolean))
        } else {
            integer_bool_result(
                digits_value(strip_sign(t)) == 0,
                !has_minus_sign(t) && digits_value(strip_sign(t)) == 1,
                boolean.numeric_policy,
                DataType::String,
            )
        },
    }
}

/// The expected grammar of duration text.
pub open spec fn duration_syntax_label() -> &'static str {
    "[0-9]+(ns|us|µs|μs|ms|s|m|h|d)?"
}

/// The number of leading ASCII digits of `t`.
pub open spec fn leading_digit_count(t: Seq<char>) -> int
    decreases t.len(),
{
    if t.len() > 0 && is_ascii_digit(t[0]) {
        1 + leading_digit_count(t.skip(1))
    } else {
        0
    }
}

/// A character that can appear in a unit name.
pub open spec fn is_unit_letter(c: char) -> bool {
    ('a' <= c && c <= 'z') || ('A' <= c && c <= 'Z') || c == 'µ' || c == 'μ'
}

/// What parsing duration text yields in nanoseconds: a count of digits and
/// an optional unit suffix; suffixless text counts `default_unit`.
pub open spec fn duration_text_result(t: Seq<char>, default_unit: DurationUnit) -> Result<
    nat,
    DataConversionErrorKind,
> {
    let k = leading_digit_count(t);
    let rest = t.skip(k);
    let value = digits_value(t.take(k));
    let unit = if rest.len() == 0 {
        Some(default_unit)
    } else {
        unit_for_suffix(rest)
    };
    if k == 0 {
        Err(DataConversionErrorKind::InvalidSyntax { expected: duration_syntax_label() })
    } else if unit is None {
        if forall|i: int| 0 <= i < rest.len() ==> is_unit_letter(#[trigger] rest[i]) {
            Err(DataConversionErrorKind::UnsupportedDurationUnit)
        } else {
            Err(DataConversionErrorKind::InvalidSyntax { expected: duration_syntax_label() })
        }
    } else if value > u64::MAX || (is_multi_second_unit(unit->0) && value * unit_seconds(
        unit->0,
    ) > u64::MAX) {
        Err(DataConversionErrorKind::OutOfRange)
    } else {
        Ok((value * unit_nanos(unit->0)) as nat)
    }
}

/// The sign and magnitude of an exact integer for a fixed-width target: any
/// value from `-2^127` to `u128::MAX` fits the intermediate, others are out
/// of range.
pub open spec fn intermediate_of(v: int, from: DataType, to: DataType) -> Result<
    (bool, u128),
    DataConversionError,
> {
    if -0x8000_0000_0000_0000_0000_0000_0000_0000 <= v <= u128::MAX {
        Ok(signed_magnitude(v))
    } else {
        Err(DataConversionError::InvalidValue { from, to, reason: DataConversionErrorKind::OutOfRange })
    }
}

/// The error formatting a temporal value whose year is outside 0 through
/// 9999 reports.
pub open spec fn year_error(from: DataType) -> DataConversionError {
    DataConversionError::InvalidValue {
        from,
        to: DataType::String,
        reason: DataConversionErrorKind::OutOfRange,
    }
}

/// What normalizing text and parsing it as a duration yields, in
/// nanoseconds; a bare count takes the configured unit.
pub open spec fn duration_parse_result(value: Seq<char>, options: DataConversionOptions) -> Result<
    nat,
    DataConversionError,
> {
    match options.normalized(value, DataType::Duration) {
        Err(error) => Err(error),
        Ok(t) => match duration_text_result(t, options.duration.unit) {
            Ok(nanos) => Ok(nanos),
            Err(reason) => Err(text_error(DataType::Duration, reason)),
        },
    }
}

impl DataConverter {
    /// The runtime type of the wrapped source; a missing source reports its
    /// declared type.
    pub open spec fn spec_data_type(&self) -> DataType {
        match self {
            DataConverter::Unset(t) => *t,
            DataConverter::Bool(_) => DataType::Bool,
            DataConverter::Char(_) => DataType::Char,
            DataConverter::Int8(_) => DataType::Int8,
            DataConverter::Int16(_) => DataType::Int16,
            DataConverter::Int32(_) => DataType::Int32,
            DataConverter::Int64(_) => DataType::Int64,
            DataConverter::Int128(_) => DataType::Int128,
            DataConverter::UInt8(_) => DataType::UInt8,
            DataConverter::UInt16(_) => DataType::UInt16,
            DataConverter::UInt32(_) => DataType::UInt32,
            DataConverter::UInt64(_) => DataType::UInt64,
            DataConverter::UInt128(_) => DataType::UInt128,
            DataConverter::String(_) => DataType::String,
            DataConverter::Duration(_) => DataType::Duration,
            DataConverter::BigInteger(_) => DataType::BigInteger,
            DataConverter::BigDecimal(_) => DataType::BigDecimal,
            DataConverter::Url(_) => DataType::Url,
            DataConverter::Date(_) => DataType::Date,
            DataConverter::Time(_) => DataType::Time,
            DataConverter::DateTime(_) => DataType::DateTime,
            DataConverter::Instant(_) => DataType::Instant,
        }
    }

    /// The exact sign and magnitude of a scalar integer source; booleans and
    /// characters count by their numeric values.
    pub open spec fn scalar_magnitude(&self) -> Option<(bool, u128)> {
        match self {
            DataConverter::Bool(b) => Some((false, if *b { 1u128 } else { 0u128 })),
            DataConverter::Char(c) => Some((false, *c as u128)),
            DataConverter::Int8(v) => Some(signed_magnitude(*v as int)),
            DataConverter::Int16(v) => Some(signed_magnitude(*v as int)),
            DataConverter::Int32(v) => Some(signed_magnitude(*v as int)),
            DataConverter::Int64(v) => Some(signed_magnitude(*v as int)),
            DataConverter::Int128(v) => Some(signed_magnitude(*v as int)),
            DataConverter::UInt8(v) => Some((false, *v as u128)),
            DataConverter::UInt16(v) => Some((false, *v as u128)),
            DataConverter::UInt32(v) => Some((false, *v as u128)),
            DataConverter::UInt64(v) => Some((false, *v as u128)),
            DataConverter::UInt128(v) => Some((false, *v)),
            _ => None,
        }
    }

    /// Whether the source is a fixed-width integer.
    pub open spec fn is_integer_source(&self) -> bool {
        match self {
            DataConverter::Int8(_) | DataConverter::Int16(_) | DataConverter::Int32(_)
            | DataConverter::Int64(_) | DataConverter::Int128(_) | DataConverter::UInt8(_)
            | DataConverter::UInt16(_) | DataConverter::UInt32(_) | DataConverter::UInt64(_)
            | DataConverter::UInt128(_) => true,
            _ => false,
        }
    }

    /// The integer value of an integer source.
    pub open spec fn integer_value(&self) -> int {
        match self {
            DataConverter::Int8(v) => *v as int,
            DataConverter::Int16(v) => *v as int,
            DataConverter::Int32(v) => *v as int,
            DataConverter::Int64(v) => *v as int,
            DataConverter::Int128(v) => *v as int,
            DataConverter::UInt8(v) => *v as int,
            DataConverter::UInt16(v) => *v as int,
            DataConverter::UInt32(v) => *v as int,
            DataConverter::UInt64(v) => *v as int,
            DataConverter::UInt128(v) => *v as int,
            DataConverter::BigInteger(v) => v@,
            _ => 0,
        }
    }

    /// What extracting an integer intermediate yields: the exact sign and
    /// magnitude of scalars, parsed text, or a duration counted in the
    /// configured unit.
    pub open spec fn integer_intermediate(
        &self,
        options: DataConversionOptions,
        to: DataType,
    ) -> Result<(bool, u128), DataConversionError> {
        match self {
            DataConverter::Unset(t) => Err(DataConversionError::Missing { from: *t, to }),
            DataConverter::String(s) => match options.normalized(s@, to) {
                Err(error) => Err(error),
                Ok(t) => integer_text_result(t, options.numeric_policy, to),
            },
            DataConverter::Duration(d) => match duration_units_result(
                d@,
                options.duration.unit,
                options.numeric_policy,
                to,
            ) {
                Err(error) => Err(error),
                Ok(units) => Ok((false, units)),
            },
            DataConverter::BigInteger(v) => intermediate_of(v@, DataType::BigInteger, to),
            DataConverter::BigDecimal(d) => match decimal_integer_result(
                d@,
                options.numeric_policy,
                DataType::BigDecimal,
                to,
            ) {
                Err(error) => Err(error),
                Ok(v) => intermediate_of(v, DataType::BigDecimal, to),
            },
            DataConverter::Url(_) | DataConverter::Date(_) | DataConverter::Time(_) | DataConverter::DateTime(_) | DataConverter::Instant(_) => Err(
                DataConversionError::Unsupported { from: self.spec_data_type(), to },
            ),
            _ => Ok(self.scalar_magnitude()->0),
        }
    }

    /// What converting to an integer target of range `min..=max` yields.
    pub open spec fn integer_result(
        &self,
        options: DataConversionOptions,
        to: DataType,
        min: int,
        max: int,
    ) -> Result<int, DataConversionError> {
        integer_target_result(
            self.integer_intermediate(options, to),
            self.spec_data_type(),
            to,
            min,
            max,
        )
    }

    /// What converting to an arbitrary-precision integer yields: the exact
    /// value of scalars (booleans count as 0 and 1, characters as their
    /// scalar values), parsed text, or a duration counted in the configured
    /// unit.
    pub open spec fn big_integer_result(&self, options: DataConversionOptions, to: DataType) -> Result<
        int,
        DataConversionError,
    > {
        match self {
            DataConverter::Unset(t) => Err(DataConversionError::Missing { from: *t, to }),
            DataConverter::String(s) => match options.normalized(s@, to) {
                Err(error) => Err(error),
                Ok(t) => big_integer_text_result(t, options.numeric_policy, to),
            },
            DataConverter::Duration(d) => match duration_units_result(
                d@,
                options.duration.unit,
                options.numeric_policy,
                to,
            ) {
                Err(error) => Err(error),
                Ok(units) => Ok(units as int),
            },
            DataConverter::BigInteger(v) => Ok(v@),
            DataConverter::BigDecimal(d) => decimal_integer_result(
                d@,
                options.numeric_policy,
                DataType::BigDecimal,
                to,
            ),
            DataConverter::Url(_) | DataConverter::Date(_) | DataConverter::Time(_) | DataConverter::DateTime(_) | DataConverter::Instant(_) => Err(
                DataConversionError::Unsupported { from: self.spec_data_type(), to },
            ),
            _ => match self.scalar_magnitude() {
                Some((negative, magnitude)) => Ok(signed_value(negative, magnitude)),
                None => Ok(0),
            },
        }
    }

    /// What converting to an arbitrary-precision decimal yields, as its
    /// coefficient and scale: a decimal itself, parsed text (integer text
    /// keeps scale zero), or any other numeric source's exact integer value.
    pub open spec fn big_decimal_result(&self, options: DataConversionOptions) -> Result<
        (int, int),
        DataConversionError,
    > {
        match self {
            DataConverter::BigDecimal(d) => Ok(d@),
            DataConverter::String(s) => match options.normalized(s@, DataType::BigDecimal) {
                Err(error) => Err(error),
                Ok(t) => match number_text_result(t, DataType::BigDecimal) {
                    Err(error) => Err(error),
                    Ok(NumberView::Integer(v)) => Ok((v, 0)),
                    Ok(NumberView::Decimal(c, scale)) => Ok((c, scale)),
                    Ok(_) => Err(text_error(DataType::BigDecimal, DataConversionErrorKind::NonFinite)),
                },
            },
            DataConverter::Unset(t) => Err(DataConversionError::Missing { from: *t, to: DataType::BigDecimal }),
            DataConverter::Duration(_) | DataConverter::Url(_) | DataConverter::Date(_) | DataConverter::Time(_) | DataConverter::DateTime(_) | DataConverter::Instant(_) => Err(
                DataConversionError::Unsupported {
                    from: self.spec_data_type(),
                    to: DataType::BigDecimal,
                },
            ),
            _ => match self.big_integer_result(options, DataType::BigDecimal) {
                Err(error) => Err(error),
                Ok(v) => Ok((v, 0)),
            },
        }
    }

    /// What converting to an absolute URL yields, as its serialization.
    pub open spec fn url_result(&self, options: DataConversionOptions) -> Result<
        Seq<char>,
        DataConversionError,
    > {
        match self {
            DataConverter::Url(u) => Ok(u@),
            DataConverter::String(s) => match options.normalized(s@, DataType::Url) {
                Err(error) => Err(error),
                Ok(t) => url_parse_result(parsed_url(t)),
            },
            DataConverter::Unset(t) => Err(DataConversionError::Missing { from: *t, to: DataType::Url }),
            _ => Err(DataConversionError::Unsupported { from: self.spec_data_type(), to: DataType::Url }),
        }
    }

    /// What converting to a calendar date yields.
    pub open spec fn date_result(&self, options: DataConversionOptions) -> Result<
        (int, int, int),
        DataConversionError,
    > {
        match self {
            DataConverter::Date(d) => Ok(d@),
            DataConverter::String(s) => match options.normalized(s@, DataType::Date) {
                Err(error) => Err(error),
                Ok(t) => match date_text_value(t) {
                    Some(d) => Ok(d),
                    None => Err(temporal_syntax_error(DataType::Date, "YYYY-MM-DD")),
                },
            },
            DataConverter::Unset(t) => Err(DataConversionError::Missing { from: *t, to: DataType::Date }),
            _ => Err(DataConversionError::Unsupported { from: self.spec_data_type(), to: DataType::Date }),
        }
    }

    /// What converting to a clock time yields.
    pub open spec fn time_result(&self, options: DataConversionOptions) -> Result<
        (int, int, int, int),
        DataConversionError,
    > {
        match self {
            DataConverter::Time(t) => Ok(t@),
            DataConverter::String(s) => match options.normalized(s@, DataType::Time) {
                Err(error) => Err(error),
                Ok(t) => match time_text_value(t) {
                    Some(v) => Ok(v),
                    None => Err(temporal_syntax_error(DataType::Time, "HH:MM:SS[.fraction]")),
                },
            },
            DataConverter::Unset(t) => Err(DataConversionError::Missing { from: *t, to: DataType::Time }),
            _ => Err(DataConversionError::Unsupported { from: self.spec_data_type(), to: DataType::Time }),
        }
    }

    /// What converting to a local date-time yields.
    pub open spec fn date_time_result(&self, options: DataConversionOptions) -> Result<
        ((int, int, int), (int, int, int, int)),
        DataConversionError,
    > {
        match self {
            DataConverter::DateTime(v) => Ok(v@),
            DataConverter::String(s) => match options.normalized(s@, DataType::DateTime) {
                Err(error) => Err(error),
                Ok(t) => match date_time_text_value(t) {
                    Some(v) => Ok(v),
                    None => Err(
                        temporal_syntax_error(DataType::DateTime, "YYYY-MM-DDTHH:MM:SS[.fraction]"),
                    ),
                },
            },
            DataConverter::Unset(t) => Err(DataConversionError::Missing { from: *t, to: DataType::DateTime }),
            _ => Err(
                DataConversionError::Unsupported { from: self.spec_data_type(), to: DataType::DateTime },
            ),
        }
    }

    /// What converting to a UTC instant yields.
    pub open spec fn instant_result(&self, options: DataConversionOptions) -> Result<
        (int, int),
        DataConversionError,
    > {
        match self {
            DataConverter::Instant(i) => Ok(i@),
            DataConverter::String(s) => match options.normalized(s@, DataType::Instant) {
                Err(error) => Err(error),
                Ok(t) => match parsed_instant(t) {
                    Some(v) => Ok(v),
                    None => Err(
                        temporal_syntax_error(DataType::Instant, "RFC 3339 timestamp with offset"),
                    ),
                },
            },
            DataConverter::Unset(t) => Err(DataConversionError::Missing { from: *t, to: DataType::Instant }),
            _ => Err(
                DataConversionError::Unsupported { from: self.spec_data_type(), to: DataType::Instant },
            ),
        }
    }

    /// What converting to a boolean yields.
    pub open spec fn bool_result(&self, options: DataConversionOptions) -> Result<
        bool,
        DataConversionError,
    > {
        match self {
            DataConverter::Bool(b) => Ok(*b),
            DataConverter::String(s) => match options.normalized(s@, DataType::Bool) {
                Err(error) => Err(error),
                Ok(t) => text_bool_result(t, options.boolean@),
            },
            DataConverter::Unset(t) => Err(DataConversionError::Missing { from: *t, to: DataType::Bool }),
            DataConverter::Char(_) | DataConverter::Duration(_) | DataConverter::BigDecimal(_)
            | DataConverter::Url(_) | DataConverter::Date(_) | DataConverter::Time(_) | DataConverter::DateTime(_) | DataConverter::Instant(_) => Err(
                DataConversionError::Unsupported { from: self.spec_data_type(), to: DataType::Bool },
            ),
            _ => integer_bool_result(
                self.integer_value() == 0,
                self.integer_value() == 1,
                options.boolean@.numeric_policy,
                self.spec_data_type(),
            ),
        }
    }

    /// What converting to a character yields.
    pub open spec fn char_result(&self, options: DataConversionOptions) -> Result<
        char,
        DataConversionError,
    > {
        match self {
            DataConverter::Char(c) => Ok(*c),
            DataConverter::String(s) => match options.normalized(s@, DataType::Char) {
                Err(error) => Err(error),
                Ok(t) => if t.len() == 1 {
                    Ok(t[0])
                } else {
                    Err(
                        text_error(
                            DataType::Char,
                            DataConversionErrorKind::InvalidSyntax {
                                expected: "one Unicode scalar value",
                            },
                        ),
                    )
                },
            },
            DataConverter::Unset(t) => Err(DataConversionError::Missing { from: *t, to: DataType::Char }),
            _ => Err(
                DataConversionError::Unsupported { from: self.spec_data_type(), to: DataType::Char },
            ),
        }
    }

    /// What formatting as canonical text yields.
    pub open spec fn string_result(&self, options: DataConversionOptions) -> Result<
        Seq<char>,
        DataConversionError,
    > {
        match self {
            DataConverter::Unset(t) => Err(DataConversionError::Missing { from: *t, to: DataType::String }),
            DataConverter::Bool(b) => Ok(
                if *b {
                    "true"@
                } else {
                    "false"@
                },
            ),
            DataConverter::Char(c) => Ok(seq![*c]),
            DataConverter::String(s) => options.normalized(s@, DataType::String),
            DataConverter::Duration(d) => match duration_units_result(
                d@,
                options.duration.unit,
                options.numeric_policy,
                DataType::String,
            ) {
                Err(error) => Err(error),
                Ok(units) => Ok(
                    decimal_text(units as int) + if options.duration.append_unit_suffix {
                        unit_suffix(options.duration.unit)@
                    } else {
                        Seq::empty()
                    },
                ),
            },
            DataConverter::BigDecimal(d) => Ok(decimal_display(d@)),
            DataConverter::Url(u) => Ok(u@),
            DataConverter::Date(d) => if 0 <= d@.0 <= 9999 {
                Ok(date_display(d@))
            } else {
                Err(year_error(DataType::Date))
            },
            DataConverter::Time(t) => Ok(time_display(t@)),
            DataConverter::DateTime(v) => if 0 <= date_time_year(v@) <= 9999 {
                Ok(date_time_display(v@))
            } else {
                Err(year_error(DataType::DateTime))
            },
            DataConverter::Instant(i) => if is_canonical_year_instant(i@.0) {
                Ok(instant_display(i@))
            } else {
                Err(year_error(DataType::Instant))
            },
            _ => Ok(decimal_text(self.integer_value())),
        }
    }

    /// What converting to a duration yields, in nanoseconds.
    pub open spec fn duration_result(&self, options: DataConversionOptions) -> Result<
        nat,
        DataConversionError,
    > {
        match self {
            DataConverter::Duration(d) => Ok(d@),
            DataConverter::String(s) => duration_parse_result(s@, options),
            DataConverter::Unset(t) => Err(DataConversionError::Missing { from: *t, to: DataType::Duration }),
            DataConverter::Bool(_) | DataConverter::Char(_) | DataConverter::BigDecimal(_)
            | DataConverter::Url(_) | DataConverter::Date(_) | DataConverter::Time(_) | DataConverter::DateTime(_) | DataConverter::Instant(_) => Err(
                DataConversionError::Unsupported {
                    from: self.spec_data_type(),
                    to: DataType::Duration,
                },
            ),
            _ => {
                let v = self.integer_value();
                if v < 0 {
                    Err(
                        DataConversionError::InvalidValue {
                            from: self.spec_data_type(),
                            to: DataType::Duration,
                            reason: DataConversionErrorKind::NegativeDuration,
                        },
                    )
                } else if v * unit_nanos(options.duration.unit) > max_duration_nanos() {
                    Err(
                        DataConversionError::InvalidValue {
                            from: self.spec_data_type(),
                            to: DataType::Duration,
                            reason: DataConversionErrorKind::OutOfRange,
                        },
                    )
                } else {
                    Ok((v * unit_nanos(options.duration.unit)) as nat)
                }
            },
        }
    }

    /// Returns the runtime type of the wrapped source; a missing source
    /// reports its declared type.
    #[verifier::when_used_as_spec(spec_data_type)]
    pub fn data_type(&self) -> (data_type: DataType)
        ensures
            data_type == self.spec_data_type(),
    {
        match self {
            DataConverter::Unset(t) => *t,
            DataConverter::Bool(_) => DataType::Bool,
            DataConverter::Char(_) => DataType::Char,
            DataConverter::Int8(_) => DataType::Int8,
            DataConverter::Int16(_) => DataType::Int16,
            DataConverter::Int32(_) => DataType::Int32,
            DataConverter::Int64(_) => DataType::Int64,
            DataConverter::Int128(_) => DataType::Int128,
            DataConverter::UInt8(_) => DataType::UInt8,
            DataConverter::UInt16(_) => DataType::UInt16,
            DataConverter::UInt32(_) => DataType::UInt32,
            DataConverter::UInt64(_) => DataType::UInt64,
            DataConverter::UInt128(_) => DataType::UInt128,
            DataConverter::String(_) => DataType::String,
            DataConverter::Duration(_) => DataType::Duration,
            DataConverter::BigInteger(_) => DataType::BigInteger,
            DataConverter::BigDecimal(_) => DataType::BigDecimal,
            DataConverter::Url(_) => DataType::Url,
            DataConverter::Date(_) => DataType::Date,
            DataConverter::Time(_) => DataType::Time,
            DataConverter::DateTime(_) => DataType::DateTime,
            DataConverter::Instant(_) => DataType::Instant,
        }
    }

    /// Builds a missing-value error for this source and a target.
    fn missing(&self, to: DataType) -> (error: DataConversionError)
        ensures
            error == (DataConversionError::Missing { from: self.spec_data_type(), to }),
    {
        DataConversionError::missing(self.data_type(), to)
    }

    /// Builds an unsupported-pair error for this source and a target.
    fn unsupported(&self, to: DataType) -> (error: DataConversionError)
        ensures
            error == (DataConversionError::Unsupported { from: self.spec_data_type(), to }),
    {
        DataConversionError::unsupported(self.data_type(), to)
    }

    /// Builds an invalid-value error for this source and a target.
    fn invalid(&self, to: DataType, reason: DataConversionErrorKind) -> (error: DataConversionError)
        ensures
            error == (DataConversionError::InvalidValue {
                from: self.spec_data_type(),
                to,
                reason,
            }),
    {
        DataConversionError::invalid(self.data_type(), to, reason)
    }

    /// Extracts the exact sign and magnitude of a scalar integer source.
    pub fn scalar_integer_magnitude(&self) -> (magnitude: Option<(bool, u128)>)
        ensures
            magnitude == self.scalar_magnitude(),
    {
        match self {
            DataConverter::Bool(b) => Some((false, if *b { 1 } else { 0 })),
            DataConverter::Char(c) => Some((false, *c as u32 as u128)),
            DataConverter::Int8(v) => Some(signed_magnitude_of(*v as i128)),
            DataConverter::Int16(v) => Some(signed_magnitude_of(*v as i128)),
            DataConverter::Int32(v) => Some(signed_magnitude_of(*v as i128)),
            DataConverter::Int64(v) => Some(signed_magnitude_of(*v as i128)),
            DataConverter::Int128(v) => Some(signed_magnitude_of(*v)),
            DataConverter::UInt8(v) => Some((false, *v as u128)),
            DataConverter::UInt16(v) => Some((false, *v as u128)),
            DataConverter::UInt32(v) => Some((false, *v as u128)),
            DataConverter::UInt64(v) => Some((false, *v as u128)),
            DataConverter::UInt128(v) => Some((false, *v)),
            _ => None,
        }
    }

    /// Extracts an integer intermediate: the exact sign and magnitude of
    /// scalars, parsed text, or a duration counted in the configured unit.
    pub fn source_to_integer(&self, options: &DataConversionOptions, to: DataType) -> (result:
        Result<(bool, u128), DataConversionError>)
        ensures
            result == self.integer_intermediate(*options, to),
    {
        if let Some(value) = self.scalar_integer_magnitude() {
            return Ok(value);
        }
        match self {
            DataConverter::String(value) => {
                let text = options.normalize(value.as_str(), to)?;
                parse_text_integer(text, options.numeric_policy, to)
            },
            DataConverter::Duration(value) => {
                let units = duration_to_u128(*value, options.duration.unit, options.numeric_policy, to)?;
                Ok((false, units))
            },
            DataConverter::BigInteger(value) => big_integer_magnitude(value, DataType::BigInteger, to),
            DataConverter::BigDecimal(value) => {
                let integer = decimal_to_bigint(
                    value,
                    options.numeric_policy,
                    DataType::BigDecimal,
                    to,
                )?;
                big_integer_magnitude(&integer, DataType::BigDecimal, to)
            },
            DataConverter::Url(_) | DataConverter::Date(_) | DataConverter::Time(_) | DataConverter::DateTime(_) | DataConverter::Instant(_) => Err(self.unsupported(to)),
            _ => Err(self.missing(to)),
        }
    }

    /// Extracts an arbitrary-precision integer: the exact value of scalars,
    /// parsed text, or a duration counted in the configured unit.
    pub fn source_to_bigint(&self, options: &DataConversionOptions, to: DataType) -> (result:
        Result<BigInteger, DataConversionError>)
        ensures
            match self.big_integer_result(*options, to) {
                Ok(v) => result matches Ok(b) && b@ == v,
                Err(e) => result == Err::<BigInteger, DataConversionError>(e),
            },
    {
        if let Some((negative, magnitude)) = self.scalar_integer_magnitude() {
            return Ok(BigInteger::from_sign_magnitude(negative, magnitude));
        }
        match self {
            DataConverter::BigInteger(value) => Ok(value.clone_value()),
            DataConverter::BigDecimal(value) => decimal_to_bigint(
                value,
                options.numeric_policy,
                DataType::BigDecimal,
                to,
            ),
            DataConverter::Url(_) | DataConverter::Date(_) | DataConverter::Time(_) | DataConverter::DateTime(_) | DataConverter::Instant(_) => Err(self.unsupported(to)),
            DataConverter::String(value) => {
                let text = options.normalize(value.as_str(), to)?;
                parse_text_bigint(text, options.numeric_policy, to)
            },
            DataConverter::Duration(value) => {
                let units = duration_to_u128(*value, options.duration.unit, options.numeric_policy, to)?;
                Ok(BigInteger::from_sign_magnitude(false, units))
            },
            _ => Err(self.missing(to)),
        }
    }

    /// Converts to an arbitrary-precision decimal.
    pub fn to_big_decimal(&self, options: &DataConversionOptions) -> (result: Result<
        BigDecimal,
        DataConversionError,
    >)
        ensures
            match self.big_decimal_result(*options) {
                Ok(v) => result matches Ok(d) && d@ == v,
                Err(e) => result == Err::<BigDecimal, DataConversionError>(e),
            },
    {
        match self {
            DataConverter::BigDecimal(value) => Ok(value.clone_value()),
            DataConverter::String(value) => {
                let text = options.normalize(value.as_str(), DataType::BigDecimal)?;
                match parse_number(text, DataType::BigDecimal)? {
                    ParsedNumber::Integer(integer) => Ok(BigDecimal::new(integer, 0)),
                    ParsedNumber::Decimal(decimal) => Ok(decimal),
                    _ => Err(self.invalid(DataType::BigDecimal, DataConversionErrorKind::NonFinite)),
                }
            },
            DataConverter::Unset(_) => Err(self.missing(DataType::BigDecimal)),
            DataConverter::Duration(_) | DataConverter::Url(_) | DataConverter::Date(_) | DataConverter::Time(_) | DataConverter::DateTime(_) | DataConverter::Instant(_) => Err(
                self.unsupported(DataType::BigDecimal),
            ),
            _ => {
                let integer = self.source_to_bigint(options, DataType::BigDecimal)?;
                Ok(BigDecimal::new(integer, 0))
            },
        }
    }

    /// Converts to an absolute URL.
    pub fn to_url(&self, options: &DataConversionOptions) -> (result: Result<Url, DataConversionError>)
        ensures
            match self.url_result(*options) {
                Ok(u) => result matches Ok(r) && r@ == u,
                Err(e) => result == Err::<Url, DataConversionError>(e),
            },
    {
        match self {
            DataConverter::Url(value) => Ok(value.clone_value()),
            DataConverter::String(value) => {
                let text = options.normalize(value.as_str(), DataType::Url)?;
                parse_url_text(text)
            },
            DataConverter::Unset(_) => Err(self.missing(DataType::Url)),
            _ => Err(self.unsupported(DataType::Url)),
        }
    }

    /// Converts to a calendar date.
    pub fn to_date(&self, options: &DataConversionOptions) -> (result: Result<Date, DataConversionError>)
        ensures
            match self.date_result(*options) {
                Ok(v) => result matches Ok(r) && r@ == v,
                Err(e) => result == Err::<Date, DataConversionError>(e),
            },
    {
        match self {
            DataConverter::Date(value) => Ok(*value),
            DataConverter::String(value) => {
                let text = options.normalize(value.as_str(), DataType::Date)?;
                match parse_date(text) {
                    Some(date) => Ok(date),
                    None => Err(self.invalid(
                        DataType::Date,
                        DataConversionErrorKind::InvalidSyntax { expected: "YYYY-MM-DD" },
                    )),
                }
            },
            DataConverter::Unset(_) => Err(self.missing(DataType::Date)),
            _ => Err(self.unsupported(DataType::Date)),
        }
    }

    /// Converts to a clock time.
    pub fn to_time(&self, options: &DataConversionOptions) -> (result: Result<Time, DataConversionError>)
        ensures
            match self.time_result(*options) {
                Ok(v) => result matches Ok(r) && r@ == v,
                Err(e) => result == Err::<Time, DataConversionError>(e),
            },
    {
        match self {
            DataConverter::Time(value) => Ok(*value),
            DataConverter::String(value) => {
                let text = options.normalize(value.as_str(), DataType::Time)?;
                match parse_time(text) {
                    Some(time) => Ok(time),
                    None => Err(self.invalid(
                        DataType::Time,
                        DataConversionErrorKind::InvalidSyntax { expected: "HH:MM:SS[.fraction]" },
                    )),
                }
            },
            DataConverter::Unset(_) => Err(self.missing(DataType::Time)),
            _ => Err(self.unsupported(DataType::Time)),
        }
    }

    /// Converts to a local date-time.
    pub fn to_datetime(&self, options: &DataConversionOptions) -> (result: Result<
        DateTime,
        DataConversionError,
    >)
        ensures
            match self.date_time_result(*options) {
                Ok(v) => result matches Ok(r) && r@ == v,
                Err(e) => result == Err::<DateTime, DataConversionError>(e),
            },
    {
        match self {
            DataConverter::DateTime(value) => Ok(*value),
            DataConverter::String(value) => {
                let text = options.normalize(value.as_str(), DataType::DateTime)?;
                match parse_datetime(text) {
                    Some(value) => Ok(value),
                    None => Err(self.invalid(
                        DataType::DateTime,
                        DataConversionErrorKind::InvalidSyntax {
                            expected: "YYYY-MM-DDTHH:MM:SS[.fraction]",
                        },
                    )),
                }
            },
            DataConverter::Unset(_) => Err(self.missing(DataType::DateTime)),
            _ => Err(self.unsupported(DataType::DateTime)),
        }
    }

    /// Converts to a UTC instant.
    pub fn to_instant(&self, options: &DataConversionOptions) -> (result: Result<
        Instant,
        DataConversionError,
    >)
        ensures
            match self.instant_result(*options) {
                Ok(v) => result matches Ok(r) && r@ == v,
                Err(e) => result == Err::<Instant, DataConversionError>(e),
            },
    {
        match self {
            DataConverter::Instant(value) => Ok(*value),
            DataConverter::String(value) => {
                let text = options.normalize(value.as_str(), DataType::Instant)?;
                match parse_instant(text) {
                    Some(value) => Ok(value),
                    None => Err(self.invalid(
                        DataType::Instant,
                        DataConversionErrorKind::InvalidSyntax {
                            expected: "RFC 3339 timestamp with offset",
                        },
                    )),
                }
            },
            DataConverter::Unset(_) => Err(self.missing(DataType::Instant)),
            _ => Err(self.unsupported(DataType::Instant)),
        }
    }

    /// Converts to a signed integer in `min..=max`.
    pub(crate) fn to_signed(&self, options: &DataConversionOptions, to: DataType, min: i128, max: i128) -> (result:
        Result<i128, DataConversionError>)
        ensures
            match self.integer_result(*options, to, min as int, max as int) {
                Ok(v) => result == Ok::<i128, DataConversionError>(v as i128),
                Err(e) => result == Err::<i128, DataConversionError>(e),
            },
    {
        let (negative, magnitude) = self.source_to_integer(options, to)?;
        let limit: u128 = 0x8000_0000_0000_0000_0000_0000_0000_0000;
        if negative && magnitude == limit {
            if min == i128::MIN {
                return Ok(i128::MIN);
            }
            return Err(self.invalid(to, DataConversionErrorKind::OutOfRange));
        }
        if magnitude >= limit {
            return Err(self.invalid(to, DataConversionErrorKind::OutOfRange));
        }
        let value: i128 = if negative {
            -(magnitude as i128)
        } else {
            magnitude as i128
        };
        if min <= value && value <= max {
            Ok(value)
        } else {
            Err(self.invalid(to, DataConversionErrorKind::OutOfRange))
        }
    }

    /// Converts to an unsigned integer in `0..=max`.
    pub(crate) fn to_unsigned(&self, options: &DataConversionOptions, to: DataType, max: u128) -> (result: Result<
        u128,
        DataConversionError,
    >)
        ensures
            match self.integer_result(*options, to, 0, max as int) {
                Ok(v) => result == Ok::<u128, DataConversionError>(v as u128),
                Err(e) => result == Err::<u128, DataConversionError>(e),
            },
    {
        let (negative, magnitude) = self.source_to_integer(options, to)?;
        if negative && magnitude != 0 {
            return Err(self.invalid(to, DataConversionErrorKind::OutOfRange));
        }
        if magnitude <= max {
            Ok(magnitude)
        } else {
            Err(self.invalid(to, DataConversionErrorKind::OutOfRange))
        }
    }

    /// Converts to a boolean.
    pub fn to_bool(&self, options: &DataConversionOptions) -> (result: Result<bool, DataConversionError>)
        ensures
            result == self.bool_result(*options),
    {
        let policy = options.boolean.numeric_policy();
        match self {
            DataConverter::Bool(value) => Ok(*value),
            DataConverter::String(value) => string_to_bool(value.as_str(), options),
            DataConverter::Int8(v) => integer_to_bool(*v == 0, *v == 1, policy, DataType::Int8),
            DataConverter::Int16(v) => integer_to_bool(*v == 0, *v == 1, policy, DataType::Int16),
            DataConverter::Int32(v) => integer_to_bool(*v == 0, *v == 1, policy, DataType::Int32),
            DataConverter::Int64(v) => integer_to_bool(*v == 0, *v == 1, policy, DataType::Int64),
            DataConverter::Int128(v) => integer_to_bool(*v == 0, *v == 1, policy, DataType::Int128),
            DataConverter::UInt8(v) => integer_to_bool(*v == 0, *v == 1, policy, DataType::UInt8),
            DataConverter::UInt16(v) => integer_to_bool(*v == 0, *v == 1, policy, DataType::UInt16),
            DataConverter::UInt32(v) => integer_to_bool(*v == 0, *v == 1, policy, DataType::UInt32),
            DataConverter::UInt64(v) => integer_to_bool(*v == 0, *v == 1, policy, DataType::UInt64),
            DataConverter::UInt128(v) => integer_to_bool(
                *v == 0,
                *v == 1,
                policy,
                DataType::UInt128,
            ),
            DataConverter::BigInteger(v) => {
                let (zero, one) = big_integer_zero_or_one(v);
                integer_to_bool(zero, one, policy, DataType::BigInteger)
            },
            DataConverter::Unset(_) => Err(self.missing(DataType::Bool)),
            _ => Err(self.unsupported(DataType::Bool)),
        }
    }

    /// Converts to one Unicode scalar value.
    pub fn to_char(&self, options: &DataConversionOptions) -> (result: Result<char, DataConversionError>)
        ensures
            result == self.char_result(*options),
    {
        match self {
            DataConverter::Char(value) => Ok(*value),
            DataConverter::String(value) => {
                let text = options.normalize(value.as_str(), DataType::Char)?;
                let chars = chars_of(text);
                if chars.len() == 1 {
                    Ok(chars[0])
                } else {
                    Err(self.invalid(
                        DataType::Char,
                        DataConversionErrorKind::InvalidSyntax { expected: "one Unicode scalar value" },
                    ))
                }
            },
            DataConverter::Unset(_) => Err(self.missing(DataType::Char)),
            _ => Err(self.unsupported(DataType::Char)),
        }
    }

    /// Formats as canonical text.
    pub fn to_text(&self, options: &DataConversionOptions) -> (result: Result<String, DataConversionError>)
        ensures
            match self.string_result(*options) {
                Ok(t) => result matches Ok(s) && s@ == t,
                Err(e) => result == Err::<String, DataConversionError>(e),
            },
    {
        match self {
            DataConverter::Unset(_) => Err(self.missing(DataType::String)),
            DataConverter::Bool(value) => {
                if *value {
                    Ok(String::from_str("true"))
                } else {
                    Ok(String::from_str("false"))
                }
            },
            DataConverter::Char(value) => Ok(string_from_chars(&vec![*value])),
            DataConverter::String(value) => {
                let text = options.normalize(value.as_str(), DataType::String)?;
                Ok(String::from_str(text))
            },
            DataConverter::Duration(value) => format_duration(*value, options),
            DataConverter::Int8(v) => Ok(i128_to_text(*v as i128)),
            DataConverter::Int16(v) => Ok(i128_to_text(*v as i128)),
            DataConverter::Int32(v) => Ok(i128_to_text(*v as i128)),
            DataConverter::Int64(v) => Ok(i128_to_text(*v as i128)),
            DataConverter::Int128(v) => Ok(i128_to_text(*v)),
            DataConverter::UInt8(v) => Ok(u128_to_text(*v as u128)),
            DataConverter::UInt16(v) => Ok(u128_to_text(*v as u128)),
            DataConverter::UInt32(v) => Ok(u128_to_text(*v as u128)),
            DataConverter::UInt64(v) => Ok(u128_to_text(*v as u128)),
            DataConverter::UInt128(v) => Ok(u128_to_text(*v)),
            DataConverter::BigInteger(v) => Ok(v.to_decimal_string()),
            DataConverter::BigDecimal(d) => Ok(d.to_display_string()),
            DataConverter::Url(u) => Ok(u.to_text()),
            DataConverter::Date(d) => {
                if d.year() < 0 || d.year() > 9999 {
                    return Err(self.invalid(DataType::String, DataConversionErrorKind::OutOfRange));
                }
                Ok(d.format())
            },
            DataConverter::Time(t) => Ok(t.format()),
            DataConverter::DateTime(v) => {
                let year = v.date().year();
                if year < 0 || year > 9999 {
                    return Err(self.invalid(DataType::String, DataConversionErrorKind::OutOfRange));
                }
                Ok(v.format())
            },
            DataConverter::Instant(i) => {
                if !i.has_canonical_year() {
                    return Err(self.invalid(DataType::String, DataConversionErrorKind::OutOfRange));
                }
                Ok(i.format())
            },
        }
    }

    /// Converts to a non-negative duration.
    pub fn to_duration(&self, options: &DataConversionOptions) -> (result: Result<
        Duration,
        DataConversionError,
    >)
        ensures
            match self.duration_result(*options) {
                Ok(nanos) => result matches Ok(d) && d@ == nanos,
                Err(e) => result == Err::<Duration, DataConversionError>(e),
            },
    {
        match self {
            DataConverter::Duration(value) => Ok(*value),
            DataConverter::String(value) => parse_duration(value.as_str(), options),
            DataConverter::Unset(_) => Err(self.missing(DataType::Duration)),
            DataConverter::Bool(_) | DataConverter::Char(_) | DataConverter::BigDecimal(_)
            | DataConverter::Url(_) | DataConverter::Date(_) | DataConverter::Time(_) | DataConverter::DateTime(_) | DataConverter::Instant(_) => Err(self.unsupported(DataType::Duration)),
            DataConverter::BigInteger(v) => {
                if v.is_negative() {
                    return Err(self.invalid(DataType::Duration, DataConversionErrorKind::NegativeDuration));
                }
                match v.magnitude_u128() {
                    Some(magnitude) => integer_to_duration(
                        false,
                        magnitude,
                        DataType::BigInteger,
                        options.duration.unit,
                    ),
                    None => {
                        proof {
                            assert(unit_nanos(options.duration.unit) >= 1);
                            assert(max_duration_nanos() <= u128::MAX);
                            let x = v@;
                            let u = unit_nanos(options.duration.unit);
                            assert(x * u >= x) by (nonlinear_arith)
                                requires
                                    x >= 0,
                                    u >= 1,
                            ;
                        }
                        Err(self.invalid(DataType::Duration, DataConversionErrorKind::OutOfRange))
                    },
                }
            },
            _ => {
                let intermediate = self.source_to_integer(options, DataType::Duration);
                let (negative, magnitude) = match intermediate {
                    Ok(parts) => parts,
                    Err(error) => {
                        return Err(error);
                    },
                };
                integer_to_duration(negative, magnitude, self.data_type(), options.duration.unit)
            },
        }
    }
}

/// Returns the platform-independent sign and magnitude of an integer.
pub fn signed_magnitude_of(value: i128) -> (parts: (bool, u128))
    ensures
        parts == signed_magnitude(value as int),
{
    if value < 0 {
        if value == i128::MIN {
            (true, 0x8000_0000_0000_0000_0000_0000_0000_0000)
        } else {
            (true, (-value) as u128)
        }
    } else {
        (false, value as u128)
    }
}

/// Applies the configured integer-to-boolean policy to an integer that is
/// zero, one, or neither.
pub fn integer_to_bool(zero: bool, one: bool, policy: BooleanNumericPolicy, from: DataType) -> (result:
    Result<bool, DataConversionError>)
    ensures
        result == integer_bool_result(zero, one, policy, from),
{
    match policy {
        BooleanNumericPolicy::ZeroOrOne if zero => Ok(false),
        BooleanNumericPolicy::ZeroOrOne if one => Ok(true),
        BooleanNumericPolicy::NonZero => Ok(!zero),
        _ => Err(DataConversionError::invalid(
            from,
            DataType::Bool,
            DataConversionErrorKind::InvalidBoolean,
        )),
    }
}

/// Whether integer text denotes zero and whether it denotes positive one.
fn zero_or_one(chars: &Vec<char>) -> (parts: (bool, bool))
    requires
        is_integer_text(chars@),
    ensures
        parts.0 == (digits_value(strip_sign(chars@)) == 0),
        parts.1 == (!has_minus_sign(chars@) && digits_value(strip_sign(chars@)) == 1),
{
    let negative = chars[0] == '-';
    let start: usize = if chars[0] == '-' || chars[0] == '+' {
        1
    } else {
        0
    };
    let ghost d = strip_sign(chars@);
    assert(d == chars@.skip(start as int));
    // The value saturated at two is enough to tell zero and one apart.
    let mut capped: u8 = 0;
    let mut i = start;
    while i < chars.len()
        invariant
            start <= i <= chars.len(),
            d == chars@.skip(start as int),
            all_digits(d),
            capped as int == (if digits_value(d.take(i - start)) < 2 {
                digits_value(d.take(i - start))
            } else {
                2
            }),
        decreases chars.len() - i,
    {
        assert(d[i - start] == chars@[i as int]);
        let digit = char_digit_value(chars[i]);
        proof {
            lemma_digits_value_step(d, i - start);
            assert(all_digits(d.take(i - start))) by {
                assert forall|j: int| 0 <= j < d.take(i - start).len() implies is_ascii_digit(
                    #[trigger] d.take(i - start)[j],
                ) by {
                    assert(d.take(i - start)[j] == d[j]);
                }
            }
            lemma_digits_value_nonneg(d.take(i - start));
        }
        let next = capped * 10 + digit;
        capped = if next < 2 {
            next
        } else {
            2
        };
        i += 1;
    }
    assert(d.take(i - start) =~= d);
    (capped == 0, !negative && capped == 1)
}

/// The sign and magnitude of an arbitrary-precision integer for a
/// fixed-width target: any value from `-2^127` to `u128::MAX` fits the
/// intermediate, larger magnitudes are out of range.
fn big_integer_magnitude(value: &BigInteger, from: DataType, to: DataType) -> (result: Result<
    (bool, u128),
    DataConversionError,
>)
    ensures
        result == intermediate_of(value@, from, to),
{
    let out_of_range = DataConversionError::invalid(
        from,
        to,
        DataConversionErrorKind::OutOfRange,
    );
    match value.magnitude_u128() {
        Some(magnitude) => {
            if value.is_negative() {
                if magnitude <= 0x8000_0000_0000_0000_0000_0000_0000_0000 {
                    Ok((true, magnitude))
                } else {
                    Err(out_of_range)
                }
            } else {
                Ok((false, magnitude))
            }
        },
        None => Err(out_of_range),
    }
}

/// Whether an arbitrary-precision integer is zero, and whether it is one.
fn big_integer_zero_or_one(value: &BigInteger) -> (parts: (bool, bool))
    ensures
        parts == (value@ == 0, value@ == 1),
{
    match value.magnitude_u128() {
        Some(magnitude) => (magnitude == 0, magnitude == 1 && !value.is_negative()),
        None => (false, false),
    }
}

/// Normalizes text and parses it as a duration; a bare count takes the
/// configured unit, and a parse failure becomes an invalid-value error from
/// `String`.
pub fn parse_duration(value: &str, options: &DataConversionOptions) -> (result: Result<
    Duration,
    DataConversionError,
>)
    ensures
        match duration_parse_result(value@, *options) {
            Ok(nanos) => result matches Ok(d) && d@ == nanos,
            Err(e) => result == Err::<Duration, DataConversionError>(e),
        },
{
    let text = options.normalize(value, DataType::Duration)?;
    match parse_duration_text(text, options.duration.unit) {
        Ok(duration) => Ok(duration),
        Err(reason) => Err(DataConversionError::invalid(DataType::String, DataType::Duration, reason)),
    }
}

/// Converts string input to a boolean: a configured literal, otherwise an
/// integer under the numeric-boolean policy.
pub fn string_to_bool(value: &str, options: &DataConversionOptions) -> (result: Result<
    bool,
    DataConversionError,
>)
    ensures
        result == (match options.normalized(value@, DataType::Bool) {
            Err(error) => Err(error),
            Ok(t) => text_bool_result(t, options.boolean@),
        }),
{
    let text = options.normalize(value, DataType::Bool)?;
    if let Some(literal) = options.boolean.parse(text) {
        return Ok(literal);
    }
    let chars = chars_of(text);
    if !chars_are_integer_syntax(&chars) {
        return Err(DataConversionError::invalid(
            DataType::String,
            DataType::Bool,
            DataConversionErrorKind::InvalidBoolean,
        ));
    }
    let (zero, one) = zero_or_one(&chars);
    integer_to_bool(zero, one, options.boolean.numeric_policy(), DataType::String)
}

/// Converts a unit count to a duration; negative counts and spans that are
/// not representable are rejected.
pub fn integer_to_duration(negative: bool, magnitude: u128, from: DataType, unit: DurationUnit) -> (result:
    Result<Duration, DataConversionError>)
    ensures
        negative && magnitude != 0 ==> result == Err::<Duration, DataConversionError>(
            DataConversionError::InvalidValue {
                from,
                to: DataType::Duration,
                reason: DataConversionErrorKind::NegativeDuration,
            },
        ),
        !(negative && magnitude != 0) ==> (if magnitude * unit_nanos(unit) > max_duration_nanos() {
            result == Err::<Duration, DataConversionError>(
                DataConversionError::InvalidValue {
                    from,
                    to: DataType::Duration,
                    reason: DataConversionErrorKind::OutOfRange,
                },
            )
        } else {
            result matches Ok(d) && d@ == magnitude * unit_nanos(unit)
        }),
{
    if negative && magnitude != 0 {
        return Err(DataConversionError::invalid(
            from,
            DataType::Duration,
            DataConversionErrorKind::NegativeDuration,
        ));
    }
    match unit.duration_from_u128(magnitude) {
        Some(duration) => Ok(duration),
        None => Err(DataConversionError::invalid(
            from,
            DataType::Duration,
            DataConversionErrorKind::OutOfRange,
        )),
    }
}

/// Formats a duration as its unit count, followed by the unit suffix when
/// configured.
pub fn format_duration(value: Duration, options: &DataConversionOptions) -> (result: Result<
    String,
    DataConversionError,
>)
    ensures
        match duration_units_result(
            value@,
            options.duration.unit,
            options.numeric_policy,
            DataType::String,
        ) {
            Err(e) => result == Err::<String, DataConversionError>(e),
            Ok(units) => result matches Ok(s) && s@ == decimal_text(units as int) + if options.duration.append_unit_suffix {
                unit_suffix(options.duration.unit)@
            } else {
                Seq::empty()
            },
        },
{
    let (units, suffix) = duration_text_parts(value, options)?;
    let mut text = u128_to_text(units);
    if let Some(suffix) = suffix {
        text.append(suffix);
    }
    proof {
        if !options.duration.append_unit_suffix {
            assert(text@ =~= text@ + Seq::<char>::empty());
        }
    }
    Ok(text)
}

/// Computes the duration's unit count and, when enabled, its unit suffix.
pub fn duration_text_parts(value: Duration, options: &DataConversionOptions) -> (result: Result<
    (u128, Option<&'static str>),
    DataConversionError,
>)
    ensures
        match duration_units_result(
            value@,
            options.duration.unit,
            options.numeric_policy,
            DataType::String,
        ) {
            Err(e) => result == Err::<(u128, Option<&'static str>), DataConversionError>(e),
            Ok(units) => result == Ok::<_, DataConversionError>(
                (
                    units,
                    if options.duration.append_unit_suffix {
                        Some(unit_suffix(options.duration.unit))
                    } else {
                        None
                    },
                ),
            ),
        },
{
    let units = duration_to_u128(value, options.duration.unit, options.numeric_policy, DataType::String)?;
    let suffix = if options.duration.append_unit_suffix {
        Some(options.duration.unit.suffix())
    } else {
        None
    };
    Ok((units, suffix))
}

/// Counts the leading ASCII digits.
fn count_leading_digits(chars: &Vec<char>) -> (count: usize)
    ensures
        count == leading_digit_count(chars@),
        count <= chars.len(),
{
    let mut i: usize = 0;
    assert(chars@.skip(0) =~= chars@);
    while i < chars.len() && char_is_ascii_digit(chars[i])
        invariant
            i <= chars.len(),
            leading_digit_count(chars@) == i + leading_digit_count(chars@.skip(i as int)),
        decreases chars.len() - i,
    {
        assert(chars@.skip(i as int).skip(1) =~= chars@.skip(i + 1));
        i += 1;
    }
    assert(chars@.skip(i as int).len() == 0 || !is_ascii_digit(chars@.skip(i as int)[0]));
    i
}

/// Leading digits are digits.
proof fn lemma_leading_digits_are_digits(t: Seq<char>)
    ensures
        0 <= leading_digit_count(t) <= t.len(),
        forall|i: int| 0 <= i < leading_digit_count(t) ==> is_ascii_digit(#[trigger] t[i]),
    decreases t.len(),
{
    if t.len() > 0 && is_ascii_digit(t[0]) {
        let r = t.skip(1);
        lemma_leading_digits_are_digits(r);
        assert forall|i: int| 0 <= i < leading_digit_count(t) implies is_ascii_digit(#[trigger] t[i]) by {
            if i > 0 {
                assert(t[i] == r[i - 1]);
            }
        }
    }
}

/// Whether every character is a unit letter.
fn all_unit_letters(chars: &Vec<char>, from: usize) -> (result: bool)
    requires
        from <= chars.len(),
    ensures
        result == forall|i: int| 0 <= i < chars@.skip(from as int).len() ==> is_unit_letter(
            #[trigger] chars@.skip(from as int)[i],
        ),
{
    let mut i = from;
    while i < chars.len()
        invariant
            from <= i <= chars.len(),
            forall|j: int| from <= j < i ==> is_unit_letter(#[trigger] chars@[j]),
        decreases chars.len() - i,
    {
        let c = chars[i];
        if !(('a' <= c && c <= 'z') || ('A' <= c && c <= 'Z') || c == 'µ' || c == 'μ') {
            assert(chars@.skip(from as int)[i - from] == c);
            return false;
        }
        i += 1;
    }
    assert forall|j: int| 0 <= j < chars@.skip(from as int).len() implies is_unit_letter(
        #[trigger] chars@.skip(from as int)[j],
    ) by {
        assert(chars@.skip(from as int)[j] == chars@[j + from]);
    }
    true
}

/// Parses duration text: one or more digits and an optional unit suffix;
/// suffixless text counts `default_unit`.
pub fn parse_duration_text(text: &str, default_unit: DurationUnit) -> (result: Result<
    Duration,
    DataConversionErrorKind,
>)
    ensures
        match duration_text_result(text@, default_unit) {
            Ok(nanos) => result matches Ok(d) && d@ == nanos,
            Err(reason) => result == Err::<Duration, DataConversionErrorKind>(reason),
        },
{
    let chars = chars_of(text);
    let count = count_leading_digits(&chars);
    proof {
        lemma_leading_digits_are_digits(chars@);
    }
    if count == 0 {
        return Err(DataConversionErrorKind::InvalidSyntax {
            expected: "[0-9]+(ns|us|µs|μs|ms|s|m|h|d)?",
        });
    }
    let rest = text.substring_char(count, chars.len());
    assert(rest@ =~= chars@.skip(count as int));
    let unit = if count == chars.len() {
        default_unit
    } else {
        match DurationUnit::from_suffix(rest) {
            Some(unit) => unit,
            None => {
                if all_unit_letters(&chars, count) {
                    return Err(DataConversionErrorKind::UnsupportedDurationUnit);
                } else {
                    return Err(DataConversionErrorKind::InvalidSyntax {
                        expected: "[0-9]+(ns|us|µs|μs|ms|s|m|h|d)?",
                    });
                }
            },
        }
    };
    let digits = copy_range(&chars, 0, count);
    assert(digits@ =~= chars@.take(count as int));
    assert(all_digits(digits@));
    assert(unit_for_suffix(text@.skip(count as int)) == Some(unit) || count == chars.len());
    let mut value: u64 = 0;
    let mut i: usize = 0;
    assert(digits@.take(0) =~= Seq::<char>::empty());
    #[verifier::loop_isolation(false)]
    while i < count
        invariant
            i <= count == digits.len(),
            all_digits(digits@),
            digits@ == text@.take(count as int),
            value as int == digits_value(digits@.take(i as int)),
        decreases count - i,
    {
        let digit = char_digit_value(digits[i]);
        proof {
            lemma_digits_value_step(digits@, i as int);
        }
        match value.checked_mul(10) {
            Some(scaled) => match scaled.checked_add(digit as u64) {
                Some(next) => {
                    value = next;
                },
                None => {
                    proof {
                        crate::numeric_text::lemma_digits_value_prefix_monotone(
                            digits@,
                            i + 1,
                            count as int,
                        );
                        assert(digits@.take(count as int) =~= digits@);
                        assert(digits_value(text@.take(count as int)) > u64::MAX);
                    }
                    return Err(DataConversionErrorKind::OutOfRange);
                },
            },
            None => {
                proof {
                    crate::numeric_text::lemma_digits_value_prefix_monotone(
                        digits@,
                        i + 1,
                        count as int,
                    );
                    assert(digits@.take(count as int) =~= digits@);
                    assert(digits_value(text@.take(count as int)) > u64::MAX);
                }
                return Err(DataConversionErrorKind::OutOfRange);
            },
        }
        i += 1;
    }
    assert(digits@.take(count as int) =~= digits@);
    match unit.duration_from_u64(value) {
        Ok(duration) => Ok(duration),
        Err(_) => Err(DataConversionErrorKind::OutOfRange),
    }
}

} // verus!
