//! Properties that hold across the conversions of the library.

use vstd::compute::RangeAll;
use vstd::prelude::*;

use crate::big_decimal::{decimal_integer_result, BigDecimal};
use crate::big_integer::{abs, BigInteger};
use crate::capabilities::{is_available_type, is_fixed_integer_type, supports_conversion};
use crate::exactness::{
    all_decimal, decimal_equals_binary, fits_significand, fraction_digit_count,
    lemma_bit_length_bound, lemma_compare_through_expansion, lemma_expansion_significant_digits,
    lemma_le_decimal_digits_value, lemma_mantissa_digits_are_digits, lemma_odd_part_at_most,
    lemma_odd_part_of_scaled, lemma_odd_part_scaled, lemma_pow10_adds, lemma_power_positive,
    lemma_scaled_forms_equal, lemma_significant_digits_agree, lemma_text_significant_digits,
    lemma_zero_value_digits, le_digits_value, leading_zero_chars, low_zero_count, no_high_zero,
    odd_part, positive_part, power, reversed_digit_values, text_digits_value, text_exponent_fits,
    text_matches_expansion, text_shift, text_significant_digits, trailing_zero_chars,
};
use crate::collection_options::split_fields;
use crate::convert_to::{result_view, DataConvertTo};
use crate::temporal::{Date, DateTime, Instant, Time};
use crate::url_value::Url;
use crate::converter::{signed_magnitude, signed_value, DataConverter};
use crate::converters::{batch_outcome, first_outcome};
use crate::data_type::{all_data_types, DataType};
use crate::messages::error_message;
use crate::converter::{duration_text_result, leading_digit_count};
use crate::duration::{
    unit_for_suffix, duration_units_result, is_multi_second_unit, max_duration_nanos, rounded_half_up,
    unit_nanos, unit_seconds, unit_suffix, Duration, DurationUnit,
};
use crate::error::{DataConversionError, DataConversionErrorKind, DataListConversionError};
use crate::decimal::{decimal_digits, decimal_text, digit_char};
use crate::numeric_text::{
    big_integer_text_result, has_nonzero_digit, result_digit_count, MAX_BIG_INTEGER_DIGITS,
    dot_position, exponent_position, has_minus_sign, has_nonzero_fraction, integer_text_result,
    integer_digits_at, is_decimal_text, is_non_finite_name, truncated_value, zeros_at, is_valid_mantissa, lemma_dot_position,
    lemma_exponent_position, mantissa_digits, mantissa_text, point_position, pow10, significand,
    strip_sign, truncated_magnitude, has_exponent, signed_digits_value, exponent_text,
};
use crate::text::{
    all_digits, ascii_lowercase, digit_value, digits_value, eq_ignore_ascii_case, is_ascii_digit, is_blank,
    is_whitespace, trim, trim_end, trim_start,
};
use crate::options::DataConversionOptions;
use crate::policy::NumericConversionPolicy;

verus! {

/// Whether a conversion result is an unsupported-pair error.
pub open spec fn is_unsupported<T>(result: Result<T, DataConversionError>) -> bool {
    result matches Err(DataConversionError::Unsupported { .. })
}

/// The number of delimiter characters in `s`.
pub open spec fn delimiter_count(s: Seq<char>, delimiters: Seq<char>) -> nat
    decreases s.len(),
{
    if s.len() == 0 {
        0
    } else {
        delimiter_count(s.drop_last(), delimiters) + if delimiters.contains(s.last()) {
            1nat
        } else {
            0nat
        }
    }
}

/// A conversion reports an unsupported pair exactly when the capabilities
/// say the build has no path from the source's type to the target.
pub proof fn lemma_capabilities_match_conversions(
    source: DataConverter,
    options: DataConversionOptions,
    to: DataType,
)
    requires
        !(source is Unset),
    ensures
        is_unsupported(source.bool_result(options)) <==> !supports_conversion(
            source.spec_data_type(),
            DataType::Bool,
        ),
        is_unsupported(source.char_result(options)) <==> !supports_conversion(
            source.spec_data_type(),
            DataType::Char,
        ),
        is_unsupported(source.string_result(options)) <==> !supports_conversion(
            source.spec_data_type(),
            DataType::String,
        ),
        is_unsupported(source.duration_result(options)) <==> !supports_conversion(
            source.spec_data_type(),
            DataType::Duration,
        ),
        is_fixed_integer_type(to) ==> (is_unsupported(source.integer_intermediate(options, to))
            <==> !supports_conversion(source.spec_data_type(), to)),
        is_unsupported(source.big_integer_result(options, DataType::BigInteger))
            <==> !supports_conversion(source.spec_data_type(), DataType::BigInteger),
        is_unsupported(source.big_decimal_result(options)) <==> !supports_conversion(
            source.spec_data_type(),
            DataType::BigDecimal,
        ),
        is_unsupported(source.url_result(options)) <==> !supports_conversion(
            source.spec_data_type(),
            DataType::Url,
        ),
        is_unsupported(source.date_result(options)) <==> !supports_conversion(
            source.spec_data_type(),
            DataType::Date,
        ),
        is_unsupported(source.time_result(options)) <==> !supports_conversion(
            source.spec_data_type(),
            DataType::Time,
        ),
        is_unsupported(source.date_time_result(options)) <==> !supports_conversion(
            source.spec_data_type(),
            DataType::DateTime,
        ),
        is_unsupported(source.instant_result(options)) <==> !supports_conversion(
            source.spec_data_type(),
            DataType::Instant,
        ),
{
    match source {
        DataConverter::String(s) => {
            match options.normalized(s@, to) {
                Ok(t) => {
                    assert(!is_unsupported(integer_text_result(t, options.numeric_policy, to)));
                },
                Err(_) => {},
            }
            match options.normalized(s@, DataType::BigInteger) {
                Ok(t) => {
                    assert(!is_unsupported(
                        big_integer_text_result(t, options.numeric_policy, DataType::BigInteger),
                    ));
                },
                Err(_) => {},
            }
            match options.normalized(s@, DataType::Duration) {
                Ok(t) => {},
                Err(_) => {},
            }
            match options.normalized(s@, DataType::Bool) {
                Ok(t) => {},
                Err(_) => {},
            }
        },
        _ => {},
    }
}

/// A missing source converts to a missing-value error carrying its declared
/// type, whatever the target.
pub proof fn lemma_unset_is_missing(
    declared: DataType,
    options: DataConversionOptions,
    to: DataType,
)
    ensures
        DataConverter::Unset(declared).bool_result(options) == Err::<bool, DataConversionError>(
            DataConversionError::Missing { from: declared, to: DataType::Bool },
        ),
        DataConverter::Unset(declared).char_result(options) == Err::<char, DataConversionError>(
            DataConversionError::Missing { from: declared, to: DataType::Char },
        ),
        DataConverter::Unset(declared).string_result(options) == Err::<
            Seq<char>,
            DataConversionError,
        >(DataConversionError::Missing { from: declared, to: DataType::String }),
        DataConverter::Unset(declared).duration_result(options) == Err::<nat, DataConversionError>(
            DataConversionError::Missing { from: declared, to: DataType::Duration },
        ),
        DataConverter::Unset(declared).integer_intermediate(options, to) == Err::<
            (bool, u128),
            DataConversionError,
        >(DataConversionError::Missing { from: declared, to }),
{
}

/// An integer source converts to any integer target whose range holds its
/// value, and yields exactly that value; in particular every integer
/// converts to its own type unchanged.
pub proof fn lemma_integer_conversion_preserves_value(
    source: DataConverter,
    options: DataConversionOptions,
    to: DataType,
    min: int,
    max: int,
)
    requires
        source.is_integer_source(),
        min <= source.integer_value() <= max,
    ensures
        source.integer_result(options, to, min, max) == Ok::<int, DataConversionError>(
            source.integer_value(),
        ),
{
    let v = source.integer_value();
    let (negative, magnitude) = signed_magnitude(v);
    assert(source.scalar_magnitude() == Some(signed_magnitude(v)));
    assert(signed_value(negative, magnitude) == v);
}

/// Every integer source, fixed-width or arbitrary-precision, converts to an
/// arbitrary-precision integer of the same value, and to any fixed-width
/// integer target whose range holds its value, yielding exactly that value.
pub proof fn lemma_big_integer_conversion_preserves_value(
    source: DataConverter,
    options: DataConversionOptions,
    to: DataType,
    min: int,
    max: int,
)
    requires
        source.is_integer_source() || source is BigInteger,
        i128::MIN <= min <= source.integer_value() <= max <= u128::MAX,
    ensures
        source.big_integer_result(options, to) == Ok::<int, DataConversionError>(
            source.integer_value(),
        ),
        source.integer_result(options, to, min, max) == Ok::<int, DataConversionError>(
            source.integer_value(),
        ),
{
    let v = source.integer_value();
    let (negative, magnitude) = signed_magnitude(v);
    assert(signed_value(negative, magnitude) == v);
    if source.is_integer_source() {
        assert(source.scalar_magnitude() == Some(signed_magnitude(v)));
    }
}

/// Whenever the exact conversion of a decimal to an integer succeeds, the
/// lossy one yields the same integer: exactness only adds rejections.
pub proof fn lemma_exact_decimal_agrees_with_lossy(
    value: (int, int),
    from: DataType,
    to: DataType,
)
    requires
        decimal_integer_result(value, NumericConversionPolicy::Exact, from, to) is Ok,
    ensures
        decimal_integer_result(value, NumericConversionPolicy::Lossy, from, to)
            == decimal_integer_result(value, NumericConversionPolicy::Exact, from, to),
{
}

/// An integer source converts to a decimal of scale zero holding its value,
/// and that decimal converts back to the same arbitrary-precision integer.
pub proof fn lemma_integer_decimal_round_trip(
    source: DataConverter,
    decimal: BigDecimal,
    options: DataConversionOptions,
)
    requires
        source.is_integer_source() || source is BigInteger,
        decimal@ == (source.integer_value(), 0int),
    ensures
        source.big_decimal_result(options) == Ok::<(int, int), DataConversionError>(decimal@),
        DataConverter::BigDecimal(decimal).big_integer_result(options, DataType::BigInteger)
            == Ok::<int, DataConversionError>(source.integer_value()),
{
    let v = source.integer_value();
    if source.is_integer_source() {
        let (negative, magnitude) = signed_magnitude(v);
        assert(source.scalar_magnitude() == Some(signed_magnitude(v)));
        assert(signed_value(negative, magnitude) == v);
    }
    assert(pow10(0) == 1);
    assert(v * pow10(0) == v);
}

/// Strict options hand string sources to the parsers unchanged: no trimming,
/// and blank text is kept.
pub proof fn lemma_strict_preserves_text(
    options: DataConversionOptions,
    value: Seq<char>,
    to: DataType,
)
    requires
        options.is_strict(),
    ensures
        options.normalized(value, to) == Ok::<Seq<char>, DataConversionError>(value),
{
}

/// Strict conversion never truncates: integer text with a non-zero fraction,
/// and a decimal with a non-zero remainder, are rejected as precision loss.
pub proof fn lemma_strict_rejects_truncation(
    t: Seq<char>,
    decimal: (int, int),
    to: DataType,
)
    requires
        is_decimal_text(t),
        !is_non_finite_name(t),
    ensures
        has_nonzero_fraction(t) ==> integer_text_result(t, NumericConversionPolicy::Exact, to)
            == Err::<(bool, u128), DataConversionError>(
            DataConversionError::InvalidValue {
                from: DataType::String,
                to,
                reason: DataConversionErrorKind::PrecisionLoss,
            },
        ),
        decimal.1 > 0 && abs(decimal.0) % pow10(decimal.1 as nat) != 0 ==> decimal_integer_result(
            decimal,
            NumericConversionPolicy::Exact,
            DataType::BigDecimal,
            to,
        ) == Err::<int, DataConversionError>(
            DataConversionError::InvalidValue {
                from: DataType::BigDecimal,
                to,
                reason: DataConversionErrorKind::PrecisionLoss,
            },
        ),
{
    if decimal.1 > 0 {
        crate::numeric_text::lemma_pow10_monotone(0, decimal.1 as nat);
        let p = pow10(decimal.1 as nat) as int;
        assert(0int % p == 0) by (nonlinear_arith)
            requires
                p >= 1,
        ;
    }
}

/// Strict conversion never rounds a duration: a span that is not a whole
/// number of the output unit is rejected as precision loss.
pub proof fn lemma_strict_rejects_inexact_duration(
    duration: Duration,
    unit: DurationUnit,
    to: DataType,
)
    requires
        duration@ % unit_nanos(unit) != 0,
    ensures
        duration_units_result(duration@, unit, NumericConversionPolicy::Exact, to) == Err::<
            u128,
            DataConversionError,
        >(
            DataConversionError::InvalidValue {
                from: DataType::Duration,
                to,
                reason: DataConversionErrorKind::PrecisionLoss,
            },
        ),
{
}

/// A boolean formats to `true` or `false`, and that text converts back to
/// the same boolean whenever the configured literal sets hold those words.
pub proof fn lemma_bool_text_round_trip(value: bool, text: String, options: DataConversionOptions)
    requires
        options.boolean@.is_consistent(),
        options.boolean@.true_literals.contains("true"@),
        options.boolean@.false_literals.contains("false"@),
        DataConverter::Bool(value).string_result(options) == Ok::<Seq<char>, DataConversionError>(
            text@,
        ),
    ensures
        DataConverter::String(text).bool_result(options) == Ok::<bool, DataConversionError>(value),
{
    reveal_strlit("true");
    reveal_strlit("false");
    let t = text@;
    assert(t.len() > 0 && !is_whitespace(t[0]) && !is_whitespace(t.last()));
    assert(trim_start(t) == t);
    assert(trim_end(t) == t);
    assert(!is_blank(t));
    assert(options.normalized(t, DataType::Bool) == Ok::<Seq<char>, DataConversionError>(t));
    crate::boolean_options::lemma_literals_parse_to_their_value(options.boolean@);
    let boolean = options.boolean@;
    if value {
        let i = choose|i: int| 0 <= i < boolean.true_literals.len() && boolean.true_literals[i] == "true"@;
        assert(boolean.parse(boolean.true_literals[i]) == Some(true));
    } else {
        let j = choose|j: int| 0 <= j < boolean.false_literals.len() && boolean.false_literals[j] == "false"@;
        assert(boolean.parse(boolean.false_literals[j]) == Some(false));
    }
}

/// A character formats to the text holding just that character, and that
/// text converts back to the character, unless the character is whitespace
/// that trimming or the blank-string policy would remove or reject.
pub proof fn lemma_char_text_round_trip(c: char, text: String, options: DataConversionOptions)
    requires
        DataConverter::Char(c).string_result(options) == Ok::<Seq<char>, DataConversionError>(text@),
        is_whitespace(c) ==> !options.trim_strings && options.blank_string_policy
            == crate::policy::BlankStringPolicy::Preserve,
    ensures
        DataConverter::String(text).char_result(options) == Ok::<char, DataConversionError>(c),
{
    let t = text@;
    assert(t == seq![c]);
    if !is_whitespace(c) {
        assert(trim_start(t) == t);
        assert(trim_end(t) == t);
        assert(!is_blank(t));
    }
    assert(options.normalized(t, DataType::Char) == Ok::<Seq<char>, DataConversionError>(t));
}

/// Whenever exact parsing of integer text succeeds, lossy parsing yields the
/// same value: exactness only adds rejections.
pub proof fn lemma_exact_parse_agrees_with_lossy(t: Seq<char>, to: DataType)
    requires
        integer_text_result(t, NumericConversionPolicy::Exact, to) is Ok,
    ensures
        integer_text_result(t, NumericConversionPolicy::Lossy, to) == integer_text_result(
            t,
            NumericConversionPolicy::Exact,
            to,
        ),
{
}

/// Splitting yields one more field than the text has delimiters.
pub proof fn lemma_split_field_count(s: Seq<char>, delimiters: Seq<char>)
    ensures
        split_fields(s, delimiters).len() == delimiter_count(s, delimiters) + 1,
    decreases s.len(),
{
    if s.len() > 0 {
        lemma_split_field_count(s.drop_last(), delimiters);
    }
}

/// Converting the first item agrees with the first element of converting the
/// whole batch, and an empty successful batch has no first item.
pub proof fn lemma_first_agrees_with_batch<T: View>(
    sources: Seq<DataConverter>,
    options: DataConversionOptions,
    batch: Result<Vec<T>, DataListConversionError>,
    first: Result<T, DataConversionError>,
) where DataConverter: DataConvertTo<T>
    requires
        batch_outcome(sources, options, batch),
        first_outcome(sources, options, first),
        batch is Ok,
    ensures
        batch->Ok_0.len() == 0 ==> first is Err,
        batch->Ok_0.len() > 0 ==> result_view(first) == Ok::<T::V, DataConversionError>(
            batch->Ok_0@[0]@,
        ),
{
    let values = batch->Ok_0;
    if sources.len() > 0 {
        if crate::converters::first_failure::<T>(sources, options) < sources.len() {
        } else {
            assert(<DataConverter as DataConvertTo<T>>::conversion_result(&sources[0], options)
                == Ok::<T::V, DataConversionError>(values@[0]@));
        }
    }
}

/// Canonical decimal digits are digits and denote their number.
pub proof fn lemma_decimal_digits_value(n: nat)
    ensures
        decimal_digits(n).len() >= 1,
        all_digits(decimal_digits(n)),
        digits_value(decimal_digits(n)) == n,
    decreases n,
{
    if n >= 10 {
        lemma_decimal_digits_value(n / 10);
        let d = decimal_digits(n / 10);
        let s = d.push(digit_char(n % 10));
        assert(s.drop_last() =~= d);
        vstd::arithmetic::div_mod::lemma_fundamental_div_mod(n as int, 10);
        assert(digit_value(digit_char(n % 10)) == n % 10);
        assert(decimal_digits(n) == s);
        assert(digits_value(s) == digits_value(d) * 10 + digit_value(s.last()));
        assert forall|i: int| 0 <= i < s.len() implies is_ascii_digit(#[trigger] s[i]) by {
            if i < d.len() {
                assert(s[i] == d[i]);
            }
        }
        assert(digits_value(decimal_digits(n)) == n);
    } else {
        let s = seq![digit_char(n)];
        assert(s.drop_last() =~= Seq::<char>::empty());
        assert(decimal_digits(n) == s);
        assert(digits_value(s) == digits_value(s.drop_last()) * 10 + digit_value(s.last()));
        assert(digits_value(decimal_digits(n)) == n);
    }
}

/// The shape of canonical decimal text: an optional minus sign followed by
/// the digits of the magnitude.
proof fn lemma_decimal_text_shape(v: int)
    ensures
        ({
            let t = decimal_text(v);
            let magnitude = if v < 0 { -v } else { v };
            &&& t.len() >= 1
            &&& is_ascii_digit(t.last())
            &&& !is_whitespace(t[0])
            &&& !is_whitespace(t.last())
            &&& has_minus_sign(t) == (v < 0)
            &&& strip_sign(t) == decimal_digits(magnitude as nat)
        }),
{
    let t = decimal_text(v);
    if v < 0 {
        let d = decimal_digits((-v) as nat);
        lemma_decimal_digits_value((-v) as nat);
        assert(t.skip(1) =~= d);
        assert(t.last() == d.last());
    } else {
        lemma_decimal_digits_value(v as nat);
        assert(is_ascii_digit(t[0]));
    }
}

/// Text ending in a digit never names NaN or an infinity.
proof fn lemma_digit_ending_is_finite(t: Seq<char>)
    requires
        t.len() >= 1,
        is_ascii_digit(t.last()),
    ensures
        !is_non_finite_name(t),
{
    reveal_strlit("nan");
    reveal_strlit("inf");
    reveal_strlit("+inf");
    reveal_strlit("-inf");
    reveal_strlit("infinity");
    reveal_strlit("+infinity");
    reveal_strlit("-infinity");
    let names = seq!["nan"@, "inf"@, "+inf"@, "-inf"@, "infinity"@, "+infinity"@, "-infinity"@];
    assert forall|k: int| 0 <= k < 7 implies !eq_ignore_ascii_case(t, #[trigger] names[k]) by {
        let c = names[k];
        if ascii_lowercase(t) == ascii_lowercase(c) {
            assert(ascii_lowercase(t).len() == t.len());
            assert(ascii_lowercase(c).len() == c.len());
            let last = t.len() - 1;
            assert(ascii_lowercase(t)[last] == t[last]);
            assert(ascii_lowercase(c)[last] == c[last]);
        }
    }
    assert(!eq_ignore_ascii_case(t, names[0]));
    assert(!eq_ignore_ascii_case(t, names[1]));
    assert(!eq_ignore_ascii_case(t, names[2]));
    assert(!eq_ignore_ascii_case(t, names[3]));
    assert(!eq_ignore_ascii_case(t, names[4]));
    assert(!eq_ignore_ascii_case(t, names[5]));
    assert(!eq_ignore_ascii_case(t, names[6]));
}

/// A plain digit string is decimal text without exponent or point, whose
/// significand is itself.
proof fn lemma_digit_string_structure(u: Seq<char>)
    requires
        u.len() >= 1,
        all_digits(u),
    ensures
        exponent_position(u) == u.len(),
        mantissa_text(u) == u,
        dot_position(u) == u.len(),
        is_valid_mantissa(u),
        mantissa_digits(u) == u,
{
    lemma_exponent_position(u, u.len() as int);
    lemma_dot_position(u, u.len() as int);
    assert(u.take(u.len() as int) =~= u);
    assert(is_ascii_digit(u[0]));
}

/// Canonical decimal text parses back to the integer it was formatted from.
pub proof fn lemma_decimal_text_parses_back(v: int, policy: NumericConversionPolicy, to: DataType)
    requires
        -(u128::MAX as int) <= v <= u128::MAX,
    ensures
        integer_text_result(decimal_text(v), policy, to) == Ok::<
            (bool, u128),
            DataConversionError,
        >(signed_magnitude(v)),
{
    let t = decimal_text(v);
    let magnitude = if v < 0 { -v } else { v };
    lemma_decimal_text_shape(v);
    lemma_digit_ending_is_finite(t);
    let u = strip_sign(t);
    lemma_decimal_digits_value(magnitude as nat);
    lemma_digit_string_structure(u);
    assert(is_decimal_text(t));
    assert(significand(t) == u);
    assert(point_position(t) == u.len());
    assert(u.take(u.len() as int) =~= u);
    assert(pow10(0) == 1);
    let n = u.len() as int;
    assert(integer_digits_at(n, n) == n);
    assert(zeros_at(n, n) == 0);
    assert(digits_value(u) == magnitude);
    assert(truncated_value(u, n) == magnitude);
    assert(truncated_magnitude(t) == magnitude);
    assert(!has_nonzero_fraction(t));
}

/// Canonical decimal text of at most [`MAX_BIG_INTEGER_DIGITS`] digits parses
/// back, as an arbitrary-precision integer, to the integer it was formatted
/// from.
pub proof fn lemma_decimal_text_parses_back_big(
    v: int,
    policy: NumericConversionPolicy,
    to: DataType,
)
    requires
        decimal_digits(abs(v)).len() <= MAX_BIG_INTEGER_DIGITS,
    ensures
        big_integer_text_result(decimal_text(v), policy, to) == Ok::<int, DataConversionError>(v),
{
    let t = decimal_text(v);
    let magnitude = if v < 0 { -v } else { v };
    lemma_decimal_text_shape(v);
    lemma_digit_ending_is_finite(t);
    let u = strip_sign(t);
    lemma_decimal_digits_value(magnitude as nat);
    lemma_digit_string_structure(u);
    assert(is_decimal_text(t));
    assert(significand(t) == u);
    assert(point_position(t) == u.len());
    assert(u.take(u.len() as int) =~= u);
    assert(pow10(0) == 1);
    let n = u.len() as int;
    assert(integer_digits_at(n, n) == n);
    assert(zeros_at(n, n) == 0);
    assert(result_digit_count(t) == n);
    assert(truncated_value(u, n) == magnitude);
    assert(truncated_magnitude(t) == magnitude);
    assert(!has_nonzero_fraction(t));
}

/// Canonical decimal text is unchanged by normalization.
pub proof fn lemma_decimal_text_normalizes_to_itself(
    v: int,
    options: DataConversionOptions,
    to: DataType,
)
    ensures
        options.normalized(decimal_text(v), to) == Ok::<Seq<char>, DataConversionError>(
            decimal_text(v),
        ),
{
    let t = decimal_text(v);
    lemma_decimal_text_shape(v);
    assert(trim_start(t) == t);
    assert(trim_end(t) == t);
    assert(!is_blank(t));
}

/// Formatting an arbitrary-precision integer as text and converting that
/// text back to an arbitrary-precision integer gives the value back, under
/// either numeric policy, whenever its decimal digits stay within
/// [`MAX_BIG_INTEGER_DIGITS`].
pub proof fn lemma_big_integer_text_round_trip(
    value: BigInteger,
    text: String,
    options: DataConversionOptions,
    to: DataType,
)
    requires
        DataConverter::BigInteger(value).string_result(options) == Ok::<
            Seq<char>,
            DataConversionError,
        >(text@),
        decimal_digits(abs(value@)).len() <= MAX_BIG_INTEGER_DIGITS,
    ensures
        DataConverter::String(text).big_integer_result(options, to) == Ok::<
            int,
            DataConversionError,
        >(value@),
{
    let v = value@;
    assert(text@ == decimal_text(v));
    lemma_decimal_text_normalizes_to_itself(v, options, to);
    lemma_decimal_text_parses_back_big(v, options.numeric_policy, to);
}

/// Formatting an integer source as text and converting that text back to an
/// integer gives the value back.
pub proof fn lemma_integer_text_round_trip(
    source: DataConverter,
    text: String,
    options: DataConversionOptions,
    to: DataType,
    min: int,
    max: int,
)
    requires
        source.is_integer_source(),
        source.string_result(options) == Ok::<Seq<char>, DataConversionError>(text@),
        min <= source.integer_value() <= max,
    ensures
        DataConverter::String(text).integer_intermediate(options, to) == Ok::<
            (bool, u128),
            DataConversionError,
        >(signed_magnitude(source.integer_value())),
        DataConverter::String(text).integer_result(options, to, min, max) == Ok::<
            int,
            DataConversionError,
        >(source.integer_value()),
{
    let v = source.integer_value();
    assert(text@ == decimal_text(v));
    lemma_decimal_text_normalizes_to_itself(v, options, to);
    lemma_decimal_text_parses_back(v, options.numeric_policy, to);
}

/// Leading digits followed by a non-digit are counted exactly.
proof fn lemma_leading_digit_count_concat(a: Seq<char>, b: Seq<char>)
    requires
        all_digits(a),
        b.len() == 0 || !is_ascii_digit(b[0]),
    ensures
        leading_digit_count(a + b) == a.len(),
    decreases a.len(),
{
    if a.len() > 0 {
        assert(all_digits(a.skip(1))) by {
            assert forall|i: int| 0 <= i < a.skip(1).len() implies is_ascii_digit(
                #[trigger] a.skip(1)[i],
            ) by {
                assert(a.skip(1)[i] == a[i + 1]);
            }
        }
        lemma_leading_digit_count_concat(a.skip(1), b);
        assert((a + b).skip(1) =~= a.skip(1) + b);
        assert((a + b)[0] == a[0]);
    } else {
        assert(a + b =~= b);
    }
}

/// Unit suffixes are non-empty, start with a non-digit and end with a
/// non-whitespace character.
proof fn lemma_unit_suffix_shape(unit: DurationUnit)
    ensures
        unit_suffix(unit)@.len() >= 1,
        !is_ascii_digit(unit_suffix(unit)@[0]),
        !is_whitespace(unit_suffix(unit)@.last()),
{
    reveal_strlit("ns");
    reveal_strlit("us");
    reveal_strlit("ms");
    reveal_strlit("s");
    reveal_strlit("m");
    reveal_strlit("h");
    reveal_strlit("d");
}

/// A whole number of units rounds to itself.
proof fn lemma_round_exact(n: nat, u: nat)
    requires
        u > 0,
        n % u == 0,
    ensures
        rounded_half_up(n, u) == n / u,
{
    let q = (n / u) as int;
    vstd::arithmetic::div_mod::lemma_fundamental_div_mod(n as int, u as int);
    let x = 2 * n + u;
    assert(x == q * (2 * u) + u) by (nonlinear_arith)
        requires
            n == u * q + 0,
            x == 2 * n + u,
    ;
    vstd::arithmetic::div_mod::lemma_fundamental_div_mod_converse(x as int, (2 * u) as int, q, u as int);
}

/// Formatting a duration as text and converting that text back to a
/// duration gives the span back, whenever the span is a whole number of
/// the configured unit and that number fits `u64`.
pub proof fn lemma_duration_text_round_trip(
    duration: Duration,
    text: String,
    options: DataConversionOptions,
)
    requires
        duration@ <= max_duration_nanos(),
        duration@ % unit_nanos(options.duration.unit) == 0,
        duration@ / unit_nanos(options.duration.unit) <= u64::MAX,
        DataConverter::Duration(duration).string_result(options) == Ok::<
            Seq<char>,
            DataConversionError,
        >(text@),
    ensures
        DataConverter::String(text).duration_result(options) == Ok::<nat, DataConversionError>(
            duration@,
        ),
{
    let unit = options.duration.unit;
    let u = unit_nanos(unit);
    let n = duration@;
    let units = n / u;
    lemma_round_exact(n, u);
    assert(duration_units_result(n, unit, options.numeric_policy, DataType::String) == Ok::<
        u128,
        DataConversionError,
    >(units as u128));
    let digits = decimal_text(units as int);
    let suffix = if options.duration.append_unit_suffix {
        unit_suffix(unit)@
    } else {
        Seq::<char>::empty()
    };
    assert(text@ == digits + suffix);
    lemma_decimal_text_shape(units as int);
    lemma_decimal_digits_value(units as nat);
    assert(digits == decimal_digits(units as nat));
    lemma_unit_suffix_shape(unit);
    lemma_leading_digit_count_concat(digits, suffix);
    let t = text@;
    assert(!is_whitespace(t[0])) by {
        assert(t[0] == digits[0]);
    }
    assert(!is_whitespace(t.last())) by {
        if suffix.len() > 0 {
            assert(t.last() == suffix.last());
        } else {
            assert(t.last() == digits.last());
        }
    }
    assert(trim_start(t) == t);
    assert(trim_end(t) == t);
    assert(!is_blank(t));
    assert(options.normalized(t, DataType::Duration) == Ok::<Seq<char>, DataConversionError>(t));
    assert(t.skip(digits.len() as int) =~= suffix);
    assert(t.take(digits.len() as int) =~= digits);
    if options.duration.append_unit_suffix {
        crate::duration::lemma_suffix_round_trip(unit);
    }
    vstd::arithmetic::div_mod::lemma_fundamental_div_mod(n as int, u as int);
    assert(units * u == n);
    if is_multi_second_unit(unit) {
        let secs = unit_seconds(unit);
        assert(u == secs * 1_000_000_000);
        assert(units * secs <= u64::MAX) by (nonlinear_arith)
            requires
                units * u == n,
                u == secs * 1_000_000_000,
                n <= u64::MAX as nat * 1_000_000_000 + 999_999_999,
        ;
    }
    assert(duration_text_result(t, unit) == Ok::<nat, DataConversionErrorKind>(n));
}

/// `m` times two to the power `k`.
pub open spec fn scaled_by_power_of_two(m: nat, k: nat) -> nat {
    m * power(2, k)
}

/// A binary float with `d` significand bits holds a non-negative integer
/// exactly when the integer is zero or a significand below `2^d` scaled by a
/// power of two.
pub proof fn lemma_exact_integers_are_scaled_significands(v: nat, d: nat)
    ensures
        fits_significand(v, d) <==> (v == 0 || exists|m: nat, k: nat|
            v == #[trigger] scaled_by_power_of_two(m, k) && m < power(2, d)),
{
    lemma_bit_length_bound(odd_part(v), d);
    if fits_significand(v, d) && v != 0 {
        let k = lemma_odd_part_scaled(v);
        assert(v == scaled_by_power_of_two(odd_part(v), k) && odd_part(v) < power(2, d));
    }
    if v != 0 && (exists|m: nat, k: nat|
        v == #[trigger] scaled_by_power_of_two(m, k) && m < power(2, d)) {
        let (m, k) = choose|m: nat, k: nat|
            v == #[trigger] scaled_by_power_of_two(m, k) && m < power(2, d);
        lemma_odd_part_of_scaled(m, k);
        lemma_odd_part_at_most(m);
    }
}

/// The position of a type in the catalog order of [`DataType::all`].
pub open spec fn catalog_position(data_type: DataType) -> int {
    match data_type {
        DataType::Bool => 0,
        DataType::Char => 1,
        DataType::Int8 => 2,
        DataType::Int16 => 3,
        DataType::Int32 => 4,
        DataType::Int64 => 5,
        DataType::Int128 => 6,
        DataType::UInt8 => 7,
        DataType::UInt16 => 8,
        DataType::UInt32 => 9,
        DataType::UInt64 => 10,
        DataType::UInt128 => 11,
        DataType::Float32 => 12,
        DataType::Float64 => 13,
        DataType::BigInteger => 14,
        DataType::BigDecimal => 15,
        DataType::String => 16,
        DataType::Date => 17,
        DataType::Time => 18,
        DataType::DateTime => 19,
        DataType::Instant => 20,
        DataType::Duration => 21,
        DataType::Url => 22,
        DataType::StringMap => 23,
        DataType::Json => 24,
    }
}

/// Every type stands in the catalog at its position.
proof fn lemma_catalog_lists_every_type(data_type: DataType)
    ensures
        0 <= catalog_position(data_type) < all_data_types().len(),
        all_data_types()[catalog_position(data_type)] == data_type,
{
}

/// The catalog lists the types in strictly increasing position.
proof fn lemma_catalog_is_ordered()
    ensures
        forall|i: int| 0 <= i < all_data_types().len() ==> catalog_position(
            #[trigger] all_data_types()[i],
        ) == i,
{
    reveal_with_fuel(vstd::compute::range_all_spec_rec, 26);
    assert((0..25int).all_spec(|i: int| catalog_position(all_data_types()[i]) == i));
    vstd::compute::all_spec_ensures(0..25int, |i: int| catalog_position(all_data_types()[i]) == i);
    assert(all_data_types().len() == 25);
}

/// Filtering a sequence ordered by catalog position keeps that order.
proof fn lemma_filter_keeps_catalog_order(s: Seq<DataType>, pred: spec_fn(DataType) -> bool)
    requires
        forall|i: int, j: int|
            0 <= i < j < s.len() ==> catalog_position(s[i]) < catalog_position(s[j]),
    ensures
        forall|i: int, j: int|
            0 <= i < j < s.filter(pred).len() ==> catalog_position(s.filter(pred)[i])
                < catalog_position(s.filter(pred)[j]),
    decreases s.len(),
{
    reveal_with_fuel(Seq::<DataType>::filter, 1);
    if s.len() > 0 {
        let rest = s.drop_last();
        lemma_filter_keeps_catalog_order(rest, pred);
        let kept = rest.filter(pred);
        if pred(s.last()) {
            assert(s.filter(pred) == kept.push(s.last()));
            assert forall|k: int| 0 <= k < kept.len() implies catalog_position(kept[k])
                < catalog_position(s.last()) by {
                assert(kept.contains(kept[k]));
                rest.lemma_filter_contains_rev(pred, kept[k]);
                let idx = choose|idx: int| 0 <= idx < rest.len() && rest[idx] == kept[k];
                assert(s[idx] == rest[idx]);
                assert(s.last() == s[s.len() - 1]);
            }
        } else {
            assert(s.filter(pred) == kept);
        }
    }
}

/// The supported targets of a source are exactly the types it converts to,
/// each once, in catalog order; an unavailable source has none.
pub proof fn lemma_supported_targets_in_catalog_order(from: DataType)
    ensures
        ({
            let targets = all_data_types().filter(|to: DataType| supports_conversion(from, to));
            &&& forall|to: DataType| targets.contains(to) <==> supports_conversion(from, to)
            &&& forall|i: int, j: int|
                0 <= i < j < targets.len() ==> catalog_position(targets[i]) < catalog_position(
                    targets[j],
                )
            &&& !is_available_type(from) ==> targets.len() == 0
        }),
{
    let pred = |to: DataType| supports_conversion(from, to);
    let all = all_data_types();
    let targets = all.filter(pred);
    lemma_catalog_is_ordered();
    assert forall|i: int, j: int| 0 <= i < j < all.len() implies catalog_position(all[i])
        < catalog_position(all[j]) by {
        assert(catalog_position(all[i]) == i);
        assert(catalog_position(all[j]) == j);
    }
    lemma_filter_keeps_catalog_order(all, pred);
    assert forall|to: DataType| targets.contains(to) <==> supports_conversion(from, to) by {
        if targets.contains(to) {
            let k = choose|k: int| 0 <= k < targets.len() && targets[k] == to;
            all.lemma_filter_pred(pred, k);
        }
        if supports_conversion(from, to) {
            lemma_catalog_lists_every_type(to);
            all.lemma_filter_contains(pred, catalog_position(to));
        }
    }
}

/// Whether an error of a conversion from text to `to` is one that holds
/// nothing of the text: a missing-value or invalid-value error naming only
/// `String`, the target and, for an invalid value, a reason.
pub open spec fn is_text_free_error(error: DataConversionError, to: DataType) -> bool {
    ||| error == (DataConversionError::Missing { from: DataType::String, to })
    ||| error matches DataConversionError::InvalidValue { from, to: target, .. } && from
        == DataType::String && target == to
}

/// Whether a conversion result from text to `to` either succeeds or fails
/// with a text-free error.
pub open spec fn fails_text_free<T>(result: Result<T, DataConversionError>, to: DataType) -> bool {
    match result {
        Ok(_) => true,
        Err(error) => is_text_free_error(error, to),
    }
}

/// The reason of an invalid-value error; other errors have none.
pub open spec fn rejection_reason(error: DataConversionError) -> Option<DataConversionErrorKind> {
    match error {
        DataConversionError::InvalidValue { reason, .. } => Some(reason),
        _ => None,
    }
}

/// Converting text never carries the text into an error: every failure to
/// convert a string source to a scalar target is a missing-value or
/// invalid-value error that names only `String`, the target and a reason.
pub proof fn lemma_text_errors_carry_no_text(
    source: DataConverter,
    options: DataConversionOptions,
    to: DataType,
    min: int,
    max: int,
)
    requires
        source is String,
    ensures
        fails_text_free(source.bool_result(options), DataType::Bool),
        fails_text_free(source.char_result(options), DataType::Char),
        fails_text_free(source.string_result(options), DataType::String),
        fails_text_free(source.duration_result(options), DataType::Duration),
        is_fixed_integer_type(to) ==> fails_text_free(source.integer_result(options, to, min, max), to),
        fails_text_free(source.big_integer_result(options, DataType::BigInteger), DataType::BigInteger),
        fails_text_free(source.big_decimal_result(options), DataType::BigDecimal),
        fails_text_free(source.url_result(options), DataType::Url),
        fails_text_free(source.date_result(options), DataType::Date),
        fails_text_free(source.time_result(options), DataType::Time),
        fails_text_free(source.date_time_result(options), DataType::DateTime),
        fails_text_free(source.instant_result(options), DataType::Instant),
{
}

/// Two texts rejected on the way to the same target for the same reason get
/// equal errors, and so equal messages: the error tells nothing of which
/// text it was.
pub proof fn lemma_same_reason_same_error(
    first: DataConversionError,
    second: DataConversionError,
    to: DataType,
)
    requires
        is_text_free_error(first, to),
        is_text_free_error(second, to),
        rejection_reason(first) == rejection_reason(second),
    ensures
        first == second,
        error_message(first) == error_message(second),
{
}

/// Decimal text is found exact for a float, given the float's exact decimal
/// expansion as `exact_float_decimal` computes it, exactly when the number
/// the text writes equals the float `significand × 2^exponent`: for a text
/// whose digits are all zero, when the float is zero; otherwise when its
/// exponent fits `i64` and its digits scaled by its exponent equal the
/// float.
pub proof fn lemma_exact_text_writes_the_float(
    t: Seq<char>,
    significand: nat,
    exponent: int,
    digits: Seq<u8>,
    zeros: int,
    scale: int,
)
    requires
        is_decimal_text(t),
        all_decimal(digits),
        no_high_zero(digits),
        zeros == low_zero_count(digits),
        zeros <= digits.len(),
        scale + zeros >= 0,
        exponent >= 0 ==> scale + zeros == 0 && le_digits_value(digits) == significand * power(
            2,
            exponent as nat,
        ),
        exponent < 0 ==> le_digits_value(digits) * power(2, (-exponent) as nat) == significand
            * power(10, (scale + zeros) as nat),
    ensures
        text_matches_expansion(t, significand == 0, digits, zeros, scale) <==> if text_digits_value(
            t,
        ) == 0 {
            significand == 0
        } else {
            text_exponent_fits(t) && decimal_equals_binary(
                text_digits_value(t),
                text_shift(t),
                significand,
                exponent,
            )
        },
{
    let u = strip_sign(t);
    let m = mantissa_text(u);
    let d = mantissa_digits(m);
    let v = le_digits_value(digits);
    let z = (scale + zeros) as nat;
    let px = positive_part(exponent);
    let nx = positive_part(-exponent);
    lemma_mantissa_digits_are_digits(m);
    lemma_power_positive(2, px);
    lemma_power_positive(2, nx);
    lemma_power_positive(10, z);
    assert(significand * power(2, px) * power(10, z) == v * power(2, nx)) by {
        assert(power(2, 0) == 1);
        assert(power(10, 0) == 1);
        if exponent >= 0 {
            assert(significand * power(2, px) * 1 == v * 1) by (nonlinear_arith)
                requires
                    v == significand * power(2, px),
            ;
        } else {
            assert(significand * 1 * power(10, z) == v * power(2, nx)) by (nonlinear_arith)
                requires
                    v * power(2, nx) == significand * power(10, z),
            ;
        }
    }
    let big_d = text_digits_value(t);
    crate::numeric_text::lemma_digits_value_nonneg(d);
    if big_d == 0 {
        lemma_zero_value_digits(d);
        return;
    }
    lemma_text_significant_digits(t);
    let a = text_shift(t);
    let pa = positive_part(a);
    let na = positive_part(-a);
    lemma_power_positive(10, pa);
    lemma_power_positive(10, na);
    if significand == 0 {
        assert(big_d * power(10, pa) * power(2, nx) != 0) by (nonlinear_arith)
            requires
                big_d > 0,
                power(10, pa) > 0,
                power(2, nx) > 0,
        ;
        assert(significand * power(2, px) * power(10, na) == 0) by (nonlinear_arith)
            requires
                significand == 0,
        ;
        assert(leading_zero_chars(d) < d.len());
        return;
    }
    assert(v != 0) by (nonlinear_arith)
        requires
            significand > 0,
            power(2, px) > 0,
            power(10, z) > 0,
            significand * power(2, px) * power(10, z) == v * power(2, nx),
    ;
    lemma_expansion_significant_digits(digits, zeros);
    if !text_exponent_fits(t) {
        return;
    }
    let core = text_significant_digits(t);
    let c = digits_value(core) as nat;
    let rest = digits.skip(zeros);
    let w = le_digits_value(rest);
    let lz = leading_zero_chars(d);
    let tz = trailing_zero_chars(d) as nat;
    lemma_compare_through_expansion(big_d, a, significand, exponent, v, z);
    lemma_pow10_adds(tz, pa + z);
    lemma_pow10_adds(pa + z, 0);
    lemma_pow10_adds(zeros as nat, na);
    lemma_pow10_adds(na, 0);
    assert(big_d * power(10, pa + z) == c * pow10(tz + pa + z)) by (nonlinear_arith)
        requires
            big_d == c * pow10(tz),
            power(10, pa + z) == pow10(pa + z),
            pow10(tz + pa + z) == pow10(tz) * pow10(pa + z),
    ;
    assert(v * power(10, na) == w * pow10(zeros as nat + na)) by (nonlinear_arith)
        requires
            v == w * pow10(zeros as nat),
            power(10, na) == pow10(na),
            pow10(zeros as nat + na) == pow10(zeros as nat) * pow10(na),
    ;
    lemma_scaled_forms_equal(c, tz + pa + z, w, zeros as nat + na);
    lemma_significant_digits_agree(core, digits, zeros);
    lemma_le_decimal_digits_value(c);
    lemma_le_decimal_digits_value(w);
    assert(reversed_digit_values(core) == rest <==> c == w);
    assert(core == d.subrange(lz, d.len() - trailing_zero_chars(d)));
    assert(lz + core.len() <= d.len());
    let e = if has_exponent(u) {
        signed_digits_value(exponent_text(u))
    } else {
        0
    };
    assert(a == e - fraction_digit_count(m));
    assert((forall|i: int|
        0 <= i < core.len() ==> digit_value(#[trigger] core[i]) == digits[digits.len() - 1 - i] as int)
        <==> (forall|i: int|
        0 <= i < core.len() ==> digit_value(#[trigger] d[lz + i]) == digits[digits.len() - 1 - i] as int))
        by {
        if forall|i: int|
            0 <= i < core.len() ==> digit_value(#[trigger] core[i]) == digits[digits.len() - 1 - i] as int {
            assert forall|i: int| 0 <= i < core.len() implies digit_value(#[trigger] d[lz + i])
                == digits[digits.len() - 1 - i] as int by {
                assert(core[i] == d[lz + i]);
            }
        }
        if forall|i: int|
            0 <= i < core.len() ==> digit_value(#[trigger] d[lz + i]) == digits[digits.len() - 1 - i] as int {
            assert forall|i: int| 0 <= i < core.len() implies digit_value(#[trigger] core[i])
                == digits[digits.len() - 1 - i] as int by {
                assert(core[i] == d[lz + i]);
            }
        }
    }
    assert(pa - na == a);
    assert(decimal_equals_binary(big_d, a, significand, exponent) <==> (c == w && tz + pa + z
        == zeros + na));
    assert(lz < d.len());
    assert((c == w && tz + pa + z == zeros + na) <==> (fraction_digit_count(m) - e - tz == scale
        && core.len() == digits.len() - zeros && forall|i: int|
        0 <= i < core.len() ==> digit_value(#[trigger] d[lz + i]) == digits[digits.len() - 1 - i] as int));
}

/// A conversion result with its value dropped.
pub open spec fn outcome<V>(result: Result<V, DataConversionError>) -> Result<(), DataConversionError> {
    match result {
        Ok(_) => Ok(()),
        Err(error) => Err(error),
    }
}

/// Whether the library converts to a type: every type but the floats,
/// string maps and JSON.
pub open spec fn is_library_target(to: DataType) -> bool {
    !(to == DataType::Float32 || to == DataType::Float64 || to == DataType::StringMap || to
        == DataType::Json)
}

/// The outcome of converting a source with `to_with` to the target type of
/// `to`, its value dropped.
pub open spec fn target_outcome(
    source: DataConverter,
    options: DataConversionOptions,
    to: DataType,
) -> Result<(), DataConversionError> {
    match to {
        DataType::Bool => outcome(
            <DataConverter as DataConvertTo<bool>>::conversion_result(&source, options),
        ),
        DataType::Char => outcome(
            <DataConverter as DataConvertTo<char>>::conversion_result(&source, options),
        ),
        DataType::String => outcome(
            <DataConverter as DataConvertTo<String>>::conversion_result(&source, options),
        ),
        DataType::Duration => outcome(
            <DataConverter as DataConvertTo<Duration>>::conversion_result(&source, options),
        ),
        DataType::BigInteger => outcome(
            <DataConverter as DataConvertTo<BigInteger>>::conversion_result(&source, options),
        ),
        DataType::BigDecimal => outcome(
            <DataConverter as DataConvertTo<BigDecimal>>::conversion_result(&source, options),
        ),
        DataType::Url => outcome(
            <DataConverter as DataConvertTo<Url>>::conversion_result(&source, options),
        ),
        DataType::Date => outcome(
            <DataConverter as DataConvertTo<Date>>::conversion_result(&source, options),
        ),
        DataType::Time => outcome(
            <DataConverter as DataConvertTo<Time>>::conversion_result(&source, options),
        ),
        DataType::DateTime => outcome(
            <DataConverter as DataConvertTo<DateTime>>::conversion_result(&source, options),
        ),
        DataType::Instant => outcome(
            <DataConverter as DataConvertTo<Instant>>::conversion_result(&source, options),
        ),
        DataType::Int8 => outcome(
            <DataConverter as DataConvertTo<i8>>::conversion_result(&source, options),
        ),
        DataType::Int16 => outcome(
            <DataConverter as DataConvertTo<i16>>::conversion_result(&source, options),
        ),
        DataType::Int32 => outcome(
            <DataConverter as DataConvertTo<i32>>::conversion_result(&source, options),
        ),
        DataType::Int64 => outcome(
            <DataConverter as DataConvertTo<i64>>::conversion_result(&source, options),
        ),
        DataType::Int128 => outcome(
            <DataConverter as DataConvertTo<i128>>::conversion_result(&source, options),
        ),
        DataType::UInt8 => outcome(
            <DataConverter as DataConvertTo<u8>>::conversion_result(&source, options),
        ),
        DataType::UInt16 => outcome(
            <DataConverter as DataConvertTo<u16>>::conversion_result(&source, options),
        ),
        DataType::UInt32 => outcome(
            <DataConverter as DataConvertTo<u32>>::conversion_result(&source, options),
        ),
        DataType::UInt64 => outcome(
            <DataConverter as DataConvertTo<u64>>::conversion_result(&source, options),
        ),
        DataType::UInt128 => outcome(
            <DataConverter as DataConvertTo<u128>>::conversion_result(&source, options),
        ),
        _ => Ok(()),
    }
}

/// Whether two failed outcomes with the same reason fail with the same error
/// and the same message.
pub open spec fn same_reason_same_error(
    first: Result<(), DataConversionError>,
    second: Result<(), DataConversionError>,
) -> bool {
    match (first, second) {
        (Err(e1), Err(e2)) => rejection_reason(e1) == rejection_reason(e2) ==> e1 == e2
            && error_message(e1) == error_message(e2),
        _ => true,
    }
}

/// Converting text never carries the text into an error, whatever the
/// target: a string source that fails to convert fails with an error naming
/// only `String`, the target and a reason, so two texts rejected on the way
/// to the same target for the same reason get equal errors with equal
/// messages.
pub proof fn lemma_text_rejections_tell_nothing_of_the_text(
    first: DataConverter,
    second: DataConverter,
    options: DataConversionOptions,
    to: DataType,
)
    requires
        first is String,
        second is String,
        is_library_target(to),
    ensures
        target_outcome(first, options, to) matches Err(error) ==> is_text_free_error(error, to),
        same_reason_same_error(target_outcome(first, options, to), target_outcome(second, options, to)),
{
    match to {
        DataType::Int8 => {
            lemma_text_errors_carry_no_text(first, options, to, i8::MIN as int, i8::MAX as int);
            lemma_text_errors_carry_no_text(second, options, to, i8::MIN as int, i8::MAX as int);
        },
        DataType::Int16 => {
            lemma_text_errors_carry_no_text(first, options, to, i16::MIN as int, i16::MAX as int);
            lemma_text_errors_carry_no_text(second, options, to, i16::MIN as int, i16::MAX as int);
        },
        DataType::Int32 => {
            lemma_text_errors_carry_no_text(first, options, to, i32::MIN as int, i32::MAX as int);
            lemma_text_errors_carry_no_text(second, options, to, i32::MIN as int, i32::MAX as int);
        },
        DataType::Int64 => {
            lemma_text_errors_carry_no_text(first, options, to, i64::MIN as int, i64::MAX as int);
            lemma_text_errors_carry_no_text(second, options, to, i64::MIN as int, i64::MAX as int);
        },
        DataType::Int128 => {
            lemma_text_errors_carry_no_text(first, options, to, i128::MIN as int, i128::MAX as int);
            lemma_text_errors_carry_no_text(second, options, to, i128::MIN as int, i128::MAX as int);
        },
        DataType::UInt8 => {
            lemma_text_errors_carry_no_text(first, options, to, 0, u8::MAX as int);
            lemma_text_errors_carry_no_text(second, options, to, 0, u8::MAX as int);
        },
        DataType::UInt16 => {
            lemma_text_errors_carry_no_text(first, options, to, 0, u16::MAX as int);
            lemma_text_errors_carry_no_text(second, options, to, 0, u16::MAX as int);
        },
        DataType::UInt32 => {
            lemma_text_errors_carry_no_text(first, options, to, 0, u32::MAX as int);
            lemma_text_errors_carry_no_text(second, options, to, 0, u32::MAX as int);
        },
        DataType::UInt64 => {
            lemma_text_errors_carry_no_text(first, options, to, 0, u64::MAX as int);
            lemma_text_errors_carry_no_text(second, options, to, 0, u64::MAX as int);
        },
        DataType::UInt128 => {
            lemma_text_errors_carry_no_text(first, options, to, 0, u128::MAX as int);
            lemma_text_errors_carry_no_text(second, options, to, 0, u128::MAX as int);
        },
        _ => {
            lemma_text_errors_carry_no_text(first, options, to, 0, 0);
            lemma_text_errors_carry_no_text(second, options, to, 0, 0);
        },
    }
    match (target_outcome(first, options, to), target_outcome(second, options, to)) {
        (Err(e1), Err(e2)) => {
            if rejection_reason(e1) == rejection_reason(e2) {
                lemma_same_reason_same_error(e1, e2, to);
            }
        },
        _ => {},
    }
}

/// The code points of Unicode's `White_Space` property (Unicode 15), the set
/// Rust's `char::is_whitespace` and `str::trim` go by: tab, line feed,
/// vertical tab, form feed, carriage return, space, next line, no-break
/// space, Ogham space mark, the spaces U+2000 to U+200A, line and paragraph
/// separators, narrow no-break space, medium mathematical space and
/// ideographic space.
pub open spec fn is_unicode_white_space(u: u32) -> bool {
    u == 0x09 || u == 0x0a || u == 0x0b || u == 0x0c || u == 0x0d || u == 0x20 || u == 0x85 || u
        == 0xa0 || u == 0x1680 || u == 0x2000 || u == 0x2001 || u == 0x2002 || u == 0x2003 || u
        == 0x2004 || u == 0x2005 || u == 0x2006 || u == 0x2007 || u == 0x2008 || u == 0x2009 || u
        == 0x200a || u == 0x2028 || u == 0x2029 || u == 0x202f || u == 0x205f || u == 0x3000
}

/// Leading whitespace of a text that is not blank stays where it is when
/// more text follows; a blank text vanishes.
proof fn lemma_trim_start_append(s: Seq<char>, r: Seq<char>)
    ensures
        !is_blank(s) ==> trim_start(s + r) == trim_start(s) + r,
        is_blank(s) ==> trim_start(s + r) == trim_start(r),
    decreases s.len(),
{
    if s.len() == 0 {
        assert(s + r =~= r);
    } else {
        assert((s + r)[0] == s[0]);
        assert((s + r).skip(1) =~= s.skip(1) + r);
        lemma_trim_start_append(s.skip(1), r);
        if is_whitespace(s[0]) {
            if is_blank(s.skip(1)) {
                assert forall|i: int| 0 <= i < s.len() implies is_whitespace(#[trigger] s[i]) by {
                    if i > 0 {
                        assert(s[i] == s.skip(1)[i - 1]);
                    }
                }
            } else {
                assert(!is_blank(s));
            }
        } else {
            assert(!is_blank(s));
        }
    }
}

/// Trimming goes by Unicode `White_Space`: a whitespace character added at
/// either end of a text leaves its trimmed form unchanged, and any other
/// character added at an end stays at that end of the trimmed form.
pub proof fn lemma_trim_removes_unicode_white_space(s: Seq<char>, c: char)
    ensures
        is_unicode_white_space(c as u32) ==> trim(s.push(c)) == trim(s) && trim(seq![c] + s)
            == trim(s),
        !is_unicode_white_space(c as u32) ==> trim(s.push(c)).len() > 0 && trim(s.push(c)).last()
            == c && trim(seq![c] + s).len() > 0 && trim(seq![c] + s)[0] == c,
{
    assert(is_whitespace(c) == is_unicode_white_space(c as u32));
    lemma_trim_start_append(s, seq![c]);
    assert(s + seq![c] =~= s.push(c));
    assert((seq![c] + s).skip(1) =~= s);
    assert((seq![c] + s)[0] == c);
    let one = seq![c];
    assert(one.skip(1) =~= Seq::<char>::empty());
    assert(trim_start(Seq::<char>::empty()) =~= Seq::<char>::empty());
    if is_whitespace(c) {
        assert(trim_start(one) == trim_start(one.skip(1)));
        if !is_blank(s) {
            assert(trim_start(s) + one =~= trim_start(s).push(c));
            assert((trim_start(s).push(c)).drop_last() =~= trim_start(s));
        } else {
            lemma_trim_start_append(s, Seq::<char>::empty());
            assert(s + Seq::<char>::empty() =~= s);
        }
    } else {
        assert(trim_start(one) == one);
        let x = trim_start(s.push(c));
        if !is_blank(s) {
            assert(trim_start(s) + one =~= trim_start(s).push(c));
        }
        assert(x.len() > 0 && x.last() == c);
        assert(trim_end(x) == x);
        let y = trim_start(seq![c] + s);
        assert(y == seq![c] + s);
        lemma_trim_end_keeps_start(y);
    }
}

/// Trimming the end of a text that starts with a non-whitespace character
/// keeps that character first.
proof fn lemma_trim_end_keeps_start(y: Seq<char>)
    requires
        y.len() > 0,
        !is_whitespace(y[0]),
    ensures
        trim_end(y).len() > 0,
        trim_end(y)[0] == y[0],
    decreases y.len(),
{
    if is_whitespace(y.last()) {
        assert(y.len() > 1);
        assert(y.drop_last()[0] == y[0]);
        lemma_trim_end_keeps_start(y.drop_last());
    }
}

/// With trimming on, whitespace around a string source changes nothing: a
/// text and the text with a Unicode `White_Space` character added at either
/// end normalize alike and convert alike, to every target.
pub proof fn lemma_surrounding_white_space_is_ignored(
    first: DataConverter,
    second: DataConverter,
    options: DataConversionOptions,
    c: char,
    to: DataType,
)
    requires
        first is String,
        second is String,
        options.trim_strings,
        is_unicode_white_space(c as u32),
        second->String_0@ == first->String_0@.push(c) || second->String_0@ == seq![c]
            + first->String_0@,
    ensures
        options.normalized(second->String_0@, to) == options.normalized(first->String_0@, to),
        target_outcome(second, options, to) == target_outcome(first, options, to),
        second.integer_intermediate(options, to) == first.integer_intermediate(options, to),
{
    lemma_trim_removes_unicode_white_space(first->String_0@, c);
    assert forall|t: DataType| options.normalized(second->String_0@, t) == options.normalized(
        first->String_0@,
        t,
    ) by {}
}

/// A number type: the fixed-width integers, the floats and the
/// arbitrary-precision integers and decimals.
pub open spec fn is_number_type(t: DataType) -> bool {
    match t {
        DataType::Int8 | DataType::Int16 | DataType::Int32 | DataType::Int64 | DataType::Int128
        | DataType::UInt8 | DataType::UInt16 | DataType::UInt32 | DataType::UInt64
        | DataType::UInt128 | DataType::Float32 | DataType::Float64 | DataType::BigInteger
        | DataType::BigDecimal => true,
        _ => false,
    }
}

/// The conversion table's broad paths: text converts to every type, every
/// type converts to text, and every number type, boolean and character
/// converts to every number type, floats included.
pub proof fn lemma_text_and_numbers_convert_everywhere(from: DataType, to: DataType)
    ensures
        supports_conversion(DataType::String, to),
        supports_conversion(from, DataType::String),
        is_number_type(from) && is_number_type(to) ==> supports_conversion(from, to),
        (from == DataType::Bool || from == DataType::Char) && is_number_type(to)
            ==> supports_conversion(from, to),
{
}

/// A count of digits followed by a unit suffix reads as the count in that
/// unit, in nanoseconds.
proof fn lemma_count_with_suffix(
    t: Seq<char>,
    suffix: Seq<char>,
    unit: DurationUnit,
    default_unit: DurationUnit,
)
    requires
        t.len() > 0,
        all_digits(t),
        digits_value(t) <= u64::MAX,
        suffix.len() > 0,
        !is_ascii_digit(suffix[0]),
        unit_for_suffix(suffix) == Some(unit),
        is_multi_second_unit(unit) ==> digits_value(t) * unit_seconds(unit) <= u64::MAX,
    ensures
        duration_text_result(t + suffix, default_unit) == Ok::<nat, DataConversionErrorKind>(
            (digits_value(t) * unit_nanos(unit)) as nat,
        ),
{
    lemma_leading_digit_count_concat(t, suffix);
    assert((t + suffix).skip(t.len() as int) =~= suffix);
    assert((t + suffix).take(t.len() as int) =~= t);
}

/// Duration text counts in the unit its suffix names, whichever spelling:
/// digits `n` followed by `ns`, `us`, `µs` (U+00B5), `μs` (U+03BC), `ms`,
/// `s`, `m`, `h` or `d` read as `n` nanoseconds, microseconds, milliseconds,
/// seconds, minutes, hours or days, whenever the count fits `u64` (for
/// minutes, hours and days, in seconds).
pub proof fn lemma_duration_suffixes_name_their_units(t: Seq<char>, default_unit: DurationUnit)
    requires
        t.len() > 0,
        all_digits(t),
        digits_value(t) <= u64::MAX,
    ensures
        duration_text_result(t + seq!['n', 's'], default_unit) == Ok::<
            nat,
            DataConversionErrorKind,
        >(digits_value(t) as nat),
        duration_text_result(t + seq!['u', 's'], default_unit) == Ok::<
            nat,
            DataConversionErrorKind,
        >((digits_value(t) * 1_000) as nat),
        duration_text_result(t + seq!['\u{b5}', 's'], default_unit) == Ok::<
            nat,
            DataConversionErrorKind,
        >((digits_value(t) * 1_000) as nat),
        duration_text_result(t + seq!['\u{3bc}', 's'], default_unit) == Ok::<
            nat,
            DataConversionErrorKind,
        >((digits_value(t) * 1_000) as nat),
        duration_text_result(t + seq!['m', 's'], default_unit) == Ok::<
            nat,
            DataConversionErrorKind,
        >((digits_value(t) * 1_000_000) as nat),
        duration_text_result(t + seq!['s'], default_unit) == Ok::<nat, DataConversionErrorKind>(
            (digits_value(t) * 1_000_000_000) as nat,
        ),
        digits_value(t) * 60 <= u64::MAX ==> duration_text_result(t + seq!['m'], default_unit)
            == Ok::<nat, DataConversionErrorKind>((digits_value(t) * 60_000_000_000) as nat),
        digits_value(t) * 3_600 <= u64::MAX ==> duration_text_result(t + seq!['h'], default_unit)
            == Ok::<nat, DataConversionErrorKind>((digits_value(t) * 3_600_000_000_000) as nat),
        digits_value(t) * 86_400 <= u64::MAX ==> duration_text_result(t + seq!['d'], default_unit)
            == Ok::<nat, DataConversionErrorKind>((digits_value(t) * 86_400_000_000_000) as nat),
{
    reveal_strlit("ns");
    reveal_strlit("us");
    reveal_strlit("µs");
    reveal_strlit("μs");
    reveal_strlit("ms");
    reveal_strlit("s");
    reveal_strlit("m");
    reveal_strlit("h");
    reveal_strlit("d");
    let ns = seq!['n', 's'];
    let us = seq!['u', 's'];
    let micro = seq!['\u{b5}', 's'];
    let mu = seq!['\u{3bc}', 's'];
    let ms = seq!['m', 's'];
    let sec = seq!['s'];
    let min = seq!['m'];
    let hour = seq!['h'];
    let day = seq!['d'];
    assert(ns =~= "ns"@);
    assert(us =~= "us"@);
    assert(micro =~= "µs"@);
    assert(mu =~= "μs"@);
    assert(ms =~= "ms"@);
    assert(sec =~= "s"@);
    assert(min =~= "m"@);
    assert(hour =~= "h"@);
    assert(day =~= "d"@);
    assert(sec.len() != ns.len() && min.len() != ns.len() && hour.len() != ns.len()
        && day.len() != ns.len());
    assert(min[0] != sec[0] && hour[0] != sec[0] && hour[0] != min[0]);
    assert(day[0] != sec[0] && day[0] != min[0] && day[0] != hour[0]);
    assert(us[0] != ns[0] && micro[0] != ns[0] && mu[0] != ns[0] && ms[0] != ns[0]);
    assert(ms[0] != us[0] && ms[0] != micro[0] && ms[0] != mu[0]);
    assert(unit_for_suffix(ns) == Some(DurationUnit::Nanoseconds));
    assert(unit_for_suffix(us) == Some(DurationUnit::Microseconds));
    assert(unit_for_suffix(micro) == Some(DurationUnit::Microseconds));
    assert(unit_for_suffix(mu) == Some(DurationUnit::Microseconds));
    assert(unit_for_suffix(ms) == Some(DurationUnit::Milliseconds));
    assert(unit_for_suffix(sec) == Some(DurationUnit::Seconds));
    assert(unit_for_suffix(min) == Some(DurationUnit::Minutes));
    assert(unit_for_suffix(hour) == Some(DurationUnit::Hours));
    assert(unit_for_suffix(day) == Some(DurationUnit::Days));
    lemma_count_with_suffix(t, ns, DurationUnit::Nanoseconds, default_unit);
    lemma_count_with_suffix(t, us, DurationUnit::Microseconds, default_unit);
    lemma_count_with_suffix(t, micro, DurationUnit::Microseconds, default_unit);
    lemma_count_with_suffix(t, mu, DurationUnit::Microseconds, default_unit);
    lemma_count_with_suffix(t, ms, DurationUnit::Milliseconds, default_unit);
    lemma_count_with_suffix(t, sec, DurationUnit::Seconds, default_unit);
    if digits_value(t) * 60 <= u64::MAX {
        lemma_count_with_suffix(t, min, DurationUnit::Minutes, default_unit);
    }
    if digits_value(t) * 3_600 <= u64::MAX {
        lemma_count_with_suffix(t, hour, DurationUnit::Hours, default_unit);
    }
    if digits_value(t) * 86_400 <= u64::MAX {
        lemma_count_with_suffix(t, day, DurationUnit::Days, default_unit);
    }
}

/// A bare count is counted in the configured unit: it reads exactly as the
/// same count followed by that unit's suffix.
pub proof fn lemma_bare_count_takes_the_configured_unit(t: Seq<char>, default_unit: DurationUnit)
    requires
        t.len() > 0,
        all_digits(t),
        digits_value(t) <= u64::MAX,
        is_multi_second_unit(default_unit) ==> digits_value(t) * unit_seconds(default_unit)
            <= u64::MAX,
    ensures
        duration_text_result(t, default_unit) == duration_text_result(
            t + unit_suffix(default_unit)@,
            default_unit,
        ),
{
    lemma_leading_digit_count_concat(t, Seq::<char>::empty());
    assert(t + Seq::<char>::empty() =~= t);
    assert(t.skip(t.len() as int) =~= Seq::<char>::empty());
    assert(t.take(t.len() as int) =~= t);
    lemma_unit_suffix_shape(default_unit);
    crate::duration::lemma_suffix_round_trip(default_unit);
    lemma_count_with_suffix(t, unit_suffix(default_unit)@, default_unit, default_unit);
}

} // verus!
