//! Arbitrary-precision decimals held as an integer coefficient and a decimal
//! scale: their parsing and display by `bigdecimal`, and their exact
//! conversion to integers.

use num_bigint::{BigInt, Sign};
use vstd::prelude::*;

use crate::big_integer::{
    abs, limbs_value, magnitude_digit_count, magnitude_div_pow10, magnitude_from_decimal,
    magnitude_times_pow10, sign_value, BigInteger,
};
use crate::data_type::DataType;
use crate::decimal::decimal_digits;
use crate::error::{text_error, DataConversionError, DataConversionErrorKind};
use crate::numeric_text::{
    has_minus_sign, invalid_numeric_syntax, is_integer_text, numeric_syntax_error, pow10,
    split_sign, strip_sign, chars_are_integer_syntax,
};
use crate::policy::NumericConversionPolicy;
use crate::text::{chars_eq_ignore_ascii_case, chars_of, copy_range, digits_value, eq_ignore_ascii_case};
use crate::decimal::string_from_chars;

verus! {

/// An arbitrary-precision decimal `coefficient × 10^-scale`: an integer
/// coefficient and a decimal scale, the representation `bigdecimal` uses.
/// A negative scale multiplies the coefficient by a power of ten.
#[derive(Clone, Debug, PartialEq, Eq)]
pub struct BigDecimal {
    pub(crate) coefficient: BigInteger,
    pub(crate) scale: i64,
}

impl BigDecimal {
    /// The coefficient and the scale.
    pub closed spec fn parts(&self) -> (int, int) {
        (self.coefficient@, self.scale as int)
    }
}

impl View for BigDecimal {
    type V = (int, int);

    open spec fn view(&self) -> (int, int) {
        self.parts()
    }
}

/// The coefficient and scale `bigdecimal`'s `BigDecimal::from_str` parses
/// from text, or `None` where it reports an error.
pub uninterp spec fn parsed_decimal(text: Seq<char>) -> Option<(int, int)>;

/// The text `bigdecimal`'s `Display` writes for a coefficient and scale.
/// Where it switches to exponential notation depends on thresholds that
/// `bigdecimal` fixes when it is built, so the text is a function of the
/// value within one build of the library.
pub uninterp spec fn decimal_display(value: (int, int)) -> Seq<char>;

/// Parses decimal text: `bigdecimal`'s `BigDecimal::from_str`, its result
/// split into the sign, base-2^32 digits and scale it holds. The contract
/// claims only that the outcome is the named parse of the text; which texts
/// `bigdecimal` accepts, and with which scale, is left unsaid.
#[verifier::external_body]
fn parse_decimal(text: &str) -> (parsed: Option<BigDecimal>)
    ensures
        match parsed {
            Some(d) => parsed_decimal(text@) == Some(d@),
            None => parsed_decimal(text@) is None,
        },
{
    match text.parse::<bigdecimal::BigDecimal>() {
        Ok(value) => {
            let (coefficient, scale) = value.into_bigint_and_exponent();
            let (sign, magnitude) = coefficient.into_parts();
            let negative = match sign {
                Sign::Minus => true,
                Sign::NoSign => false,
                Sign::Plus => false,
            };
            let coefficient = BigInteger { negative, magnitude: magnitude.to_u32_digits() };
            Some(BigDecimal { coefficient, scale })
        },
        Err(_) => None,
    }
}

/// Formats a decimal: `bigdecimal`'s `Display` for the `BigDecimal` built
/// from the coefficient and scale. The contract claims only that the text is
/// the named display of the value; its notation is left unsaid.
#[verifier::external_body]
pub(crate) fn display_decimal(value: &BigDecimal) -> (text: String)
    ensures
        text@ == decimal_display(value@),
{
    let sign = match value.coefficient.negative {
        true => Sign::Minus,
        false => Sign::Plus,
    };
    let coefficient = BigInt::new(sign, value.coefficient.magnitude.clone());
    bigdecimal::BigDecimal::new(coefficient, value.scale).to_string()
}

impl BigDecimal {
    /// Builds `coefficient × 10^-scale`.
    pub fn new(coefficient: BigInteger, scale: i64) -> (value: BigDecimal)
        ensures
            value@ == (coefficient@, scale as int),
    {
        BigDecimal { coefficient, scale }
    }

    /// The coefficient.
    pub fn coefficient(&self) -> (coefficient: BigInteger)
        ensures
            coefficient@ == self@.0,
    {
        self.coefficient.clone_value()
    }

    /// The scale: the power of ten the coefficient is divided by.
    pub fn scale(&self) -> (scale: i64)
        ensures
            scale as int == self@.1,
    {
        self.scale
    }

    /// A copy of this value.
    pub fn clone_value(&self) -> (copy: BigDecimal)
        ensures
            copy@ == self@,
    {
        BigDecimal { coefficient: self.coefficient.clone_value(), scale: self.scale }
    }

    /// Formats the value as `bigdecimal` displays it.
    pub fn to_display_string(&self) -> (text: String)
        ensures
            text@ == decimal_display(self@),
    {
        display_decimal(self)
    }
}

/// The model of a parsed number.
pub enum NumberView {
    /// An integer.
    Integer(int),
    /// A decimal coefficient and scale.
    Decimal(int, int),
    /// Not a number.
    NaN,
    /// Positive infinity.
    PositiveInfinity,
    /// Negative infinity.
    NegativeInfinity,
}

/// A number parsed from normalized text before a target representation is
/// chosen: an exact integer or decimal, or a non-finite marker.
#[derive(Clone, Debug, PartialEq, Eq)]
pub enum ParsedNumber {
    /// Integer syntax.
    Integer(BigInteger),
    /// Decimal syntax other than a plain integer.
    Decimal(BigDecimal),
    /// A case-insensitive `nan`.
    NaN,
    /// A case-insensitive `inf`, `+inf`, `infinity` or `+infinity`.
    PositiveInfinity,
    /// A case-insensitive `-inf` or `-infinity`.
    NegativeInfinity,
}

impl View for ParsedNumber {
    type V = NumberView;

    open spec fn view(&self) -> NumberView {
        match self {
            ParsedNumber::Integer(v) => NumberView::Integer(v@),
            ParsedNumber::Decimal(d) => NumberView::Decimal(d@.0, d@.1),
            ParsedNumber::NaN => NumberView::NaN,
            ParsedNumber::PositiveInfinity => NumberView::PositiveInfinity,
            ParsedNumber::NegativeInfinity => NumberView::NegativeInfinity,
        }
    }
}

/// Text naming NaN, ignoring ASCII case.
pub open spec fn is_nan_name(t: Seq<char>) -> bool {
    eq_ignore_ascii_case(t, "nan"@)
}

/// Text naming positive infinity, ignoring ASCII case.
pub open spec fn is_positive_infinity_name(t: Seq<char>) -> bool {
    eq_ignore_ascii_case(t, "inf"@) || eq_ignore_ascii_case(t, "+inf"@) || eq_ignore_ascii_case(
        t,
        "infinity"@,
    ) || eq_ignore_ascii_case(t, "+infinity"@)
}

/// Text naming negative infinity, ignoring ASCII case.
pub open spec fn is_negative_infinity_name(t: Seq<char>) -> bool {
    eq_ignore_ascii_case(t, "-inf"@) || eq_ignore_ascii_case(t, "-infinity"@)
}

/// The integer that integer text denotes.
pub open spec fn integer_text_value(t: Seq<char>) -> int {
    if has_minus_sign(t) {
        -digits_value(strip_sign(t))
    } else {
        digits_value(strip_sign(t))
    }
}

/// What the decimal parser's outcome becomes: its value, or the numeric
/// syntax error of the target.
pub open spec fn decimal_parse_result(parsed: Option<(int, int)>, to: DataType) -> Result<
    (int, int),
    DataConversionError,
> {
    match parsed {
        Some(d) => Ok(d),
        None => Err(numeric_syntax_error(to)),
    }
}

/// What parsing normalized text as a number yields.
pub open spec fn number_text_result(t: Seq<char>, to: DataType) -> Result<
    NumberView,
    DataConversionError,
> {
    if is_nan_name(t) {
        Ok(NumberView::NaN)
    } else if is_positive_infinity_name(t) {
        Ok(NumberView::PositiveInfinity)
    } else if is_negative_infinity_name(t) {
        Ok(NumberView::NegativeInfinity)
    } else if is_integer_text(t) {
        Ok(NumberView::Integer(integer_text_value(t)))
    } else {
        match decimal_parse_result(parsed_decimal(t), to) {
            Ok(d) => Ok(NumberView::Decimal(d.0, d.1)),
            Err(e) => Err(e),
        }
    }
}

/// Maps the decimal parser's outcome to the conversion result: the parsed
/// value, or the numeric syntax error of `to`.
pub fn decimal_parse_outcome(parsed: Option<BigDecimal>, to: DataType) -> (result: Result<
    BigDecimal,
    DataConversionError,
>)
    ensures
        match parsed {
            Some(d) => result matches Ok(r) && r@ == d@,
            None => result == Err::<BigDecimal, DataConversionError>(numeric_syntax_error(to)),
        },
{
    match parsed {
        Some(value) => Ok(value),
        None => Err(invalid_numeric_syntax(to)),
    }
}

/// Parses normalized text as a number without choosing a target
/// representation first: NaN and the infinities by name, integer syntax as
/// an exact integer, anything else as a decimal.
pub fn parse_number(value: &str, to: DataType) -> (result: Result<ParsedNumber, DataConversionError>)
    ensures
        match number_text_result(value@, to) {
            Ok(v) => result matches Ok(n) && n@ == v,
            Err(e) => result == Err::<ParsedNumber, DataConversionError>(e),
        },
{
    let chars = chars_of(value);
    if chars_eq_ignore_ascii_case(&chars, &chars_of("nan")) {
        return Ok(ParsedNumber::NaN);
    }
    if chars_eq_ignore_ascii_case(&chars, &chars_of("inf")) || chars_eq_ignore_ascii_case(
        &chars,
        &chars_of("+inf"),
    ) || chars_eq_ignore_ascii_case(&chars, &chars_of("infinity")) || chars_eq_ignore_ascii_case(
        &chars,
        &chars_of("+infinity"),
    ) {
        return Ok(ParsedNumber::PositiveInfinity);
    }
    if chars_eq_ignore_ascii_case(&chars, &chars_of("-inf")) || chars_eq_ignore_ascii_case(
        &chars,
        &chars_of("-infinity"),
    ) {
        return Ok(ParsedNumber::NegativeInfinity);
    }
    if chars_are_integer_syntax(&chars) {
        let (negative, start) = split_sign(&chars);
        let digits = string_from_chars(&copy_range(&chars, start, chars.len()));
        assert(digits@ =~= strip_sign(chars@));
        let magnitude = magnitude_from_decimal(digits.as_str());
        return Ok(ParsedNumber::Integer(BigInteger::from_parts(negative, magnitude)));
    }
    match decimal_parse_outcome(parse_decimal(value), to) {
        Ok(decimal) => Ok(ParsedNumber::Decimal(decimal)),
        Err(error) => Err(error),
    }
}

/// What converting a decimal to an integer yields.
///
/// A non-positive scale multiplies the coefficient by a power of ten; the
/// product is out of range when that power exceeds `u32::MAX`, or, for a
/// fixed-width integer target, when it would have more than 39 digits. A
/// positive scale divides, truncating toward zero; exact mode rejects a
/// non-zero remainder.
pub open spec fn decimal_integer_result(
    value: (int, int),
    policy: NumericConversionPolicy,
    from: DataType,
    to: DataType,
) -> Result<int, DataConversionError> {
    let (c, s) = value;
    if c == 0 {
        Ok(0)
    } else if s <= 0 {
        if (to.spec_is_integer() && to != DataType::BigInteger && decimal_digits(abs(c)).len() + (
        -s) > 39) || -s > u32::MAX {
            Err(DataConversionError::InvalidValue { from, to, reason: DataConversionErrorKind::OutOfRange })
        } else {
            Ok(c * pow10((-s) as nat))
        }
    } else if policy == NumericConversionPolicy::Exact && abs(c) % pow10(s as nat) != 0 {
        Err(DataConversionError::InvalidValue { from, to, reason: DataConversionErrorKind::PrecisionLoss })
    } else {
        Ok(sign_value(c < 0, abs(c) / pow10(s as nat)))
    }
}

/// Decimal digits are fewer than the power of ten of their count.
proof fn lemma_digits_value_below_pow10(s: Seq<char>)
    requires
        crate::text::all_digits(s),
    ensures
        digits_value(s) < pow10(s.len()),
    decreases s.len(),
{
    if s.len() > 0 {
        lemma_digits_value_below_pow10(s.drop_last());
        let d = crate::text::digit_value(s.last());
        assert(0 <= d <= 9);
        let a = digits_value(s.drop_last());
        let p = pow10(s.drop_last().len());
        assert(a * 10 + d < p * 10) by (nonlinear_arith)
            requires
                a < p,
                0 <= d <= 9,
        ;
    }
}

/// Converts a decimal to an integer with exactness checks; `from` and `to`
/// are carried into the errors.
pub fn decimal_to_bigint(
    value: &BigDecimal,
    policy: NumericConversionPolicy,
    from: DataType,
    to: DataType,
) -> (result: Result<BigInteger, DataConversionError>)
    ensures
        match decimal_integer_result(value@, policy, from, to) {
            Ok(v) => result matches Ok(b) && b@ == v,
            Err(e) => result == Err::<BigInteger, DataConversionError>(e),
        },
{
    let coefficient = &value.coefficient;
    if coefficient.is_zero() {
        return Ok(BigInteger::zero());
    }
    let (negative, magnitude) = coefficient.to_parts();
    let ghost c = coefficient@;
    assert(limbs_value(magnitude@) == abs(c) && negative == (c < 0));
    let scale = value.scale;
    let digits = magnitude_digit_count(&magnitude);
    if scale <= 0 {
        let exponent: u64 = if scale == i64::MIN {
            0x8000_0000_0000_0000
        } else {
            (-scale) as u64
        };
        if (to.is_integer() && to != DataType::BigInteger && digits as u128 + exponent as u128 > 39)
            || exponent > 4294967295 {
            return Err(DataConversionError::invalid(from, to, DataConversionErrorKind::OutOfRange));
        }
        let product = magnitude_times_pow10(&magnitude, exponent);
        proof {
            let m = abs(c) as int;
            let p = pow10(exponent as nat) as int;
            if negative {
                assert(c * p == -(m * p)) by (nonlinear_arith)
                    requires
                        c == -m,
                ;
            }
        }
        return Ok(BigInteger::from_parts(negative, product));
    }
    let scale_digits: u64 = scale as u64;
    proof {
        crate::laws::lemma_decimal_digits_value(abs(c));
        lemma_digits_value_below_pow10(decimal_digits(abs(c)));
    }
    if scale_digits >= digits as u64 {
        proof {
            crate::numeric_text::lemma_pow10_monotone(digits as nat, scale_digits as nat);
            let m = abs(c);
            let p = pow10(scale_digits as nat);
            assert(m < p);
            assert(m % p == m) by (nonlinear_arith)
                requires
                    0 < m < p,
            ;
            assert(m / p == 0) by (nonlinear_arith)
                requires
                    0 < m < p,
            ;
        }
        if policy == NumericConversionPolicy::Exact {
            return Err(DataConversionError::invalid(from, to, DataConversionErrorKind::PrecisionLoss));
        }
        return Ok(BigInteger::zero());
    }
    let (quotient, remainder) = magnitude_div_pow10(&magnitude, scale_digits);
    if policy == NumericConversionPolicy::Exact && !BigInteger::from_parts(false, remainder).is_zero() {
        return Err(DataConversionError::invalid(from, to, DataConversionErrorKind::PrecisionLoss));
    }
    Ok(BigInteger::from_parts(negative, quotient))
}

} // verus!
