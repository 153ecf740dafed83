use qubit_datatype::big_decimal::{decimal_parse_outcome, decimal_to_bigint, parse_number, BigDecimal, ParsedNumber};
use qubit_datatype::big_integer::BigInteger;
use qubit_datatype::error::{DataConversionError, DataConversionErrorKind};
use qubit_datatype::exactness::{
    decimal_digits, exact_float_decimal, finite_float_parts, text_is_exact_float, explicit_infinity_is_negative, multiply_decimal_digits,
    unsigned_integer_is_exact, unsigned_integer_is_exact_f64,
};
use qubit_datatype::numeric_text::{
    is_integer_syntax, numeric_syntax, parse_text_bigint, parse_text_integer,
};
use qubit_datatype::policy::NumericConversionPolicy;
use qubit_datatype::DataType;

fn invalid(to: DataType, reason: DataConversionErrorKind) -> DataConversionError {
    DataConversionError::InvalidValue { from: DataType::String, to, reason }
}

fn big(value: i128) -> BigInteger {
    BigInteger::from_i128(value)
}

#[test]
fn parse_text_integer_reads_plain_integers() {
    let exact = NumericConversionPolicy::Exact;
    assert_eq!(parse_text_integer("42", exact, DataType::Int32), Ok((false, 42)));
    assert_eq!(parse_text_integer("-17", exact, DataType::Int32), Ok((true, 17)));
    assert_eq!(parse_text_integer("+8", exact, DataType::Int32), Ok((false, 8)));
    assert_eq!(parse_text_integer("-0", exact, DataType::Int32), Ok((false, 0)));
}

#[test]
fn parse_text_integer_applies_fractions_and_exponents() {
    let exact = NumericConversionPolicy::Exact;
    let lossy = NumericConversionPolicy::Lossy;
    assert_eq!(parse_text_integer("1.5e1", exact, DataType::Int64), Ok((false, 15)));
    assert_eq!(parse_text_integer("2E3", exact, DataType::Int64), Ok((false, 2000)));
    assert_eq!(parse_text_integer("1500e-3", lossy, DataType::Int64), Ok((false, 1)));
    assert_eq!(parse_text_integer("1.50", exact, DataType::Int64), Err(invalid(DataType::Int64, DataConversionErrorKind::PrecisionLoss)));
    assert_eq!(parse_text_integer("1.5", exact, DataType::Int64), Err(invalid(DataType::Int64, DataConversionErrorKind::PrecisionLoss)));
    assert_eq!(parse_text_integer("1.5", lossy, DataType::Int64), Ok((false, 1)));
    assert_eq!(parse_text_integer("-1.9", lossy, DataType::Int64), Ok((true, 1)));
    assert_eq!(parse_text_integer("-0.5", lossy, DataType::Int64), Ok((false, 0)));
    assert_eq!(parse_text_integer("3.000", exact, DataType::Int64), Ok((false, 3)));
}

#[test]
fn parse_text_integer_reports_each_error() {
    let exact = NumericConversionPolicy::Exact;
    let syntax = invalid(DataType::Int8, DataConversionErrorKind::InvalidSyntax { expected: "integer" });
    assert_eq!(parse_text_integer("", exact, DataType::Int8), Err(syntax));
    assert_eq!(parse_text_integer("1e", exact, DataType::Int8), Err(syntax));
    assert_eq!(parse_text_integer("abc", exact, DataType::Int8), Err(syntax));
    assert_eq!(parse_text_integer("1..2", exact, DataType::Int8), Err(syntax));
    assert_eq!(parse_text_integer("-", exact, DataType::Int8), Err(syntax));
    assert_eq!(parse_text_integer("NaN", exact, DataType::Int8), Err(invalid(DataType::Int8, DataConversionErrorKind::NonFinite)));
    assert_eq!(parse_text_integer("-Infinity", exact, DataType::Int8), Err(invalid(DataType::Int8, DataConversionErrorKind::NonFinite)));
    assert_eq!(parse_text_integer("1e40", exact, DataType::Int8), Err(invalid(DataType::Int8, DataConversionErrorKind::OutOfRange)));
    assert_eq!(
        parse_text_integer("340282366920938463463374607431768211456", exact, DataType::UInt128),
        Err(invalid(DataType::UInt128, DataConversionErrorKind::OutOfRange))
    );
    assert_eq!(
        parse_text_integer("340282366920938463463374607431768211455", exact, DataType::UInt128),
        Ok((false, u128::MAX))
    );
    assert_eq!(parse_text_integer("0e999999999999999999999", exact, DataType::Int8), Ok((false, 0)));
}

#[test]
fn integer_syntax_accepts_only_signed_digits() {
    assert!(is_integer_syntax("123"));
    assert!(is_integer_syntax("-123"));
    assert!(is_integer_syntax("+0"));
    assert!(!is_integer_syntax(""));
    assert!(!is_integer_syntax("+"));
    assert!(!is_integer_syntax("1.0"));
    assert!(!is_integer_syntax(" 1"));
    assert_eq!(numeric_syntax(DataType::BigDecimal), "decimal number with optional exponent");
    assert_eq!(numeric_syntax(DataType::Float64), "number");
    assert_eq!(numeric_syntax(DataType::Int16), "integer");
}

#[test]
fn parse_text_bigint_exceeds_fixed_width() {
    let exact = NumericConversionPolicy::Exact;
    let value = parse_text_bigint("123456789012345678901234567890123456789012", exact, DataType::BigInteger).unwrap();
    assert_eq!(value.to_decimal_string(), "123456789012345678901234567890123456789012");
    let negative = parse_text_bigint("-1.5e40", exact, DataType::BigInteger).unwrap();
    assert_eq!(negative.to_decimal_string(), "-15000000000000000000000000000000000000000");
    assert!(negative.is_negative());
    let zero = parse_text_bigint("-0.0", exact, DataType::BigInteger).unwrap();
    assert!(zero.is_zero());
    assert!(!zero.is_negative());
}

#[test]
fn parse_text_bigint_reports_errors() {
    let exact = NumericConversionPolicy::Exact;
    let lossy = NumericConversionPolicy::Lossy;
    assert_eq!(parse_text_bigint("2.5", exact, DataType::BigInteger), Err(invalid(DataType::BigInteger, DataConversionErrorKind::PrecisionLoss)));
    assert_eq!(parse_text_bigint("2.5", lossy, DataType::BigInteger).unwrap().to_decimal_string(), "2");
    assert_eq!(parse_text_bigint("inf", exact, DataType::BigInteger), Err(invalid(DataType::BigInteger, DataConversionErrorKind::NonFinite)));
    assert_eq!(
        parse_text_bigint("x", exact, DataType::BigInteger),
        Err(invalid(DataType::BigInteger, DataConversionErrorKind::InvalidSyntax { expected: "integer" }))
    );
    assert_eq!(parse_text_bigint("1e1000000", exact, DataType::BigInteger), Err(invalid(DataType::BigInteger, DataConversionErrorKind::OutOfRange)));
    assert_eq!(parse_text_bigint("0e1000000000", exact, DataType::BigInteger).unwrap().to_decimal_string(), "0");
    let large = parse_text_bigint("1e9999", exact, DataType::BigInteger).unwrap();
    assert_eq!(large.to_decimal_string().len(), 10_000);
}

#[test]
fn big_integer_parts_and_magnitudes() {
    let value = BigInteger::from_sign_magnitude(false, u128::MAX);
    assert_eq!(value.magnitude_u128(), Some(u128::MAX));
    assert_eq!(value.to_parts(), (false, vec![u32::MAX; 4]));
    assert_eq!(value.to_decimal_string(), "340282366920938463463374607431768211455");
    let trimmed = BigInteger::from_parts(true, vec![5, 0, 0]);
    assert_eq!(trimmed.to_parts(), (true, vec![5]));
    assert_eq!(trimmed.to_decimal_string(), "-5");
    let zero = BigInteger::from_parts(true, vec![0, 0]);
    assert_eq!(zero, BigInteger::zero());
    assert_eq!(zero.to_decimal_string(), "0");
    let wide = BigInteger::from_parts(false, vec![0, 0, 0, 0, 1]);
    assert_eq!(wide.magnitude_u128(), None);
    assert_eq!(wide.to_decimal_string(), "340282366920938463463374607431768211456");
    assert_eq!(big(i128::MIN).to_decimal_string(), "-170141183460469231731687303715884105728");
    assert_eq!(big(-1).magnitude_u128(), Some(1));
}

#[test]
fn parse_number_distinguishes_kinds() {
    assert_eq!(parse_number("NaN", DataType::BigDecimal), Ok(ParsedNumber::NaN));
    assert_eq!(parse_number("+Infinity", DataType::BigDecimal), Ok(ParsedNumber::PositiveInfinity));
    assert_eq!(parse_number("-INF", DataType::BigDecimal), Ok(ParsedNumber::NegativeInfinity));
    assert_eq!(parse_number("-12", DataType::BigDecimal), Ok(ParsedNumber::Integer(big(-12))));
    match parse_number("1.50", DataType::BigDecimal) {
        Ok(ParsedNumber::Decimal(d)) => {
            assert_eq!(d.coefficient(), big(150));
            assert_eq!(d.scale(), 2);
        }
        other => panic!("unexpected {other:?}"),
    }
    match parse_number("1.23E+3", DataType::BigDecimal) {
        Ok(ParsedNumber::Decimal(d)) => {
            assert_eq!(d.coefficient(), big(123));
            assert_eq!(d.scale(), -1);
        }
        other => panic!("unexpected {other:?}"),
    }
    assert_eq!(
        parse_number("1.2.3", DataType::BigDecimal),
        Err(invalid(DataType::BigDecimal, DataConversionErrorKind::InvalidSyntax { expected: "decimal number with optional exponent" }))
    );
}

#[test]
fn decimal_parse_outcome_maps_absence_to_syntax_error() {
    let value = BigDecimal::new(big(7), 1);
    assert_eq!(decimal_parse_outcome(Some(value.clone()), DataType::BigDecimal), Ok(value));
    assert_eq!(
        decimal_parse_outcome(None, DataType::Int8),
        Err(invalid(DataType::Int8, DataConversionErrorKind::InvalidSyntax { expected: "integer" }))
    );
}

#[test]
fn decimal_to_bigint_scales_and_truncates() {
    let exact = NumericConversionPolicy::Exact;
    let lossy = NumericConversionPolicy::Lossy;
    let from = DataType::BigDecimal;
    let to = DataType::BigInteger;
    let scaled = BigDecimal::new(big(-12), -3);
    assert_eq!(decimal_to_bigint(&scaled, exact, from, to), Ok(big(-12000)));
    let whole = BigDecimal::new(big(1500), 2);
    assert_eq!(decimal_to_bigint(&whole, exact, from, to), Ok(big(15)));
    let fractional = BigDecimal::new(big(-1599), 2);
    assert_eq!(decimal_to_bigint(&fractional, lossy, from, to), Ok(big(-15)));
    assert_eq!(
        decimal_to_bigint(&fractional, exact, from, to),
        Err(DataConversionError::InvalidValue { from, to, reason: DataConversionErrorKind::PrecisionLoss })
    );
    let tiny = BigDecimal::new(big(5), 3);
    assert_eq!(decimal_to_bigint(&tiny, lossy, from, to), Ok(BigInteger::zero()));
    assert_eq!(
        decimal_to_bigint(&tiny, exact, from, to),
        Err(DataConversionError::InvalidValue { from, to, reason: DataConversionErrorKind::PrecisionLoss })
    );
    let zero = BigDecimal::new(BigInteger::zero(), -100);
    assert_eq!(decimal_to_bigint(&zero, exact, from, DataType::Int8), Ok(BigInteger::zero()));
    let wide = BigDecimal::new(big(1), -39);
    assert_eq!(
        decimal_to_bigint(&wide, exact, from, DataType::Int64),
        Err(DataConversionError::InvalidValue { from, to: DataType::Int64, reason: DataConversionErrorKind::OutOfRange })
    );
    assert_eq!(decimal_to_bigint(&wide, exact, from, to).unwrap().to_decimal_string().len(), 40);
    let huge_exponent = BigDecimal::new(big(1), -5_000_000_000);
    assert_eq!(
        decimal_to_bigint(&huge_exponent, exact, from, to),
        Err(DataConversionError::InvalidValue { from, to, reason: DataConversionErrorKind::OutOfRange })
    );
}

#[test]
fn exactness_of_binary_significands() {
    assert!(unsigned_integer_is_exact(0, 1));
    assert!(unsigned_integer_is_exact(255, 8));
    assert!(!unsigned_integer_is_exact(257, 8));
    assert!(unsigned_integer_is_exact(256 * 255, 8));
    assert!(unsigned_integer_is_exact_f64(1u128 << 100));
    assert!(unsigned_integer_is_exact_f64((1u128 << 53) - 1));
    assert!(!unsigned_integer_is_exact_f64((1u128 << 53) + 1));
    assert!(unsigned_integer_is_exact(16_777_216, 24));
    assert!(!unsigned_integer_is_exact(16_777_217, 24));
    assert!(unsigned_integer_is_exact(u128::MAX, 128));
    assert!(!unsigned_integer_is_exact(u128::MAX, 127));
}

#[test]
fn little_endian_decimal_digits() {
    assert_eq!(decimal_digits(0), Vec::<u8>::new());
    assert_eq!(decimal_digits(1203), vec![3, 0, 2, 1]);
    let mut digits = decimal_digits(999);
    multiply_decimal_digits(&mut digits, 7);
    assert_eq!(digits, vec![3, 9, 9, 6]);
    let mut digits = vec![5];
    multiply_decimal_digits(&mut digits, 255);
    assert_eq!(digits, vec![5, 7, 2, 1]);
    let mut digits = vec![1, 2];
    multiply_decimal_digits(&mut digits, 0);
    assert_eq!(digits, vec![0, 0]);
}

#[test]
fn explicit_infinity_names() {
    assert_eq!(explicit_infinity_is_negative("INF"), Some(false));
    assert_eq!(explicit_infinity_is_negative("+infinity"), Some(false));
    assert_eq!(explicit_infinity_is_negative("-Inf"), Some(true));
    assert_eq!(explicit_infinity_is_negative("-infinity"), Some(true));
    assert_eq!(explicit_infinity_is_negative("nan"), None);
    assert_eq!(explicit_infinity_is_negative("infinite"), None);
}

#[test]
fn float_bits_split_into_significand_and_exponent() {
    assert_eq!(finite_float_parts(0.1f64.to_bits()), (0x1999_9999_9999_9A, -56));
    assert_eq!(finite_float_parts(1.5f64.to_bits()), (0x18_0000_0000_0000, -52));
    assert_eq!(finite_float_parts(f64::MIN_POSITIVE.to_bits() / 2), (1u128 << 51, -1074));
    assert_eq!(finite_float_parts(0f64.to_bits()), (0, -1074));
    assert_eq!(finite_float_parts(1024f64.to_bits()), (1u128 << 52, -42));
}

#[test]
fn exact_float_expansions() {
    let (significand, exponent) = finite_float_parts(1.5f64.to_bits());
    assert_eq!(exact_float_decimal(significand, exponent), (vec![5, 1], 0, 1));
    let (significand, exponent) = finite_float_parts(1024f64.to_bits());
    assert_eq!(exact_float_decimal(significand, exponent), (vec![4, 2, 0, 1], 0, 0));
    assert_eq!(exact_float_decimal(25, 2), (vec![0, 0, 1], 2, -2));
    let (digits, zeros, scale) = exact_float_decimal(1, -3);
    assert_eq!((digits, zeros, scale), (vec![5, 2, 1], 0, 3));
}

#[test]
fn text_exactness_against_float_expansions() {
    let (significand, exponent) = finite_float_parts(1.5f64.to_bits());
    let (digits, zeros, scale) = exact_float_decimal(significand, exponent);
    assert!(text_is_exact_float("1.5", false, &digits, zeros, scale));
    assert!(text_is_exact_float("-1.50", false, &digits, zeros, scale));
    assert!(text_is_exact_float("15e-1", false, &digits, zeros, scale));
    assert!(text_is_exact_float("0.015E+2", false, &digits, zeros, scale));
    assert!(!text_is_exact_float("1.6", false, &digits, zeros, scale));
    assert!(!text_is_exact_float("1.5e99999999999999999999", false, &digits, zeros, scale));
    assert!(!text_is_exact_float("1.5x", false, &digits, zeros, scale));
    let (significand, exponent) = finite_float_parts(0.1f64.to_bits());
    let (digits, zeros, scale) = exact_float_decimal(significand, exponent);
    assert!(!text_is_exact_float("0.1", false, &digits, zeros, scale));
    assert!(text_is_exact_float(
        "0.1000000000000000055511151231257827021181583404541015625",
        false,
        &digits,
        zeros,
        scale
    ));
    assert!(text_is_exact_float("0.000", true, &Vec::new(), 0, 0));
    assert!(!text_is_exact_float("0.000", false, &Vec::new(), 0, 0));
    assert!(!text_is_exact_float("0.001", true, &Vec::new(), 0, 0));
}
