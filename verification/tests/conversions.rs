use qubit_datatype::big_decimal::BigDecimal;
use qubit_datatype::big_integer::BigInteger;
use qubit_datatype::capabilities::ConversionCapabilities;
use qubit_datatype::converter::{
    format_duration, integer_to_bool, integer_to_duration, parse_duration, string_to_bool,
    DataConverter,
};
use qubit_datatype::duration::{Duration, DurationUnit};
use qubit_datatype::error::{DataConversionError, DataConversionErrorKind};
use qubit_datatype::options::DataConversionOptions;
use qubit_datatype::policy::{BlankStringPolicy, BooleanNumericPolicy};
use qubit_datatype::temporal::{Date, DateTime, Instant, Time};
use qubit_datatype::DataType;

fn text(value: &str) -> DataConverter {
    DataConverter::String(value.to_string())
}

fn invalid(from: DataType, to: DataType, reason: DataConversionErrorKind) -> DataConversionError {
    DataConversionError::InvalidValue { from, to, reason }
}

#[test]
fn readme_deployment_settings() {
    let policy = DataConversionOptions::env_friendly();
    let port = text("8080").to_with::<u16>(&policy);
    let admin = text(" yes ").to_with::<bool>(&policy);
    let retry = text("1500ms").to_with::<Duration>(&policy);
    assert_eq!(port, Ok(8080));
    assert_eq!(admin, Ok(true));
    assert_eq!(retry, Ok(Duration::from_millis(1500)));
}

#[test]
fn strict_policy_preserves_whitespace_and_rejects_truncation() {
    let strict = DataConversionOptions::strict();
    assert_eq!(
        text(" 8").to_with::<u16>(&strict),
        Err(invalid(DataType::String, DataType::UInt16, DataConversionErrorKind::InvalidSyntax { expected: "integer" }))
    );
    assert_eq!(
        text("1.5").to_with::<i32>(&strict),
        Err(invalid(DataType::String, DataType::Int32, DataConversionErrorKind::PrecisionLoss))
    );
    assert_eq!(text("1.5").to_with::<i32>(&DataConversionOptions::lossy()), Ok(1));
    assert_eq!(
        text("yes").to_with::<bool>(&strict),
        Err(invalid(DataType::String, DataType::Bool, DataConversionErrorKind::InvalidBoolean))
    );
}

#[test]
fn integers_convert_within_range() {
    let strict = DataConversionOptions::strict();
    assert_eq!(DataConverter::Int32(-5).to_with::<i8>(&strict), Ok(-5));
    assert_eq!(
        DataConverter::Int32(300).to_with::<u8>(&strict),
        Err(invalid(DataType::Int32, DataType::UInt8, DataConversionErrorKind::OutOfRange))
    );
    assert_eq!(
        DataConverter::Int8(-1).to_with::<u64>(&strict),
        Err(invalid(DataType::Int8, DataType::UInt64, DataConversionErrorKind::OutOfRange))
    );
    assert_eq!(DataConverter::Bool(true).to_with::<u8>(&strict), Ok(1));
    assert_eq!(DataConverter::Char('A').to_with::<u32>(&strict), Ok(65));
    assert_eq!(DataConverter::Int128(i128::MIN).to_with::<i128>(&strict), Ok(i128::MIN));
    assert_eq!(DataConverter::UInt128(u128::MAX).to_with::<u128>(&strict), Ok(u128::MAX));
    assert_eq!(
        DataConverter::Unset(DataType::Int16).to_with::<i64>(&strict),
        Err(DataConversionError::Missing { from: DataType::Int16, to: DataType::Int64 })
    );
    assert_eq!(
        DataConverter::Char('x').to_with::<Duration>(&strict),
        Err(DataConversionError::Unsupported { from: DataType::Char, to: DataType::Duration })
    );
}

#[test]
fn durations_convert_to_units() {
    let strict = DataConversionOptions::strict();
    let value = DataConverter::Duration(Duration::from_millis(1500));
    assert_eq!(value.to_with::<u64>(&strict), Ok(1500));
    let mut seconds = DataConversionOptions::strict();
    seconds.duration = seconds.duration.with_unit(DurationUnit::Seconds);
    assert_eq!(
        value.to_with::<u64>(&seconds),
        Err(invalid(DataType::Duration, DataType::UInt64, DataConversionErrorKind::PrecisionLoss))
    );
    let mut lossy_seconds = DataConversionOptions::lossy();
    lossy_seconds.duration = lossy_seconds.duration.with_unit(DurationUnit::Seconds);
    assert_eq!(value.to_with::<u64>(&lossy_seconds), Ok(2));
    assert_eq!(value.to_with::<String>(&strict), Ok("1500ms".to_string()));
    assert_eq!(format_duration(Duration::from_secs(3), &seconds), Ok("3s".to_string()));
    assert_eq!(DataConverter::Int32(2).to_with::<Duration>(&seconds), Ok(Duration::from_secs(2)));
    assert_eq!(
        integer_to_duration(true, 1, DataType::Int8, DurationUnit::Seconds),
        Err(invalid(DataType::Int8, DataType::Duration, DataConversionErrorKind::NegativeDuration))
    );
    assert_eq!(
        integer_to_duration(false, u128::MAX, DataType::UInt128, DurationUnit::Days),
        Err(invalid(DataType::UInt128, DataType::Duration, DataConversionErrorKind::OutOfRange))
    );
}

#[test]
fn duration_text_parses_units() {
    let strict = DataConversionOptions::strict();
    assert_eq!(parse_duration("250", &strict), Ok(Duration::from_millis(250)));
    assert_eq!(parse_duration("2h", &strict), Ok(Duration::from_secs(7200)));
    assert_eq!(parse_duration("5us", &strict), Ok(Duration::from_micros(5)));
    assert_eq!(
        parse_duration("5 weeks", &strict),
        Err(invalid(DataType::String, DataType::Duration, DataConversionErrorKind::InvalidSyntax { expected: "[0-9]+(ns|us|µs|μs|ms|s|m|h|d)?" }))
    );
    assert_eq!(
        parse_duration("5w", &strict),
        Err(invalid(DataType::String, DataType::Duration, DataConversionErrorKind::UnsupportedDurationUnit))
    );
    assert_eq!(
        parse_duration("99999999999999999999s", &strict),
        Err(invalid(DataType::String, DataType::Duration, DataConversionErrorKind::OutOfRange))
    );
}

#[test]
fn booleans_follow_literals_and_numeric_policy() {
    let strict = DataConversionOptions::strict();
    assert_eq!(string_to_bool("TRUE", &strict), Ok(true));
    assert_eq!(string_to_bool("0", &strict), Ok(false));
    assert_eq!(
        string_to_bool("2", &strict),
        Err(invalid(DataType::String, DataType::Bool, DataConversionErrorKind::InvalidBoolean))
    );
    assert_eq!(integer_to_bool(false, false, BooleanNumericPolicy::NonZero, DataType::Int8), Ok(true));
    assert_eq!(
        integer_to_bool(true, false, BooleanNumericPolicy::Reject, DataType::Int8),
        Err(invalid(DataType::Int8, DataType::Bool, DataConversionErrorKind::InvalidBoolean))
    );
    assert_eq!(DataConverter::UInt8(1).to_with::<bool>(&strict), Ok(true));
}

#[test]
fn blank_strings_follow_policy() {
    let mut options = DataConversionOptions::strict();
    options.trim_strings = true;
    options.blank_string_policy = BlankStringPolicy::TreatAsMissing;
    assert_eq!(
        text("   ").to_with::<i32>(&options),
        Err(DataConversionError::Missing { from: DataType::String, to: DataType::Int32 })
    );
    options.blank_string_policy = BlankStringPolicy::Reject;
    assert_eq!(
        text("\t").to_with::<i32>(&options),
        Err(invalid(DataType::String, DataType::Int32, DataConversionErrorKind::BlankRejected))
    );
    options.blank_string_policy = BlankStringPolicy::Preserve;
    assert_eq!(text("  ").to_with::<String>(&options), Ok(String::new()));
}

#[test]
fn characters_and_strings() {
    let strict = DataConversionOptions::strict();
    assert_eq!(text("é").to_with::<char>(&strict), Ok('é'));
    assert_eq!(
        text("ab").to_with::<char>(&strict),
        Err(invalid(DataType::String, DataType::Char, DataConversionErrorKind::InvalidSyntax { expected: "one Unicode scalar value" }))
    );
    assert_eq!(DataConverter::Int64(-42).to_with::<String>(&strict), Ok("-42".to_string()));
    assert_eq!(DataConverter::Bool(false).to_with::<String>(&strict), Ok("false".to_string()));
    assert_eq!(DataConverter::Char('z').to_with::<String>(&strict), Ok("z".to_string()));
}

#[test]
fn big_integers_convert_both_ways() {
    let strict = DataConversionOptions::strict();
    let big = text("-12345678901234567890123456789012345678901234567890").to_with::<BigInteger>(&strict).unwrap();
    assert_eq!(big.to_decimal_string(), "-12345678901234567890123456789012345678901234567890");
    assert_eq!(
        DataConverter::BigInteger(big.clone()).to_with::<i128>(&strict),
        Err(invalid(DataType::BigInteger, DataType::Int128, DataConversionErrorKind::OutOfRange))
    );
    assert_eq!(
        DataConverter::BigInteger(big.clone()).to_with::<String>(&strict),
        Ok("-12345678901234567890123456789012345678901234567890".to_string())
    );
    assert_eq!(
        DataConverter::BigInteger(big).to_with::<Duration>(&strict),
        Err(invalid(DataType::BigInteger, DataType::Duration, DataConversionErrorKind::NegativeDuration))
    );
    let small = BigInteger::from_i128(-7);
    assert_eq!(DataConverter::BigInteger(small.clone()).to_with::<i8>(&strict), Ok(-7));
    assert_eq!(DataConverter::Int16(-7).to_with::<BigInteger>(&strict), Ok(small));
    let one = BigInteger::from_i128(1);
    assert_eq!(DataConverter::BigInteger(one).to_with::<bool>(&strict), Ok(true));
    let limit = BigInteger::from_sign_magnitude(true, 1u128 << 127);
    assert_eq!(DataConverter::BigInteger(limit).to_with::<i128>(&strict), Ok(i128::MIN));
    let beyond = BigInteger::from_sign_magnitude(true, (1u128 << 127) + 1);
    assert_eq!(
        DataConverter::BigInteger(beyond).to_with::<u128>(&strict),
        Err(invalid(DataType::BigInteger, DataType::UInt128, DataConversionErrorKind::OutOfRange))
    );
    let wide = BigInteger::from_parts(false, vec![0, 0, 0, 0, 1]);
    assert_eq!(
        DataConverter::BigInteger(wide).to_with::<Duration>(&strict),
        Err(invalid(DataType::BigInteger, DataType::Duration, DataConversionErrorKind::OutOfRange))
    );
    let seconds = DataConverter::Duration(Duration::from_secs(2)).to_with::<BigInteger>(&strict);
    assert_eq!(seconds, Ok(BigInteger::from_i128(2000)));
}

#[test]
fn big_decimals_convert_both_ways() {
    let strict = DataConversionOptions::strict();
    let lossy = DataConversionOptions::lossy();
    let decimal = text("12.50").to_with::<BigDecimal>(&strict).unwrap();
    assert_eq!(decimal, BigDecimal::new(BigInteger::from_i128(1250), 2));
    assert_eq!(decimal.to_display_string(), "12.50");
    assert_eq!(
        DataConverter::BigDecimal(decimal.clone()).to_with::<i32>(&strict),
        Err(invalid(DataType::BigDecimal, DataType::Int32, DataConversionErrorKind::PrecisionLoss))
    );
    assert_eq!(DataConverter::BigDecimal(decimal.clone()).to_with::<i32>(&lossy), Ok(12));
    assert_eq!(DataConverter::BigDecimal(decimal.clone()).to_with::<String>(&strict), Ok("12.50".to_string()));
    assert_eq!(
        DataConverter::BigDecimal(decimal).to_with::<bool>(&strict),
        Err(DataConversionError::Unsupported { from: DataType::BigDecimal, to: DataType::Bool })
    );
    assert_eq!(text("42").to_with::<BigDecimal>(&strict), Ok(BigDecimal::new(BigInteger::from_i128(42), 0)));
    assert_eq!(DataConverter::UInt8(9).to_with::<BigDecimal>(&strict), Ok(BigDecimal::new(BigInteger::from_i128(9), 0)));
    assert_eq!(
        text("nan").to_with::<BigDecimal>(&strict),
        Err(invalid(DataType::String, DataType::BigDecimal, DataConversionErrorKind::NonFinite))
    );
    assert_eq!(
        DataConverter::Duration(Duration::from_secs(1)).to_with::<BigDecimal>(&strict),
        Err(DataConversionError::Unsupported { from: DataType::Duration, to: DataType::BigDecimal })
    );
}

#[test]
fn urls_parse_and_format() {
    let strict = DataConversionOptions::strict();
    let url = text("https://example.com/a?b=c").to_with::<qubit_datatype::url_value::Url>(&strict).unwrap();
    assert_eq!(url.as_str(), "https://example.com/a?b=c");
    let normalized = text("HTTP://Example.COM").to_with::<qubit_datatype::url_value::Url>(&strict).unwrap();
    assert_eq!(normalized.as_str(), "http://example.com/");
    assert_eq!(DataConverter::Url(normalized).to_with::<String>(&strict), Ok("http://example.com/".to_string()));
    assert_eq!(
        text("not a url").to_with::<qubit_datatype::url_value::Url>(&strict),
        Err(invalid(DataType::String, DataType::Url, DataConversionErrorKind::InvalidSyntax { expected: "absolute URL" }))
    );
    assert_eq!(
        DataConverter::Int8(1).to_with::<qubit_datatype::url_value::Url>(&strict),
        Err(DataConversionError::Unsupported { from: DataType::Int8, to: DataType::Url })
    );
}

#[test]
fn temporal_values_parse_and_format() {
    let strict = DataConversionOptions::strict();
    let date = text("2024-02-29").to_with::<Date>(&strict).unwrap();
    assert_eq!((date.year(), date.month(), date.day()), (2024, 2, 29));
    assert_eq!(DataConverter::Date(date).to_with::<String>(&strict), Ok("2024-02-29".to_string()));
    assert_eq!(
        text("2023-02-29").to_with::<Date>(&strict),
        Err(invalid(DataType::String, DataType::Date, DataConversionErrorKind::InvalidSyntax { expected: "YYYY-MM-DD" }))
    );
    assert_eq!(
        text("2024-2-29").to_with::<Date>(&strict),
        Err(invalid(DataType::String, DataType::Date, DataConversionErrorKind::InvalidSyntax { expected: "YYYY-MM-DD" }))
    );
    let time = text("08:30:05.250").to_with::<Time>(&strict).unwrap();
    assert_eq!(time.to_fields(), (8, 30, 5, 250_000_000));
    assert_eq!(DataConverter::Time(time).to_with::<String>(&strict), Ok("08:30:05.250".to_string()));
    assert_eq!(
        text("08:30:05.").to_with::<Time>(&strict),
        Err(invalid(DataType::String, DataType::Time, DataConversionErrorKind::InvalidSyntax { expected: "HH:MM:SS[.fraction]" }))
    );
    let moment = text("2024-01-02T03:04:05").to_with::<DateTime>(&strict).unwrap();
    assert_eq!(moment.date(), Date::from_ymd(2024, 1, 2).unwrap());
    assert_eq!(moment.time(), Time::from_hms_nano(3, 4, 5, 0).unwrap());
    assert_eq!(DataConverter::DateTime(moment).to_with::<String>(&strict), Ok("2024-01-02T03:04:05".to_string()));
    let instant = text("1970-01-01T01:00:00+01:00").to_with::<Instant>(&strict).unwrap();
    assert_eq!(instant.to_fields(), (0, 0));
    assert_eq!(DataConverter::Instant(instant).to_with::<String>(&strict), Ok("1970-01-01T00:00:00+00:00".to_string()));
    assert_eq!(
        text("1970-01-01").to_with::<Instant>(&strict),
        Err(invalid(DataType::String, DataType::Instant, DataConversionErrorKind::InvalidSyntax { expected: "RFC 3339 timestamp with offset" }))
    );
    let ancient = Date::from_ymd(-1, 1, 1).unwrap();
    assert_eq!(
        DataConverter::Date(ancient).to_with::<String>(&strict),
        Err(invalid(DataType::Date, DataType::String, DataConversionErrorKind::OutOfRange))
    );
    let far = Instant::from_timestamp(253_402_300_800, 0).unwrap();
    assert_eq!(
        DataConverter::Instant(far).to_with::<String>(&strict),
        Err(invalid(DataType::Instant, DataType::String, DataConversionErrorKind::OutOfRange))
    );
    assert!(Date::from_ymd(2023, 2, 29).is_none());
    assert_eq!(
        DataConverter::Date(Date::from_ymd(2020, 1, 1).unwrap()).to_with::<i32>(&strict),
        Err(DataConversionError::Unsupported { from: DataType::Date, to: DataType::Int32 })
    );
}

#[test]
fn capabilities_describe_paths() {
    let capabilities = ConversionCapabilities::current();
    assert!(capabilities.is_available(DataType::BigDecimal));
    assert!(capabilities.is_available(DataType::Float64));
    assert!(capabilities.is_available(DataType::StringMap));
    assert!(capabilities.is_available(DataType::Json));
    assert!(capabilities.supports(DataType::String, DataType::Int32));
    assert!(!capabilities.supports(DataType::StringMap, DataType::Bool));
    assert!(capabilities.supports(DataType::StringMap, DataType::Json));
    assert!(capabilities.supports(DataType::Float64, DataType::BigDecimal));
    assert!(!capabilities.supports(DataType::Float32, DataType::Duration));
    assert!(!capabilities.supports(DataType::Float64, DataType::Bool));
    assert!(capabilities.supports(DataType::String, DataType::Date));
    assert!(!capabilities.supports(DataType::Date, DataType::Time));
    assert!(capabilities.supports(DataType::BigDecimal, DataType::Int8));
    assert!(!capabilities.supports(DataType::Duration, DataType::BigDecimal));
    assert_eq!(
        capabilities.supported_targets(DataType::Url),
        vec![DataType::String, DataType::Url]
    );
    assert_eq!(
        capabilities.supported_targets(DataType::StringMap),
        vec![DataType::String, DataType::StringMap, DataType::Json]
    );
    assert_eq!(
        capabilities.supported_targets(DataType::Char),
        vec![
            DataType::Char, DataType::Int8, DataType::Int16, DataType::Int32,
            DataType::Int64, DataType::Int128, DataType::UInt8, DataType::UInt16, DataType::UInt32,
            DataType::UInt64, DataType::UInt128, DataType::Float32, DataType::Float64,
            DataType::BigInteger, DataType::BigDecimal, DataType::String,
        ]
    );
}

#[test]
fn sources_wrap_their_values() {
    let strict = DataConversionOptions::strict();
    assert_eq!(DataConverter::from(7u8), DataConverter::UInt8(7));
    assert_eq!(DataConverter::from(-7i128), DataConverter::Int128(-7));
    assert_eq!(DataConverter::from('q').data_type(), DataType::Char);
    assert_eq!(DataConverter::from("8080".to_string()).to_with::<u16>(&strict), Ok(8080));
    assert_eq!(DataConverter::from(Duration::from_secs(1)).to_with::<u64>(&strict), Ok(1000));
    assert_eq!(DataConverter::from(BigInteger::zero()).data_type(), DataType::BigInteger);
}
