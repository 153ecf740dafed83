use qubit_datatype::big_decimal::{decimal_to_bigint, BigDecimal};
use qubit_datatype::big_integer::BigInteger;
use qubit_datatype::capabilities::ConversionCapabilities;
use qubit_datatype::converter::DataConverter;
use qubit_datatype::duration::{Duration, DurationUnit};
use qubit_datatype::conversion_string_writer::ConversionStringWriter;
use qubit_datatype::error::{DataConversionError, DataConversionErrorKind};
use qubit_datatype::exactness::{
    exact_float_decimal, finite_float_parts, text_is_exact_float, text_is_exact_for_float_bits,
    unsigned_integer_is_exact,
};
use qubit_datatype::string_map::sorted_string_map_entries;
use qubit_datatype::options::DataConversionOptions;
use qubit_datatype::policy::NumericConversionPolicy;
use qubit_datatype::temporal::{Date, DateTime, Instant, Time};
use qubit_datatype::url_value::Url;
use qubit_datatype::DataType;

fn is_unsupported<T>(result: Result<T, DataConversionError>) -> bool {
    matches!(result, Err(DataConversionError::Unsupported { .. }))
}

fn samples() -> Vec<DataConverter> {
    let options = DataConversionOptions::strict();
    vec![
        DataConverter::Bool(true),
        DataConverter::Char('7'),
        DataConverter::Int8(-3),
        DataConverter::UInt128(9),
        DataConverter::String("12".to_string()),
        DataConverter::Duration(Duration::from_secs(1)),
        DataConverter::BigInteger(BigInteger::from_i128(5)),
        DataConverter::BigDecimal(BigDecimal::new(BigInteger::from_i128(25), 1)),
        DataConverter::Url(DataConverter::String("https://a.example/".to_string()).to_url(&options).unwrap()),
        DataConverter::Date(Date::from_ymd(2020, 5, 17).unwrap()),
        DataConverter::Time(Time::from_hms_nano(1, 2, 3, 4).unwrap()),
        DataConverter::DateTime(DateTime::new(
            Date::from_ymd(2020, 5, 17).unwrap(),
            Time::from_hms_nano(1, 2, 3, 4).unwrap(),
        )),
        DataConverter::Instant(Instant::from_timestamp(1, 0).unwrap()),
    ]
}

#[test]
fn unsupported_errors_match_capabilities() {
    let options = DataConversionOptions::strict();
    let capabilities = ConversionCapabilities::current();
    for source in samples() {
        let from = source.data_type();
        let checks = [
            (DataType::Bool, is_unsupported(source.to_with::<bool>(&options))),
            (DataType::Char, is_unsupported(source.to_with::<char>(&options))),
            (DataType::String, is_unsupported(source.to_with::<String>(&options))),
            (DataType::Duration, is_unsupported(source.to_with::<Duration>(&options))),
            (DataType::Int32, is_unsupported(source.to_with::<i32>(&options))),
            (DataType::UInt8, is_unsupported(source.to_with::<u8>(&options))),
            (DataType::BigInteger, is_unsupported(source.to_with::<BigInteger>(&options))),
            (DataType::BigDecimal, is_unsupported(source.to_with::<BigDecimal>(&options))),
            (DataType::Url, is_unsupported(source.to_with::<Url>(&options))),
            (DataType::Date, is_unsupported(source.to_with::<Date>(&options))),
            (DataType::Time, is_unsupported(source.to_with::<Time>(&options))),
            (DataType::DateTime, is_unsupported(source.to_with::<DateTime>(&options))),
            (DataType::Instant, is_unsupported(source.to_with::<Instant>(&options))),
        ];
        for (to, unsupported) in checks {
            assert_eq!(unsupported, !capabilities.supports(from, to), "{from:?} -> {to:?}");
        }
    }
}

#[test]
fn unset_sources_are_missing_for_every_target() {
    let options = DataConversionOptions::strict();
    let source = DataConverter::Unset(DataType::Url);
    assert_eq!(source.to_with::<bool>(&options), Err(DataConversionError::missing(DataType::Url, DataType::Bool)));
    assert_eq!(source.to_with::<String>(&options), Err(DataConversionError::missing(DataType::Url, DataType::String)));
    assert_eq!(source.to_with::<u16>(&options), Err(DataConversionError::missing(DataType::Url, DataType::UInt16)));
    assert_eq!(source.to_with::<Date>(&options), Err(DataConversionError::missing(DataType::Url, DataType::Date)));
}

#[test]
fn integer_text_round_trip() {
    let options = DataConversionOptions::strict();
    for value in [i64::MIN, -1, 0, 7, i64::MAX] {
        let text = DataConverter::Int64(value).to_with::<String>(&options).unwrap();
        assert_eq!(DataConverter::String(text).to_with::<i64>(&options), Ok(value));
    }
    let text = DataConverter::UInt128(u128::MAX).to_with::<String>(&options).unwrap();
    assert_eq!(DataConverter::String(text).to_with::<u128>(&options), Ok(u128::MAX));
}

#[test]
fn big_integer_text_round_trip() {
    let options = DataConversionOptions::lossy();
    let value = BigInteger::from_parts(true, vec![1, 2, 3, 4, 5, 6]);
    let text = DataConverter::BigInteger(value.clone()).to_with::<String>(&options).unwrap();
    assert_eq!(DataConverter::String(text).to_with::<BigInteger>(&options), Ok(value));
}

#[test]
fn duration_text_round_trip() {
    let options = DataConversionOptions::strict();
    let value = Duration::from_millis(86_400_000);
    let text = DataConverter::Duration(value).to_with::<String>(&options).unwrap();
    assert_eq!(text, "86400000ms");
    assert_eq!(DataConverter::String(text).to_with::<Duration>(&options), Ok(value));
    let mut hours = DataConversionOptions::strict();
    hours.duration = hours.duration.with_unit(DurationUnit::Hours);
    let text = DataConverter::Duration(value).to_with::<String>(&hours).unwrap();
    assert_eq!(text, "24h");
    assert_eq!(DataConverter::String(text).to_with::<Duration>(&hours), Ok(value));
}

#[test]
fn integer_decimal_round_trip() {
    let options = DataConversionOptions::strict();
    let decimal = DataConverter::Int32(-40).to_with::<BigDecimal>(&options).unwrap();
    assert_eq!(decimal, BigDecimal::new(BigInteger::from_i128(-40), 0));
    assert_eq!(DataConverter::BigDecimal(decimal).to_with::<BigInteger>(&options), Ok(BigInteger::from_i128(-40)));
}

#[test]
fn exactness_only_adds_rejections() {
    let value = BigDecimal::new(BigInteger::from_i128(1500), 2);
    let exact = decimal_to_bigint(&value, NumericConversionPolicy::Exact, DataType::BigDecimal, DataType::Int64);
    let lossy = decimal_to_bigint(&value, NumericConversionPolicy::Lossy, DataType::BigDecimal, DataType::Int64);
    assert_eq!(exact, Ok(BigInteger::from_i128(15)));
    assert_eq!(exact, lossy);
    let strict = DataConversionOptions::strict();
    let lossy_options = DataConversionOptions::lossy();
    let text = DataConverter::String("12e-1".to_string());
    assert!(text.to_with::<i8>(&strict).is_err());
    assert_eq!(text.to_with::<i8>(&lossy_options), Ok(1));
    let whole = DataConverter::String("120e-1".to_string());
    assert_eq!(whole.to_with::<i8>(&strict), whole.to_with::<i8>(&lossy_options));
}

#[test]
fn strict_options_keep_text_unchanged() {
    let options = DataConversionOptions::strict();
    assert_eq!(DataConverter::String("  a \t".to_string()).to_with::<String>(&options), Ok("  a \t".to_string()));
    assert_eq!(options.normalize("   ", DataType::Int8), Ok("   "));
}

#[test]
fn bool_and_char_text_round_trips() {
    for options in [DataConversionOptions::strict(), DataConversionOptions::env_friendly()] {
        for value in [true, false] {
            let text = DataConverter::Bool(value).to_with::<String>(&options).unwrap();
            assert_eq!(DataConverter::String(text).to_with::<bool>(&options), Ok(value));
        }
        for c in ['a', 'é', '7', '\u{1F600}'] {
            let text = DataConverter::Char(c).to_with::<String>(&options).unwrap();
            assert_eq!(DataConverter::String(text).to_with::<char>(&options), Ok(c));
        }
    }
    let strict = DataConversionOptions::strict();
    let text = DataConverter::Char(' ').to_with::<String>(&strict).unwrap();
    assert_eq!(DataConverter::String(text).to_with::<char>(&strict), Ok(' '));
}

#[test]
fn exact_integers_are_scaled_significands() {
    assert!(unsigned_integer_is_exact(1u128 << 53, 53));
    assert!(!unsigned_integer_is_exact((1u128 << 53) + 1, 53));
    assert!(unsigned_integer_is_exact((1u128 << 54) + 4, 53));
    assert!(unsigned_integer_is_exact(0, 0));
    assert!(!unsigned_integer_is_exact(1, 0));
}

#[test]
fn text_rejections_carry_no_text() {
    let options = DataConversionOptions::strict();
    let first = DataConverter::String("abc".to_string()).to_with::<i32>(&options).unwrap_err();
    let second = DataConverter::String("xyz".to_string()).to_with::<i32>(&options).unwrap_err();
    assert_eq!(first, second);
    assert_eq!(first.message(), second.message());
    assert!(!first.message().contains("abc"));
    let first = DataConverter::String("1.5".to_string()).to_with::<u8>(&options).unwrap_err();
    let second = DataConverter::String("2.5".to_string()).to_with::<u8>(&options).unwrap_err();
    assert_eq!(first, second);
    for (a, b) in [("yes", "nah"), ("--", "x1"), ("", "")] {
        let first = DataConverter::String(a.to_string()).to_with::<bool>(&options).unwrap_err();
        let second = DataConverter::String(b.to_string()).to_with::<bool>(&options).unwrap_err();
        assert_eq!(first.message(), second.message());
        let first = DataConverter::String(a.to_string()).to_with::<Duration>(&options);
        let second = DataConverter::String(b.to_string()).to_with::<Duration>(&options);
        assert_eq!(first, second);
        let first = DataConverter::String(a.to_string()).to_with::<u128>(&options);
        let second = DataConverter::String(b.to_string()).to_with::<u128>(&options);
        assert_eq!(first, second);
    }
    let first = DataConverter::String("noon".to_string()).to_with::<Date>(&options).unwrap_err();
    let second = DataConverter::String("later".to_string()).to_with::<Date>(&options).unwrap_err();
    assert_eq!(first, second);
    assert_eq!(first.message(), second.message());
}

#[test]
fn supported_targets_follow_catalog_order() {
    let capabilities = ConversionCapabilities::current();
    let all = DataType::all();
    for from in all.clone() {
        let targets = capabilities.supported_targets(from);
        let positions: Vec<usize> =
            targets.iter().map(|t| all.iter().position(|a| a == t).unwrap()).collect();
        assert!(positions.windows(2).all(|w| w[0] < w[1]), "{from:?}");
        for to in all.clone() {
            assert_eq!(targets.contains(&to), capabilities.supports(from, to));
        }
        assert!(capabilities.is_available(from));
    }
}

#[test]
fn string_writer_respects_its_budget() {
    let mut writer = ConversionStringWriter::new(5, DataType::Int32, DataType::String);
    assert_eq!(writer.write_str("abc"), Ok(()));
    assert_eq!(writer.write_char('é'), Ok(()));
    assert_eq!(writer.used_bytes(), 5);
    assert_eq!(
        writer.write_str("x"),
        Err(DataConversionError::InvalidValue {
            from: DataType::Int32,
            to: DataType::String,
            reason: DataConversionErrorKind::OutOfRange,
        })
    );
    assert_eq!(writer.write_char('y').is_err(), true);
    assert_eq!(writer.as_str(), "abcé");
    let mut numbers = ConversionStringWriter::new(8, DataType::Int64, DataType::String);
    assert_eq!(numbers.write_display(&-42i64), Ok(()));
    assert_eq!(numbers.write_display("!"), Ok(()));
    assert!(numbers.write_display(&123456u32).is_err());
    assert_eq!(numbers.into_string(), "-42!");
}

#[test]
fn string_map_entries_sorted_by_key() {
    let pair = |k: &str, v: &str| (k.to_string(), v.to_string());
    let entries = vec![pair("b", "2"), pair("é", "3"), pair("a", "1"), pair("ab", "4"), pair("B", "5")];
    assert_eq!(
        sorted_string_map_entries(&entries),
        vec![pair("B", "5"), pair("a", "1"), pair("ab", "4"), pair("b", "2"), pair("é", "3")]
    );
    assert_eq!(sorted_string_map_entries(&Vec::new()), Vec::<(String, String)>::new());
}

#[test]
fn calendar_and_clock_rules() {
    assert!(Date::from_ymd(2023, 2, 29).is_none());
    assert!(Date::from_ymd(2024, 2, 29).is_some());
    assert!(Date::from_ymd(1900, 2, 29).is_none());
    assert!(Date::from_ymd(2000, 2, 29).is_some());
    assert!(Date::from_ymd(2024, 4, 31).is_none());
    assert!(Date::from_ymd(262_142, 12, 31).is_some());
    assert!(Date::from_ymd(262_143, 1, 1).is_none());
    assert!(Date::from_ymd(-262_143, 1, 1).is_some());
    assert!(Date::from_ymd(-262_144, 12, 31).is_none());
    assert_eq!(Date::from_ymd(33, 1, 2).unwrap().format(), "0033-01-02");
    assert_eq!(Date::from_ymd(2020, 11, 30).unwrap().format(), "2020-11-30");
    let time = |h, m, s, n| Time::from_hms_nano(h, m, s, n).unwrap();
    assert_eq!(time(1, 2, 3, 0).format(), "01:02:03");
    assert_eq!(time(1, 2, 3, 500_000_000).format(), "01:02:03.500");
    assert_eq!(time(1, 2, 3, 1_000).format(), "01:02:03.000001");
    assert_eq!(time(1, 2, 3, 7).format(), "01:02:03.000000007");
    assert_eq!(time(23, 59, 59, 1_250_000_000).format(), "23:59:60.250");
    let date = Date::from_ymd(987, 6, 5).unwrap();
    assert_eq!(DateTime::new(date, time(4, 5, 6, 120_000)).format(), "0987-06-05T04:05:06.000120");
    assert_eq!(DateTime::new(date, time(23, 59, 59, 1_000_000_000)).format(), "0987-06-05T23:59:60");
    assert!(Time::from_hms_nano(23, 59, 59, 1_999_999_999).is_some());
    assert!(Time::from_hms_nano(23, 59, 58, 1_000_000_000).is_none());
    assert!(Time::from_hms_nano(24, 0, 0, 0).is_none());
    assert!(Time::from_hms_nano(23, 59, 59, 2_000_000_000).is_none());
    assert!(Instant::from_timestamp(8_210_266_876_799, 999_999_999).is_some());
    assert!(Instant::from_timestamp(8_210_266_876_800, 0).is_none());
    assert!(Instant::from_timestamp(-8_334_601_228_800, 0).is_some());
    assert!(Instant::from_timestamp(-8_334_601_228_801, 0).is_none());
    assert!(Instant::from_timestamp(59, 1_500_000_000).is_some());
    assert!(Instant::from_timestamp(-1, 1_500_000_000).is_some());
    assert!(Instant::from_timestamp(58, 1_000_000_000).is_none());
    assert!(Instant::from_timestamp(0, 2_000_000_000).is_none());
}

fn exact_for(text: &str, value: f64) -> bool {
    let (significand, exponent) = finite_float_parts(value.abs().to_bits());
    let (digits, zeros, scale) = exact_float_decimal(significand, exponent);
    let exact = text_is_exact_float(text, significand == 0, &digits, zeros, scale);
    assert_eq!(exact, text_is_exact_for_float_bits(text, value.to_bits()));
    exact
}

#[test]
fn exact_text_writes_the_float() {
    assert!(!exact_for("0.1", 0.1));
    assert!(exact_for("1.250e1", 12.5));
    assert!(exact_for("-0.000", 0.0));
    assert!(exact_for("100", 100.0));
    assert!(exact_for("1e2", 100.0));
    assert!(!exact_for("101", 100.0));
    assert!(exact_for("0.5", 0.5));
    assert!(!exact_for("0.5", 0.0));
    assert!(exact_for("9007199254740992", 9007199254740992.0));
    assert!(!exact_for("9007199254740993", 9007199254740992.0));
}

#[test]
fn default_conversion_is_strict() {
    let source = DataConverter::String("12".to_string());
    assert_eq!(source.to::<i32>(), Ok(12));
    assert_eq!(source.to::<u8>(), source.to_with::<u8>(&DataConversionOptions::strict()));
    let padded = DataConverter::String(" 12".to_string());
    assert!(padded.to::<i32>().is_err());
    let fraction = DataConverter::String("1.5".to_string());
    assert!(fraction.to::<i64>().is_err());
}
