use qubit_datatype::boolean_options::{default_false_literals, default_true_literals, BooleanConversionOptions};
use qubit_datatype::collection_options::{CollectionConversionOptions, ScalarItem};
use qubit_datatype::converter::DataConverter;
use qubit_datatype::converters::DataConverters;
use qubit_datatype::counting_writer::CountingWriter;
use qubit_datatype::duration::{Duration, DurationConversionOptions, DurationUnit};
use qubit_datatype::error::{
    BooleanLiteralConflictError, DataConversionError, DataConversionErrorKind, DataFormat,
    DataListConversionError,
};
use qubit_datatype::options::DataConversionOptions;
use qubit_datatype::policy::{BooleanNumericPolicy, EmptyItemPolicy};
use qubit_datatype::temporal::{has_canonical_date_shape, has_canonical_time_shape, parse_datetime, parse_time};
use qubit_datatype::DataType;

fn strings(values: &[&str]) -> Vec<String> {
    values.iter().map(|value| value.to_string()).collect()
}

#[test]
fn boolean_options_reject_overlapping_literals() {
    let conflict = BooleanConversionOptions::try_new(
        strings(&["yes", "Y"]),
        strings(&["no", "y"]),
        false,
        BooleanNumericPolicy::ZeroOrOne,
    );
    assert_eq!(conflict.err(), Some(BooleanLiteralConflictError));
    let sensitive = BooleanConversionOptions::try_new(
        strings(&["yes", "Y"]),
        strings(&["no", "y"]),
        true,
        BooleanNumericPolicy::ZeroOrOne,
    )
    .unwrap();
    assert_eq!(sensitive.parse("Y"), Some(true));
    assert_eq!(sensitive.parse("y"), Some(false));
    assert_eq!(sensitive.parse("YES"), None);
    assert!(sensitive.validate().is_ok());
}

#[test]
fn boolean_options_builders() {
    let strict = BooleanConversionOptions::strict();
    assert_eq!(strict.true_literals().to_vec(), default_true_literals());
    assert_eq!(strict.false_literals().to_vec(), default_false_literals());
    assert!(!strict.case_sensitive());
    assert_eq!(strict.numeric_policy(), BooleanNumericPolicy::ZeroOrOne);
    assert_eq!(strict.parse("True"), Some(true));
    let custom = strict.with_true_literal("enabled").unwrap().with_false_literal("disabled").unwrap();
    assert_eq!(custom.parse("ENABLED"), Some(true));
    assert_eq!(custom.parse("disabled"), Some(false));
    let env = BooleanConversionOptions::env_friendly();
    assert_eq!(env.parse("On"), Some(true));
    assert_eq!(env.parse("off"), Some(false));
    assert_eq!(env.with_false_literal("YES").err(), Some(BooleanLiteralConflictError));
    let numeric = BooleanConversionOptions::strict().with_numeric_policy(BooleanNumericPolicy::NonZero);
    assert_eq!(numeric.numeric_policy(), BooleanNumericPolicy::NonZero);
    assert!(BooleanConversionOptions::strict().with_case_sensitive(true).unwrap().case_sensitive());
}

#[test]
fn scalar_items_split_trim_and_skip() {
    let options = CollectionConversionOptions::default()
        .with_split_scalar_strings(true)
        .with_trim_items(true)
        .with_empty_item_policy(EmptyItemPolicy::Skip);
    let items = options.scalar_items(" 1,, 3 ");
    assert_eq!(
        items,
        vec![
            Ok(ScalarItem { source_index: 0, value: "1".to_string() }),
            Ok(ScalarItem { source_index: 2, value: "3".to_string() }),
        ]
    );
    let rejecting = options.clone().with_empty_item_policy(EmptyItemPolicy::Reject);
    assert_eq!(
        rejecting.scalar_items("a,,b"),
        vec![
            Ok(ScalarItem { source_index: 0, value: "a".to_string() }),
            Err(DataListConversionError {
                source_index: 1,
                source: DataConversionError::InvalidValue {
                    from: DataType::String,
                    to: DataType::String,
                    reason: DataConversionErrorKind::BlankRejected,
                },
            }),
        ]
    );
    let keeping = CollectionConversionOptions::default().with_split_scalar_strings(true);
    assert_eq!(
        keeping.scalar_items("a,,b"),
        vec![
            Ok(ScalarItem { source_index: 0, value: "a".to_string() }),
            Ok(ScalarItem { source_index: 1, value: String::new() }),
            Ok(ScalarItem { source_index: 2, value: "b".to_string() }),
        ]
    );
    let skipping = keeping.with_empty_item_policy(EmptyItemPolicy::Skip);
    assert_eq!(
        skipping.scalar_items("a,,b"),
        vec![
            Ok(ScalarItem { source_index: 0, value: "a".to_string() }),
            Ok(ScalarItem { source_index: 2, value: "b".to_string() }),
        ]
    );
    let semicolons = options.with_delimiters(vec![';', '|']);
    let items: Vec<ScalarItem> =
        semicolons.scalar_items("a;b|c").into_iter().map(|step| step.unwrap()).collect();
    assert_eq!(items.len(), 3);
    assert_eq!(items[2].value, "c");
    let unsplit = CollectionConversionOptions::default();
    let items = unsplit.scalar_items("a,b");
    assert_eq!(items, vec![Ok(ScalarItem { source_index: 0, value: "a,b".to_string() })]);
}

#[test]
fn batch_conversion_reports_first_failure() {
    let batch = DataConverters::from_iterator(vec![
        DataConverter::String("1".to_string()),
        DataConverter::String("x".to_string()),
        DataConverter::String("y".to_string()),
    ]);
    assert_eq!(batch.len(), 3);
    assert!(!batch.is_empty());
    let result = batch.clone().to_vec::<i32>();
    assert_eq!(
        result,
        Err(DataListConversionError {
            source_index: 1,
            source: DataConversionError::InvalidValue {
                from: DataType::String,
                to: DataType::Int32,
                reason: DataConversionErrorKind::InvalidSyntax { expected: "integer" },
            },
        })
    );
    assert_eq!(batch.to_first::<i32>(), Ok(1));
    let ok = DataConverters::from_iterator(vec![DataConverter::Int8(1), DataConverter::UInt64(2)]);
    assert_eq!(ok.to_vec_with::<u16>(&DataConversionOptions::strict()), Ok(vec![1, 2]));
    let empty = DataConverters::from_iterator(Vec::new());
    assert!(empty.is_empty());
    assert_eq!(
        empty.to_first::<bool>(),
        Err(DataConversionError::Missing { from: DataType::Bool, to: DataType::Bool })
    );
}

#[test]
fn error_messages_name_types_and_reasons() {
    assert_eq!(
        DataConversionError::missing(DataType::Int8, DataType::String).message(),
        "Missing value for conversion from int8 to string"
    );
    assert_eq!(
        DataConversionError::unsupported(DataType::Char, DataType::Duration).message(),
        "Unsupported conversion from char to duration"
    );
    assert_eq!(
        DataConversionError::invalid(
            DataType::String,
            DataType::UInt16,
            DataConversionErrorKind::InvalidSyntax { expected: "integer" },
        )
        .message(),
        "Invalid conversion from string to uint16: invalid syntax; expected integer"
    );
    assert_eq!(DataConversionErrorKind::OutOfRange.message(), "value out of range");
    assert_eq!(DataConversionErrorKind::BlankRejected.message(), "blank string rejected");
    assert_eq!(DataConversionErrorKind::PrecisionLoss.message(), "precision loss");
    assert_eq!(DataConversionErrorKind::NonFinite.message(), "non-finite value");
    assert_eq!(DataConversionErrorKind::InvalidBoolean.message(), "invalid boolean");
    assert_eq!(DataConversionErrorKind::NegativeDuration.message(), "negative duration");
    assert_eq!(DataConversionErrorKind::UnsupportedDurationUnit.message(), "unsupported duration unit");
    assert_eq!(
        DataConversionErrorKind::Serialization { format: DataFormat::Json }.message(),
        "JSON serialization failed"
    );
    assert_eq!(
        DataConversionErrorKind::Deserialization { format: DataFormat::Json }.message(),
        "JSON deserialization failed"
    );
    let listed = DataListConversionError::new(12, DataConversionError::missing(DataType::Bool, DataType::Bool));
    assert_eq!(
        listed.message(),
        "Data conversion failed at source index 12: Missing value for conversion from bool to bool"
    );
    assert_eq!(BooleanLiteralConflictError.message(), "boolean true and false literals overlap");
    assert_eq!(DataType::BigDecimal.as_str(), "bigdecimal");
    assert_eq!(DataType::all().len(), 25);
}

#[test]
fn duration_units_and_options() {
    assert_eq!(DurationUnit::Microseconds.suffix(), "us");
    assert_eq!(DurationUnit::from_suffix("µs"), Some(DurationUnit::Microseconds));
    assert_eq!(DurationUnit::from_suffix("m"), Some(DurationUnit::Minutes));
    assert_eq!(DurationUnit::from_suffix("w"), None);
    assert_eq!(DurationUnit::Hours.nanos_per_unit(), 3_600_000_000_000);
    assert_eq!(DurationUnit::Seconds.duration_from_u64(5), Ok(Duration::from_secs(5)));
    assert_eq!(
        DurationUnit::Days.duration_from_u64(u64::MAX),
        Err("duration days overflow u64 seconds".to_string())
    );
    assert_eq!(DurationUnit::Seconds.rounded_units(Duration::from_millis(1500)), 2);
    assert_eq!(DurationUnit::Seconds.rounded_units(Duration::from_millis(1499)), 1);
    let options = DurationConversionOptions::default()
        .with_unit(DurationUnit::Minutes)
        .with_append_unit_suffix(false);
    assert_eq!(options.unit, DurationUnit::Minutes);
    assert!(!options.append_unit_suffix);
    assert_eq!(DurationUnit::default(), DurationUnit::Milliseconds);
}

#[test]
fn counting_writer_counts_bytes() {
    let mut writer = CountingWriter::new();
    assert_eq!(writer.bytes(), 0);
    assert_eq!(writer.write_str("héllo"), Ok(()));
    assert_eq!(writer.bytes(), 6);
    assert_eq!(writer.add(usize::MAX), Err(()));
    assert_eq!(writer.bytes(), 6);
    assert_eq!(writer.add(4), Ok(()));
    assert_eq!(writer.bytes(), 10);
}

#[test]
fn canonical_temporal_shapes() {
    assert!(has_canonical_date_shape("2024-01-31"));
    assert!(!has_canonical_date_shape("2024/01/31"));
    assert!(!has_canonical_date_shape("24-01-31"));
    assert!(has_canonical_time_shape("23:59:59"));
    assert!(!has_canonical_time_shape("23:59"));
    assert!(parse_time("23:59:59.123456789").is_some());
    assert!(parse_time("23:59:59.1234567890").is_none());
    assert!(parse_time("25:00:00").is_none());
    assert!(parse_datetime("2024-01-31 10:00:00").is_none());
    assert!(parse_datetime("2024-01-31T10:00:00.5").is_some());
}
