//! Value-free conversion errors.

use vstd::prelude::*;

use crate::data_type::DataType;

verus! {

/// Structured data format named by serialization diagnostics.
#[derive(Clone, Copy, Debug, PartialEq, Eq, Structural, Hash)]
pub enum DataFormat {
    /// JavaScript Object Notation.
    Json,
}

/// A resource whose consumption conversions meter.
#[derive(Clone, Copy, Debug, PartialEq, Eq, Structural, Hash)]
#[non_exhaustive]
pub enum ConversionResource {
    /// Bytes of Duration text inspected.
    DurationTextBytes,
    /// Bytes of numeric text inspected.
    NumericTextBytes,
    /// Bytes of structured text inspected.
    StructuredTextBytes,
    /// Bytes of a scalar collection source inspected.
    CollectionSourceBytes,
    /// Decimal digits of an arbitrary-precision integer.
    BigIntegerDigits,
    /// Magnitude bits of an arbitrary-precision integer.
    BigIntegerMagnitudeBits,
    /// Coefficient digits of an arbitrary-precision decimal.
    BigDecimalCoefficientDigits,
    /// Magnitude of an arbitrary-precision decimal's scale.
    BigDecimalScaleMagnitude,
    /// Conversion items processed.
    Items,
    /// Source bytes read.
    InputBytes,
    /// Output bytes written.
    OutputBytes,
    /// Nesting depth of structured values.
    StructuredDepth,
    /// Nodes of structured values.
    StructuredNodes,
    /// Payload bytes of structured values.
    StructuredPayloadBytes,
    /// Items of a sequence.
    SequenceItems,
    /// Items of a collection.
    CollectionItems,
    /// Entries of a map.
    MapEntries,
}

/// Reason an otherwise supported conversion rejected its source value.
#[derive(Clone, Copy, Debug, PartialEq, Eq)]
pub enum DataConversionErrorKind {
    /// A blank string is forbidden by the active policy.
    BlankRejected,
    /// The source text does not match the target syntax.
    InvalidSyntax {
        /// Stable description of the accepted syntax.
        expected: &'static str,
    },
    /// The source value is outside the target range.
    OutOfRange,
    /// An exact conversion would lose information.
    PrecisionLoss,
    /// A non-finite floating-point value is not accepted.
    NonFinite,
    /// The value is invalid under the active boolean policy.
    InvalidBoolean,
    /// A negative value cannot represent a duration.
    NegativeDuration,
    /// The duration suffix is not supported.
    UnsupportedDurationUnit,
    /// Serialization to a structured format failed.
    Serialization {
        /// Format whose serialization failed.
        format: DataFormat,
    },
    /// Deserialization from a structured format failed.
    Deserialization {
        /// Format whose deserialization failed.
        format: DataFormat,
    },
}

/// The name the conversion code uses for rejection reasons.
pub type InvalidValueReason = DataConversionErrorKind;

/// Error type returned by reusable data conversions.
#[derive(Clone, Copy, Debug, PartialEq, Eq)]
pub enum DataConversionError {
    /// The source has no concrete value.
    Missing {
        /// Source data type.
        from: DataType,
        /// Requested target data type.
        to: DataType,
    },
    /// The source and target type pair is unsupported.
    Unsupported {
        /// Source data type.
        from: DataType,
        /// Requested target data type.
        to: DataType,
    },
    /// The type pair is supported but the source value is invalid.
    InvalidValue {
        /// Source data type.
        from: DataType,
        /// Requested target data type.
        to: DataType,
        /// Value-free reason for rejection.
        reason: DataConversionErrorKind,
    },
}

impl DataConversionError {
    /// Builds a missing-value error.
    pub fn missing(from: DataType, to: DataType) -> (error: Self)
        ensures
            error == (DataConversionError::Missing { from, to }),
    {
        DataConversionError::Missing { from, to }
    }

    /// Builds an unsupported-pair error.
    pub fn unsupported(from: DataType, to: DataType) -> (error: Self)
        ensures
            error == (DataConversionError::Unsupported { from, to }),
    {
        DataConversionError::Unsupported { from, to }
    }

    /// Builds an invalid-value error.
    pub fn invalid(from: DataType, to: DataType, reason: DataConversionErrorKind) -> (error: Self)
        ensures
            error == (DataConversionError::InvalidValue { from, to, reason }),
    {
        DataConversionError::InvalidValue { from, to, reason }
    }
}

/// The invalid-value error every textual conversion reports.
pub open spec fn text_error(to: DataType, reason: DataConversionErrorKind) -> DataConversionError {
    DataConversionError::InvalidValue { from: DataType::String, to, reason }
}

/// Error type returned by reusable batch data conversions.
#[derive(Clone, Copy, Debug, PartialEq, Eq)]
pub struct DataListConversionError {
    /// Zero-based index in the source, counting skipped items.
    pub source_index: usize,
    /// The single-value conversion error.
    pub source: DataConversionError,
}

impl DataListConversionError {
    /// Builds a batch error at a source index.
    pub fn new(source_index: usize, source: DataConversionError) -> (error: Self)
        ensures
            error.source_index == source_index,
            error.source == source,
    {
        DataListConversionError { source_index, source }
    }
}

/// Error returned when true and false literal sets overlap.
#[derive(Clone, Copy, Debug, PartialEq, Eq, Structural)]
pub struct BooleanLiteralConflictError;

} // verus!
