//! Human-readable messages of the conversion errors.

use vstd::prelude::*;

use crate::data_type::DataType;
use crate::decimal::{decimal_text, u128_to_text};
use crate::error::{
    BooleanLiteralConflictError, DataConversionError, DataConversionErrorKind, DataFormat,
    DataListConversionError,
};

verus! {

/// The name of a structured data format.
pub open spec fn format_name(format: DataFormat) -> &'static str {
    match format {
        DataFormat::Json => "JSON",
    }
}

/// The message of a rejection reason.
pub open spec fn kind_message(kind: DataConversionErrorKind) -> Seq<char> {
    match kind {
        DataConversionErrorKind::BlankRejected => "blank string rejected"@,
        DataConversionErrorKind::InvalidSyntax { expected } => "invalid syntax; expected "@
            + expected@,
        DataConversionErrorKind::OutOfRange => "value out of range"@,
        DataConversionErrorKind::PrecisionLoss => "precision loss"@,
        DataConversionErrorKind::NonFinite => "non-finite value"@,
        DataConversionErrorKind::InvalidBoolean => "invalid boolean"@,
        DataConversionErrorKind::NegativeDuration => "negative duration"@,
        DataConversionErrorKind::UnsupportedDurationUnit => "unsupported duration unit"@,
        DataConversionErrorKind::Serialization { format } => format_name(format)@
            + " serialization failed"@,
        DataConversionErrorKind::Deserialization { format } => format_name(format)@
            + " deserialization failed"@,
    }
}

/// The message of a conversion error, naming both types.
pub open spec fn error_message(error: DataConversionError) -> Seq<char> {
    match error {
        DataConversionError::Missing { from, to } => "Missing value for conversion from "@
            + from.spec_as_str()@ + " to "@ + to.spec_as_str()@,
        DataConversionError::Unsupported { from, to } => "Unsupported conversion from "@
            + from.spec_as_str()@ + " to "@ + to.spec_as_str()@,
        DataConversionError::InvalidValue { from, to, reason } => "Invalid conversion from "@
            + from.spec_as_str()@ + " to "@ + to.spec_as_str()@ + ": "@ + kind_message(reason),
    }
}

impl DataFormat {
    /// Returns the name of the format.
    pub fn as_str(self) -> (name: &'static str)
        ensures
            name == format_name(self),
    {
        match self {
            DataFormat::Json => "JSON",
        }
    }
}

/// Concatenates two texts.
fn concat(first: String, second: &str) -> (text: String)
    ensures
        text@ == first@ + second@,
{
    let mut text = first;
    text.append(second);
    text
}

impl DataConversionErrorKind {
    /// Returns the message of this reason.
    pub fn message(&self) -> (text: String)
        ensures
            text@ == kind_message(*self),
    {
        match self {
            DataConversionErrorKind::BlankRejected => String::from_str("blank string rejected"),
            DataConversionErrorKind::InvalidSyntax { expected } => concat(
                String::from_str("invalid syntax; expected "),
                expected,
            ),
            DataConversionErrorKind::OutOfRange => String::from_str("value out of range"),
            DataConversionErrorKind::PrecisionLoss => String::from_str("precision loss"),
            DataConversionErrorKind::NonFinite => String::from_str("non-finite value"),
            DataConversionErrorKind::InvalidBoolean => String::from_str("invalid boolean"),
            DataConversionErrorKind::NegativeDuration => String::from_str("negative duration"),
            DataConversionErrorKind::UnsupportedDurationUnit => String::from_str(
                "unsupported duration unit",
            ),
            DataConversionErrorKind::Serialization { format } => concat(
                String::from_str(format.as_str()),
                " serialization failed",
            ),
            DataConversionErrorKind::Deserialization { format } => concat(
                String::from_str(format.as_str()),
                " deserialization failed",
            ),
        }
    }
}

/// Builds `prefix from to to`.
fn pair_message(prefix: &str, from: DataType, to: DataType) -> (text: String)
    ensures
        text@ == prefix@ + from.spec_as_str()@ + " to "@ + to.spec_as_str()@,
{
    let text = concat(String::from_str(prefix), from.as_str());
    let text = concat(text, " to ");
    concat(text, to.as_str())
}

impl DataConversionError {
    /// Returns the message of this error: its kind, both types and, for an
    /// invalid value, the reason.
    pub fn message(&self) -> (text: String)
        ensures
            text@ == error_message(*self),
    {
        match self {
            DataConversionError::Missing { from, to } => pair_message(
                "Missing value for conversion from ",
                *from,
                *to,
            ),
            DataConversionError::Unsupported { from, to } => pair_message(
                "Unsupported conversion from ",
                *from,
                *to,
            ),
            DataConversionError::InvalidValue { from, to, reason } => {
                let text = pair_message("Invalid conversion from ", *from, *to);
                let text = concat(text, ": ");
                let reason_text = reason.message();
                concat(text, reason_text.as_str())
            },
        }
    }
}

impl DataListConversionError {
    /// Returns the message of this error: the source index and the message
    /// of the single-value error.
    pub fn message(&self) -> (text: String)
        ensures
            text@ == "Data conversion failed at source index "@ + decimal_text(
                self.source_index as int,
            ) + ": "@ + error_message(self.source),
    {
        let index = u128_to_text(self.source_index as u128);
        let text = concat(String::from_str("Data conversion failed at source index "), index.as_str());
        let text = concat(text, ": ");
        let source = self.source.message();
        concat(text, source.as_str())
    }
}

impl BooleanLiteralConflictError {
    /// Returns the message of this error.
    pub fn message(&self) -> (text: String)
        ensures
            text@ == "boolean true and false literals overlap"@,
    {
        String::from_str("boolean true and false literals overlap")
    }
}

} // verus!
