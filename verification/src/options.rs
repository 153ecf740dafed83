//! The complete conversion policy: string normalization, numeric exactness,
//! and the boolean, collection and duration options.

use vstd::prelude::*;

use crate::boolean_options::BooleanConversionOptions;
use crate::collection_options::{CollectionConversionOptions, CollectionOptionsView};
use crate::data_type::DataType;
use crate::duration::{DurationConversionOptions, DurationUnit};
use crate::error::{text_error, DataConversionError, DataConversionErrorKind};
use crate::policy::{BlankStringPolicy, EmptyItemPolicy, NumericConversionPolicy};
use crate::text::{chars_of, is_blank, text_is_blank, trim, trim_text};

verus! {

/// Policies applied by every conversion.
#[derive(Clone, Debug, PartialEq, Eq)]
pub struct DataConversionOptions {
    /// Whether string sources lose their surrounding whitespace first.
    pub trim_strings: bool,
    /// How blank string sources are interpreted.
    pub blank_string_policy: BlankStringPolicy,
    /// Whether numeric conversions must be exact or may truncate.
    pub numeric_policy: NumericConversionPolicy,
    /// Boolean literal and numeric-boolean policy.
    pub boolean: BooleanConversionOptions,
    /// Scalar-string splitting policy.
    pub collection: CollectionConversionOptions,
    /// Duration unit and formatting policy.
    pub duration: DurationConversionOptions,
}

/// What normalizing a string source yields: the text, trimmed when
/// configured; a blank text is kept, reported missing, or rejected as the
/// blank-string policy says.
pub open spec fn normalized_text(
    value: Seq<char>,
    trim_strings: bool,
    blank_policy: BlankStringPolicy,
    to: DataType,
) -> Result<Seq<char>, DataConversionError> {
    let text = if trim_strings {
        trim(value)
    } else {
        value
    };
    if is_blank(text) && blank_policy == BlankStringPolicy::TreatAsMissing {
        Err(DataConversionError::Missing { from: DataType::String, to })
    } else if is_blank(text) && blank_policy == BlankStringPolicy::Reject {
        Err(text_error(to, DataConversionErrorKind::BlankRejected))
    } else {
        Ok(text)
    }
}

impl DataConversionOptions {
    /// Whether these are the strict options.
    pub open spec fn is_strict(&self) -> bool {
        &&& !self.trim_strings
        &&& self.blank_string_policy == BlankStringPolicy::Preserve
        &&& self.numeric_policy == NumericConversionPolicy::Exact
        &&& self.boolean@ == BooleanConversionOptions::strict_view()
        &&& self.collection@ == CollectionConversionOptions::default_view()
        &&& self.duration == DurationConversionOptions::default_value()
    }

    /// What normalizing `value` yields under these options.
    pub open spec fn normalized(&self, value: Seq<char>, to: DataType) -> Result<
        Seq<char>,
        DataConversionError,
    > {
        normalized_text(value, self.trim_strings, self.blank_string_policy, to)
    }

    /// Strict conversion: whitespace is preserved, fractional and rounded
    /// conversions are rejected, and only `true`/`false` are booleans.
    pub fn strict() -> (options: Self)
        ensures
            !options.trim_strings,
            options.blank_string_policy == BlankStringPolicy::Preserve,
            options.numeric_policy == NumericConversionPolicy::Exact,
            options.boolean@ == BooleanConversionOptions::strict_view(),
            options.collection@ == CollectionConversionOptions::default_view(),
            options.duration == DurationConversionOptions::default_value(),
    {
        DataConversionOptions {
            trim_strings: false,
            blank_string_policy: BlankStringPolicy::Preserve,
            numeric_policy: NumericConversionPolicy::Exact,
            boolean: BooleanConversionOptions::strict(),
            collection: CollectionConversionOptions::default(),
            duration: DurationConversionOptions::default(),
        }
    }

    /// Strict conversion except that fractions truncate toward zero and
    /// durations round half up.
    pub fn lossy() -> (options: Self)
        ensures
            !options.trim_strings,
            options.blank_string_policy == BlankStringPolicy::Preserve,
            options.numeric_policy == NumericConversionPolicy::Lossy,
            options.boolean@ == BooleanConversionOptions::strict_view(),
            options.collection@ == CollectionConversionOptions::default_view(),
            options.duration == DurationConversionOptions::default_value(),
    {
        DataConversionOptions { numeric_policy: NumericConversionPolicy::Lossy, ..Self::strict() }
    }

    /// Options for environment-variable values: strings are trimmed, blank
    /// values count as missing, `yes/no` and `on/off` are booleans, and
    /// comma-separated lists are split into trimmed, non-empty items.
    pub fn env_friendly() -> (options: Self)
        ensures
            options.trim_strings,
            options.blank_string_policy == BlankStringPolicy::TreatAsMissing,
            options.numeric_policy == NumericConversionPolicy::Exact,
            options.boolean@ == BooleanConversionOptions::env_friendly_view(),
            options.collection@ == (CollectionOptionsView {
                split_scalar_strings: true,
                delimiters: seq![','],
                trim_items: true,
                empty_item_policy: EmptyItemPolicy::Skip,
            }),
            options.duration == DurationConversionOptions::default_value(),
    {
        let collection = CollectionConversionOptions::default().with_split_scalar_strings(
            true,
        ).with_trim_items(true).with_empty_item_policy(EmptyItemPolicy::Skip);
        DataConversionOptions {
            trim_strings: true,
            blank_string_policy: BlankStringPolicy::TreatAsMissing,
            numeric_policy: NumericConversionPolicy::Exact,
            boolean: BooleanConversionOptions::env_friendly(),
            collection,
            duration: DurationConversionOptions::default(),
        }
    }

    /// Normalizes a string source for a target: trims it when configured and
    /// applies the blank-string policy, attaching `to` to the error.
    pub fn normalize<'a>(&self, value: &'a str, to: DataType) -> (result: Result<
        &'a str,
        DataConversionError,
    >)
        ensures
            result matches Ok(text) ==> self.normalized(value@, to) == Ok::<_, DataConversionError>(
                text@,
            ),
            result matches Err(error) ==> self.normalized(value@, to) == Err::<Seq<char>, _>(
                error,
            ),
    {
        let text = if self.trim_strings {
            trim_text(value)
        } else {
            value
        };
        let blank = text_is_blank(&chars_of(text));
        match self.blank_string_policy {
            BlankStringPolicy::TreatAsMissing if blank => Err(DataConversionError::missing(
                DataType::String,
                to,
            )),
            BlankStringPolicy::Reject if blank => Err(DataConversionError::invalid(
                DataType::String,
                to,
                DataConversionErrorKind::BlankRejected,
            )),
            _ => Ok(text),
        }
    }
}

impl Default for DataConversionOptions {
    /// The strict options.
    fn default() -> (options: Self)
        ensures
            !options.trim_strings,
            options.blank_string_policy == BlankStringPolicy::Preserve,
            options.numeric_policy == NumericConversionPolicy::Exact,
            options.boolean@ == BooleanConversionOptions::strict_view(),
            options.collection@ == CollectionConversionOptions::default_view(),
            options.duration == DurationConversionOptions::default_value(),
    {
        Self::strict()
    }
}

} // verus!
