//! Batch conversion of a list of source values.

use vstd::prelude::*;

use crate::convert_to::{result_view, DataConvertTo};
use crate::converter::DataConverter;
use crate::error::{DataConversionError, DataListConversionError};
use crate::options::DataConversionOptions;

verus! {

/// A batch of source values converted with the single-value rules.
#[derive(Clone, Debug)]
pub struct DataConverters {
    /// The source values, in order.
    sources: Vec<DataConverter>,
}

impl View for DataConverters {
    type V = Seq<DataConverter>;

    closed spec fn view(&self) -> Seq<DataConverter> {
        self.sources@
    }
}

/// Index of the first source whose conversion fails, or the number of
/// sources when every conversion succeeds.
pub open spec fn first_failure<T: View>(
    sources: Seq<DataConverter>,
    options: DataConversionOptions,
) -> int where DataConverter: DataConvertTo<T>
    decreases sources.len(),
{
    if sources.len() == 0 {
        0
    } else if <DataConverter as DataConvertTo<T>>::conversion_result(&sources[0], options) is Err {
        0
    } else {
        1 + first_failure::<T>(sources.skip(1), options)
    }
}

/// Whether `result` is what converting every source under `options` yields:
/// the converted values in order, or the index and error of the first
/// failure.
pub open spec fn batch_outcome<T: View>(
    sources: Seq<DataConverter>,
    options: DataConversionOptions,
    result: Result<Vec<T>, DataListConversionError>,
) -> bool where DataConverter: DataConvertTo<T> {
    let k = first_failure::<T>(sources, options);
    if k < sources.len() {
        &&& result matches Err(e)
        &&& e.source_index == k
        &&& <DataConverter as DataConvertTo<T>>::conversion_result(&sources[k], options) == Err::<
            T::V,
            DataConversionError,
        >(e.source)
    } else {
        &&& result matches Ok(values)
        &&& values.len() == sources.len()
        &&& forall|i: int|
            0 <= i < sources.len() ==> <DataConverter as DataConvertTo<T>>::conversion_result(
                &sources[i],
                options,
            ) == Ok::<T::V, DataConversionError>((#[trigger] values@[i])@)
    }
}

/// Whether `result` is what converting the first source under `options`
/// yields; an empty batch is a missing value of the target type.
pub open spec fn first_outcome<T: View>(
    sources: Seq<DataConverter>,
    options: DataConversionOptions,
    result: Result<T, DataConversionError>,
) -> bool where DataConverter: DataConvertTo<T> {
    if sources.len() == 0 {
        result == Err::<T, DataConversionError>(
            DataConversionError::Missing {
                from: <DataConverter as DataConvertTo<T>>::spec_target_type(),
                to: <DataConverter as DataConvertTo<T>>::spec_target_type(),
            },
        )
    } else {
        result_view(result) == <DataConverter as DataConvertTo<T>>::conversion_result(
            &sources[0],
            options,
        )
    }
}

impl DataConverters {
    /// Creates a batch converter from the source values.
    pub fn from_iterator(sources: Vec<DataConverter>) -> (converters: Self)
        ensures
            converters@ == sources@,
    {
        DataConverters { sources }
    }

    /// Returns the number of source items.
    pub fn len(&self) -> (len: usize)
        ensures
            len == self@.len(),
    {
        self.sources.len()
    }

    /// Returns whether there are no source items.
    pub fn is_empty(&self) -> (empty: bool)
        ensures
            empty == (self@.len() == 0),
    {
        self.sources.len() == 0
    }

    /// Converts every source item, in order, under explicit options.
    ///
    /// Fails with the zero-based index and error of the first item that
    /// cannot be converted.
    pub fn to_vec_with<T: View>(self, options: &DataConversionOptions) -> (result: Result<
        Vec<T>,
        DataListConversionError,
    >) where DataConverter: DataConvertTo<T>
        ensures
            batch_outcome(self@, *options, result),
    {
        let ghost sources = self@;
        let mut converted: Vec<T> = Vec::new();
        let mut i: usize = 0;
        assert(sources.skip(0) =~= sources);
        while i < self.sources.len()
            invariant
                i <= self.sources.len(),
                sources == self.sources@,
                converted.len() == i,
                first_failure::<T>(sources, *options) == i + first_failure::<T>(
                    sources.skip(i as int),
                    *options,
                ),
                forall|j: int|
                    0 <= j < i ==> <DataConverter as DataConvertTo<T>>::conversion_result(
                        &sources[j],
                        *options,
                    ) == Ok::<T::V, DataConversionError>((#[trigger] converted@[j])@),
            decreases self.sources.len() - i,
        {
            let result = <DataConverter as DataConvertTo<T>>::convert(&self.sources[i], options);
            assert(sources.skip(i as int)[0] == sources[i as int]);
            match result {
                Ok(value) => {
                    assert(sources.skip(i as int).skip(1) =~= sources.skip(i + 1));
                    converted.push(value);
                },
                Err(error) => {
                    return Err(DataListConversionError::new(i, error));
                },
            }
            i += 1;
        }
        Ok(converted)
    }

    /// Converts every source item under the strict default options.
    pub fn to_vec<T: View>(self) -> (result: Result<Vec<T>, DataListConversionError>) where
        DataConverter: DataConvertTo<T>,

        ensures
            exists|options: DataConversionOptions|
                options.is_strict() && #[trigger] batch_outcome(self@, options, result),
    {
        let options = DataConversionOptions::strict();
        let ghost sources = self@;
        let result = self.to_vec_with(&options);
        assert(options.is_strict() && batch_outcome(sources, options, result));
        result
    }

    /// Converts the first source item under explicit options; an empty batch
    /// is a missing value of the target type.
    pub fn to_first_with<T: View>(self, options: &DataConversionOptions) -> (result: Result<
        T,
        DataConversionError,
    >) where DataConverter: DataConvertTo<T>
        ensures
            first_outcome(self@, *options, result),
    {
        if self.sources.len() == 0 {
            let data_type = <DataConverter as DataConvertTo<T>>::target_type();
            Err(DataConversionError::missing(data_type, data_type))
        } else {
            <DataConverter as DataConvertTo<T>>::convert(&self.sources[0], options)
        }
    }

    /// Converts the first source item under the strict default options.
    pub fn to_first<T: View>(self) -> (result: Result<T, DataConversionError>) where
        DataConverter: DataConvertTo<T>,

        ensures
            exists|options: DataConversionOptions|
                options.is_strict() && #[trigger] first_outcome(self@, options, result),
    {
        let options = DataConversionOptions::strict();
        let ghost sources = self@;
        let result = self.to_first_with(&options);
        assert(options.is_strict() && first_outcome(sources, options, result));
        result
    }
}

} // verus!
