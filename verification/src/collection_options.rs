//! Options that control scalar-string-to-collection conversion, and the
//! splitting of a scalar string into indexed items.

use vstd::prelude::*;

use crate::data_type::DataType;
use crate::error::{DataConversionError, DataConversionErrorKind, DataListConversionError};
use crate::decimal::string_from_chars;
use crate::policy::EmptyItemPolicy;
use crate::text::{chars_of, copy_range, trim, trim_bounds};

verus! {

/// `s` split at every character of `delimiters`; a text without delimiters
/// is one field, and adjacent delimiters enclose an empty field.
pub open spec fn split_fields(s: Seq<char>, delimiters: Seq<char>) -> Seq<Seq<char>>
    decreases s.len(),
{
    if s.len() == 0 {
        seq![Seq::empty()]
    } else {
        let fields = split_fields(s.drop_last(), delimiters);
        if delimiters.contains(s.last()) {
            fields.push(Seq::empty())
        } else {
            fields.update(fields.len() - 1, fields.last().push(s.last()))
        }
    }
}

/// Mathematical model of [`CollectionConversionOptions`].
pub struct CollectionOptionsView {
    /// Whether a scalar string is split into items.
    pub split_scalar_strings: bool,
    /// Characters that separate items.
    pub delimiters: Seq<char>,
    /// Whether items are trimmed.
    pub trim_items: bool,
    /// How empty items are interpreted.
    pub empty_item_policy: EmptyItemPolicy,
}

impl CollectionOptionsView {
    /// The raw fields of a scalar string: its split when splitting is
    /// enabled, otherwise the whole string as one field.
    pub open spec fn fields(self, s: Seq<char>) -> Seq<Seq<char>> {
        if self.split_scalar_strings {
            split_fields(s, self.delimiters)
        } else {
            seq![s]
        }
    }

    /// The fields after optional trimming.
    pub open spec fn items(self, s: Seq<char>) -> Seq<Seq<char>> {
        let fields = self.fields(s);
        Seq::new(
            fields.len(),
            |i: int|
                if self.trim_items {
                    trim(fields[i])
                } else {
                    fields[i]
                },
        )
    }
}

/// Index of the first empty item, or the number of items when none is empty.
pub open spec fn first_empty_item(items: Seq<Seq<char>>) -> int
    decreases items.len(),
{
    if items.len() == 0 {
        0
    } else if items[0].len() == 0 {
        0
    } else {
        1 + first_empty_item(items.skip(1))
    }
}

/// The retained items with their indices in the unfiltered split; empty items are dropped
/// when `skip_empty` is set.
pub open spec fn retained_items(items: Seq<Seq<char>>, skip_empty: bool) -> Seq<(int, Seq<char>)>
    decreases items.len(),
{
    if items.len() == 0 {
        Seq::empty()
    } else {
        let retained = retained_items(items.drop_last(), skip_empty);
        if skip_empty && items.last().len() == 0 {
            retained
        } else {
            retained.push(((items.len() - 1) as int, items.last()))
        }
    }
}

/// The error reported for a rejected empty item.
pub open spec fn empty_item_error(index: int) -> DataListConversionError {
    DataListConversionError {
        source_index: index as usize,
        source: DataConversionError::InvalidValue {
            from: DataType::String,
            to: DataType::String,
            reason: DataConversionErrorKind::BlankRejected,
        },
    }
}

/// One item of a split scalar string, with its index in the unfiltered split.
#[derive(Clone, Debug, PartialEq, Eq)]
pub struct ScalarItem {
    /// Zero-based index among all split items, skipped ones included.
    pub source_index: usize,
    /// The item text, trimmed when configured.
    pub value: String,
}

/// The model of a list of scalar items: index and text of each.
pub open spec fn scalar_items_view(items: Seq<ScalarItem>) -> Seq<(int, Seq<char>)> {
    items.map_values(|item: ScalarItem| (item.source_index as int, item.value@))
}

/// The model of one step of scalar item iteration: an item's index and text,
/// or the error that ends the iteration.
pub open spec fn scalar_result_view(
    result: Result<ScalarItem, DataListConversionError>,
) -> Result<(int, Seq<char>), DataListConversionError> {
    match result {
        Ok(item) => Ok((item.source_index as int, item.value@)),
        Err(error) => Err(error),
    }
}

/// The model of a sequence of iteration steps.
pub open spec fn scalar_results_view(
    results: Seq<Result<ScalarItem, DataListConversionError>>,
) -> Seq<Result<(int, Seq<char>), DataListConversionError>> {
    results.map_values(|result: Result<ScalarItem, DataListConversionError>| scalar_result_view(result))
}

/// Items yielded successfully, one step each.
pub open spec fn ok_steps(items: Seq<(int, Seq<char>)>) -> Seq<
    Result<(int, Seq<char>), DataListConversionError>,
> {
    items.map_values(|item: (int, Seq<char>)| Ok::<(int, Seq<char>), DataListConversionError>(item))
}

/// What iterating over the items of a scalar string yields, in order: every
/// retained item; under the reject policy, the items before the first empty
/// one and then the error for that index, after which iteration ends.
pub open spec fn scalar_item_steps(options: CollectionOptionsView, s: Seq<char>) -> Seq<
    Result<(int, Seq<char>), DataListConversionError>,
> {
    let items = options.items(s);
    let first_empty = first_empty_item(items);
    if options.empty_item_policy == EmptyItemPolicy::Reject && first_empty < items.len() {
        ok_steps(retained_items(items.take(first_empty), false)).push(
            Err(empty_item_error(first_empty)),
        )
    } else {
        ok_steps(retained_items(items, options.empty_item_policy == EmptyItemPolicy::Skip))
    }
}

/// Options that control scalar-string-to-collection conversion.
#[derive(Clone, Debug, PartialEq, Eq)]
pub struct CollectionConversionOptions {
    /// Whether a scalar string can be split into collection items.
    pub split_scalar_strings: bool,
    /// Delimiters used to split scalar strings.
    pub delimiters: Vec<char>,
    /// Whether split items are trimmed before element conversion.
    pub trim_items: bool,
    /// How empty split items are interpreted.
    pub empty_item_policy: EmptyItemPolicy,
}

impl View for CollectionConversionOptions {
    type V = CollectionOptionsView;

    open spec fn view(&self) -> CollectionOptionsView {
        CollectionOptionsView {
            split_scalar_strings: self.split_scalar_strings,
            delimiters: self.delimiters@,
            trim_items: self.trim_items,
            empty_item_policy: self.empty_item_policy,
        }
    }
}

/// Whether a character is one of the delimiters.
fn is_delimiter(delimiters: &Vec<char>, c: char) -> (result: bool)
    ensures
        result == delimiters@.contains(c),
{
    let mut i: usize = 0;
    while i < delimiters.len()
        invariant
            i <= delimiters.len(),
            forall|j: int| 0 <= j < i ==> delimiters@[j] != c,
        decreases delimiters.len() - i,
    {
        if delimiters[i] == c {
            return true;
        }
        i += 1;
    }
    false
}

/// Splits characters at every delimiter.
fn split_chars(chars: &Vec<char>, delimiters: &Vec<char>) -> (fields: Vec<Vec<char>>)
    ensures
        fields@.map_values(|f: Vec<char>| f@) == split_fields(chars@, delimiters@),
{
    let mut fields: Vec<Vec<char>> = Vec::new();
    let mut start: usize = 0;
    let mut i: usize = 0;
    assert(chars@.take(0) =~= Seq::<char>::empty());
    assert(fields@.map_values(|f: Vec<char>| f@).push(chars@.subrange(0, 0)) =~= seq![
        Seq::<char>::empty(),
    ]);
    while i < chars.len()
        invariant
            start <= i <= chars.len(),
            split_fields(chars@.take(i as int), delimiters@) == fields@.map_values(
                |f: Vec<char>| f@,
            ).push(chars@.subrange(start as int, i as int)),
        decreases chars.len() - i,
    {
        let ghost before = fields@.map_values(|f: Vec<char>| f@);
        assert(chars@.take(i + 1).drop_last() =~= chars@.take(i as int));
        if is_delimiter(delimiters, chars[i]) {
            let field = copy_range(chars, start, i);
            fields.push(field);
            start = i + 1;
            assert(fields@.map_values(|f: Vec<char>| f@) =~= before.push(field@));
            assert(chars@.subrange(start as int, (i + 1) as int) =~= Seq::<char>::empty());
            assert(split_fields(chars@.take(i + 1), delimiters@) =~= fields@.map_values(
                |f: Vec<char>| f@,
            ).push(chars@.subrange(start as int, (i + 1) as int)));
        } else {
            assert(chars@.subrange(start as int, i as int).push(chars@[i as int])
                =~= chars@.subrange(start as int, (i + 1) as int));
            assert(split_fields(chars@.take(i + 1), delimiters@) =~= fields@.map_values(
                |f: Vec<char>| f@,
            ).push(chars@.subrange(start as int, (i + 1) as int)));
        }
        i += 1;
    }
    let ghost before = fields@.map_values(|f: Vec<char>| f@);
    let last = copy_range(chars, start, chars.len());
    fields.push(last);
    assert(chars@.take(chars.len() as int) =~= chars@);
    assert(fields@.map_values(|f: Vec<char>| f@) =~= before.push(last@));
    fields
}

/// `first_empty_item` is the first empty item, found by scanning.
proof fn lemma_first_empty_item(items: Seq<Seq<char>>, d: int)
    requires
        0 <= d <= items.len(),
        forall|j: int| 0 <= j < d ==> (#[trigger] items[j]).len() != 0,
        d == items.len() || items[d].len() == 0,
    ensures
        first_empty_item(items) == d,
    decreases d,
{
    if d > 0 {
        let r = items.skip(1);
        assert forall|j: int| 0 <= j < d - 1 implies (#[trigger] r[j]).len() != 0 by {
            assert(r[j] == items[j + 1]);
        }
        lemma_first_empty_item(r, d - 1);
    }
}

impl CollectionConversionOptions {
    /// The model of the default options.
    pub open spec fn default_view() -> CollectionOptionsView {
        CollectionOptionsView {
            split_scalar_strings: false,
            delimiters: seq![','],
            trim_items: false,
            empty_item_policy: EmptyItemPolicy::Keep,
        }
    }

    /// Returns a copy with scalar string splitting enabled or disabled.
    pub fn with_split_scalar_strings(self, split_scalar_strings: bool) -> (options: Self)
        ensures
            options@ == (CollectionOptionsView { split_scalar_strings, ..self@ }),
    {
        CollectionConversionOptions { split_scalar_strings, ..self }
    }

    /// Returns a copy with different scalar string delimiters.
    pub fn with_delimiters(self, delimiters: Vec<char>) -> (options: Self)
        ensures
            options@ == (CollectionOptionsView { delimiters: delimiters@, ..self@ }),
    {
        CollectionConversionOptions { delimiters, ..self }
    }

    /// Returns a copy with per-item trimming enabled or disabled.
    pub fn with_trim_items(self, trim_items: bool) -> (options: Self)
        ensures
            options@ == (CollectionOptionsView { trim_items, ..self@ }),
    {
        CollectionConversionOptions { trim_items, ..self }
    }

    /// Returns a copy with a different empty item policy.
    pub fn with_empty_item_policy(self, policy: EmptyItemPolicy) -> (options: Self)
        ensures
            options@ == (CollectionOptionsView { empty_item_policy: policy, ..self@ }),
    {
        CollectionConversionOptions { empty_item_policy: policy, ..self }
    }

    /// Splits and normalizes a scalar string into collection items, in the
    /// order iteration yields them.
    ///
    /// Each item keeps its index in the unsuppressed split sequence. Under
    /// [`EmptyItemPolicy::Skip`] empty items are dropped; under
    /// [`EmptyItemPolicy::Reject`] the items before the first empty item are
    /// yielded, then the error for that item, which ends the sequence.
    pub fn scalar_items(&self, value: &str) -> (steps: Vec<Result<ScalarItem, DataListConversionError>>)
        ensures
            scalar_results_view(steps@) == scalar_item_steps(self@, value@),
    {
        let chars = chars_of(value);
        let fields: Vec<Vec<char>> = if self.split_scalar_strings {
            split_chars(&chars, &self.delimiters)
        } else {
            let whole = vec![chars];
            assert(whole@.map_values(|f: Vec<char>| f@) =~= seq![value@]);
            whole
        };
        let ghost field_texts = fields@.map_values(|f: Vec<char>| f@);
        assert(field_texts == self@.fields(value@));
        let ghost items = self@.items(value@);
        let skip_empty = self.empty_item_policy == EmptyItemPolicy::Skip;
        let reject_empty = self.empty_item_policy == EmptyItemPolicy::Reject;
        let mut steps: Vec<Result<ScalarItem, DataListConversionError>> = Vec::new();
        let mut i: usize = 0;
        assert(items.take(0) =~= Seq::<Seq<char>>::empty());
        assert(scalar_results_view(steps@) =~= ok_steps(retained_items(items.take(0), skip_empty)));
        while i < fields.len()
            invariant
                i <= fields.len(),
                items.len() == fields.len(),
                field_texts == fields@.map_values(|f: Vec<char>| f@),
                items == self@.items(value@),
                field_texts == self@.fields(value@),
                skip_empty == (self.empty_item_policy == EmptyItemPolicy::Skip),
                reject_empty == (self.empty_item_policy == EmptyItemPolicy::Reject),
                reject_empty ==> forall|j: int| 0 <= j < i ==> (#[trigger] items[j]).len() != 0,
                scalar_results_view(steps@) == ok_steps(
                    retained_items(items.take(i as int), skip_empty),
                ),
            decreases fields.len() - i,
        {
            let field = &fields[i];
            let (lo, hi) = if self.trim_items {
                trim_bounds(field)
            } else {
                (0, field.len())
            };
            let item = copy_range(field, lo, hi);
            assert(item@ == items[i as int]) by {
                assert(field@ == field_texts[i as int]);
                assert(field@.subrange(0, field@.len() as int) =~= field@);
            }
            let ghost before = retained_items(items.take(i as int), skip_empty);
            let ghost before_steps = steps@;
            assert(items.take(i + 1).drop_last() =~= items.take(i as int));
            if item.len() == 0 && reject_empty {
                proof {
                    lemma_first_empty_item(items, i as int);
                }
                steps.push(
                    Err(
                        DataListConversionError::new(
                            i,
                            DataConversionError::invalid(
                                DataType::String,
                                DataType::String,
                                DataConversionErrorKind::BlankRejected,
                            ),
                        ),
                    ),
                );
                assert(scalar_results_view(steps@) =~= scalar_results_view(before_steps).push(
                    Err(empty_item_error(i as int)),
                ));
                return steps;
            }
            if !(item.len() == 0 && skip_empty) {
                let text = string_from_chars(&item);
                steps.push(Ok(ScalarItem { source_index: i, value: text }));
                assert(retained_items(items.take(i + 1), skip_empty) == before.push(
                    (i as int, item@),
                ));
                assert(steps@ =~= before_steps.push(steps@.last()));
                assert(scalar_results_view(steps@) =~= scalar_results_view(before_steps).push(
                    Ok((i as int, item@)),
                ));
                assert(ok_steps(before.push((i as int, item@))) =~= ok_steps(before).push(
                    Ok((i as int, item@)),
                ));
            }
            i += 1;
        }
        proof {
            assert(items.take(fields.len() as int) =~= items);
            if reject_empty {
                lemma_first_empty_item(items, items.len() as int);
            }
        }
        steps
    }
}

impl Default for CollectionConversionOptions {
    /// No splitting, a comma delimiter, no trimming, and empty items kept.
    fn default() -> (options: Self)
        ensures
            options@ == Self::default_view(),
    {
        let delimiters = vec![','];
        assert(delimiters@ =~= seq![',']);
        CollectionConversionOptions {
            split_scalar_strings: false,
            delimiters,
            trim_items: false,
            empty_item_policy: EmptyItemPolicy::Keep,
        }
    }
}

} // verus!
