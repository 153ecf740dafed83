//! Text output for custom conversion targets, bounded by a byte budget.

use vstd::prelude::*;
use vstd::utf8::encode_utf8;

use crate::data_type::DataType;
use crate::decimal::string_from_chars;
use crate::error::{DataConversionError, DataConversionErrorKind};

verus! {

/// std's pre-built formatting arguments, carried through to their formatting.
#[verifier::external_type_specification]
#[verifier::external_body]
pub struct ExArguments<'a>(core::fmt::Arguments<'a>);

/// The number of bytes in the UTF-8 encoding of `text`.
pub open spec fn utf8_len(text: Seq<char>) -> nat {
    encode_utf8(text).len()
}

/// Encoding a concatenation concatenates the encodings.
proof fn lemma_encode_utf8_concat(a: Seq<char>, b: Seq<char>)
    ensures
        encode_utf8(a + b) == encode_utf8(a) + encode_utf8(b),
    decreases a.len(),
{
    if a.len() == 0 {
        assert(a + b =~= b);
        assert(encode_utf8(a) + encode_utf8(b) =~= encode_utf8(b));
    } else {
        lemma_encode_utf8_concat(a.drop_first(), b);
        assert((a + b).drop_first() =~= a.drop_first() + b);
        assert((a + b)[0] == a[0]);
        let head = vstd::utf8::encode_scalar(a[0] as u32);
        assert(head + (encode_utf8(a.drop_first()) + encode_utf8(b)) =~= (head + encode_utf8(
            a.drop_first(),
        )) + encode_utf8(b));
    }
}

/// The model of a [`ConversionStringWriter`].
pub struct StringWriterView {
    /// The text written so far.
    pub text: Seq<char>,
    /// The most UTF-8 bytes the text may take.
    pub limit: nat,
    /// Source type named by rendering errors.
    pub from: DataType,
    /// Target type named by rendering errors.
    pub to: DataType,
}

/// Writes one conversion result into a string whose UTF-8 size stays within
/// a byte budget.
///
/// A write that would take the text past the budget is refused with an
/// invalid-value error naming the conversion's source and target types, and
/// leaves the text as it was.
pub struct ConversionStringWriter {
    text: String,
    used: usize,
    limit: usize,
    from: DataType,
    to: DataType,
}

impl View for ConversionStringWriter {
    type V = StringWriterView;

    closed spec fn view(&self) -> StringWriterView {
        StringWriterView {
            text: self.text@,
            limit: self.limit as nat,
            from: self.from,
            to: self.to,
        }
    }
}

impl ConversionStringWriter {
    /// The text fits the budget and its byte count is tracked.
    pub closed spec fn well_formed(&self) -> bool {
        &&& self.used as nat == utf8_len(self.text@)
        &&& self.used <= self.limit
    }

    /// Creates an empty writer for a conversion from `from` to `to` whose
    /// output may take at most `limit` UTF-8 bytes.
    pub fn new(limit: usize, from: DataType, to: DataType) -> (writer: Self)
        ensures
            writer.well_formed(),
            writer@ == (StringWriterView { text: Seq::empty(), limit: limit as nat, from, to }),
    {
        let text = String::new();
        proof {
            assert(encode_utf8(text@).len() == 0);
        }
        ConversionStringWriter { text, used: 0, limit, from, to }
    }

    /// Writes a UTF-8 string slice.
    ///
    /// # Errors
    ///
    /// Returns an out-of-range invalid-value error, writing nothing, when
    /// the text would exceed the byte budget.
    pub fn write_str(&mut self, value: &str) -> (result: Result<(), DataConversionError>)
        requires
            old(self).well_formed(),
        ensures
            final(self).well_formed(),
            final(self)@.limit == old(self)@.limit,
            final(self)@.from == old(self)@.from,
            final(self)@.to == old(self)@.to,
            utf8_len(old(self)@.text) + utf8_len(value@) <= old(self)@.limit ==> result is Ok
                && final(self)@.text == old(self)@.text + value@,
            utf8_len(old(self)@.text) + utf8_len(value@) > old(self)@.limit ==> result == Err::<
                (),
                DataConversionError,
            >(
                DataConversionError::InvalidValue {
                    from: old(self)@.from,
                    to: old(self)@.to,
                    reason: DataConversionErrorKind::OutOfRange,
                },
            ) && final(self)@.text == old(self)@.text,
    {
        let bytes = value.as_bytes().len();
        if bytes > self.limit - self.used {
            return Err(
                DataConversionError::invalid(self.from, self.to, DataConversionErrorKind::OutOfRange),
            );
        }
        let ghost before = self.text@;
        self.text.append(value);
        self.used = self.used + bytes;
        proof {
            lemma_encode_utf8_concat(before, value@);
        }
        Ok(())
    }

    /// Writes one Unicode scalar value.
    ///
    /// # Errors
    ///
    /// Returns the same errors as [`Self::write_str`].
    pub fn write_char(&mut self, value: char) -> (result: Result<(), DataConversionError>)
        requires
            old(self).well_formed(),
        ensures
            final(self).well_formed(),
            final(self)@.limit == old(self)@.limit,
            final(self)@.from == old(self)@.from,
            final(self)@.to == old(self)@.to,
            utf8_len(old(self)@.text) + utf8_len(seq![value]) <= old(self)@.limit ==> result is Ok
                && final(self)@.text == old(self)@.text.push(value),
            utf8_len(old(self)@.text) + utf8_len(seq![value]) > old(self)@.limit ==> result == Err::<
                (),
                DataConversionError,
            >(
                DataConversionError::InvalidValue {
                    from: old(self)@.from,
                    to: old(self)@.to,
                    reason: DataConversionErrorKind::OutOfRange,
                },
            ) && final(self)@.text == old(self)@.text,
    {
        let chars = vec![value];
        let single = string_from_chars(&chars);
        let slice = single.as_str();
        proof {
            assert(slice@ =~= seq![value]);
            assert(old(self)@.text + slice@ =~= old(self)@.text.push(value));
        }
        self.write_str(slice)
    }

    /// Writes pre-built formatting arguments.
    ///
    /// # Errors
    ///
    /// Returns the same errors as [`Self::write_str`], for the formatted text.
    pub fn write_fmt(&mut self, arguments: core::fmt::Arguments<'_>) -> (result: Result<
        (),
        DataConversionError,
    >)
        requires
            old(self).well_formed(),
        ensures
            final(self).well_formed(),
            final(self)@.limit == old(self)@.limit,
            final(self)@.from == old(self)@.from,
            final(self)@.to == old(self)@.to,
            exists|rendered: String|
                #[trigger] vstd::string::to_string_from_display_ensures::<core::fmt::Arguments<'_>>(
                    &arguments,
                    rendered,
                ) && (if utf8_len(old(self)@.text) + utf8_len(rendered@) <= old(self)@.limit {
                    result is Ok && final(self)@.text == old(self)@.text + rendered@
                } else {
                    result == Err::<(), DataConversionError>(
                        DataConversionError::InvalidValue {
                            from: old(self)@.from,
                            to: old(self)@.to,
                            reason: DataConversionErrorKind::OutOfRange,
                        },
                    ) && final(self)@.text == old(self)@.text
                }),
    {
        self.write_display(&arguments)
    }

    /// Formats a displayable value and writes its text.
    ///
    /// # Errors
    ///
    /// Returns the same errors as [`Self::write_str`], for the formatted text.
    pub fn write_display<T: core::fmt::Display + ?Sized>(&mut self, value: &T) -> (result: Result<
        (),
        DataConversionError,
    >)
        requires
            old(self).well_formed(),
        ensures
            final(self).well_formed(),
            final(self)@.limit == old(self)@.limit,
            final(self)@.from == old(self)@.from,
            final(self)@.to == old(self)@.to,
            exists|rendered: String|
                #[trigger] vstd::string::to_string_from_display_ensures::<T>(value, rendered) && (
                if utf8_len(old(self)@.text) + utf8_len(rendered@) <= old(self)@.limit {
                    result is Ok && final(self)@.text == old(self)@.text + rendered@
                } else {
                    result == Err::<(), DataConversionError>(
                        DataConversionError::InvalidValue {
                            from: old(self)@.from,
                            to: old(self)@.to,
                            reason: DataConversionErrorKind::OutOfRange,
                        },
                    ) && final(self)@.text == old(self)@.text
                }),
    {
        let rendered = value.to_string();
        let result = self.write_str(rendered.as_str());
        assert(vstd::string::to_string_from_display_ensures::<T>(value, rendered));
        result
    }

    /// The text written so far.
    pub fn as_str(&self) -> (text: &str)
        ensures
            text@ == self@.text,
    {
        self.text.as_str()
    }

    /// The number of UTF-8 bytes written so far.
    pub fn used_bytes(&self) -> (bytes: usize)
        requires
            self.well_formed(),
        ensures
            bytes == utf8_len(self@.text),
    {
        self.used
    }

    /// Ends the rendering and returns the text.
    pub fn into_string(self) -> (text: String)
        ensures
            text@ == self@.text,
    {
        self.text
    }
}

} // verus!
