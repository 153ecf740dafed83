//! Absolute URLs, parsed and serialized by the `url` crate and held as their
//! serialization.

use vstd::prelude::*;

use crate::data_type::DataType;
use crate::error::{text_error, DataConversionError, DataConversionErrorKind};

verus! {

/// An absolute URL, held as the serialization `url` produced for it.
#[derive(Clone, Debug, PartialEq, Eq)]
pub struct Url {
    serialization: String,
}

impl Url {
    /// The serialization.
    pub closed spec fn serialization(&self) -> Seq<char> {
        self.serialization@
    }
}

impl View for Url {
    type V = Seq<char>;

    open spec fn view(&self) -> Seq<char> {
        self.serialization()
    }
}

/// The serialization of the URL `url`'s `Url::parse` reads from text, or
/// `None` where it reports an error.
pub uninterp spec fn parsed_url(text: Seq<char>) -> Option<Seq<char>>;

/// Parses an absolute URL: `url`'s `Url::parse`, kept as `Url::as_str`. The
/// contract claims only that the outcome is the named parse of the text;
/// which texts `url` accepts, and how it normalizes them, is left unsaid.
#[verifier::external_body]
fn parse_url(text: &str) -> (parsed: Option<Url>)
    ensures
        match parsed {
            Some(u) => parsed_url(text@) == Some(u@),
            None => parsed_url(text@) is None,
        },
{
    match url::Url::parse(text) {
        Ok(value) => Some(Url { serialization: String::from(value.as_str()) }),
        Err(_) => None,
    }
}

/// The syntax label of a URL.
pub open spec fn url_syntax_error() -> DataConversionError {
    text_error(DataType::Url, DataConversionErrorKind::InvalidSyntax { expected: "absolute URL" })
}

/// What the URL parser's outcome becomes: the parsed URL, or a syntax error.
pub open spec fn url_parse_result(parsed: Option<Seq<char>>) -> Result<
    Seq<char>,
    DataConversionError,
> {
    match parsed {
        Some(u) => Ok(u),
        None => Err(url_syntax_error()),
    }
}

/// Maps the URL parser's outcome to the conversion result: the parsed URL,
/// or the absolute-URL syntax error.
pub fn url_parse_outcome(parsed: Option<Url>) -> (result: Result<Url, DataConversionError>)
    ensures
        match parsed {
            Some(u) => result matches Ok(r) && r@ == u@,
            None => result == Err::<Url, DataConversionError>(url_syntax_error()),
        },
{
    match parsed {
        Some(url) => Ok(url),
        None => Err(DataConversionError::invalid(
            DataType::String,
            DataType::Url,
            DataConversionErrorKind::InvalidSyntax { expected: "absolute URL" },
        )),
    }
}

/// Parses normalized text as an absolute URL.
pub fn parse_url_text(text: &str) -> (result: Result<Url, DataConversionError>)
    ensures
        match url_parse_result(parsed_url(text@)) {
            Ok(u) => result matches Ok(r) && r@ == u,
            Err(e) => result == Err::<Url, DataConversionError>(e),
        },
{
    url_parse_outcome(parse_url(text))
}

impl Url {
    /// The serialization.
    pub fn as_str(&self) -> (text: &str)
        ensures
            text@ == self@,
    {
        self.serialization.as_str()
    }

    /// The serialization, as an owned string.
    pub fn to_text(&self) -> (text: String)
        ensures
            text@ == self@,
    {
        self.serialization.clone()
    }

    /// A copy of this URL.
    pub fn clone_value(&self) -> (copy: Url)
        ensures
            copy@ == self@,
    {
        Url { serialization: self.serialization.clone() }
    }
}

} // verus!
