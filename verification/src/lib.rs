//! Typed runtime data conversion with explicit, verified policies.

pub mod data_type;
pub mod error;
pub mod messages;
pub mod policy;
pub mod text;
pub mod numeric_text;
pub mod decimal;
pub mod exactness;
pub mod big_integer;
pub mod big_decimal;
pub mod url_value;
pub mod temporal;
pub mod duration;
pub mod boolean_options;
pub mod collection_options;
pub mod options;
pub mod converter;
pub mod source;
pub mod convert_to;
pub mod converters;
pub mod capabilities;
pub mod counting_writer;
pub mod conversion_string_writer;
pub mod string_map;
pub mod laws;

pub use data_type::DataType;
