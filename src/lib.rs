//! Parsing and validation of locale translation resources: keys and key
//! paths, locale tags, numeric ranges, plural categories, foreign keys,
//! formatters, and the schema checks that tie them together.

pub mod key;
pub mod error;
pub mod formatter;
pub mod ranges;
pub mod foreign;
pub mod locale;
pub mod plurals;
pub mod config;
pub mod schema;
pub mod args;
pub mod initial;
pub mod values;
pub mod message;
