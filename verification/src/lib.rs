//! Converts bank-statement CSV lines into ledger journal text.
//!
//! The pipeline runs in three stages, one input line at a time:
//! a line is split into a typed [`parser::Record`], the record is mapped
//! into a [`transformer::Transaction`] with a single posting, and the
//! transaction is rendered as two aligned journal lines.

pub mod amount;
pub mod converter;
pub mod input;
pub mod parser;
pub mod text;
pub mod transformer;

pub use crate::converter::convert_line;
pub use crate::converter::ConvertReport;
pub use crate::input::Params;
pub use crate::input::Source;
