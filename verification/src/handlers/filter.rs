//! `$column` references in filter expressions.
pub use super::input::expand_dollar_refs;
