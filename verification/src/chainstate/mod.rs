//! What block validation reports.

pub mod error;
