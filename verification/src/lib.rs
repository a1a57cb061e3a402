//! An in-memory catalog of book records.
//!
//! The catalog keeps its records in insertion order and offers insertion,
//! removal of the first record with a given title, exact lookup by title,
//! and filtering by author. Small string and arithmetic helpers used by
//! the surrounding command loop live in their own modules.

pub mod catalog;
pub mod decimal;
pub mod math_utils;
pub mod string_utils;

pub use catalog::Book;
pub use catalog::CatalogError;
pub use catalog::Library;
