//! `ffreader` extracts structured fields from fixed-width flat text lines.
//!
//! Each line is a record whose fields occupy known, fixed character ranges.
//! A schema is a list of [`DataFieldDef`] values, each naming one field, its
//! half-open character range `[start, end)`, and a caller-supplied
//! post-processing function. [`DataRow::try_create`] validates the line
//! length, extracts every field in definition order, and either yields a
//! complete row or fails on the first field error.

pub mod decimal;
pub mod trim;
pub mod datafield;
pub mod datarow;

pub use datafield::DataField;
pub use datafield::DataFieldDef;
pub use datafield::DataFieldError;
pub use datafield::DataFieldResult;

pub use datarow::DataRow;
pub use datarow::DataRowError;
pub use datarow::DataRowResult;
pub use datarow::required_length;
