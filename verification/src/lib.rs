//! Conversion of zero-indexed `(row, column)` cell coordinates to
//! spreadsheet-style A1 reference strings, with optional `$` markers for
//! absolute references. Column indices are named through the bijective
//! base-26 numbering (digits 1..26 mapped to the letters A..Z, with no
//! zero digit), exactly as spreadsheet columns are lettered.

pub mod error;
pub mod laws;
pub mod utility;
