//! An interactive browser for static-analysis output: analysis records that
//! reference node identifiers are correlated with the source ranges those
//! nodes occupy, so that an operator can jump from a record to its source
//! location, or from a cursor position to every record touching it.

pub mod analysis;
pub mod app_state;
pub mod csv_file;
pub mod csv_parser;
pub mod debug_file;
pub mod diagnostic;
pub mod input;
pub mod list;
pub mod loc_file;
pub mod metainfo;
pub mod source_file;
pub mod source_view;
pub mod text;

use vstd::prelude::*;

verus! {

/// Why loading an input file's contents into the index failed.
#[derive(Clone, Copy, PartialEq, Eq, Structural, Debug)]
pub enum LoadError {
    /// A line had fewer delimited fields than its format requires.
    MissingField,
    /// A field that must be a decimal integer was empty, held a
    /// non-digit character, or exceeded the machine's integer range.
    BadNumber,
}

} // verus!
