//! A narrower reading of the location format whose coordinates are
//! 32-bit: used where the record stream declares 32-bit node ids.

use crate::text::{parse_usize, spec_all_digits, spec_num_value, spec_split, split_on};
use crate::LoadError;
use vstd::prelude::*;

verus! {

/// Whether the field reads as a decimal `u32`: nonempty, all digits,
/// and within 32-bit range.
pub open spec fn spec_field_is_u32(f: Seq<char>) -> bool {
    f.len() > 0 && spec_all_digits(f) && spec_num_value(f) <= u32::MAX
}

/// Reads a 32-bit decimal field.
fn parse_u32(s: &str) -> (r: Option<u32>)
    ensures
        r is Some <==> spec_field_is_u32(s@),
        r is Some ==> r->Some_0 == spec_num_value(s@),
{
    match parse_usize(s) {
        Some(v) => {
            if v <= u32::MAX as usize {
                Some(v as u32)
            } else {
                None
            }
        },
        None => None,
    }
}

/// An inclusive source range with 32-bit coordinates, 1-indexed.
#[derive(Clone, Copy, Debug)]
pub struct Loc {
    pub start_line: u32,
    pub start_col: u32,
    pub end_line: u32,
    pub end_col: u32,
}

impl Loc {
    /// Reads a range from a comma-delimited line
    /// `start_line,start_col,end_line,end_col`; any further fields are
    /// ignored.
    pub fn from_str(s: &str) -> (r: Result<Loc, LoadError>)
        ensures
            ({
                let fs = spec_split(s@, ',');
                match r {
                    Ok(l) => {
                        &&& fs.len() >= 4
                        &&& forall|k: int| 0 <= k < 4 ==> spec_field_is_u32(#[trigger] fs[k])
                        &&& l.start_line == spec_num_value(fs[0])
                        &&& l.start_col == spec_num_value(fs[1])
                        &&& l.end_line == spec_num_value(fs[2])
                        &&& l.end_col == spec_num_value(fs[3])
                    },
                    Err(LoadError::MissingField) => fs.len() < 4,
                    Err(LoadError::BadNumber) => fs.len() >= 4 && exists|k: int|
                        0 <= k < 4 && !spec_field_is_u32(#[trigger] fs[k]),
                }
            }),
    {
        let fields = split_on(s, ',');
        let ghost fs = spec_split(s@, ',');
        if fields.len() < 4 {
            return Err(LoadError::MissingField);
        }
        assert(forall|k: int| 0 <= k < fs.len() ==> #[trigger] fs[k] == fields@[k]@);
        let start_line = match parse_u32(fields[0].as_str()) {
            Some(v) => v,
            None => {
                assert(!spec_field_is_u32(fs[0]));
                return Err(LoadError::BadNumber);
            },
        };
        let start_col = match parse_u32(fields[1].as_str()) {
            Some(v) => v,
            None => {
                assert(!spec_field_is_u32(fs[1]));
                return Err(LoadError::BadNumber);
            },
        };
        let end_line = match parse_u32(fields[2].as_str()) {
            Some(v) => v,
            None => {
                assert(!spec_field_is_u32(fs[2]));
                return Err(LoadError::BadNumber);
            },
        };
        let end_col = match parse_u32(fields[3].as_str()) {
            Some(v) => v,
            None => {
                assert(!spec_field_is_u32(fs[3]));
                return Err(LoadError::BadNumber);
            },
        };
        Ok(Loc { start_line, start_col, end_line, end_col })
    }
}

/// A node's source range with a 32-bit node identifier.
#[derive(Clone, Debug)]
pub struct DebugLoc {
    pub node_id: u32,
    pub source_file: String,
    pub loc: Loc,
}

impl DebugLoc {
    /// Reads one line `node_id,source_file,start_line,start_col,end_line,end_col`;
    /// any further fields are ignored.
    pub fn from_str(s: &str) -> (r: Result<DebugLoc, LoadError>)
        ensures
            ({
                let fs = spec_split(s@, ',');
                match r {
                    Ok(d) => {
                        &&& fs.len() >= 6
                        &&& spec_field_is_u32(fs[0])
                        &&& forall|k: int| 2 <= k < 6 ==> spec_field_is_u32(#[trigger] fs[k])
                        &&& d.node_id == spec_num_value(fs[0])
                        &&& d.source_file@ == fs[1]
                        &&& d.loc.start_line == spec_num_value(fs[2])
                        &&& d.loc.start_col == spec_num_value(fs[3])
                        &&& d.loc.end_line == spec_num_value(fs[4])
                        &&& d.loc.end_col == spec_num_value(fs[5])
                    },
                    Err(LoadError::MissingField) => fs.len() < 6,
                    Err(LoadError::BadNumber) => fs.len() >= 6 && (!spec_field_is_u32(fs[0])
                        || exists|k: int| 2 <= k < 6 && !spec_field_is_u32(#[trigger] fs[k])),
                }
            }),
    {
        let fields = split_on(s, ',');
        let ghost fs = spec_split(s@, ',');
        if fields.len() < 6 {
            return Err(LoadError::MissingField);
        }
        assert(forall|k: int| 0 <= k < fs.len() ==> #[trigger] fs[k] == fields@[k]@);
        let node_id = match parse_u32(fields[0].as_str()) {
            Some(v) => v,
            None => {
                assert(!spec_field_is_u32(fs[0]));
                return Err(LoadError::BadNumber);
            },
        };
        let source_file = fields[1].clone();
        let start_line = match parse_u32(fields[2].as_str()) {
            Some(v) => v,
            None => {
                assert(!spec_field_is_u32(fs[2]));
                return Err(LoadError::BadNumber);
            },
        };
        let start_col = match parse_u32(fields[3].as_str()) {
            Some(v) => v,
            None => {
                assert(!spec_field_is_u32(fs[3]));
                return Err(LoadError::BadNumber);
            },
        };
        let end_line = match parse_u32(fields[4].as_str()) {
            Some(v) => v,
            None => {
                assert(!spec_field_is_u32(fs[4]));
                return Err(LoadError::BadNumber);
            },
        };
        let end_col = match parse_u32(fields[5].as_str()) {
            Some(v) => v,
            None => {
                assert(!spec_field_is_u32(fs[5]));
                return Err(LoadError::BadNumber);
            },
        };
        Ok(
            DebugLoc {
                node_id,
                source_file,
                loc: Loc { start_line, start_col, end_line, end_col },
            },
        )
    }
}

} // verus!
