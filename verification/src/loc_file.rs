//! Inclusive line/column source ranges and the containment rules the
//! index and the renderer share.

use crate::text::{parse_usize, spec_all_digits, spec_num_value, spec_split, split_on};
use crate::LoadError;
use vstd::prelude::*;

verus! {

/// Whether the field reads as a decimal `usize`: nonempty, all digits,
/// and within the machine's range.
pub open spec fn spec_field_is_usize(f: Seq<char>) -> bool {
    f.len() > 0 && spec_all_digits(f) && spec_num_value(f) <= usize::MAX
}

/// An inclusive source range, 1-indexed: lines `start_line..=end_line`,
/// and within them columns `start_col..=end_col`.
#[derive(Clone, Copy, Debug)]
pub struct Loc {
    pub start_line: usize,
    pub start_col: usize,
    pub end_line: usize,
    pub end_col: usize,
}

/// The tri-case rule deciding whether a 1-indexed point `(line, col)`
/// falls inside a range: on a single-line range the column must lie
/// between the range's columns; on the first line of a multi-line range
/// it must be at or after `start_col`; on the last line at or before
/// `end_col`; interior lines contain every column.
pub open spec fn spec_contains_point(l: Loc, line: int, col: int) -> bool {
    &&& l.start_line <= line <= l.end_line
    &&& if l.start_line == l.end_line {
        l.start_col <= col <= l.end_col
    } else if line == l.start_line {
        col >= l.start_col
    } else if line == l.end_line {
        col <= l.end_col
    } else {
        true
    }
}

impl Loc {
    /// Whether this range encloses `other`: it starts no later and ends
    /// no earlier, in both the line and the column coordinate.
    pub fn contains(&self, other: &Loc) -> (r: bool)
        ensures
            r == (self.start_line <= other.start_line && self.end_line >= other.end_line
                && self.start_col <= other.start_col && self.end_col >= other.end_col),
    {
        self.start_line <= other.start_line && self.end_line >= other.end_line
            && self.start_col <= other.start_col && self.end_col >= other.end_col
    }

    pub fn contained_by(&self, other: &Loc) -> (r: bool)
        ensures
            r == !(self.start_line <= other.start_line && self.end_line >= other.end_line
                && self.start_col <= other.start_col && self.end_col >= other.end_col),
    {
        !self.contains(other)
    }

    /// Whether the 1-indexed point `(line, col)` falls inside this range,
    /// by the tri-case rule. The point-query path and the per-character
    /// overlap path both go through this one function.
    pub fn contains_point(&self, line: usize, col: usize) -> (r: bool)
        ensures
            r == spec_contains_point(*self, line as int, col as int),
    {
        if !(self.start_line <= line && line <= self.end_line) {
            false
        } else if self.start_line == self.end_line {
            self.start_col <= col && col <= self.end_col
        } else if line == self.start_line {
            col >= self.start_col
        } else if line == self.end_line {
            col <= self.end_col
        } else {
            true
        }
    }
}

impl Loc {
    /// Reads a range from a comma-delimited line
    /// `start_line,start_col,end_line,end_col`; any further fields are
    /// ignored. `MissingField` when fewer than four fields are present,
    /// `BadNumber` when one of the four is not a machine-sized numeral.
    pub fn from_str(s: &str) -> (r: Result<Loc, LoadError>)
        ensures
            ({
                let fs = spec_split(s@, ',');
                match r {
                    Ok(l) => {
                        &&& fs.len() >= 4
                        &&& forall|k: int| 0 <= k < 4 ==> spec_field_is_usize(#[trigger] fs[k])
                        &&& l.start_line == spec_num_value(fs[0])
                        &&& l.start_col == spec_num_value(fs[1])
                        &&& l.end_line == spec_num_value(fs[2])
                        &&& l.end_col == spec_num_value(fs[3])
                    },
                    Err(LoadError::MissingField) => fs.len() < 4,
                    Err(LoadError::BadNumber) => fs.len() >= 4 && exists|k: int|
                        0 <= k < 4 && !spec_field_is_usize(#[trigger] fs[k]),
                }
            }),
    {
        let fields = split_on(s, ',');
        let ghost fs = spec_split(s@, ',');
        if fields.len() < 4 {
            return Err(LoadError::MissingField);
        }
        assert(forall|k: int| 0 <= k < fs.len() ==> #[trigger] fs[k] == fields@[k]@);
        let start_line = match parse_usize(fields[0].as_str()) {
            Some(v) => v,
            None => {
                assert(!spec_field_is_usize(fs[0]));
                return Err(LoadError::BadNumber);
            },
        };
        let start_col = match parse_usize(fields[1].as_str()) {
            Some(v) => v,
            None => {
                assert(!spec_field_is_usize(fs[1]));
                return Err(LoadError::BadNumber);
            },
        };
        let end_line = match parse_usize(fields[2].as_str()) {
            Some(v) => v,
            None => {
                assert(!spec_field_is_usize(fs[2]));
                return Err(LoadError::BadNumber);
            },
        };
        let end_col = match parse_usize(fields[3].as_str()) {
            Some(v) => v,
            None => {
                assert(!spec_field_is_usize(fs[3]));
                return Err(LoadError::BadNumber);
            },
        };
        Ok(Loc { start_line, start_col, end_line, end_col })
    }
}

/// A node's source range: the analysis' integer node identifier, the
/// path of the source file it lies in, and the range itself.
#[derive(Clone, Debug)]
pub struct DebugLoc {
    pub node_id: usize,
    pub source_file: String,
    pub loc: Loc,
}

/// Whether a location-file line is well formed: at least six fields,
/// the first and the third through sixth machine-sized numerals.
pub open spec fn spec_loc_line_ok(line: Seq<char>) -> bool {
    let fs = spec_split(line, ',');
    &&& fs.len() >= 6
    &&& spec_field_is_usize(fs[0])
    &&& forall|k: int| 2 <= k < 6 ==> spec_field_is_usize(#[trigger] fs[k])
}

/// The error a malformed location-file line draws: too few fields, or
/// a numeric field that does not read as a machine-sized numeral.
pub open spec fn spec_loc_line_err(line: Seq<char>) -> LoadError {
    if spec_split(line, ',').len() < 6 {
        LoadError::MissingField
    } else {
        LoadError::BadNumber
    }
}

/// What a location parsed from `line` holds: the node id, the source
/// file name, and the four range coordinates, in field order.
pub open spec fn spec_debug_loc_ok(d: DebugLoc, line: Seq<char>) -> bool {
    let fs = spec_split(line, ',');
    &&& d.node_id == spec_num_value(fs[0])
    &&& d.source_file@ == fs[1]
    &&& d.loc.start_line == spec_num_value(fs[2])
    &&& d.loc.start_col == spec_num_value(fs[3])
    &&& d.loc.end_line == spec_num_value(fs[4])
    &&& d.loc.end_col == spec_num_value(fs[5])
}

impl DebugLoc {
    /// Reads one location-file line
    /// `node_id,source_file,start_line,start_col,end_line,end_col`; any
    /// further fields are ignored. `MissingField` when fewer than six
    /// fields are present, `BadNumber` when a numeric field is not a
    /// machine-sized numeral.
    pub fn from_str(s: &str) -> (r: Result<DebugLoc, LoadError>)
        ensures
            match r {
                Ok(d) => spec_loc_line_ok(s@) && spec_debug_loc_ok(d, s@),
                Err(e) => !spec_loc_line_ok(s@) && e == spec_loc_line_err(s@),
            },
    {
        let fields = split_on(s, ',');
        let ghost fs = spec_split(s@, ',');
        if fields.len() < 6 {
            return Err(LoadError::MissingField);
        }
        assert(forall|k: int| 0 <= k < fs.len() ==> #[trigger] fs[k] == fields@[k]@);
        let node_id = match parse_usize(fields[0].as_str()) {
            Some(v) => v,
            None => {
                assert(!spec_field_is_usize(fs[0]));
                return Err(LoadError::BadNumber);
            },
        };
        let source_file = fields[1].clone();
        let start_line = match parse_usize(fields[2].as_str()) {
            Some(v) => v,
            None => {
                assert(!spec_field_is_usize(fs[2]));
                return Err(LoadError::BadNumber);
            },
        };
        let start_col = match parse_usize(fields[3].as_str()) {
            Some(v) => v,
            None => {
                assert(!spec_field_is_usize(fs[3]));
                return Err(LoadError::BadNumber);
            },
        };
        let end_line = match parse_usize(fields[4].as_str()) {
            Some(v) => v,
            None => {
                assert(!spec_field_is_usize(fs[4]));
                return Err(LoadError::BadNumber);
            },
        };
        let end_col = match parse_usize(fields[5].as_str()) {
            Some(v) => v,
            None => {
                assert(!spec_field_is_usize(fs[5]));
                return Err(LoadError::BadNumber);
            },
        };
        Ok(
            DebugLoc {
                node_id,
                source_file,
                loc: Loc { start_line, start_col, end_line, end_col },
            },
        )
    }
}

/// On a range confined to one line, point containment is exactly the
/// column test `start_col <= col <= end_col` on that line.
pub proof fn lemma_single_line_containment(l: Loc, col: int)
    requires
        l.start_line == l.end_line,
    ensures
        spec_contains_point(l, l.start_line as int, col) == (l.start_col <= col <= l.end_col),
{
}

} // verus!
