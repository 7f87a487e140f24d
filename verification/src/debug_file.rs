//! Descriptors for the analysis dataset: each names one relation, the
//! delimited data file holding its records, the zero-based field
//! positions that carry node ids, and the location file resolving them.

use vstd::prelude::*;

verus! {

/// One dataset descriptor.
#[derive(Clone, Debug)]
pub struct DebugJson {
    /// The relation (category) name.
    pub name: String,
    /// The relative path of the delimited data file.
    pub file: String,
    /// The zero-based field positions holding node ids.
    pub fields_with_nodes: Vec<usize>,
    /// The relative path of the location file for those nodes.
    pub loc_file: String,
}

impl DebugJson {
    pub fn new(name: String, file: String, fields_with_nodes: Vec<usize>, loc_file: String) -> (r:
        DebugJson)
        ensures
            r.name == name,
            r.file == file,
            r.fields_with_nodes == fields_with_nodes,
            r.loc_file == loc_file,
    {
        DebugJson { name, file, fields_with_nodes, loc_file }
    }
}

} // verus!
