//! A source file held by the index: its name as the location files
//! refer to it, and its full text.

use vstd::prelude::*;

verus! {

/// One cached source file.
#[derive(Debug)]
pub struct SourceFile {
    pub name: String,
    pub content: String,
}

impl SourceFile {
    pub fn new(name: String, content: String) -> (r: SourceFile)
        ensures
            r.name == name,
            r.content == content,
    {
        SourceFile { name, content }
    }
}

} // verus!
