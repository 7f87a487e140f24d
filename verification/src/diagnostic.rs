//! A diagnostic record: the same shape and occurrence cursor as an
//! analysis tuple, kept as its own type for streams of diagnostics.

use crate::analysis::{spec_next_occ, spec_prev_occ};
use crate::loc_file::Loc;
use vstd::prelude::*;

verus! {

/// One diagnostic, hydrated: its kind, its node ids, one source range
/// per node id (same order), and the occurrence cursor.
#[derive(Clone)]
pub struct Diagnostic {
    pub name: String,
    pub nodes: Vec<usize>,
    pub locs: Vec<Loc>,
    pub occurrence: Option<usize>,
}

impl Diagnostic {
    /// A fresh diagnostic starts with no occurrence highlighted.
    pub fn new(name: String, nodes: Vec<usize>, locs: Vec<Loc>) -> (r: Diagnostic)
        ensures
            r.name == name,
            r.nodes == nodes,
            r.locs == locs,
            r.occurrence is None,
    {
        Diagnostic { name, nodes, locs, occurrence: None }
    }

    /// Advances the occurrence cursor, saturating at the last location;
    /// an unarmed cursor counts as standing on the first. A diagnostic
    /// without locations is left as it is.
    pub fn next(&mut self)
        ensures
            old(self).locs@.len() > 0 ==> final(self).occurrence == spec_next_occ(
                old(self).occurrence,
                old(self).locs@.len(),
            ),
            old(self).locs@.len() > 0 ==> (final(self).occurrence matches Some(i) && i < old(
                self,
            ).locs@.len()),
            old(self).locs@.len() == 0 ==> final(self).occurrence == old(self).occurrence,
            final(self).name == old(self).name,
            final(self).nodes == old(self).nodes,
            final(self).locs == old(self).locs,
    {
        if self.locs.len() == 0 {
            return ;
        }
        let c = match self.occurrence {
            Some(x) => x,
            None => 0,
        };
        let cap = self.locs.len() - 1;
        self.occurrence = Some(if c < cap {
            c + 1
        } else {
            cap
        });
    }

    /// Moves the occurrence cursor back one location, stopping at the
    /// first; an unarmed cursor stays unarmed.
    pub fn prev(&mut self)
        ensures
            final(self).occurrence == spec_prev_occ(old(self).occurrence),
            old(self).occurrence is Some ==> final(self).occurrence is Some,
            final(self).name == old(self).name,
            final(self).nodes == old(self).nodes,
            final(self).locs == old(self).locs,
    {
        self.occurrence = match self.occurrence {
            Some(x) => if x == 0 {
                Some(0)
            } else {
                Some(x - 1)
            },
            None => None,
        };
    }

    /// Disarms the occurrence cursor.
    pub fn unset(&mut self)
        ensures
            final(self).occurrence is None,
            final(self).name == old(self).name,
            final(self).nodes == old(self).nodes,
            final(self).locs == old(self).locs,
    {
        self.occurrence = None;
    }

    /// Arms the occurrence cursor on the first location.
    pub fn set(&mut self)
        ensures
            final(self).occurrence == Some(0usize),
            final(self).name == old(self).name,
            final(self).nodes == old(self).nodes,
            final(self).locs == old(self).locs,
    {
        self.occurrence = Some(0);
    }

    /// The currently highlighted location: the armed one, or the first
    /// as a default when unarmed; nothing when the diagnostic has no
    /// locations (or the cursor stands past them).
    pub fn current(&self) -> (r: Option<&Loc>)
        ensures
            ({
                let c = match self.occurrence {
                    Some(x) => x as int,
                    None => 0,
                };
                match r {
                    Some(l) => c < self.locs@.len() && *l == self.locs@[c],
                    None => c >= self.locs@.len(),
                }
            }),
    {
        let c = match self.occurrence {
            Some(x) => x,
            None => 0,
        };
        if c < self.locs.len() {
            Some(&self.locs[c])
        } else {
            None
        }
    }
}

} // verus!
