//! Hydrated analysis records: a relation name, the node ids the record
//! references, one resolved source range per node, and an occurrence
//! cursor for stepping through those ranges one at a time.

use crate::loc_file::Loc;
use vstd::prelude::*;

verus! {

/// The occurrence cursor after one `next` step: `None` counts as index
/// 0, and the cursor saturates at the last location.
pub open spec fn spec_next_occ(occ: Option<usize>, len: nat) -> Option<usize>
    recommends
        len > 0,
{
    let c = match occ {
        Some(x) => x as nat,
        None => 0,
    };
    if c + 1 < len {
        Some((c + 1) as usize)
    } else {
        Some((len - 1) as usize)
    }
}

/// The occurrence cursor after one `prev` step: an armed cursor moves
/// back and stops at 0, an unarmed one stays unarmed.
pub open spec fn spec_prev_occ(occ: Option<usize>) -> Option<usize> {
    match occ {
        Some(x) => if x == 0 {
            Some(0usize)
        } else {
            Some((x - 1) as usize)
        },
        None => None,
    }
}

/// `k` successive `next` steps.
pub open spec fn spec_next_k(occ: Option<usize>, len: nat, k: nat) -> Option<usize>
    decreases k,
{
    if k == 0 {
        occ
    } else {
        spec_next_occ(spec_next_k(occ, len, (k - 1) as nat), len)
    }
}

/// `k` successive `prev` steps.
pub open spec fn spec_prev_k(occ: Option<usize>, k: nat) -> Option<usize>
    decreases k,
{
    if k == 0 {
        occ
    } else {
        spec_prev_occ(spec_prev_k(occ, (k - 1) as nat))
    }
}

/// Stepping forward from the first occurrence stays one ahead per step
/// while the walk keeps short of the last location.
proof fn lemma_next_k_counts(len: nat, k: nat)
    requires
        0 < len <= usize::MAX,
        k <= len - 1,
    ensures
        spec_next_k(Some(0usize), len, k) == Some(k as usize),
    decreases k,
{
    if k > 0 {
        lemma_next_k_counts(len, (k - 1) as nat);
    }
}

/// Stepping back as many times as the cursor stands high lands on the
/// first occurrence.
proof fn lemma_prev_k_unwinds(j: nat, k: nat)
    requires
        j <= k <= usize::MAX,
        j <= usize::MAX,
    ensures
        spec_prev_k(Some(j as usize), k) == Some(0usize),
    decreases k,
{
    if k > 0 {
        if j <= k - 1 {
            lemma_prev_k_unwinds(j, (k - 1) as nat);
        } else {
            lemma_prev_shift(j, (k - 1) as nat);
        }
    }
}

/// Stepping back from `Some(j)` and from `Some(j-1)` differ by one for
/// the whole walk, until the higher start has reached 0.
proof fn lemma_prev_shift(j: nat, k: nat)
    requires
        1 <= j <= usize::MAX,
        k <= j - 1,
    ensures
        spec_prev_k(Some(j as usize), k) == Some((j - k) as usize),
    decreases k,
{
    if k > 0 {
        lemma_prev_shift(j, (k - 1) as nat);
    }
}

/// Occurrence cycling round trip: from the armed start, `k` `next`
/// steps followed by `k` `prev` steps return to the first occurrence,
/// whenever `k` keeps within the `len - 1` steps the cursor can move.
pub proof fn lemma_occurrence_round_trip(len: nat, k: nat)
    requires
        0 < len <= usize::MAX,
        k <= len - 1,
    ensures
        spec_prev_k(spec_next_k(Some(0usize), len, k), k) == Some(0usize),
{
    lemma_next_k_counts(len, k);
    if k > 0 {
        lemma_prev_k_unwinds(k, k);
    }
}

/// One analysis record, hydrated: the relation it belongs to, its node
/// ids, one source range per node id (same order), and the occurrence
/// cursor. `occurrence == None` means no occurrence is highlighted;
/// `Some(i)` highlights the `i`-th location.
#[derive(Clone)]
pub struct Tuple {
    pub name: String,
    pub nodes: Vec<usize>,
    pub locs: Vec<Loc>,
    pub occurrence: Option<usize>,
}

impl Tuple {
    /// A fresh record starts with no occurrence highlighted.
    pub fn new(name: String, nodes: Vec<usize>, locs: Vec<Loc>) -> (r: Tuple)
        ensures
            r.name == name,
            r.nodes == nodes,
            r.locs == locs,
            r.occurrence is None,
    {
        Tuple { name, nodes, locs, occurrence: None }
    }

    /// Advances the occurrence cursor, saturating at the last location;
    /// an unarmed cursor counts as standing on the first. A record
    /// without locations is left as it is. The cursor never passes
    /// `locs.len() - 1`.
    pub fn next(&mut self)
        ensures
            old(self).locs@.len() > 0 ==> final(self).occurrence == spec_next_occ(
                old(self).occurrence,
                old(self).locs@.len(),
            ),
            old(self).locs@.len() > 0 ==> (final(self).occurrence matches Some(i) && i < old(
                self,
            ).locs@.len()),
            old(self).locs@.len() == 0 ==> final(self).occurrence == old(self).occurrence,
            final(self).name == old(self).name,
            final(self).nodes == old(self).nodes,
            final(self).locs == old(self).locs,
    {
        if self.locs.len() == 0 {
            return ;
        }
        let c = match self.occurrence {
            Some(x) => x,
            None => 0,
        };
        let cap = self.locs.len() - 1;
        self.occurrence = Some(if c < cap {
            c + 1
        } else {
            cap
        });
    }

    /// Moves the occurrence cursor back one location, stopping at the
    /// first; an unarmed cursor stays unarmed. Once armed, the cursor
    /// stays armed.
    pub fn prev(&mut self)
        ensures
            final(self).occurrence == spec_prev_occ(old(self).occurrence),
            old(self).occurrence is Some ==> final(self).occurrence is Some,
            final(self).name == old(self).name,
            final(self).nodes == old(self).nodes,
            final(self).locs == old(self).locs,
    {
        self.occurrence = match self.occurrence {
            Some(x) => if x == 0 {
                Some(0)
            } else {
                Some(x - 1)
            },
            None => None,
        };
    }

    /// Disarms the occurrence cursor.
    pub fn unset(&mut self)
        ensures
            final(self).occurrence is None,
            final(self).name == old(self).name,
            final(self).nodes == old(self).nodes,
            final(self).locs == old(self).locs,
    {
        self.occurrence = None;
    }

    /// Arms the occurrence cursor on the first location.
    pub fn set(&mut self)
        ensures
            final(self).occurrence == Some(0usize),
            final(self).name == old(self).name,
            final(self).nodes == old(self).nodes,
            final(self).locs == old(self).locs,
    {
        self.occurrence = Some(0);
    }

    /// The currently highlighted location: the armed one, or the first
    /// as a default when unarmed; nothing when the record has no
    /// locations (or the cursor stands past them).
    pub fn current(&self) -> (r: Option<&Loc>)
        ensures
            ({
                let c = match self.occurrence {
                    Some(x) => x as int,
                    None => 0,
                };
                match r {
                    Some(l) => c < self.locs@.len() && *l == self.locs@[c],
                    None => c >= self.locs@.len(),
                }
            }),
    {
        let c = match self.occurrence {
            Some(x) => x,
            None => 0,
        };
        if c < self.locs.len() {
            Some(&self.locs[c])
        } else {
            None
        }
    }
}

/// One relation (record category), with a flag marking it as the one
/// whose records are currently listed.
#[derive(Clone)]
pub struct Relation {
    pub name: String,
    pub current: bool,
}

impl Relation {
    pub fn new(name: String) -> (r: Relation)
        ensures
            r.name == name,
            !r.current,
    {
        Relation { name, current: false }
    }

    pub fn mark(&mut self)
        ensures
            final(self).name == old(self).name,
            final(self).current,
    {
        self.current = true;
    }

    pub fn unmark(&mut self)
        ensures
            final(self).name == old(self).name,
            !final(self).current,
    {
        self.current = false;
    }
}

} // verus!
