//! A reusable selection list: an ordered collection with a browsing
//! cursor, a stickier confirmed selection, and a recomputable set of
//! marked indices.

use vstd::prelude::*;

verus! {

/// A cursor-tracked, markable list. The cursor browses; `confirmed`
/// only moves when the selection is explicitly accepted, so tentative
/// browsing triggers no side effects.
pub struct List<T> {
    pub items: Vec<T>,
    pub marked: Vec<usize>,
    pub confirmed: Option<usize>,
    pub cursor: usize,
}

impl<T> List<T> {
    /// The cursor, the confirmed selection and every mark point at an
    /// item (the cursor rests at 0 on an empty list).
    pub open spec fn wf(&self) -> bool {
        &&& self.items@.len() == 0 ==> self.cursor == 0
        &&& self.items@.len() > 0 ==> (self.cursor as int) < self.items@.len()
        &&& (self.confirmed matches Some(c) ==> (c as int) < self.items@.len())
        &&& forall|k: int|
            0 <= k < self.marked@.len() ==> (#[trigger] self.marked@[k] as int)
                < self.items@.len()
    }

    /// A fresh list: cursor on the first item, nothing confirmed,
    /// nothing marked.
    pub fn new(items: Vec<T>) -> (r: List<T>)
        ensures
            r.items == items,
            r.marked@.len() == 0,
            r.confirmed is None,
            r.cursor == 0,
            r.wf(),
    {
        List { items, marked: Vec::new(), confirmed: None, cursor: 0 }
    }

    /// Moves the cursor down one item, clamped to the last index; a
    /// no-op from the last index and on an empty list.
    pub fn down(&mut self)
        requires
            old(self).wf(),
        ensures
            final(self).wf(),
            final(self).items == old(self).items,
            final(self).marked == old(self).marked,
            final(self).confirmed == old(self).confirmed,
            old(self).items@.len() == 0 ==> final(self).cursor == old(self).cursor,
            old(self).items@.len() > 0 ==> final(self).cursor as int == if old(self).cursor + 1
                < old(self).items@.len() {
                old(self).cursor + 1
            } else {
                old(self).items@.len() - 1
            },
    {
        if self.items.len() == 0 {
            return ;
        }
        let cap = self.items.len() - 1;
        self.cursor = if self.cursor < cap {
            self.cursor + 1
        } else {
            cap
        };
    }

    /// Moves the cursor up one item, stopping at the first; a no-op
    /// from index 0.
    pub fn up(&mut self)
        requires
            old(self).wf(),
        ensures
            final(self).wf(),
            final(self).items == old(self).items,
            final(self).marked == old(self).marked,
            final(self).confirmed == old(self).confirmed,
            final(self).cursor == if old(self).cursor > 0 {
                (old(self).cursor - 1) as usize
            } else {
                0usize
            },
    {
        self.cursor = if self.cursor > 0 {
            self.cursor - 1
        } else {
            0
        };
    }

    /// Accepts the browsed item: copies the cursor into the confirmed
    /// selection. On an empty list nothing can be confirmed.
    pub fn confirm(&mut self)
        requires
            old(self).wf(),
        ensures
            final(self).wf(),
            final(self).items == old(self).items,
            final(self).marked == old(self).marked,
            final(self).cursor == old(self).cursor,
            old(self).items@.len() > 0 ==> final(self).confirmed == Some(old(self).cursor),
            old(self).items@.len() == 0 ==> final(self).confirmed is None,
    {
        self.confirmed = if self.items.len() > 0 {
            Some(self.cursor)
        } else {
            None
        };
    }

    /// Recomputes the marked set: exactly the indices whose item
    /// satisfies the predicate now, in increasing order. No mark
    /// survives from an earlier call.
    pub fn mark<F: Fn(&T) -> bool>(&mut self, f: F)
        requires
            old(self).wf(),
            forall|i: int|
                0 <= i < old(self).items@.len() ==> f.requires((&old(self).items@[i],)),
        ensures
            final(self).wf(),
            final(self).items == old(self).items,
            final(self).confirmed == old(self).confirmed,
            final(self).cursor == old(self).cursor,
            ({
                let m = final(self).marked@;
                forall|k1: int, k2: int| 0 <= k1 < k2 < m.len() ==> m[k1] < m[k2]
            }),
            ({
                let m = final(self).marked@;
                forall|k: int|
                    0 <= k < m.len() ==> (#[trigger] m[k] as int) < old(self).items@.len()
                        && f.ensures((&old(self).items@[m[k] as int],), true)
            }),
            forall|i: int|
                0 <= i < old(self).items@.len() ==> final(self).marked@.contains(i as usize)
                    || f.ensures((&old(self).items@[i],), false),
    {
        let mut marked: Vec<usize> = Vec::new();
        let mut i: usize = 0;
        while i < self.items.len()
            invariant
                i <= self.items@.len(),
                forall|j: int|
                    0 <= j < self.items@.len() ==> f.requires((&self.items@[j],)),
                forall|k1: int, k2: int|
                    0 <= k1 < k2 < marked@.len() ==> marked@[k1] < marked@[k2],
                forall|k: int|
                    0 <= k < marked@.len() ==> (#[trigger] marked@[k] as int) < i as int
                        && f.ensures((&self.items@[marked@[k] as int],), true),
                forall|j: int|
                    0 <= j < i ==> marked@.contains(j as usize) || f.ensures(
                        (&self.items@[j],),
                        false,
                    ),
            decreases self.items@.len() - i,
        {
            let hit = f(&self.items[i]);
            if hit {
                let ghost m0 = marked@;
                marked.push(i);
                proof {
                    assert forall|j: int|
                        0 <= j < i + 1 implies marked@.contains(j as usize) || f.ensures(
                        (&self.items@[j],),
                        false,
                    ) by {
                        if j == i {
                            assert(marked@[marked@.len() - 1] == i as usize);
                            assert(marked@.contains(i as usize));
                        } else if m0.contains(j as usize) {
                            let k = choose|k: int| 0 <= k < m0.len() && m0[k] == j as usize;
                            assert(marked@[k] == j as usize);
                            assert(marked@.contains(j as usize));
                        }
                    }
                }
            } else {
                proof {
                    assert forall|j: int|
                        0 <= j < i + 1 implies marked@.contains(j as usize) || f.ensures(
                        (&self.items@[j],),
                        false,
                    ) by {}
                }
            }
            i += 1;
        }
        self.marked = marked;
    }

    /// The confirmed item, when one is confirmed and still in range;
    /// nothing otherwise (in particular on an empty list).
    pub fn selected(&self) -> (r: Option<&T>)
        ensures
            match self.confirmed {
                Some(c) => if (c as int) < self.items@.len() {
                    r matches Some(t) && *t == self.items@[c as int]
                } else {
                    r is None
                },
                None => r is None,
            },
    {
        match self.confirmed {
            Some(c) => if c < self.items.len() {
                Some(&self.items[c])
            } else {
                None
            },
            None => None,
        }
    }

    /// The confirmed index, when one is confirmed.
    pub fn selected_index(&self) -> (r: Option<usize>)
        ensures
            r == self.confirmed,
    {
        self.confirmed
    }
}

} // verus!
