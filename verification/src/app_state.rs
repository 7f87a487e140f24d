//! The navigation controller's state: the location index, the three
//! selection lists, the viewport, and the focus state machine that
//! ties them together.

use crate::analysis::{Relation, Tuple};
use crate::list::List;
use crate::loc_file::Loc;
use crate::metainfo::{
    intersects, spec_file_content, spec_first_seen, spec_has_file, spec_hydrated_ok,
    spec_intersects, spec_nodes_at_from, spec_rel_indices, MetaInfo,
};
use crate::source_view::SourceView;
use crate::text::copy_vec;
use vstd::prelude::*;

verus! {

/// Which pane has the focus: one of the three primary panes, or a
/// modal overlay.
#[derive(PartialEq, Eq, Structural, Clone, Copy, Debug)]
pub enum AppFocus {
    Relations,
    Tuples,
    Source,
    FilePicker,
    LinePicker,
}

impl AppFocus {
    /// The next primary pane in the cycle. Only the three primary
    /// panes take part in the rotation.
    pub fn next(&self) -> (r: AppFocus)
        requires
            *self is Relations || *self is Tuples || *self is Source,
        ensures
            *self is Tuples ==> r is Source,
            *self is Source ==> r is Relations,
            *self is Relations ==> r is Tuples,
    {
        match self {
            AppFocus::Tuples => AppFocus::Source,
            AppFocus::Source => AppFocus::Relations,
            _ => AppFocus::Tuples,
        }
    }

    /// The previous primary pane in the cycle.
    pub fn prev(&self) -> (r: AppFocus)
        requires
            *self is Relations || *self is Tuples || *self is Source,
        ensures
            *self is Tuples ==> r is Relations,
            *self is Source ==> r is Tuples,
            *self is Relations ==> r is Source,
    {
        match self {
            AppFocus::Tuples => AppFocus::Relations,
            AppFocus::Source => AppFocus::Tuples,
            _ => AppFocus::Source,
        }
    }
}

/// The whole application state, owned by the event loop and mutated
/// one input event at a time.
pub struct AppState {
    pub metainfo: MetaInfo,
    pub tuples: List<Tuple>,
    pub files: List<String>,
    pub relations: List<Relation>,
    pub should_quit: bool,
    pub focus: AppFocus,
    pub sv: SourceView,
    pub current_nodes: Vec<usize>,
    pub input_buffer: String,
}

/// The node ids under the viewport's cursor: the cursor's 0-indexed
/// buffer position converted to the index's 1-indexed convention, or
/// no nodes when the viewed file is not cached.
pub open spec fn spec_nodes_under(st: AppState) -> Seq<usize> {
    if spec_has_file(st.metainfo.source_files@, st.sv.name@) {
        spec_nodes_at_from(
            st.metainfo.debug_locs@,
            st.sv.name@,
            (st.sv.cursor.1 + 1) as usize,
            (st.sv.cursor.0 + 1) as usize,
            0,
        )
    } else {
        Seq::empty()
    }
}

/// The confirmed record and its current occurrence, where both exist.
pub open spec fn spec_selected_current(st: AppState) -> Option<(int, Loc)> {
    match st.tuples.confirmed {
        None => None,
        Some(i) => if (i as int) < st.tuples.items@.len() {
            let t = st.tuples.items@[i as int];
            let c: int = match t.occurrence {
                Some(x) => x as int,
                None => 0,
            };
            if c < t.locs@.len() {
                Some((i as int, t.locs@[c]))
            } else {
                None
            }
        } else {
            None
        },
    }
}

/// Where the viewport cursor jumps to show a range: its start column,
/// and the range's 1-indexed start line as a 0-indexed row, both
/// saturating at the cursor's range.
pub open spec fn spec_jump_target(l: Loc) -> (int, int) {
    let col: int = if l.start_col < u16::MAX {
        l.start_col as int
    } else {
        u16::MAX as int
    };
    let row0: int = if l.start_line > 0 {
        l.start_line - 1
    } else {
        0
    };
    let row: int = if row0 < u16::MAX {
        row0
    } else {
        u16::MAX as int
    };
    (col, row)
}

impl AppState {
    /// The three selection lists are sound: cursor, confirmed
    /// selection and marks all point at items.
    pub open spec fn wf(&self) -> bool {
        &&& self.tuples.wf()
        &&& self.files.wf()
        &&& self.relations.wf()
    }

    /// A fresh state over a loaded index: the relation list carries the
    /// distinct record names in first-seen order, nothing is selected
    /// yet, the viewport is empty, and the focus starts on the
    /// relation list.
    pub fn new(metainfo: MetaInfo, files: List<String>) -> (r: AppState)
        requires
            files.wf(),
        ensures
            r.wf(),
            r.metainfo == metainfo,
            r.files == files,
            ({
                let names = spec_first_seen(
                    metainfo.analyses@.map_values(|d: crate::csv_file::RawDiagnostic| d.name@),
                );
                &&& r.relations.items@.len() == names.len()
                &&& forall|k: int|
                    0 <= k < names.len() ==> (#[trigger] r.relations.items@[k].name@) == names[k]
                        && !r.relations.items@[k].current
            }),
            r.relations.cursor == 0 && r.relations.confirmed is None && r.relations.marked@.len()
                == 0,
            r.tuples.items@.len() == 0 && r.tuples.cursor == 0 && r.tuples.confirmed is None,
            !r.should_quit,
            r.focus is Relations,
            r.sv.name@.len() == 0 && r.sv.content is None && r.sv.highlights@.len() == 0,
            r.sv.cursor == (0u16, 0u16) && r.sv.scroll == (0u16, 0u16) && r.sv.line_padding == 0,
            r.current_nodes@.len() == 0,
            r.input_buffer@.len() == 0,
    {
        let ghost names = metainfo.analyses@.map_values(
            |d: crate::csv_file::RawDiagnostic| d.name@,
        );
        let mut raw_names: Vec<String> = Vec::new();
        let mut i: usize = 0;
        while i < metainfo.analyses.len()
            invariant
                i <= metainfo.analyses@.len(),
                names == metainfo.analyses@.map_values(
                    |d: crate::csv_file::RawDiagnostic| d.name@,
                ),
                raw_names@.map_values(|s: String| s@) == names.subrange(0, i as int),
            decreases metainfo.analyses@.len() - i,
        {
            let ghost m0 = raw_names@.map_values(|s: String| s@);
            raw_names.push(metainfo.analyses[i].name.clone());
            proof {
                assert(raw_names@.map_values(|s: String| s@) =~= m0.push(names[i as int]));
                assert(m0.push(names[i as int]) =~= names.subrange(0, i + 1));
            }
            i += 1;
        }
        proof {
            assert(names.subrange(0, names.len() as int) =~= names);
        }
        let distinct = crate::metainfo::first_seen(&raw_names);
        let ghost dnames = spec_first_seen(names);
        let mut relations: Vec<Relation> = Vec::new();
        let mut j: usize = 0;
        while j < distinct.len()
            invariant
                j <= distinct@.len(),
                distinct@.map_values(|s: String| s@) == dnames,
                relations@.len() == j,
                forall|k: int|
                    0 <= k < j ==> (#[trigger] relations@[k].name@) == dnames[k]
                        && !relations@[k].current,
            decreases distinct@.len() - j,
        {
            relations.push(Relation::new(distinct[j].clone()));
            j += 1;
        }
        AppState {
            metainfo,
            tuples: List::new(Vec::new()),
            files,
            relations: List::new(relations),
            should_quit: false,
            focus: AppFocus::Relations,
            sv: SourceView::new(),
            current_nodes: Vec::new(),
            input_buffer: String::new(),
        }
    }

    /// The node ids whose range in the viewed file contains the buffer
    /// point `(row, col)`, converted here to the index's 1-indexed
    /// convention; no nodes when the viewed file is not cached.
    pub fn nodes_at(&self, row: usize, col: usize) -> (r: Vec<usize>)
        requires
            row < usize::MAX,
            col < usize::MAX,
        ensures
            spec_has_file(self.metainfo.source_files@, self.sv.name@) ==> r@
                == spec_nodes_at_from(
                self.metainfo.debug_locs@,
                self.sv.name@,
                (row + 1) as usize,
                (col + 1) as usize,
                0,
            ),
            !spec_has_file(self.metainfo.source_files@, self.sv.name@) ==> r@.len() == 0,
    {
        self.metainfo.nodes_at(self.sv.name.as_str(), row, col)
    }

    /// Recomputes the node set under the cursor and marks exactly the
    /// records whose node set intersects it.
    pub fn mark_nodes_under_cursor(&mut self)
        requires
            old(self).wf(),
        ensures
            final(self).wf(),
            final(self).current_nodes@ == spec_nodes_under(*old(self)),
            final(self).metainfo == old(self).metainfo,
            final(self).files == old(self).files,
            final(self).relations == old(self).relations,
            final(self).should_quit == old(self).should_quit,
            final(self).focus == old(self).focus,
            final(self).sv == old(self).sv,
            final(self).input_buffer == old(self).input_buffer,
            final(self).tuples.items == old(self).tuples.items,
            final(self).tuples.cursor == old(self).tuples.cursor,
            final(self).tuples.confirmed == old(self).tuples.confirmed,
            ({
                let m = final(self).tuples.marked@;
                let items = old(self).tuples.items@;
                let ns = spec_nodes_under(*old(self));
                &&& (forall|k1: int, k2: int| 0 <= k1 < k2 < m.len() ==> m[k1] < m[k2])
                &&& (forall|k: int|
                    0 <= k < m.len() ==> (#[trigger] m[k] as int) < items.len()
                        && spec_intersects(items[m[k] as int].nodes@, ns))
                &&& (forall|i: int|
                    0 <= i < items.len() && !m.contains(i as usize) ==> !spec_intersects(
                        #[trigger] items[i].nodes@,
                        ns,
                    ))
            }),
    {
        let (col, row) = self.sv.get_cursor();
        self.current_nodes = self.metainfo.nodes_at(
            self.sv.name.as_str(),
            row as usize,
            col as usize,
        );
        let nodes = &self.current_nodes;
        let touches_cursor = |t: &Tuple| -> (b: bool)
            ensures
                b == spec_intersects(t.nodes@, nodes@),
            {
                intersects(t.nodes.as_slice(), nodes.as_slice())
            };
        self.tuples.mark(touches_cursor);
    }

    /// Every record intersecting the node set under the cursor,
    /// hydrated by the index.
    pub fn get_current_tuples(&self) -> (r: Vec<Tuple>)
        ensures
            spec_hydrated_ok(
                r@,
                self.metainfo.analyses@,
                self.metainfo.debug_locs@,
                crate::metainfo::spec_node_indices(
                    self.metainfo.analyses@,
                    self.metainfo.debug_locs@,
                    self.current_nodes@,
                    0,
                ),
            ),
    {
        self.metainfo.get_analyses(self.current_nodes.as_slice())
    }

    /// Replaces the record list with the hydrated records of the named
    /// relation; nothing in the new list is selected or marked yet.
    pub fn get_tuples_for_relation(&mut self, relation: &str)
        ensures
            final(self).tuples.wf(),
            spec_hydrated_ok(
                final(self).tuples.items@,
                old(self).metainfo.analyses@,
                old(self).metainfo.debug_locs@,
                spec_rel_indices(
                    old(self).metainfo.analyses@,
                    old(self).metainfo.debug_locs@,
                    relation@,
                    0,
                ),
            ),
            final(self).tuples.cursor == 0,
            final(self).tuples.confirmed is None,
            final(self).tuples.marked@.len() == 0,
            final(self).metainfo == old(self).metainfo,
            final(self).files == old(self).files,
            final(self).relations == old(self).relations,
            final(self).should_quit == old(self).should_quit,
            final(self).focus == old(self).focus,
            final(self).sv == old(self).sv,
            final(self).current_nodes == old(self).current_nodes,
            final(self).input_buffer == old(self).input_buffer,
    {
        let tuples = self.metainfo.get_tuples_for_relation(relation);
        self.tuples = List::new(tuples);
    }

    /// Shows the named file in the viewport: a fresh viewport carrying
    /// the file's cached text, or no text when the file is not cached,
    /// which renders as the placeholder.
    pub fn load_file(&mut self, file: &str)
        ensures
            final(self).sv.name@ == file@,
            spec_has_file(old(self).metainfo.source_files@, file@) ==> (final(self).sv.content
                matches Some(c) && Some(c@) == spec_file_content(
                old(self).metainfo.source_files@,
                file@,
            )),
            !spec_has_file(old(self).metainfo.source_files@, file@) ==> final(self).sv.content
                is None,
            final(self).sv.highlights@.len() == 0,
            final(self).sv.cursor == (0u16, 0u16) && final(self).sv.scroll == (0u16, 0u16),
            final(self).sv.line_padding == 0,
            final(self).metainfo == old(self).metainfo,
            final(self).tuples == old(self).tuples,
            final(self).files == old(self).files,
            final(self).relations == old(self).relations,
            final(self).should_quit == old(self).should_quit,
            final(self).focus == old(self).focus,
            final(self).current_nodes == old(self).current_nodes,
            final(self).input_buffer == old(self).input_buffer,
    {
        let content: Option<String> = match self.metainfo.source_content(file) {
            Some(c) => Some(c.clone()),
            None => None,
        };
        let mut sv = SourceView::new();
        sv.content = content;
        sv.name = file.to_owned();
        self.sv = sv;
    }

    /// Jumps the viewport to the confirmed record's current occurrence
    /// and sets the highlights to that record's full location list; a
    /// no-op when nothing is confirmed or the record has no location
    /// to show.
    pub fn scroll_into_view(&mut self)
        requires
            old(self).wf(),
        ensures
            final(self).wf(),
            match spec_selected_current(*old(self)) {
                None => *final(self) == *old(self),
                Some((i, loc)) => {
                    &&& final(self).sv.highlights@ == old(self).tuples.items@[i].locs@
                    &&& final(self).sv.cursor.0 as int == spec_jump_target(loc).0
                    &&& final(self).sv.cursor.1 as int == spec_jump_target(loc).1
                    &&& final(self).sv.name == old(self).sv.name
                    &&& final(self).sv.content == old(self).sv.content
                    &&& final(self).sv.scroll == old(self).sv.scroll
                    &&& final(self).sv.line_padding == old(self).sv.line_padding
                    &&& final(self).metainfo == old(self).metainfo
                    &&& final(self).tuples == old(self).tuples
                    &&& final(self).files == old(self).files
                    &&& final(self).relations == old(self).relations
                    &&& final(self).should_quit == old(self).should_quit
                    &&& final(self).focus == old(self).focus
                    &&& final(self).current_nodes == old(self).current_nodes
                    &&& final(self).input_buffer == old(self).input_buffer
                },
            },
    {
        let i = match self.tuples.selected_index() {
            Some(i) => i,
            None => {
                return ;
            },
        };
        let current: Loc = match self.tuples.items[i].current() {
            Some(l) => *l,
            None => {
                return ;
            },
        };
        self.sv.highlights = copy_vec(&self.tuples.items[i].locs);
        let col: u16 = if current.start_col < u16::MAX as usize {
            current.start_col as u16
        } else {
            u16::MAX
        };
        let row0: usize = if current.start_line > 0 {
            current.start_line - 1
        } else {
            0
        };
        let row: u16 = if row0 < u16::MAX as usize {
            row0 as u16
        } else {
            u16::MAX
        };
        self.sv.move_to((col, row));
    }

    /// After a record selection changes: jumps the viewport to the
    /// confirmed record's current occurrence, updates the highlights,
    /// and recomputes the node set under the (new) cursor; a no-op
    /// when nothing is confirmed or the record has no location.
    pub fn update_view(&mut self)
        requires
            old(self).wf(),
        ensures
            final(self).wf(),
            match spec_selected_current(*old(self)) {
                None => *final(self) == *old(self),
                Some((i, loc)) => {
                    &&& final(self).sv.highlights@ == old(self).tuples.items@[i].locs@
                    &&& final(self).sv.cursor.0 as int == spec_jump_target(loc).0
                    &&& final(self).sv.cursor.1 as int == spec_jump_target(loc).1
                    &&& final(self).sv.name == old(self).sv.name
                    &&& final(self).sv.content == old(self).sv.content
                    &&& final(self).sv.scroll == old(self).sv.scroll
                    &&& final(self).sv.line_padding == old(self).sv.line_padding
                    &&& final(self).current_nodes@ == spec_nodes_under(*final(self))
                    &&& final(self).metainfo == old(self).metainfo
                    &&& final(self).tuples == old(self).tuples
                    &&& final(self).files == old(self).files
                    &&& final(self).relations == old(self).relations
                    &&& final(self).should_quit == old(self).should_quit
                    &&& final(self).focus == old(self).focus
                    &&& final(self).input_buffer == old(self).input_buffer
                },
            },
    {
        let i = match self.tuples.selected_index() {
            Some(i) => i,
            None => {
                return ;
            },
        };
        if self.tuples.items[i].current().is_none() {
            return ;
        }
        self.scroll_into_view();
        let (col, row) = self.sv.get_cursor();
        self.current_nodes = self.metainfo.nodes_at(
            self.sv.name.as_str(),
            row as usize,
            col as usize,
        );
    }
}

} // verus!
