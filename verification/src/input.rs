//! The focus state machine's input dispatch: one key event in, one
//! state transition out. Every transition is total — an event that
//! makes no sense in the current state is a no-op, never a fault.

use crate::analysis::{spec_next_occ, spec_prev_occ, Relation, Tuple};
use crate::app_state::{
    spec_jump_target, spec_nodes_under, spec_selected_current, AppFocus, AppState,
};
use crate::list::List;
use crate::metainfo::{
    spec_file_content, spec_has_file, spec_hydrated_ok, spec_intersects, spec_rel_indices,
    MetaInfo,
};
use crate::source_view::{spec_moved_cursor, Direction, SourceView};
use crate::text::{parse_usize, spec_all_digits, spec_is_digit, spec_lines, spec_num_value};
use vstd::prelude::*;

verus! {

/// One discrete key press, as the event source hands it over.
#[derive(Clone, Copy, Debug)]
pub enum Key {
    Char(char),
    Up,
    Down,
    Left,
    Right,
    Tab,
    BackTab,
    Esc,
    Enter,
    Backspace,
    Home,
    End,
    CtrlC,
}

/// Whether the key quits the application from any state.
pub open spec fn spec_quit_key(key: Key) -> bool {
    ||| key is CtrlC
    ||| (key matches Key::Char(c) && c == 'q')
}

/// The list after one step down: the cursor moves one item down,
/// clamped to the last item; everything else stays.
pub open spec fn spec_list_down<T>(a: List<T>, b: List<T>) -> bool {
    &&& b.items == a.items
    &&& b.marked == a.marked
    &&& b.confirmed == a.confirmed
    &&& b.cursor as int == if a.items@.len() == 0 {
        a.cursor as int
    } else if a.cursor + 1 < a.items@.len() {
        a.cursor + 1
    } else {
        a.items@.len() - 1
    }
}

/// The list after one step up: the cursor moves one item up, stopping
/// at the first; everything else stays.
pub open spec fn spec_list_up<T>(a: List<T>, b: List<T>) -> bool {
    &&& b.items == a.items
    &&& b.marked == a.marked
    &&& b.confirmed == a.confirmed
    &&& b.cursor as int == if a.cursor > 0 {
        a.cursor - 1
    } else {
        0
    }
}

/// The record with its occurrence cursor advanced one location.
pub open spec fn spec_tuple_next(t: Tuple) -> Tuple {
    Tuple {
        occurrence: if t.locs@.len() > 0 {
            spec_next_occ(t.occurrence, t.locs@.len())
        } else {
            t.occurrence
        },
        ..t
    }
}

/// The record with its occurrence cursor moved back one location.
pub open spec fn spec_tuple_prev(t: Tuple) -> Tuple {
    Tuple { occurrence: spec_prev_occ(t.occurrence), ..t }
}

/// The record with its occurrence cursor armed on the first location.
pub open spec fn spec_tuple_set(t: Tuple) -> Tuple {
    Tuple { occurrence: Some(0usize), ..t }
}

/// The record with its occurrence cursor disarmed.
pub open spec fn spec_tuple_unset(t: Tuple) -> Tuple {
    Tuple { occurrence: None, ..t }
}

/// One viewport cursor movement, everything else unchanged.
pub open spec fn spec_sv_step_move(a: AppState, b: AppState, m: Direction) -> bool {
    &&& b.sv.cursor.0 as int == spec_moved_cursor(a.sv, m).0
    &&& b.sv.cursor.1 as int == spec_moved_cursor(a.sv, m).1
    &&& b.sv == (SourceView { cursor: b.sv.cursor, ..a.sv })
    &&& b == (AppState { sv: b.sv, ..a })
}

/// The jump to the first line, everything else unchanged.
pub open spec fn spec_sv_step_start(a: AppState, b: AppState) -> bool {
    &&& b.sv == (SourceView { cursor: (a.sv.cursor.0, 0u16), ..a.sv })
    &&& b == (AppState { sv: b.sv, ..a })
}

/// The jump to the last line, everything else unchanged.
pub open spec fn spec_sv_step_end(a: AppState, b: AppState) -> bool {
    &&& b.sv.cursor.0 == a.sv.cursor.0
    &&& (match a.sv.content {
        None => b.sv.cursor == a.sv.cursor,
        Some(c) => {
            let n = spec_lines(c@).len() as int;
            b.sv.cursor.1 as int == if n == 0 {
                0
            } else if n - 1 < u16::MAX {
                n - 1
            } else {
                u16::MAX as int
            }
        },
    })
    &&& b.sv == (SourceView { cursor: b.sv.cursor, ..a.sv })
    &&& b == (AppState { sv: b.sv, ..a })
}

/// What one key does in the source pane: cursor movement, the jumps
/// to the first and last line, and the switch into the line picker
/// with a cleared input buffer; any other key does nothing.
pub open spec fn spec_source_step(a: AppState, b: AppState, key: Key) -> bool {
    match key {
        Key::Char(c) => if c == 'j' {
            spec_sv_step_move(a, b, Direction::Down)
        } else if c == 'k' {
            spec_sv_step_move(a, b, Direction::Up)
        } else if c == 'l' {
            spec_sv_step_move(a, b, Direction::Right)
        } else if c == 'h' {
            spec_sv_step_move(a, b, Direction::Left)
        } else if c == 'g' {
            spec_sv_step_start(a, b)
        } else if c == 'G' {
            spec_sv_step_end(a, b)
        } else if c == ':' {
            b.input_buffer@ == Seq::<char>::empty() && b == (AppState {
                focus: AppFocus::LinePicker,
                input_buffer: b.input_buffer,
                ..a
            })
        } else {
            b == a
        },
        Key::Down => spec_sv_step_move(a, b, Direction::Down),
        Key::Up => spec_sv_step_move(a, b, Direction::Up),
        Key::Right => spec_sv_step_move(a, b, Direction::Right),
        Key::Left => spec_sv_step_move(a, b, Direction::Left),
        Key::Home => spec_sv_step_start(a, b),
        Key::End => spec_sv_step_end(a, b),
        _ => b == a,
    }
}

/// What one key does in the line picker: a digit joins the buffer, a
/// backspace drops its last character, and enter reads the buffer as
/// a 1-based line number — repositioning the cursor to its start when
/// the buffer reads as one, rejecting it silently otherwise — and
/// returns the focus to the source pane.
pub open spec fn spec_line_picker_step(a: AppState, b: AppState, key: Key) -> bool {
    match key {
        Key::Char(c) => if spec_is_digit(c) {
            b.input_buffer@ == a.input_buffer@.push(c) && b == (AppState {
                input_buffer: b.input_buffer,
                ..a
            })
        } else {
            b == a
        },
        Key::Backspace => {
            &&& b.input_buffer@ == if a.input_buffer@.len() > 0 {
                a.input_buffer@.drop_last()
            } else {
                a.input_buffer@
            }
            &&& b == (AppState { input_buffer: b.input_buffer, ..a })
        },
        Key::Enter => {
            let buf = a.input_buffer@;
            let ok = buf.len() > 0 && spec_all_digits(buf) && 1 <= spec_num_value(buf)
                <= u16::MAX;
            if ok {
                b.sv == (SourceView {
                    cursor: (0u16, ((spec_num_value(buf) - 1) as u16)),
                    ..a.sv
                }) && b == (AppState { sv: b.sv, focus: AppFocus::Source, ..a })
            } else {
                b == (AppState { focus: AppFocus::Source, ..a })
            }
        },
        _ => b == a,
    }
}

/// What one key does in the record list: browsing moves the cursor;
/// left and right step the confirmed record's occurrence; enter
/// confirms the browsed record, disarming the previously confirmed
/// one and arming the new one on its first occurrence.
pub open spec fn spec_tuples_step(a: AppState, b: AppState, key: Key) -> bool {
    match key {
        Key::Char(c) => if c == 'j' {
            spec_list_down(a.tuples, b.tuples) && b == (AppState { tuples: b.tuples, ..a })
        } else if c == 'k' {
            spec_list_up(a.tuples, b.tuples) && b == (AppState { tuples: b.tuples, ..a })
        } else if c == 'l' {
            spec_tuples_occ_step(a, b, true)
        } else if c == 'h' {
            spec_tuples_occ_step(a, b, false)
        } else {
            b == a
        },
        Key::Down => spec_list_down(a.tuples, b.tuples) && b == (AppState {
            tuples: b.tuples,
            ..a
        }),
        Key::Up => spec_list_up(a.tuples, b.tuples) && b == (AppState { tuples: b.tuples, ..a }),
        Key::Right => spec_tuples_occ_step(a, b, true),
        Key::Left => spec_tuples_occ_step(a, b, false),
        Key::Enter => spec_tuples_confirm_step(a, b),
        _ => b == a,
    }
}

/// One occurrence step (`forward` or back) on the confirmed record;
/// nothing happens without a confirmed record.
pub open spec fn spec_tuples_occ_step(a: AppState, b: AppState, forward: bool) -> bool {
    match a.tuples.confirmed {
        Some(i) => if (i as int) < a.tuples.items@.len() {
            let t0 = a.tuples.items@[i as int];
            let t1 = if forward {
                spec_tuple_next(t0)
            } else {
                spec_tuple_prev(t0)
            };
            &&& b.tuples.items@ == a.tuples.items@.update(i as int, t1)
            &&& b.tuples.marked == a.tuples.marked
            &&& b.tuples.cursor == a.tuples.cursor
            &&& b.tuples.confirmed == a.tuples.confirmed
            &&& b == (AppState { tuples: b.tuples, ..a })
        } else {
            b == a
        },
        None => b == a,
    }
}

/// Confirming in the record list: the previously confirmed record is
/// disarmed, the browsed record becomes the confirmed one and is
/// armed on its first occurrence; an empty list confirms nothing.
pub open spec fn spec_tuples_confirm_step(a: AppState, b: AppState) -> bool {
    let items0 = a.tuples.items@;
    let items1 = match a.tuples.confirmed {
        Some(oi) => if (oi as int) < items0.len() {
            items0.update(oi as int, spec_tuple_unset(items0[oi as int]))
        } else {
            items0
        },
        None => items0,
    };
    let items2 = if items0.len() > 0 {
        items1.update(a.tuples.cursor as int, spec_tuple_set(items1[a.tuples.cursor as int]))
    } else {
        items1
    };
    &&& b.tuples.items@ == items2
    &&& b.tuples.confirmed == if items0.len() > 0 {
        Some(a.tuples.cursor)
    } else {
        None::<usize>
    }
    &&& b.tuples.cursor == a.tuples.cursor
    &&& b.tuples.marked == a.tuples.marked
    &&& b == (AppState { tuples: b.tuples, ..a })
}

/// What one key does in the relation list: browsing moves the cursor;
/// enter confirms the browsed relation — unflagging the previously
/// confirmed one, flagging the new one — refills the record list with
/// that relation's hydrated records, and arms the first record.
pub open spec fn spec_relations_step(a: AppState, b: AppState, key: Key) -> bool {
    match key {
        Key::Char(c) => if c == 'j' {
            spec_list_down(a.relations, b.relations) && b == (AppState {
                relations: b.relations,
                ..a
            })
        } else if c == 'k' {
            spec_list_up(a.relations, b.relations) && b == (AppState {
                relations: b.relations,
                ..a
            })
        } else {
            b == a
        },
        Key::Down => spec_list_down(a.relations, b.relations) && b == (AppState {
            relations: b.relations,
            ..a
        }),
        Key::Up => spec_list_up(a.relations, b.relations) && b == (AppState {
            relations: b.relations,
            ..a
        }),
        Key::Enter => spec_relations_confirm_step(a, b),
        _ => b == a,
    }
}

/// Confirming in the relation list; an empty list confirms nothing.
pub open spec fn spec_relations_confirm_step(a: AppState, b: AppState) -> bool {
    if a.relations.items@.len() == 0 {
        b == a
    } else {
        let items0 = a.relations.items@;
        let items1 = match a.relations.confirmed {
            Some(oi) => if (oi as int) < items0.len() {
                items0.update(
                    oi as int,
                    Relation { name: items0[oi as int].name, current: false },
                )
            } else {
                items0
            },
            None => items0,
        };
        let ci = a.relations.cursor as int;
        let items2 = items1.update(ci, Relation { name: items1[ci].name, current: true });
        let rel_name = items0[ci].name@;
        let idxs = spec_rel_indices(a.metainfo.analyses@, a.metainfo.debug_locs@, rel_name, 0);
        &&& b.relations.items@ == items2
        &&& b.relations.confirmed == Some(a.relations.cursor)
        &&& b.relations.cursor == a.relations.cursor
        &&& b.relations.marked == a.relations.marked
        &&& spec_hydrated_ok(
            b.tuples.items@.map_values(|t: Tuple| spec_tuple_unset(t)),
            a.metainfo.analyses@,
            a.metainfo.debug_locs@,
            idxs,
        )
        &&& b.tuples.items@.len() == idxs.len()
        &&& (forall|k: int|
            1 <= k < b.tuples.items@.len() ==> (#[trigger] b.tuples.items@[k]).occurrence
                is None)
        &&& (b.tuples.items@.len() > 0 ==> b.tuples.items@[0].occurrence == Some(0usize))
        &&& b.tuples.confirmed == if idxs.len() > 0 {
            Some(0usize)
        } else {
            None::<usize>
        }
        &&& b.tuples.cursor == 0
        &&& b.tuples.marked@.len() == 0
        &&& b == (AppState { relations: b.relations, tuples: b.tuples, ..a })
    }
}

/// What one key does in the file picker: browsing moves the cursor;
/// enter confirms the browsed file, loads it into the viewport — the
/// placeholder standing in for a file that is not cached — and
/// switches the focus to the source pane.
pub open spec fn spec_files_step(a: AppState, b: AppState, key: Key) -> bool {
    match key {
        Key::Char(c) => if c == 'j' {
            spec_list_down(a.files, b.files) && b == (AppState { files: b.files, ..a })
        } else if c == 'k' {
            spec_list_up(a.files, b.files) && b == (AppState { files: b.files, ..a })
        } else {
            b == a
        },
        Key::Down => spec_list_down(a.files, b.files) && b == (AppState { files: b.files, ..a }),
        Key::Up => spec_list_up(a.files, b.files) && b == (AppState { files: b.files, ..a }),
        Key::Enter => spec_files_confirm_step(a, b),
        _ => b == a,
    }
}

/// The viewport freshly loaded with the named file.
pub open spec fn spec_loaded_view(mi: MetaInfo, name: Seq<char>, sv: SourceView) -> bool {
    &&& sv.name@ == name
    &&& (spec_has_file(mi.source_files@, name) ==> (sv.content matches Some(c) && Some(c@)
        == spec_file_content(mi.source_files@, name)))
    &&& (!spec_has_file(mi.source_files@, name) ==> sv.content is None)
    &&& sv.highlights@.len() == 0
    &&& sv.cursor == (0u16, 0u16)
    &&& sv.scroll == (0u16, 0u16)
    &&& sv.line_padding == 0
}

/// Confirming in the file picker; an empty list confirms nothing.
pub open spec fn spec_files_confirm_step(a: AppState, b: AppState) -> bool {
    if a.files.items@.len() == 0 {
        b == a
    } else {
        &&& b.files.items == a.files.items
        &&& b.files.cursor == a.files.cursor
        &&& b.files.marked == a.files.marked
        &&& b.files.confirmed == Some(a.files.cursor)
        &&& spec_loaded_view(a.metainfo, a.files.items@[a.files.cursor as int]@, b.sv)
        &&& b == (AppState { files: b.files, sv: b.sv, focus: AppFocus::Source, ..a })
    }
}

/// The node set under the cursor recomputed and the record list
/// re-marked against it.
pub open spec fn spec_mark_step(a: AppState, b: AppState) -> bool {
    &&& b.current_nodes@ == spec_nodes_under(a)
    &&& b.tuples.items == a.tuples.items
    &&& b.tuples.cursor == a.tuples.cursor
    &&& b.tuples.confirmed == a.tuples.confirmed
    &&& (forall|k1: int, k2: int|
        0 <= k1 < k2 < b.tuples.marked@.len() ==> b.tuples.marked@[k1] < b.tuples.marked@[k2])
    &&& (forall|k: int|
        0 <= k < b.tuples.marked@.len() ==> (#[trigger] b.tuples.marked@[k] as int)
            < a.tuples.items@.len() && spec_intersects(
            a.tuples.items@[b.tuples.marked@[k] as int].nodes@,
            spec_nodes_under(a),
        ))
    &&& (forall|i: int|
        0 <= i < a.tuples.items@.len() && !b.tuples.marked@.contains(i as usize)
            ==> !spec_intersects(#[trigger] a.tuples.items@[i].nodes@, spec_nodes_under(a)))
    &&& b == (AppState { tuples: b.tuples, current_nodes: b.current_nodes, ..a })
}

/// The viewport repositioned on the confirmed record's current
/// occurrence and the node set under the new cursor recomputed; a
/// no-op when nothing is confirmed or no occurrence exists.
pub open spec fn spec_update_view_step(a: AppState, b: AppState) -> bool {
    match spec_selected_current(a) {
        None => b == a,
        Some((i, loc)) => {
            &&& b.sv.highlights@ == a.tuples.items@[i].locs@
            &&& b.sv.cursor.0 as int == spec_jump_target(loc).0
            &&& b.sv.cursor.1 as int == spec_jump_target(loc).1
            &&& b.sv == (SourceView {
                highlights: b.sv.highlights,
                cursor: b.sv.cursor,
                ..a.sv
            })
            &&& b.current_nodes@ == spec_nodes_under(b)
            &&& b == (AppState { sv: b.sv, current_nodes: b.current_nodes, ..a })
        },
    }
}

/// The focus after the pane-independent keys: the pane cycle on Tab
/// and BackTab (among the three primary panes only), the direct pane
/// jumps, the file picker when files exist, and escape leaving an
/// overlay for the source pane.
pub open spec fn spec_common_focus(a: AppState, key: Key) -> AppFocus {
    let primary = a.focus is Relations || a.focus is Tuples || a.focus is Source;
    match key {
        Key::Tab => if primary {
            match a.focus {
                AppFocus::Tuples => AppFocus::Source,
                AppFocus::Source => AppFocus::Relations,
                _ => AppFocus::Tuples,
            }
        } else {
            a.focus
        },
        Key::BackTab => if primary {
            match a.focus {
                AppFocus::Tuples => AppFocus::Relations,
                AppFocus::Source => AppFocus::Tuples,
                _ => AppFocus::Source,
            }
        } else {
            a.focus
        },
        Key::Char(c) => if c == 'r' {
            AppFocus::Relations
        } else if c == 't' {
            AppFocus::Tuples
        } else if c == 's' {
            AppFocus::Source
        } else if c == 'f' {
            if a.files.items@.len() > 0 {
                AppFocus::FilePicker
            } else {
                a.focus
            }
        } else {
            a.focus
        },
        Key::Esc => if a.focus is FilePicker || a.focus is LinePicker {
            AppFocus::Source
        } else {
            a.focus
        },
        _ => a.focus,
    }
}

/// Whether escape quits: it does from the primary panes, while from
/// an overlay it only returns to the source pane.
pub open spec fn spec_esc_quits(a: AppState, key: Key) -> bool {
    key is Esc && !(a.focus is FilePicker) && !(a.focus is LinePicker)
}

/// Applies one key in the source pane.
pub fn handle_source_inputs(state: &mut AppState, key: Key)
    requires
        old(state).wf(),
    ensures
        final(state).wf(),
        spec_source_step(*old(state), *final(state), key),
{
    match key {
        Key::Char(c) => {
            if c == 'j' {
                state.sv.move_cursor(Direction::Down);
            } else if c == 'k' {
                state.sv.move_cursor(Direction::Up);
            } else if c == 'l' {
                state.sv.move_cursor(Direction::Right);
            } else if c == 'h' {
                state.sv.move_cursor(Direction::Left);
            } else if c == 'g' {
                state.sv.move_to_start();
            } else if c == 'G' {
                state.sv.move_to_end();
            } else if c == ':' {
                state.focus = AppFocus::LinePicker;
                state.input_buffer = String::new();
            }
        },
        Key::Down => state.sv.move_cursor(Direction::Down),
        Key::Up => state.sv.move_cursor(Direction::Up),
        Key::Right => state.sv.move_cursor(Direction::Right),
        Key::Left => state.sv.move_cursor(Direction::Left),
        Key::Home => state.sv.move_to_start(),
        Key::End => state.sv.move_to_end(),
        _ => {},
    }
}

/// Applies one key in the line picker.
pub fn handle_line_picker_inputs(state: &mut AppState, key: Key)
    requires
        old(state).wf(),
    ensures
        final(state).wf(),
        spec_line_picker_step(*old(state), *final(state), key),
{
    match key {
        Key::Char(c) => {
            let digit: &str = if c == '0' {
                "0"
            } else if c == '1' {
                "1"
            } else if c == '2' {
                "2"
            } else if c == '3' {
                "3"
            } else if c == '4' {
                "4"
            } else if c == '5' {
                "5"
            } else if c == '6' {
                "6"
            } else if c == '7' {
                "7"
            } else if c == '8' {
                "8"
            } else if c == '9' {
                "9"
            } else {
                return ;
            };
            proof {
                reveal_strlit("0");
                reveal_strlit("1");
                reveal_strlit("2");
                reveal_strlit("3");
                reveal_strlit("4");
                reveal_strlit("5");
                reveal_strlit("6");
                reveal_strlit("7");
                reveal_strlit("8");
                reveal_strlit("9");
                assert(digit@ =~= seq![c]);
            }
            let ghost before = state.input_buffer@;
            state.input_buffer.append(digit);
            proof {
                assert(state.input_buffer@ =~= before.push(c));
            }
        },
        Key::Backspace => {
            let m = state.input_buffer.as_str().unicode_len();
            if m > 0 {
                let shorter = state.input_buffer.as_str().substring_char(0, m - 1).to_owned();
                proof {
                    assert(shorter@ =~= state.input_buffer@.drop_last());
                }
                state.input_buffer = shorter;
            }
        },
        Key::Enter => {
            match parse_usize(state.input_buffer.as_str()) {
                Some(v) => {
                    if 1 <= v && v <= u16::MAX as usize {
                        state.sv.move_to((0, (v - 1) as u16));
                    }
                },
                None => {},
            }
            state.focus = AppFocus::Source;
        },
        _ => {},
    }
}

/// Applies one key in the record list.
pub fn handle_tuples_inputs(state: &mut AppState, key: Key)
    requires
        old(state).wf(),
    ensures
        final(state).wf(),
        spec_tuples_step(*old(state), *final(state), key),
{
    match key {
        Key::Char(c) => {
            if c == 'j' {
                state.tuples.down();
            } else if c == 'k' {
                state.tuples.up();
            } else if c == 'l' {
                tuples_occ_step(state, true);
            } else if c == 'h' {
                tuples_occ_step(state, false);
            }
        },
        Key::Down => state.tuples.down(),
        Key::Up => state.tuples.up(),
        Key::Right => tuples_occ_step(state, true),
        Key::Left => tuples_occ_step(state, false),
        Key::Enter => {
            match state.tuples.confirmed {
                Some(oi) => {
                    state.tuples.items[oi].unset();
                },
                None => {},
            }
            state.tuples.confirm();
            match state.tuples.confirmed {
                Some(ci) => {
                    state.tuples.items[ci].set();
                },
                None => {},
            }
        },
        _ => {},
    }
}

/// One occurrence step on the confirmed record.
fn tuples_occ_step(state: &mut AppState, forward: bool)
    requires
        old(state).wf(),
    ensures
        final(state).wf(),
        spec_tuples_occ_step(*old(state), *final(state), forward),
{
    let i = match state.tuples.confirmed {
        Some(i) => i,
        None => {
            return ;
        },
    };
    if forward {
        state.tuples.items[i].next();
    } else {
        state.tuples.items[i].prev();
    }
}

/// Applies one key in the relation list.
pub fn handle_relations_inputs(state: &mut AppState, key: Key)
    requires
        old(state).wf(),
    ensures
        final(state).wf(),
        spec_relations_step(*old(state), *final(state), key),
{
    match key {
        Key::Char(c) => {
            if c == 'j' {
                state.relations.down();
            } else if c == 'k' {
                state.relations.up();
            }
        },
        Key::Down => state.relations.down(),
        Key::Up => state.relations.up(),
        Key::Enter => {
            let ghost a = *old(state);
            if state.relations.items.len() > 0 {
                let ghost items0 = state.relations.items@;
                match state.relations.confirmed {
                    Some(oi) => {
                        state.relations.items[oi].unmark();
                        proof {
                            assert(state.relations.items@ =~= items0.update(
                                oi as int,
                                Relation { name: items0[oi as int].name, current: false },
                            ));
                        }
                    },
                    None => {},
                }
                state.relations.confirm();
                let ci = state.relations.cursor;
                let ghost items1 = state.relations.items@;
                state.relations.items[ci].mark();
                proof {
                    assert(state.relations.items@ =~= items1.update(
                        ci as int,
                        Relation { name: items1[ci as int].name, current: true },
                    ));
                }
                let category = state.relations.items[ci].name.clone();
                assert(category@ == items0[ci as int].name@);
                state.get_tuples_for_relation(category.as_str());
                let ghost t0 = state.tuples.items@;
                let ghost idxs = spec_rel_indices(
                    a.metainfo.analyses@,
                    a.metainfo.debug_locs@,
                    category@,
                    0,
                );
                if state.tuples.items.len() > 0 {
                    state.tuples.items[0].set();
                    proof {
                        assert(state.tuples.items@ =~= t0.update(0, spec_tuple_set(t0[0])));
                    }
                    state.tuples.confirmed = Some(0);
                }
                proof {
                    assert forall|k: int|
                        0 <= k < state.tuples.items@.len() implies spec_tuple_unset(
                        #[trigger] state.tuples.items@[k],
                    ) == t0[k] by {
                        assert(t0[k].occurrence is None) by {
                            assert(0 <= idxs[k] < a.metainfo.analyses@.len() || t0[k].occurrence
                                is None);
                        }
                        if k == 0 {
                            assert(state.tuples.items@[0] == spec_tuple_set(t0[0]));
                        }
                    }
                    assert(state.tuples.items@.map_values(|t: Tuple| spec_tuple_unset(t)) =~= t0);
                }
            }
        },
        _ => {},
    }
}

/// Applies one key in the file picker.
pub fn handle_file_picker_inputs(state: &mut AppState, key: Key)
    requires
        old(state).wf(),
    ensures
        final(state).wf(),
        spec_files_step(*old(state), *final(state), key),
{
    match key {
        Key::Char(c) => {
            if c == 'j' {
                state.files.down();
            } else if c == 'k' {
                state.files.up();
            }
        },
        Key::Down => state.files.down(),
        Key::Up => state.files.up(),
        Key::Enter => {
            if state.files.items.len() > 0 {
                state.files.confirm();
                let file = state.files.items[state.files.cursor].clone();
                state.load_file(file.as_str());
                state.focus = AppFocus::Source;
            }
        },
        _ => {},
    }
}

/// The state after the pane-independent part of a key: the focus
/// moved as the key asks, and escape from a primary pane quitting.
pub open spec fn spec_mid_state(a: AppState, key: Key) -> AppState {
    AppState {
        focus: spec_common_focus(a, key),
        should_quit: a.should_quit || spec_esc_quits(a, key),
        ..a
    }
}

/// The whole transition one key causes: quit keys stop everything at
/// once; otherwise the pane-independent focus changes apply first and
/// the key then acts in the pane that has the focus, followed by the
/// derived updates — the source pane re-marks, the two primary lists
/// reposition the viewport and re-mark.
pub open spec fn spec_handle_key(a: AppState, b: AppState, key: Key) -> bool {
    if spec_quit_key(key) {
        b == (AppState { should_quit: true, ..a })
    } else {
        let mid0 = spec_mid_state(a, key);
        match mid0.focus {
            AppFocus::Source => exists|m1: AppState|
                #[trigger] spec_source_step(mid0, m1, key) && spec_mark_step(m1, b),
            AppFocus::Relations => exists|m1: AppState, m2: AppState|
                #[trigger] spec_relations_step(mid0, m1, key) && #[trigger] spec_update_view_step(
                    m1,
                    m2,
                ) && spec_mark_step(m2, b),
            AppFocus::Tuples => if mid0.tuples.items@.len() == 0 {
                b == mid0
            } else {
                exists|m1: AppState, m2: AppState|
                    #[trigger] spec_tuples_step(mid0, m1, key) && #[trigger] spec_update_view_step(
                        m1,
                        m2,
                    ) && spec_mark_step(m2, b)
            },
            AppFocus::FilePicker => spec_files_step(mid0, b, key),
            AppFocus::LinePicker => spec_line_picker_step(mid0, b, key),
        }
    }
}

/// Applies one key to the whole application state: quit keys take
/// effect from any state; otherwise the pane-independent focus keys
/// apply first and the key then acts in the focused pane, with the
/// derived updates (viewport repositioning, node set, marks) applied
/// before the next event is read.
#[verifier::rlimit(100)]
#[verifier::spinoff_prover]
pub fn handle_key(state: &mut AppState, key: Key)
    requires
        old(state).wf(),
    ensures
        final(state).wf(),
        spec_handle_key(*old(state), *final(state), key),
{
    let ghost a = *old(state);
    let quit = match key {
        Key::CtrlC => true,
        Key::Char(c) => c == 'q',
        _ => false,
    };
    if quit {
        state.should_quit = true;
        return ;
    }
    match key {
        Key::Tab => {
            let primary = match state.focus {
                AppFocus::Relations => true,
                AppFocus::Tuples => true,
                AppFocus::Source => true,
                _ => false,
            };
            if primary {
                state.focus = state.focus.next();
            }
        },
        Key::BackTab => {
            let primary = match state.focus {
                AppFocus::Relations => true,
                AppFocus::Tuples => true,
                AppFocus::Source => true,
                _ => false,
            };
            if primary {
                state.focus = state.focus.prev();
            }
        },
        Key::Char(c) => {
            if c == 'r' {
                state.focus = AppFocus::Relations;
            } else if c == 't' {
                state.focus = AppFocus::Tuples;
            } else if c == 's' {
                state.focus = AppFocus::Source;
            } else if c == 'f' {
                if state.files.items.len() > 0 {
                    state.focus = AppFocus::FilePicker;
                }
            }
        },
        Key::Esc => {
            let overlay = match state.focus {
                AppFocus::FilePicker => true,
                AppFocus::LinePicker => true,
                _ => false,
            };
            if overlay {
                state.focus = AppFocus::Source;
            } else {
                state.should_quit = true;
            }
        },
        _ => {},
    }
    proof {
        assert(state.focus == spec_common_focus(a, key));
        assert(state.should_quit == (a.should_quit || spec_esc_quits(a, key)));
        assert(*state == spec_mid_state(a, key));
    }
    let ghost mid0 = *state;
    let dispatch = state.focus;
    match dispatch {
        AppFocus::Source => {
            handle_source_inputs(state, key);
            let ghost m1 = *state;
            state.mark_nodes_under_cursor();
            proof {
                assert(mid0 == spec_mid_state(a, key));
                assert(spec_source_step(spec_mid_state(a, key), m1, key));
                assert(spec_mark_step(m1, *state));
                assert(exists|w1: AppState|
                    #[trigger] spec_source_step(spec_mid_state(a, key), w1, key)
                        && spec_mark_step(w1, *state));
            }
        },
        AppFocus::Relations => {
            handle_relations_inputs(state, key);
            let ghost m1 = *state;
            state.update_view();
            let ghost m2 = *state;
            state.mark_nodes_under_cursor();
            proof {
                assert(mid0 == spec_mid_state(a, key));
                assert(spec_relations_step(spec_mid_state(a, key), m1, key));
                assert(spec_update_view_step(m1, m2));
                assert(spec_mark_step(m2, *state));
                assert(exists|w1: AppState, w2: AppState|
                    #[trigger] spec_relations_step(spec_mid_state(a, key), w1, key)
                        && #[trigger] spec_update_view_step(w1, w2) && spec_mark_step(
                        w2,
                        *state,
                    ));
            }
        },
        AppFocus::Tuples => {
            if state.tuples.items.len() == 0 {
                return ;
            }
            handle_tuples_inputs(state, key);
            let ghost m1 = *state;
            state.update_view();
            let ghost m2 = *state;
            state.mark_nodes_under_cursor();
            proof {
                assert(mid0 == spec_mid_state(a, key));
                assert(spec_tuples_step(spec_mid_state(a, key), m1, key));
                assert(spec_update_view_step(m1, m2));
                assert(spec_mark_step(m2, *state));
                assert(exists|w1: AppState, w2: AppState|
                    #[trigger] spec_tuples_step(spec_mid_state(a, key), w1, key)
                        && #[trigger] spec_update_view_step(w1, w2) && spec_mark_step(
                        w2,
                        *state,
                    ));
            }
        },
        AppFocus::FilePicker => {
            handle_file_picker_inputs(state, key);
        },
        AppFocus::LinePicker => {
            handle_line_picker_inputs(state, key);
        },
    }
}

} // verus!
