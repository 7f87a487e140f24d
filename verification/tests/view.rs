use relview::app_state::{AppFocus, AppState};
use relview::debug_file::DebugJson;
use relview::input::{handle_key, handle_line_picker_inputs, Key};
use relview::list::List;
use relview::loc_file::Loc;
use relview::metainfo::{parse_data_file, parse_loc_file, source_file_names, MetaInfo};
use relview::source_file::SourceFile;
use relview::source_view::{
    digit_count, overlap_level_at, render_line, Direction, RenderedLine, Segment, SourceView,
};

fn loc(sl: usize, sc: usize, el: usize, ec: usize) -> Loc {
    Loc { start_line: sl, start_col: sc, end_line: el, end_col: ec }
}

fn seg_text(segs: &[Segment]) -> String {
    let mut out = String::new();
    for s in segs {
        out.push_str(&s.text);
    }
    out
}

fn line_text(l: &RenderedLine) -> String {
    seg_text(&l.segments)
}

fn sample_state() -> AppState {
    let descriptor = DebugJson::new(
        "Call".to_string(),
        "Call.csv".to_string(),
        vec![0, 1],
        "DEBUG_Loc.csv".to_string(),
    );
    let analyses = parse_data_file(&descriptor, "0,1,extra").unwrap();
    let locs = parse_loc_file("0,foo.c,1,1,1,5\n1,foo.c,2,1,2,3").unwrap();
    let names = source_file_names(&locs);
    let files = vec![SourceFile::new(
        "foo.c".to_string(),
        "int a;\nint b;\nint c;\n".to_string(),
    )];
    let mi = MetaInfo::new(files, vec![descriptor], analyses, locs);
    AppState::new(mi, List::new(names))
}

#[test]
fn overlap_level_counts_containing_ranges() {
    let hs = vec![loc(1, 2, 1, 6), loc(1, 4, 1, 8), loc(2, 1, 4, 2)];
    // Column 5 of line 1 lies in the first two ranges.
    assert_eq!(overlap_level_at(&hs, 1, 5), 2);
    assert_eq!(overlap_level_at(&hs, 1, 2), 1);
    assert_eq!(overlap_level_at(&hs, 1, 9), 0);
    // Line 3 is interior to the multi-line range: every column counts.
    assert_eq!(overlap_level_at(&hs, 3, 999), 1);
    // First and last line of the multi-line range follow the column rule.
    assert_eq!(overlap_level_at(&hs, 2, 1), 1);
    assert_eq!(overlap_level_at(&hs, 4, 3), 0);
}

#[test]
fn removing_a_range_never_raises_a_level() {
    let hs = vec![loc(1, 2, 1, 6), loc(1, 4, 1, 8), loc(1, 1, 3, 1)];
    for drop in 0..hs.len() {
        let mut fewer = hs.clone();
        fewer.remove(drop);
        for col in 1..10 {
            assert!(overlap_level_at(&fewer, 1, col) <= overlap_level_at(&hs, 1, col));
        }
    }
}

#[test]
fn point_query_agrees_with_the_overlap_path() {
    // The same containment rule serves nodes_at and the renderer: the
    // number of nodes found at a point equals the overlap level of the
    // ranges registered for that file.
    let st = sample_state();
    let ranges: Vec<Loc> = st.metainfo.debug_locs.iter().map(|d| d.loc).collect();
    for row in 0..4usize {
        for col in 0..7usize {
            let nodes = st.metainfo.nodes_at("foo.c", row, col);
            let level = overlap_level_at(&ranges, row + 1, col + 1);
            assert_eq!(nodes.len(), level);
        }
    }
}

#[test]
fn single_line_range_containment_is_the_column_test() {
    let r = loc(3, 4, 3, 7);
    for col in 1..10usize {
        let contained = r.contains_point(3, col);
        assert_eq!(contained, 4 <= col && col <= 7);
    }
    assert!(!r.contains_point(2, 5));
    assert!(!r.contains_point(4, 5));
}

#[test]
fn render_splits_a_line_into_level_runs() {
    let hs = vec![loc(1, 2, 1, 4)];
    let segs = render_line("abcde", 1, &hs);
    assert_eq!(segs.len(), 3);
    assert_eq!(segs[0].text, "a");
    assert_eq!(segs[0].level, 0);
    assert_eq!(segs[1].text, "bcd");
    assert_eq!(segs[1].level, 1);
    assert_eq!(segs[2].text, "e");
    assert_eq!(segs[2].level, 0);
    assert_eq!(seg_text(&segs), "abcde");

    let nested = vec![loc(1, 2, 1, 4), loc(1, 3, 1, 3)];
    let segs2 = render_line("abcde", 1, &nested);
    let levels: Vec<usize> = segs2.iter().map(|s| s.level).collect();
    assert_eq!(levels, vec![0, 1, 2, 1, 0]);

    assert_eq!(render_line("", 1, &hs).len(), 0);
    let plain = render_line("abc", 7, &hs);
    assert_eq!(plain.len(), 1);
    assert_eq!(plain[0].level, 0);
}

#[test]
fn rendered_lines_number_from_one_and_set_the_gutter() {
    let mut sv = SourceView::new();
    sv.content = Some("aa\nbb\ncc\n".to_string());
    sv.highlights = vec![loc(2, 1, 2, 2)];
    let lines = sv.rendered_lines();
    assert_eq!(lines.len(), 3);
    assert_eq!(lines[0].number, 1);
    assert_eq!(lines[2].number, 3);
    assert_eq!(line_text(&lines[0]), "aa");
    assert_eq!(line_text(&lines[1]), "bb");
    assert_eq!(lines[1].segments[0].level, 1);
    // 3 lines: one digit, plus the space after the number.
    assert_eq!(sv.line_padding, 2);
    assert_eq!(digit_count(0), 1);
    assert_eq!(digit_count(9), 1);
    assert_eq!(digit_count(10), 2);
    assert_eq!(digit_count(12345), 5);
}

#[test]
fn missing_file_renders_the_placeholder_and_matches_nothing() {
    let descriptor = DebugJson::new(
        "Call".to_string(),
        "Call.csv".to_string(),
        vec![0],
        "DEBUG_Loc.csv".to_string(),
    );
    let analyses = parse_data_file(&descriptor, "5,x").unwrap();
    let locs = parse_loc_file("5,missing.c,1,1,1,2").unwrap();
    // missing.c could not be read from disk, so no source file is cached.
    let mi = MetaInfo::new(vec![], vec![descriptor], analyses, locs);
    let mut st = AppState::new(mi, List::new(vec!["missing.c".to_string()]));
    st.load_file("missing.c");
    assert!(st.sv.content.is_none());
    let lines = st.sv.rendered_lines();
    assert_eq!(lines.len(), 1);
    assert_eq!(line_text(&lines[0]), "-- FILE NOT FOUND --");
    assert_eq!(st.nodes_at(0, 0), Vec::<usize>::new());
}

#[test]
fn cursor_movement_is_clamped_to_the_line() {
    let mut sv = SourceView::new();
    sv.content = Some("ab\n\nxyz".to_string());
    sv.move_cursor(Direction::Up);
    assert_eq!(sv.get_cursor(), (0, 0));
    sv.move_cursor(Direction::Right);
    assert_eq!(sv.get_cursor(), (1, 0));
    sv.move_cursor(Direction::Right);
    sv.move_cursor(Direction::Right);
    // One past the last column of "ab", and no further.
    assert_eq!(sv.get_cursor(), (3, 0));
    sv.move_cursor(Direction::Down);
    assert_eq!(sv.get_cursor(), (3, 1));
    // The empty line pins the column to 0 on a right step.
    sv.move_cursor(Direction::Right);
    assert_eq!(sv.get_cursor(), (0, 1));
    sv.move_cursor(Direction::Down);
    sv.move_cursor(Direction::Left);
    assert_eq!(sv.get_cursor(), (0, 2));
    // Movement without content is ignored.
    let mut empty = SourceView::new();
    empty.move_cursor(Direction::Down);
    assert_eq!(empty.get_cursor(), (0, 0));
}

#[test]
fn jump_to_start_and_end_lines() {
    let mut sv = SourceView::new();
    sv.content = Some("a\nb\nc\nd".to_string());
    sv.move_to((1, 2));
    sv.move_to_end();
    assert_eq!(sv.get_cursor(), (1, 3));
    sv.move_to_start();
    assert_eq!(sv.get_cursor(), (1, 0));
}

#[test]
fn scroll_keeps_the_cursor_visible() {
    let mut sv = SourceView::new();
    sv.content = Some("a\nb\nc\nd\ne\nf\ng\nh".to_string());
    sv.line_padding = 2;
    // Drawable height 5 shows 3 text rows; cursor on row 6 scrolls down
    // so it becomes the last visible row.
    sv.cursor = (0, 6);
    sv.update_scroll(20, 5);
    assert_eq!(sv.scroll, (4, 0));
    // Cursor back above the window pulls the scroll up to it.
    sv.cursor = (0, 1);
    sv.update_scroll(20, 5);
    assert_eq!(sv.scroll, (1, 0));
    // The same horizontally, against the width minus gutter and borders.
    sv.cursor = (30, 1);
    sv.update_scroll(10, 5);
    assert_eq!(sv.scroll.1, 25);
}

#[test]
fn screen_cursor_lands_past_gutter_and_origin() {
    let mut sv = SourceView::new();
    sv.content = Some("hello\nworld".to_string());
    sv.line_padding = 3;
    sv.cursor = (2, 1);
    let (x, y) = sv.global_cursor(1, 2, 40, 10);
    // x = gutter + origin + column; y = origin + row + top border.
    assert_eq!(x, 3 + 1 + 2);
    assert_eq!(y, 2 + 1 + 1);
    // The column is clamped to the line length, and kept out of the gutter.
    sv.cursor = (50, 0);
    let (x2, _) = sv.global_cursor(1, 2, 40, 10);
    assert_eq!(x2, 3 + 1 + 5);
    // Without content the cursor rests just right of the gutter.
    let empty = SourceView::new();
    assert_eq!(empty.global_cursor(0, 0, 10, 5), (1, 1));
}

#[test]
fn marking_under_cursor_flags_touching_records() {
    let mut st = sample_state();
    st.load_file("foo.c");
    st.get_tuples_for_relation("Call");
    // The cursor rests at the origin: 1-indexed (1, 1), inside node 0's
    // range only.
    st.mark_nodes_under_cursor();
    assert_eq!(st.current_nodes, vec![0]);
    // The one Call record references node 0, so exactly it is marked.
    assert_eq!(st.tuples.marked, vec![0]);
}

#[test]
fn line_picker_repositions_the_cursor() {
    let mut st = sample_state();
    st.load_file("foo.c");
    st.focus = AppFocus::LinePicker;
    handle_line_picker_inputs(&mut st, Key::Char('2'));
    assert_eq!(st.input_buffer, "2");
    handle_line_picker_inputs(&mut st, Key::Enter);
    assert_eq!(st.sv.get_cursor(), (0, 1));
    assert_eq!(st.focus, AppFocus::Source);
}

#[test]
fn line_picker_rejects_bad_input_silently() {
    let mut st = sample_state();
    st.load_file("foo.c");
    st.sv.move_to((3, 2));
    st.focus = AppFocus::LinePicker;
    handle_line_picker_inputs(&mut st, Key::Char('x'));
    assert_eq!(st.input_buffer, "");
    handle_line_picker_inputs(&mut st, Key::Char('0'));
    handle_line_picker_inputs(&mut st, Key::Backspace);
    handle_line_picker_inputs(&mut st, Key::Enter);
    // An empty (or zero) buffer moves nothing.
    assert_eq!(st.sv.get_cursor(), (3, 2));
    assert_eq!(st.focus, AppFocus::Source);
}

#[test]
fn quit_keys_and_pane_rotation() {
    let mut st = sample_state();
    assert_eq!(st.focus, AppFocus::Relations);
    handle_key(&mut st, Key::Tab);
    assert_eq!(st.focus, AppFocus::Tuples);
    handle_key(&mut st, Key::Tab);
    assert_eq!(st.focus, AppFocus::Source);
    handle_key(&mut st, Key::BackTab);
    assert_eq!(st.focus, AppFocus::Tuples);
    handle_key(&mut st, Key::Char('s'));
    assert_eq!(st.focus, AppFocus::Source);
    assert!(!st.should_quit);
    handle_key(&mut st, Key::Char('q'));
    assert!(st.should_quit);
}

#[test]
fn confirming_a_relation_fills_and_arms_the_record_list() {
    let mut st = sample_state();
    st.load_file("foo.c");
    assert_eq!(st.relations.items.len(), 1);
    assert_eq!(st.relations.items[0].name, "Call");
    handle_key(&mut st, Key::Enter);
    assert_eq!(st.tuples.items.len(), 1);
    assert!(st.relations.items[0].current);
    // The first record is armed and the viewport jumped to its first
    // occurrence: range start (1,1) as 0-indexed buffer (col 1, row 0).
    assert_eq!(st.tuples.confirmed, Some(0));
    assert_eq!(st.tuples.items[0].occurrence, Some(0));
    assert_eq!(st.sv.get_cursor(), (1, 0));
    // Stepping the occurrence moves the viewport to the second range.
    st.focus = AppFocus::Tuples;
    handle_key(&mut st, Key::Right);
    assert_eq!(st.tuples.items[0].occurrence, Some(1));
    assert_eq!(st.sv.get_cursor(), (1, 1));
}
