use relview::csv_file::RawDiagnostic;
use relview::text::{join_with, parse_usize, split_lines, split_on, str_eq};
use relview::LoadError;

#[test]
fn csv_parser_test_parse_loc() {
    let line = "27,12,28,13";
    let loc = relview::csv_parser::Loc::from_str(line).unwrap();
    assert_eq!(loc.start_line, 27);
    assert_eq!(loc.start_col, 12);
    assert_eq!(loc.end_line, 28);
    assert_eq!(loc.end_col, 13);
}

#[test]
fn csv_parser_test_parse_debug_loc() {
    let line = "46,tests/clang/evaluation/src/arena/test1.c,27,12,28,13";
    let debug_loc = relview::csv_parser::DebugLoc::from_str(line).unwrap();
    assert_eq!(debug_loc.node_id, 46);
    assert_eq!(
        debug_loc.source_file,
        "tests/clang/evaluation/src/arena/test1.c"
    );
}

#[test]
fn loc_file_test_parse_loc() {
    let line = "27,12,28,13";
    let loc = relview::loc_file::Loc::from_str(line).unwrap();
    assert_eq!(loc.start_line, 27);
    assert_eq!(loc.start_col, 12);
    assert_eq!(loc.end_line, 28);
    assert_eq!(loc.end_col, 13);
}

#[test]
fn loc_file_test_parse_debug_loc() {
    let line = "46,tests/clang/evaluation/src/arena/test1.c,27,12,28,13";
    let debug_loc = relview::loc_file::DebugLoc::from_str(line).unwrap();
    assert_eq!(debug_loc.node_id, 46);
    assert_eq!(
        debug_loc.source_file,
        "tests/clang/evaluation/src/arena/test1.c"
    );
}

#[test]
fn loc_rejects_missing_fields() {
    assert_eq!(
        relview::loc_file::Loc::from_str("1,2,3").unwrap_err(),
        LoadError::MissingField
    );
    assert_eq!(
        relview::loc_file::DebugLoc::from_str("1,f.c,2,3,4").unwrap_err(),
        LoadError::MissingField
    );
}

#[test]
fn loc_rejects_bad_numbers() {
    assert_eq!(
        relview::loc_file::Loc::from_str("1,x,3,4").unwrap_err(),
        LoadError::BadNumber
    );
    assert_eq!(
        relview::loc_file::DebugLoc::from_str("nine,f.c,2,3,4,5").unwrap_err(),
        LoadError::BadNumber
    );
    assert_eq!(
        relview::loc_file::DebugLoc::from_str("1,f.c,2,3,4,").unwrap_err(),
        LoadError::BadNumber
    );
}

#[test]
fn loc_ignores_extra_fields() {
    let loc = relview::loc_file::Loc::from_str("1,2,3,4,garbage").unwrap();
    assert_eq!(loc.start_line, 1);
    assert_eq!(loc.end_col, 4);
}

#[test]
fn csv_parser_rejects_values_past_u32() {
    assert_eq!(
        relview::csv_parser::Loc::from_str("4294967296,1,2,3").unwrap_err(),
        LoadError::BadNumber
    );
    let ok = relview::csv_parser::Loc::from_str("4294967295,1,2,3").unwrap();
    assert_eq!(ok.start_line, 4294967295);
}

#[test]
fn parse_usize_reads_decimal_numerals() {
    assert_eq!(parse_usize("0"), Some(0));
    assert_eq!(parse_usize("007"), Some(7));
    assert_eq!(parse_usize("65535"), Some(65535));
    assert_eq!(parse_usize(""), None);
    assert_eq!(parse_usize("12a"), None);
    assert_eq!(parse_usize("-3"), None);
    assert_eq!(parse_usize("99999999999999999999999999"), None);
}

#[test]
fn split_and_join_round_trip() {
    let fields = split_on("a,b,,c", ',');
    assert_eq!(fields, vec!["a", "b", "", "c"]);
    assert_eq!(join_with(&fields, ","), "a,b,,c");
    assert_eq!(split_on("", ','), vec![""]);
    assert_eq!(split_on("x,", ','), vec!["x", ""]);
}

#[test]
fn split_lines_handles_final_newline_and_cr() {
    assert_eq!(split_lines("a\nb\n"), vec!["a", "b"]);
    assert_eq!(split_lines("a\nb"), vec!["a", "b"]);
    assert_eq!(split_lines(""), Vec::<String>::new());
    assert_eq!(split_lines("\n"), vec![""]);
    assert_eq!(split_lines("a\r\nb\r\n"), vec!["a", "b"]);
    assert_eq!(split_lines("a\n\nb"), vec!["a", "", "b"]);
}

#[test]
fn str_eq_compares_characters() {
    assert!(str_eq("foo.c", "foo.c"));
    assert!(!str_eq("foo.c", "foo.h"));
    assert!(!str_eq("foo", "fooo"));
}

#[test]
fn raw_record_splits_node_fields_from_payload() {
    let d = RawDiagnostic::new(&[0, 1], "Call", "0,1,extra").unwrap();
    assert_eq!(d.name, "Call");
    assert_eq!(d.nodes, vec![0, 1]);
    assert_eq!(d.rest, "extra");

    let d2 = RawDiagnostic::new(&[1], "Use", "ctx,42,a,b").unwrap();
    assert_eq!(d2.nodes, vec![42]);
    assert_eq!(d2.rest, "ctx,a,b");

    assert_eq!(
        RawDiagnostic::new(&[0], "Call", "x,1").unwrap_err(),
        LoadError::BadNumber
    );
}
