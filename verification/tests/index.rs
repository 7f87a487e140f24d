use relview::debug_file::DebugJson;
use relview::metainfo::{loc_file_names, parse_data_file, parse_loc_file, source_file_names, MetaInfo};
use relview::source_file::SourceFile;
use relview::LoadError;

fn call_descriptor() -> DebugJson {
    DebugJson::new(
        "Call".to_string(),
        "Call.csv".to_string(),
        vec![0, 1],
        "DEBUG_Loc.csv".to_string(),
    )
}

fn sample_index() -> MetaInfo {
    let descriptor = call_descriptor();
    let analyses = parse_data_file(&descriptor, "0,1,extra").unwrap();
    let locs = parse_loc_file("0,foo.c,1,1,1,5\n1,foo.c,2,1,2,3").unwrap();
    let files = vec![SourceFile::new(
        "foo.c".to_string(),
        "int a;\nint b;\nint c;\n".to_string(),
    )];
    MetaInfo::new(files, vec![descriptor], analyses, locs)
}

#[test]
fn records_for_category_hydrates_call() {
    let mi = sample_index();
    let tuples = mi.get_tuples_for_relation("Call");
    assert_eq!(tuples.len(), 1);
    assert_eq!(tuples[0].name, "Call");
    assert_eq!(tuples[0].nodes, vec![0, 1]);
    assert_eq!(tuples[0].locs.len(), 2);
    assert_eq!(tuples[0].locs[0].start_line, 1);
    assert_eq!(tuples[0].locs[0].start_col, 1);
    assert_eq!(tuples[0].locs[0].end_line, 1);
    assert_eq!(tuples[0].locs[0].end_col, 5);
    assert_eq!(tuples[0].locs[1].start_line, 2);
    assert_eq!(tuples[0].locs[1].start_col, 1);
    assert_eq!(tuples[0].locs[1].end_line, 2);
    assert_eq!(tuples[0].locs[1].end_col, 3);
    assert!(tuples[0].occurrence.is_none());

    assert_eq!(mi.get_tuples_for_relation("Other").len(), 0);
}

#[test]
fn nodes_at_answers_point_queries() {
    let mi = sample_index();
    // Buffer row 1 (1-indexed line 2), buffer col 2 (1-indexed col 3):
    // inside node 1's range, outside node 0's.
    assert_eq!(mi.nodes_at("foo.c", 1, 2), vec![1]);
    // 1-indexed col 4 lies past node 1's end column 3.
    assert_eq!(mi.nodes_at("foo.c", 1, 3), Vec::<usize>::new());
    // The origin (1-indexed line 1, col 1) touches node 0 only.
    assert_eq!(mi.nodes_at("foo.c", 0, 0), vec![0]);
    // An uncached file never matches.
    assert_eq!(mi.nodes_at("bar.c", 0, 0), Vec::<usize>::new());
}

#[test]
fn records_for_nodes_intersects_node_sets() {
    let mi = sample_index();
    let hit = mi.get_analyses(&[1, 7]);
    assert_eq!(hit.len(), 1);
    assert_eq!(hit[0].nodes, vec![0, 1]);
    let miss = mi.get_analyses(&[9]);
    assert_eq!(miss.len(), 0);
}

#[test]
fn unresolved_node_drops_the_record_only() {
    let descriptor = call_descriptor();
    // Node 1 has no registered location: the record cannot be fully
    // hydrated and is dropped, without failing the query.
    let analyses = parse_data_file(&descriptor, "0,1,extra\n0,0,solo").unwrap();
    let locs = parse_loc_file("0,foo.c,1,1,1,5").unwrap();
    let mi = MetaInfo::new(vec![], vec![descriptor], analyses, locs);
    let tuples = mi.get_tuples_for_relation("Call");
    assert_eq!(tuples.len(), 1);
    assert_eq!(tuples[0].nodes, vec![0, 0]);
}

#[test]
fn malformed_load_input_is_a_startup_error() {
    let descriptor = call_descriptor();
    assert_eq!(
        parse_data_file(&descriptor, "0,nope,x").unwrap_err(),
        LoadError::BadNumber
    );
    assert_eq!(
        parse_loc_file("0,foo.c,1,1,1,5\nbroken").unwrap_err(),
        LoadError::MissingField
    );
}

#[test]
fn referenced_file_lists_are_distinct_in_first_seen_order() {
    let d1 = DebugJson::new(
        "A".to_string(),
        "a.csv".to_string(),
        vec![0],
        "L1.csv".to_string(),
    );
    let d2 = DebugJson::new(
        "B".to_string(),
        "b.csv".to_string(),
        vec![0],
        "L2.csv".to_string(),
    );
    let d3 = DebugJson::new(
        "C".to_string(),
        "c.csv".to_string(),
        vec![0],
        "L1.csv".to_string(),
    );
    assert_eq!(
        loc_file_names(&vec![d1, d2, d3]),
        vec!["L1.csv", "L2.csv"]
    );

    let locs = parse_loc_file("0,b.c,1,1,1,1\n1,a.c,1,1,1,1\n2,b.c,2,2,2,2").unwrap();
    assert_eq!(source_file_names(&locs), vec!["b.c", "a.c"]);
}

#[test]
fn index_built_from_parsed_parts_holds_them() {
    let mi = sample_index();
    assert!(!mi.source_files.is_empty());
    assert!(!mi.debug_json.is_empty());
    assert!(!mi.analyses.is_empty());
    assert!(!mi.debug_locs.is_empty());
}
