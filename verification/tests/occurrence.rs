use relview::analysis::Tuple;
use relview::diagnostic::Diagnostic;
use relview::loc_file::Loc;

fn loc(line: usize) -> Loc {
    Loc { start_line: line, start_col: 1, end_line: line, end_col: 5 }
}

fn three_site_record() -> Tuple {
    Tuple::new(
        "Call".to_string(),
        vec![10, 11, 12],
        vec![loc(1), loc(2), loc(3)],
    )
}

#[test]
fn occurrence_round_trip_returns_to_start() {
    // k steps forward then k steps back from the armed start land on
    // the first occurrence again, for every k within the range.
    for k in 0..3 {
        let mut t = three_site_record();
        t.set();
        for _ in 0..k {
            t.next();
        }
        for _ in 0..k {
            t.prev();
        }
        assert_eq!(t.occurrence, Some(0));
    }
}

#[test]
fn next_saturates_at_the_last_location() {
    let mut t = three_site_record();
    t.set();
    for _ in 0..10 {
        t.next();
        assert!(t.occurrence.unwrap() <= 2);
    }
    assert_eq!(t.occurrence, Some(2));
}

#[test]
fn prev_stops_at_zero_once_armed() {
    let mut t = three_site_record();
    t.set();
    for _ in 0..5 {
        t.prev();
        assert_eq!(t.occurrence, Some(0));
    }
}

#[test]
fn next_treats_unarmed_as_first_but_prev_does_not() {
    let mut t = three_site_record();
    assert!(t.occurrence.is_none());
    t.prev();
    assert!(t.occurrence.is_none());
    t.next();
    assert_eq!(t.occurrence, Some(1));
}

#[test]
fn current_defaults_to_the_first_location() {
    let t = three_site_record();
    assert_eq!(t.current().unwrap().start_line, 1);
    let mut t2 = three_site_record();
    t2.set();
    t2.next();
    assert_eq!(t2.current().unwrap().start_line, 2);
    let empty = Tuple::new("Call".to_string(), vec![], vec![]);
    assert!(empty.current().is_none());
}

#[test]
fn diagnostic_cursor_follows_the_same_machine() {
    let mut d = Diagnostic::new(
        "warn".to_string(),
        vec![1, 2],
        vec![loc(4), loc(9)],
    );
    d.set();
    d.next();
    assert_eq!(d.occurrence, Some(1));
    d.next();
    assert_eq!(d.occurrence, Some(1));
    d.prev();
    assert_eq!(d.occurrence, Some(0));
    d.unset();
    assert!(d.occurrence.is_none());
    assert_eq!(d.current().unwrap().start_line, 4);
}

#[test]
fn relation_marking_toggles() {
    let mut r = relview::analysis::Relation::new("Call".to_string());
    assert!(!r.current);
    r.mark();
    assert!(r.current);
    r.unmark();
    assert!(!r.current);
}
