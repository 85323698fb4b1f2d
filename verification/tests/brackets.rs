use brainfuck::brackets::find_next;

#[test]
fn find_next_matches_a_flat_loop() {
    assert_eq!(find_next(b"[-]", 0), Some(2));
    assert_eq!(find_next(b"+[-]+", 1), Some(3));
    assert_eq!(find_next(b"[]", 0), Some(1));
}

#[test]
fn find_next_skips_nested_loops() {
    let code = b"[>[-]<[[+]]-]+]";
    assert_eq!(find_next(code, 0), Some(12));
    assert_eq!(find_next(code, 2), Some(4));
    assert_eq!(find_next(code, 6), Some(10));
    assert_eq!(find_next(code, 7), Some(9));
}

#[test]
fn find_next_reports_an_unmatched_bracket() {
    assert_eq!(find_next(b"[", 0), None);
    assert_eq!(find_next(b"[[-]", 0), None);
    assert_eq!(find_next(b"[+++", 0), None);
    assert_eq!(find_next(b"][", 1), None);
}

#[test]
fn find_next_past_the_end_finds_nothing() {
    assert_eq!(find_next(b"[]", 2), None);
    assert_eq!(find_next(b"[]", 9), None);
    assert_eq!(find_next(b"", 0), None);
}

#[test]
fn find_next_ignores_what_stands_before_start() {
    assert_eq!(find_next(b"]]][x]", 3), Some(5));
}
