use coda_inspect::{list_bounded_files, matches_folded, matches_instrument, path_le};

fn paths(names: &[&str]) -> Vec<String> {
    names.iter().map(|s| s.to_string()).collect()
}

#[test]
fn bounded_files_under_limit_are_all_sorted() {
    let files = paths(&["/d/c.nxs", "/d/a.nxs", "/d/b.nxs"]);
    assert_eq!(
        list_bounded_files(files, 5),
        paths(&["/d/a.nxs", "/d/b.nxs", "/d/c.nxs"])
    );
}

#[test]
fn bounded_files_at_limit_are_all_kept() {
    let files = paths(&["/d/b", "/d/a"]);
    assert_eq!(list_bounded_files(files, 2), paths(&["/d/a", "/d/b"]));
}

#[test]
fn bounded_files_over_limit_keep_greatest() {
    let files = paths(&["/d/003", "/d/005", "/d/001", "/d/004", "/d/002"]);
    assert_eq!(
        list_bounded_files(files, 3),
        paths(&["/d/003", "/d/004", "/d/005"])
    );
}

#[test]
fn bounded_files_empty_and_zero() {
    assert_eq!(list_bounded_files(Vec::new(), 3), Vec::<String>::new());
    assert_eq!(list_bounded_files(paths(&["/a", "/b"]), 0), Vec::<String>::new());
}

#[test]
fn bounded_files_prefix_sorts_first_and_duplicates_stay() {
    let files = paths(&["/d/ab", "/d/a", "/d/ab", "/d/b"]);
    assert_eq!(
        list_bounded_files(files, 3),
        paths(&["/d/ab", "/d/ab", "/d/b"])
    );
}

#[test]
fn path_order_is_by_characters() {
    assert!(path_le("/a/b", "/a/c"));
    assert!(!path_le("/a/c", "/a/b"));
    assert!(path_le("/a", "/a/b"));
    assert!(path_le("/a", "/a"));
    assert!(path_le("/a/Z", "/a/a"));
}

#[test]
fn no_filter_matches_every_name() {
    for name in ["", "Test Beamline", "LOKI", "anything at all"] {
        assert!(matches_instrument(name, &None));
    }
}

#[test]
fn filter_examples() {
    let tbl = Some("tbl".to_string());
    assert!(matches_instrument("Test Beamline", &tbl));
    assert!(!matches_instrument("Other", &tbl));
    assert!(matches_instrument("X", &Some("x".to_string())));
}

#[test]
fn filter_ignores_case_on_both_sides() {
    assert!(matches_instrument("LOKI", &Some("loki".to_string())));
    assert!(matches_instrument("loki", &Some("LoKi".to_string())));
    assert!(matches_instrument("The TEST BEAMLINE at site", &Some("TBL".to_string())));
    assert!(!matches_instrument("loki", &Some("dream".to_string())));
}

#[test]
fn alias_needs_the_phrase() {
    let tbl = Some("tbl".to_string());
    assert!(!matches_instrument("Test Beam", &tbl));
    assert!(matches_instrument("tbl", &tbl));
}

#[test]
fn folded_match_is_exact_on_lower_case() {
    assert!(matches_folded("test beamline", "tbl"));
    assert!(matches_folded("a test beamline b", "tbl"));
    assert!(!matches_folded("other", "tbl"));
    assert!(matches_folded("x", "x"));
    assert!(!matches_folded("X", "x"));
    assert!(!matches_folded("test beamline", "tb"));
}

#[test]
fn path_order_handles_non_ascii() {
    assert!(path_le("/d/z", "/d/\u{e9}"));
    assert!(!path_le("/d/\u{e9}", "/d/z"));
    let files = paths(&["/d/\u{e9}", "/d/a", "/d/z"]);
    assert_eq!(list_bounded_files(files, 2), paths(&["/d/z", "/d/\u{e9}"]));
}
