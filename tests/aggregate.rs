use breeze::aggregate::{aggregate, CaptureError, CaptureSet, RawCapture};

fn raw(name_index: usize, start: usize, end: usize) -> RawCapture {
    RawCapture { name_index, start, end }
}

fn names(list: &[&str]) -> Vec<String> {
    list.iter().map(|s| s.to_string()).collect()
}

fn snippets_of(set: &CaptureSet, name: &str) -> Option<Vec<String>> {
    set.groups
        .iter()
        .find(|g| g.name == name)
        .map(|g| g.snippets.iter().map(|s| String::from_utf8(s.clone()).unwrap()).collect())
}

#[test]
fn single_name_keeps_order() {
    let set = aggregate(&names(&["x"]), &vec![raw(0, 0, 1), raw(0, 2, 3)], b"a b").unwrap();
    assert_eq!(set.groups.len(), 1);
    assert_eq!(set.groups[0].name, "x");
    assert_eq!(snippets_of(&set, "x"), Some(vec!["a".to_string(), "b".to_string()]));
}

#[test]
fn interleaved_names_are_grouped() {
    let source = b"alpha beta gamma";
    let set = aggregate(
        &names(&["first", "second"]),
        &vec![raw(1, 0, 5), raw(0, 6, 10), raw(1, 11, 16)],
        source,
    )
    .unwrap();
    assert_eq!(set.groups.len(), 2);
    assert_eq!(set.groups[0].name, "second");
    assert_eq!(set.groups[1].name, "first");
    assert_eq!(snippets_of(&set, "second"), Some(vec!["alpha".to_string(), "gamma".to_string()]));
    assert_eq!(snippets_of(&set, "first"), Some(vec!["beta".to_string()]));
}

#[test]
fn unmatched_names_are_absent() {
    let set = aggregate(&names(&["x", "y"]), &vec![raw(1, 0, 2)], b"hi").unwrap();
    assert_eq!(set.groups.len(), 1);
    assert_eq!(snippets_of(&set, "x"), None);
    assert_eq!(snippets_of(&set, "y"), Some(vec!["hi".to_string()]));
}

#[test]
fn no_captures_give_empty_set() {
    let set = aggregate(&names(&["x"]), &vec![], b"text").unwrap();
    assert!(set.groups.is_empty());
}

#[test]
fn zero_width_capture_gives_empty_snippet() {
    let set = aggregate(&names(&["x"]), &vec![raw(0, 2, 2)], b"abcd").unwrap();
    assert_eq!(snippets_of(&set, "x"), Some(vec![String::new()]));
}

#[test]
fn unknown_name_is_reported() {
    let r = aggregate(&names(&["x"]), &vec![raw(0, 0, 1), raw(3, 0, 1)], b"ab");
    assert_eq!(r.err(), Some(CaptureError::UnknownName(1)));
}

#[test]
fn reversed_range_is_reported() {
    let r = aggregate(&names(&["x"]), &vec![raw(0, 2, 1)], b"abc");
    assert_eq!(r.err(), Some(CaptureError::BadRange(0)));
}

#[test]
fn range_past_source_is_reported() {
    let r = aggregate(&names(&["x"]), &vec![raw(0, 0, 1), raw(0, 1, 9)], b"abc");
    assert_eq!(r.err(), Some(CaptureError::BadRange(1)));
}

#[test]
fn first_bad_capture_wins() {
    let r = aggregate(&names(&["x"]), &vec![raw(0, 5, 9), raw(7, 0, 1)], b"abc");
    assert_eq!(r.err(), Some(CaptureError::BadRange(0)));
}

#[test]
fn grouping_twice_gives_same_set() {
    let n = names(&["a", "b"]);
    let r = vec![raw(0, 0, 1), raw(1, 1, 3), raw(0, 3, 4)];
    let one = aggregate(&n, &r, b"wxyz").unwrap();
    let two = aggregate(&n, &r, b"wxyz").unwrap();
    assert_eq!(one.groups.len(), two.groups.len());
    for (g, h) in one.groups.iter().zip(two.groups.iter()) {
        assert_eq!(g.name, h.name);
        assert_eq!(g.snippets, h.snippets);
    }
}
