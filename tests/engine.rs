use breeze::engine::{check_request, routes_to_parse_query, Breeze, FileError, JobError};

fn breeze() -> Breeze {
    Breeze::new(tree_sitter_norg::language())
}

fn texts(set: &breeze::aggregate::CaptureSet, name: &str) -> Vec<String> {
    set.groups
        .iter()
        .filter(|g| g.name == name)
        .flat_map(|g| g.snippets.iter().map(|s| String::from_utf8(s.clone()).unwrap()))
        .collect()
}

#[test]
fn only_parse_query_is_offered() {
    assert!(routes_to_parse_query(&"parse-query".to_string()));
    assert!(!routes_to_parse_query(&"parse".to_string()));
    assert!(!routes_to_parse_query(&String::new()));
}

#[test]
fn request_fields_are_checked() {
    assert!(matches!(check_request("", None, 4), Err(JobError::InvalidArgument(_))));
    assert!(matches!(check_request("(x) @x", Some(0), 4), Err(JobError::InvalidArgument(_))));
    assert_eq!(check_request("(x) @x", Some(3), 8), Ok(3));
    assert_eq!(check_request("(x) @x", None, 8), Ok(8));
    assert_eq!(check_request("(x) @x", None, 0), Ok(1));
}

#[test]
fn uncompilable_pattern_refuses_job() {
    let b = breeze();
    let r = b.start_job("(paragraph_segment @x", None, 2);
    assert!(matches!(r, Err(JobError::InvalidArgument(_))));
    let r = b.start_job("(no_such_node) @x", None, 2);
    assert!(matches!(r, Err(JobError::InvalidArgument(_))));
}

#[test]
fn unknown_node_at_end_of_pattern_is_refused() {
    let b = breeze();
    let r = b.start_job("(no_such_node", None, 2);
    assert!(matches!(r, Err(JobError::InvalidArgument(_))));
    let r = b.start_job("(paragraph_segment) @", None, 2);
    assert!(matches!(r, Err(JobError::InvalidArgument(_))));
}

#[test]
fn default_worker_count_is_used() {
    let b = breeze();
    let job = b.start_job("(paragraph_segment) @seg", None, 6).ok().unwrap();
    assert_eq!(job.workers(), 6);
}

#[test]
fn valid_pattern_starts_job() {
    let b = breeze();
    let job = b.start_job("(paragraph_segment) @seg", Some(3), 8).ok().unwrap();
    assert_eq!(job.workers(), 3);
    assert_eq!(job.names(), &vec!["seg".to_string()]);
}

#[test]
fn unreadable_file_does_not_affect_other() {
    let b = breeze();
    let job = b.start_job("(paragraph_segment) @seg", None, 2).ok().unwrap();
    let bad = b.mine_file(&job, None);
    assert_eq!(bad.err(), Some(FileError::ReadFailure));
    let good = b.mine_file(&job, Some(b"hello world\n".to_vec())).ok().unwrap();
    let segs = texts(&good, "seg");
    assert_eq!(segs.len(), 1);
    assert!(segs[0].starts_with("hello world"));
}

#[test]
fn mined_snippets_are_cut_from_source() {
    let b = breeze();
    let job = b.start_job("(paragraph_segment) @seg", None, 2).ok().unwrap();
    let set = b.mine_file(&job, Some(b"first line\n\nsecond line\n".to_vec())).ok().unwrap();
    let segs = texts(&set, "seg");
    assert_eq!(segs.len(), 2);
    assert!(segs[0].starts_with("first line"));
    assert!(segs[1].starts_with("second line"));
}

#[test]
fn file_without_matches_gives_empty_set() {
    let b = breeze();
    let job = b.start_job("(heading1) @h", None, 2).ok().unwrap();
    let set = b.mine_file(&job, Some(b"just text\n".to_vec())).ok().unwrap();
    assert!(set.groups.is_empty());
}

#[test]
fn same_file_mined_twice_is_identical() {
    let b = breeze();
    let source = b"* Title\n  some body text\n** Sub\n  more\n".to_vec();
    let one_worker = b.start_job("(paragraph_segment) @seg", Some(1), 8).ok().unwrap();
    let many_workers = b.start_job("(paragraph_segment) @seg", Some(8), 8).ok().unwrap();
    let a = b.mine_file(&one_worker, Some(source.clone())).ok().unwrap();
    let c = b.mine_file(&many_workers, Some(source.clone())).ok().unwrap();
    let d = b.mine_file(&one_worker, Some(source)).ok().unwrap();
    assert_eq!(texts(&a, "seg"), texts(&c, "seg"));
    assert_eq!(texts(&a, "seg"), texts(&d, "seg"));
    assert!(!texts(&a, "seg").is_empty());
}
