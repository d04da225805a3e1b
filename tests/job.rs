use breeze::job::{Delivery, JobState};

#[test]
fn every_file_delivered_once() {
    let mut s = JobState::new(3, 3);
    let a = s.take_work().unwrap();
    let b = s.take_work().unwrap();
    let c = s.take_work().unwrap();
    assert_eq!((a, b, c), (0, 1, 2));
    assert_eq!(s.take_work(), None);
    assert_eq!(s.in_flight(), 3);
    assert_eq!(s.finish(2), Delivery::Emit);
    assert_eq!(s.finish(0), Delivery::Emit);
    assert!(!s.is_closed());
    assert_eq!(s.finish(1), Delivery::Emit);
    assert_eq!(s.delivered(), 3);
    assert!(s.is_closed());
}

#[test]
fn second_result_for_a_file_is_refused() {
    let mut s = JobState::new(2, 2);
    let f = s.take_work().unwrap();
    assert_eq!(s.finish(f), Delivery::Emit);
    assert_eq!(s.finish(f), Delivery::Rejected);
    assert_eq!(s.delivered(), 1);
}

#[test]
fn result_for_file_not_handed_out_is_refused() {
    let mut s = JobState::new(2, 2);
    assert_eq!(s.finish(0), Delivery::Rejected);
    assert_eq!(s.finish(5), Delivery::Rejected);
    assert_eq!(s.delivered(), 0);
}

#[test]
fn empty_job_is_closed_at_once() {
    let mut s = JobState::new(0, 1);
    assert!(s.is_closed());
    assert_eq!(s.take_work(), None);
    assert_eq!(s.total(), 0);
}

#[test]
fn cancel_stops_handing_out_files() {
    let mut s = JobState::new(5, 4);
    let a = s.take_work().unwrap();
    let b = s.take_work().unwrap();
    assert_eq!(s.finish(a), Delivery::Emit);
    s.cancel();
    assert!(s.is_cancelled());
    assert!(s.is_closed());
    assert_eq!(s.take_work(), None);
    assert_eq!(s.take_work(), None);
    assert_eq!(s.in_flight(), 1);
    assert_eq!(s.finish(b), Delivery::Discard);
    assert_eq!(s.in_flight(), 0);
}

#[test]
fn no_more_files_out_than_workers() {
    let mut s = JobState::new(4, 2);
    assert_eq!(s.take_work(), Some(0));
    assert_eq!(s.take_work(), Some(1));
    assert_eq!(s.take_work(), None);
    assert_eq!(s.finish(1), Delivery::Emit);
    assert_eq!(s.take_work(), Some(2));
    assert_eq!(s.take_work(), None);
    assert_eq!(s.in_flight(), 2);
}

#[test]
fn single_worker_takes_files_one_at_a_time() {
    let mut s = JobState::new(3, 1);
    for f in 0..3 {
        assert_eq!(s.take_work(), Some(f));
        assert_eq!(s.take_work(), None);
        assert_eq!(s.finish(f), Delivery::Emit);
    }
    assert_eq!(s.take_work(), None);
    assert!(s.is_closed());
}
