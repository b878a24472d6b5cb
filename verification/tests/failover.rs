use moq::failover::{judge, next_payload, ReceivedGroup, Verifier};

const MS: u64 = 1_000_000;

fn group(seq: u64, arrival_ms: u64) -> ReceivedGroup {
    ReceivedGroup { seq, arrival: arrival_ms * MS, truncated: false }
}

#[test]
fn payloads_are_numbered() {
    assert_eq!(next_payload(0, 50).unwrap(), "group=0");
    assert_eq!(next_payload(49, 50).unwrap(), "group=49");
    assert!(next_payload(50, 50).is_none());
    assert_eq!(next_payload(123_456, 0).unwrap(), "group=123456");
}

#[test]
fn an_initial_burst_may_be_out_of_order() {
    let received = vec![group(5, 0), group(4, 1), group(6, 2), group(7, 202), group(8, 402)];
    let r = judge(&received, 100);
    assert_eq!((r.received, r.first, r.last), (5, 4, 8));
    assert_eq!((r.duplicates, r.missing, r.truncated), (0, 0, 0));
    assert_eq!(r.steady_start, Some(3));
    assert_eq!(r.violations, 0);
    assert!(r.passed());
}

#[test]
fn a_gap_a_repeat_and_a_truncated_group_are_found() {
    let mut received = vec![group(1, 0), group(2, 200), group(2, 400), group(5, 600)];
    received[1].truncated = true;
    let r = judge(&received, 100);
    assert_eq!((r.duplicates, r.missing, r.truncated), (1, 2, 1));
    assert_eq!(r.steady_start, Some(1));
    assert_eq!(r.violations, 2);
    assert!(!r.is_complete() && !r.is_contiguous() && !r.passed());
}

#[test]
fn complete_is_not_enough_once_the_burst_is_over() {
    let received = vec![group(1, 0), group(2, 200), group(4, 400), group(3, 600)];
    let r = judge(&received, 100);
    assert!(r.is_complete());
    assert!(!r.passed());
    assert_eq!(r.violations, 2);
}

#[test]
fn all_in_one_burst_passes() {
    let received = vec![group(3, 0), group(1, 1), group(2, 2)];
    let r = judge(&received, 100);
    assert_eq!(r.steady_start, None);
    assert!(r.passed());
}

#[test]
fn a_clock_that_goes_back_is_no_gap() {
    let received = vec![group(1, 900), group(2, 100), group(3, 101)];
    assert_eq!(judge(&received, 100).steady_start, None);
    assert_eq!(judge(&received, 0).steady_start, Some(1));
}

#[test]
fn the_verifier_collects() {
    let mut v = Verifier::new(2);
    assert!(v.report(100).is_none());
    assert!(v.wants_more());
    v.record(7, 0, true);
    assert_eq!(v.ended(), "track ended after 1 groups (needed 2)");
    assert!(v.wants_more());
    v.record(8, 200 * MS, false);
    assert!(!v.wants_more());
    let r = v.report(100).unwrap();
    assert_eq!(r.truncated, 1);
    assert!(!r.passed());
}
