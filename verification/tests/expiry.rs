use passnag::duration::Interval;
use passnag::expiry::{expired, is_due, nag, next_due, Nag};
use passnag::store::{Store, Timestamp};

const SECOND: i128 = 1_000_000_000;

fn at(nanos: i128) -> Timestamp {
    Timestamp { nanos }
}

fn every(secs: u64) -> Interval {
    Interval { secs }
}

fn store_of(times: &[i128]) -> Store {
    let mut store = Store::new();
    let mut i = 0;
    while i < times.len() {
        store.put(format!("record{}", i), at(times[i]));
        i += 1;
    }
    store
}

#[test]
fn a_record_is_due_when_its_age_is_the_interval_or_more() {
    let now = at(1_000 * SECOND);
    assert!(is_due(at(940 * SECOND), now, every(60)));
    assert!(is_due(at(940 * SECOND - 1), now, every(60)));
    assert!(is_due(at(0), now, every(60)));
    assert!(!is_due(at(940 * SECOND + 1), now, every(60)));
    assert!(!is_due(at(999 * SECOND), now, every(60)));
}

#[test]
fn with_no_interval_every_record_is_due() {
    let now = at(1_000 * SECOND);
    assert!(is_due(at(0), now, every(0)));
    assert!(is_due(now, now, every(0)));
    assert!(is_due(at(1_001 * SECOND), now, every(0)));
    assert!(is_due(at(i128::MAX), at(i128::MIN), every(0)));
}

#[test]
fn a_record_from_the_future_has_no_age() {
    let now = at(1_000 * SECOND);
    assert!(!is_due(at(1_001 * SECOND), now, every(1)));
    assert!(!is_due(at(i128::MAX), now, every(1)));
    assert!(!is_due(now, now, every(1)));
}

#[test]
fn ages_beyond_the_numbers_are_due() {
    assert!(is_due(at(i128::MIN), at(i128::MAX), every(u64::MAX)));
    assert!(is_due(at(-1), at(i128::MAX), every(u64::MAX)));
    assert!(is_due(at(0), at(i128::MAX), every(u64::MAX)));
    assert!(!is_due(at(0), at(18_446_744_073_709_551_615 * SECOND - 1), every(u64::MAX)));
    assert!(is_due(at(0), at(18_446_744_073_709_551_615 * SECOND), every(u64::MAX)));
}

#[test]
fn expired_lists_the_due_records_in_order() {
    let store = store_of(&[0, 95 * SECOND, 40 * SECOND, 100 * SECOND, 41 * SECOND, 200 * SECOND]);
    let now = at(100 * SECOND);
    assert_eq!(expired(&store, every(60), now), vec![0, 2]);
    assert_eq!(expired(&store, every(5), now), vec![0, 1, 2, 4]);
    assert_eq!(expired(&store, every(0), now), vec![0, 1, 2, 3, 4, 5]);
    assert_eq!(expired(&store, every(101), now), Vec::<usize>::new());
    assert_eq!(expired(&Store::new(), every(0), now), Vec::<usize>::new());
}

#[test]
fn next_due_walks_through_the_due_records() {
    let store = store_of(&[0, 95 * SECOND, 40 * SECOND, 100 * SECOND, 41 * SECOND]);
    let now = at(100 * SECOND);
    assert_eq!(next_due(&store, 0, now, every(60)), Some(0));
    assert_eq!(next_due(&store, 1, now, every(60)), Some(2));
    assert_eq!(next_due(&store, 2, now, every(60)), Some(2));
    assert_eq!(next_due(&store, 3, now, every(60)), None);
    assert_eq!(next_due(&store, 5, now, every(60)), None);
    assert_eq!(next_due(&store, 99, now, every(0)), None);
}

#[test]
fn nag_is_silent_where_nothing_is_due() {
    let now = at(100 * SECOND);
    assert_eq!(nag(&Store::new(), every(0), now), Nag::Silent);
    assert_eq!(nag(&store_of(&[50 * SECOND, 99 * SECOND]), every(60), now), Nag::Silent);
    assert_eq!(nag(&store_of(&[200 * SECOND]), every(1), now), Nag::Silent);
}

#[test]
fn nag_reminds_where_a_record_is_due() {
    let now = at(100 * SECOND);
    assert_eq!(nag(&store_of(&[50 * SECOND, 40 * SECOND]), every(60), now), Nag::Remind);
    assert_eq!(nag(&store_of(&[99 * SECOND]), every(0), now), Nag::Remind);
}

#[test]
fn nag_changes_nothing() {
    let store = store_of(&[0, 1]);
    let _ = nag(&store, every(0), at(100 * SECOND));
    assert_eq!(store.entry(0).unwrap().last_recalled, at(0));
    assert_eq!(store.entry(1).unwrap().last_recalled, at(1));
}
