use bridge_grandpa::authority::{list_is_unique, AuthoritySet};
use bridge_grandpa::change::ScheduledChange;
use bridge_grandpa::error::Error;
use bridge_grandpa::tracker::{AuthoritySetTracker, PendingChange};

fn key(seed: u8) -> [u8; 32] {
    [seed; 32]
}

fn set(seeds: &[u8]) -> AuthoritySet {
    AuthoritySet::new(seeds.iter().map(|s| (key(*s), u64::from(*s))).collect()).unwrap()
}

fn change(seeds: &[u8], delay: u32) -> Option<ScheduledChange> {
    Some(ScheduledChange {
        next_authorities: seeds.iter().map(|s| (key(*s), u64::from(*s))).collect(),
        delay,
    })
}

#[test]
fn a_set_is_unique_by_key() {
    assert!(AuthoritySet::new(vec![]).is_some());
    assert!(AuthoritySet::new(vec![(key(1), 1)]).is_some());
    assert!(AuthoritySet::new(vec![(key(1), 1), (key(2), 1), (key(3), 1)]).is_some());
    assert!(AuthoritySet::new(vec![(key(1), 1), (key(2), 1), (key(1), 1)]).is_none());
    assert!(AuthoritySet::new(vec![(key(1), 1), (key(1), 2)]).is_none());
    assert!(list_is_unique(&vec![(key(1), 1), (key(2), 1)]));
    assert!(!list_is_unique(&vec![(key(2), 1), (key(2), 1)]));
}

#[test]
fn a_set_keeps_order_and_weights() {
    let list = vec![(key(3), 30), (key(1), 0), (key(2), 20)];
    let set = AuthoritySet::new(list.clone()).unwrap();
    assert_eq!(set.len(), 3);
    assert_eq!(set.to_list(), list);
    assert_eq!(set.position(&key(3)), Some(0));
    assert_eq!(set.position(&key(1)), Some(1));
    assert_eq!(set.position(&key(2)), Some(2));
    assert_eq!(set.position(&key(4)), None);
    assert_eq!(set.weight_at(0), 30);
    assert_eq!(set.weight_at(1), 0);
    assert_eq!(set.total_weight(), 50);
}

#[test]
fn total_weight_does_not_overflow() {
    let set = AuthoritySet::new(vec![(key(1), u64::MAX), (key(2), u64::MAX), (key(3), 2)]).unwrap();
    assert_eq!(set.total_weight(), 2 * u128::from(u64::MAX) + 2);
    assert_eq!(AuthoritySet::new(vec![]).unwrap().total_weight(), 0);
}

#[test]
fn a_new_tracker_waits_for_nothing() {
    let tracker = AuthoritySetTracker::new(set(&[1, 2]), 7);
    assert_eq!(tracker.set_id(), 7);
    assert_eq!(tracker.current(), &set(&[1, 2]));
    assert_eq!(tracker.pending(), &PendingChange::NoChange);
    assert_eq!(tracker.check_set_id(7), Ok(()));
    assert_eq!(tracker.check_set_id(6), Err(Error::InvalidAuthoritySetId));
    assert_eq!(tracker.check_set_id(8), Err(Error::InvalidAuthoritySetId));
}

#[test]
fn an_import_without_a_change_changes_nothing() {
    let mut tracker = AuthoritySetTracker::new(set(&[1, 2]), 7);
    let before = tracker.clone();
    assert_eq!(tracker.apply_import(10, None), Ok(()));
    assert_eq!(tracker, before);
}

#[test]
fn a_change_without_delay_is_enacted_at_once() {
    let mut tracker = AuthoritySetTracker::new(set(&[1, 2]), 7);
    assert_eq!(tracker.apply_import(10, change(&[3, 4], 0)), Ok(()));
    assert_eq!(tracker.set_id(), 8);
    assert_eq!(tracker.current(), &set(&[3, 4]));
    assert_eq!(tracker.pending(), &PendingChange::NoChange);
}

#[test]
fn a_delayed_change_waits_for_its_block() {
    let mut tracker = AuthoritySetTracker::new(set(&[1, 2]), 7);
    assert_eq!(tracker.apply_import(10, change(&[3, 4], 5)), Ok(()));
    assert_eq!(tracker.set_id(), 7);
    assert_eq!(tracker.current(), &set(&[1, 2]));
    assert_eq!(
        tracker.pending(),
        &PendingChange::Scheduled { set: set(&[3, 4]), activation_block: 15 }
    );

    assert_eq!(tracker.apply_import(14, None), Ok(()));
    assert_eq!(tracker.set_id(), 7);
    assert_eq!(tracker.current(), &set(&[1, 2]));

    assert_eq!(tracker.apply_import(15, None), Ok(()));
    assert_eq!(tracker.set_id(), 8);
    assert_eq!(tracker.current(), &set(&[3, 4]));
    assert_eq!(tracker.pending(), &PendingChange::NoChange);
}

#[test]
fn a_change_is_enacted_by_a_later_block_too() {
    let mut tracker = AuthoritySetTracker::new(set(&[1, 2]), 0);
    assert_eq!(tracker.apply_import(10, change(&[3], 5)), Ok(()));
    assert_eq!(tracker.apply_import(40, None), Ok(()));
    assert_eq!(tracker.set_id(), 1);
    assert_eq!(tracker.current(), &set(&[3]));
}

#[test]
fn the_activation_block_does_not_overflow() {
    let mut tracker = AuthoritySetTracker::new(set(&[1]), 0);
    assert_eq!(tracker.apply_import(u32::MAX, change(&[2], u32::MAX)), Ok(()));
    assert_eq!(
        tracker.pending(),
        &PendingChange::Scheduled { set: set(&[2]), activation_block: 2 * u64::from(u32::MAX) }
    );
}

#[test]
fn a_change_announced_while_another_waits_is_ignored() {
    let mut tracker = AuthoritySetTracker::new(set(&[1, 2]), 7);
    assert_eq!(tracker.apply_import(10, change(&[3, 4], 5)), Ok(()));
    assert_eq!(tracker.apply_import(11, change(&[5, 6], 0)), Ok(()));
    assert_eq!(tracker.set_id(), 7);
    assert_eq!(
        tracker.pending(),
        &PendingChange::Scheduled { set: set(&[3, 4]), activation_block: 15 }
    );
    // even one that could not be scheduled
    assert_eq!(tracker.apply_import(12, change(&[5, 5], 0)), Ok(()));
    assert_eq!(tracker.set_id(), 7);
}

#[test]
fn the_enacting_block_may_announce_the_next_change() {
    let mut tracker = AuthoritySetTracker::new(set(&[1, 2]), 7);
    assert_eq!(tracker.apply_import(10, change(&[3, 4], 5)), Ok(()));
    assert_eq!(tracker.apply_import(15, change(&[5, 6], 2)), Ok(()));
    assert_eq!(tracker.set_id(), 8);
    assert_eq!(tracker.current(), &set(&[3, 4]));
    assert_eq!(
        tracker.pending(),
        &PendingChange::Scheduled { set: set(&[5, 6]), activation_block: 17 }
    );

    let mut tracker = AuthoritySetTracker::new(set(&[1, 2]), 7);
    assert_eq!(tracker.apply_import(10, change(&[3, 4], 5)), Ok(()));
    assert_eq!(tracker.apply_import(15, change(&[5, 6], 0)), Ok(()));
    assert_eq!(tracker.set_id(), 9);
    assert_eq!(tracker.current(), &set(&[5, 6]));
    assert_eq!(tracker.pending(), &PendingChange::NoChange);
}

#[test]
fn a_change_with_a_repeated_key_is_refused() {
    let mut tracker = AuthoritySetTracker::new(set(&[1, 2]), 7);
    let before = tracker.clone();
    assert!(!tracker.allows_import(10, &change(&[3, 3], 5)));
    assert_eq!(tracker.apply_import(10, change(&[3, 3], 5)), Err(Error::InvalidAuthoritySet));
    assert_eq!(tracker, before);
    assert_eq!(tracker.apply_import(10, change(&[3, 4, 3], 0)), Err(Error::InvalidAuthoritySet));
    assert_eq!(tracker, before);
    assert!(tracker.allows_import(10, &change(&[3, 4], 5)));
}

#[test]
fn the_set_id_does_not_overflow() {
    let mut tracker = AuthoritySetTracker::new(set(&[1, 2]), u64::MAX);
    let before = tracker.clone();
    assert_eq!(tracker.apply_import(10, change(&[3], 0)), Err(Error::InvalidAuthoritySet));
    assert_eq!(tracker, before);
    assert_eq!(tracker.apply_import(10, change(&[3], 1)), Ok(()));
    let waiting = tracker.clone();
    assert_eq!(tracker.apply_import(11, None), Err(Error::InvalidAuthoritySet));
    assert_eq!(tracker, waiting);

    let mut tracker = AuthoritySetTracker::new(set(&[1, 2]), u64::MAX - 1);
    assert_eq!(tracker.apply_import(10, change(&[3], 1)), Ok(()));
    let waiting = tracker.clone();
    assert_eq!(tracker.apply_import(11, change(&[4], 0)), Err(Error::InvalidAuthoritySet));
    assert_eq!(tracker, waiting);
    assert_eq!(tracker.apply_import(11, change(&[4], 1)), Ok(()));
    assert_eq!(tracker.set_id(), u64::MAX);
}
