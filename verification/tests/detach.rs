use std::collections::HashSet;

use rustconn::terminal::detach::{detach_context_from, take_park_mark, ParkMark, SplitMembership};

#[test]
fn colored_but_unparked_session_owns_its_split() {
    assert_eq!(SplitMembership::from_marks(true, false), SplitMembership::Owner);
    let ctx = detach_context_from(true, SplitMembership::Owner, false);
    assert!(ctx.is_split_owner);
    assert!(!ctx.is_split_guest);
}

#[test]
fn parked_session_is_a_guest_not_an_owner() {
    assert_eq!(SplitMembership::from_marks(true, true), SplitMembership::Guest);
    let ctx = detach_context_from(true, SplitMembership::Guest, false);
    assert!(!ctx.is_split_owner);
    assert!(ctx.is_split_guest);
}

#[test]
fn unmarked_session_is_outside_every_split() {
    assert_eq!(SplitMembership::from_marks(false, false), SplitMembership::Outside);
    let ctx = detach_context_from(true, SplitMembership::Outside, false);
    assert!(!ctx.is_split_owner);
    assert!(!ctx.is_split_guest);
    assert!(ctx.renders_in_process);
    assert!(!ctx.is_detached);
}

#[test]
fn remaining_flags_are_carried_through_verbatim() {
    let ctx = detach_context_from(false, SplitMembership::Outside, true);
    assert!(!ctx.renders_in_process);
    assert!(ctx.is_detached);
}

/// Two fixed ids keep the assertions readable.
fn ids() -> (u128, u128) {
    (1, 2)
}

#[test]
fn detach_mark_is_cleared_and_reported() {
    let (id, other) = ids();
    let mut in_split = HashSet::new();
    let mut detached = HashSet::from([id, other]);

    assert_eq!(take_park_mark(&mut in_split, &mut detached, id), Some(ParkMark::Detached));
    assert!(!detached.contains(&id), "the detach mark must be gone");
    assert!(detached.contains(&other), "other sessions stay marked");
    assert!(in_split.is_empty());
}

#[test]
fn split_mark_is_cleared_and_reported() {
    let (id, _) = ids();
    let mut in_split = HashSet::from([id]);
    let mut detached = HashSet::new();

    assert_eq!(take_park_mark(&mut in_split, &mut detached, id), Some(ParkMark::InSplit));
    assert!(in_split.is_empty());
    assert!(detached.is_empty());
}

#[test]
fn both_sets_are_cleared_when_both_marks_are_set() {
    // Should not happen in practice, but un-parking must not leave a stale mark behind if it does.
    let (id, _) = ids();
    let mut in_split = HashSet::from([id]);
    let mut detached = HashSet::from([id]);

    assert_eq!(take_park_mark(&mut in_split, &mut detached, id), Some(ParkMark::InSplit));
    assert!(in_split.is_empty());
    assert!(detached.is_empty(), "the detach mark must be cleared too");
}

#[test]
fn unparked_session_reports_no_mark() {
    let (id, other) = ids();
    let mut in_split = HashSet::from([other]);
    let mut detached = HashSet::from([other]);

    assert_eq!(take_park_mark(&mut in_split, &mut detached, id), None);
    assert!(in_split.contains(&other), "unrelated marks are untouched");
    assert!(detached.contains(&other));
}
