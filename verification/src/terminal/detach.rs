//! Why a session has no tab of its own, and what is asked before it is moved.

use std::collections::HashSet;
use vstd::prelude::*;

verus! {

broadcast use vstd::std_specs::hash::group_hash_axioms;

/// Where a session stands with regard to a split layout.
#[derive(Clone, Copy, Debug, PartialEq, Eq, Structural)]
pub enum SplitMembership {
    /// In no split.
    Outside,
    /// The session's own tab holds the split.
    Owner,
    /// The session is shown in another tab's split.
    Guest,
}

impl SplitMembership {
    /// The membership that the two marks stand for. A color marks everyone in a split; only a guest
    /// is parked out of the tab bar.
    pub open spec fn of_marks(has_split_color: bool, is_parked_in_split: bool) -> Self {
        if is_parked_in_split {
            SplitMembership::Guest
        } else if has_split_color {
            SplitMembership::Owner
        } else {
            SplitMembership::Outside
        }
    }

    /// Derives the membership from the two marks.
    pub fn from_marks(has_split_color: bool, is_parked_in_split: bool) -> (r: Self)
        ensures
            r == Self::of_marks(has_split_color, is_parked_in_split),
    {
        if is_parked_in_split {
            SplitMembership::Guest
        } else if has_split_color {
            SplitMembership::Owner
        } else {
            SplitMembership::Outside
        }
    }
}

/// Why a session has no tab of its own.
#[derive(Clone, Copy, Debug, PartialEq, Eq, Structural)]
pub enum ParkMark {
    /// It is shown in another tab's split.
    InSplit,
    /// It is shown in a window of its own.
    Detached,
}

/// The mark that a session holds. The split counts first, since it holds the widget.
pub open spec fn park_mark(
    parked_in_split: Set<u128>,
    detached: Set<u128>,
    session_id: u128,
) -> Option<ParkMark> {
    if parked_in_split.contains(session_id) {
        Some(ParkMark::InSplit)
    } else if detached.contains(session_id) {
        Some(ParkMark::Detached)
    } else {
        None
    }
}

/// Takes a session out of both sets and says which mark it held.
pub fn take_park_mark(
    parked_in_split: &mut HashSet<u128>,
    detached: &mut HashSet<u128>,
    session_id: u128,
) -> (r: Option<ParkMark>)
    ensures
        final(parked_in_split)@ == old(parked_in_split)@.remove(session_id),
        final(detached)@ == old(detached)@.remove(session_id),
        r == park_mark(old(parked_in_split)@, old(detached)@, session_id),
{
    let was_in_split = parked_in_split.remove(&session_id);
    let was_detached = detached.remove(&session_id);
    if was_in_split {
        Some(ParkMark::InSplit)
    } else if was_detached {
        Some(ParkMark::Detached)
    } else {
        None
    }
}

/// What is asked of a session before it is moved.
#[derive(Clone, Copy, Debug, PartialEq, Eq, Structural)]
pub struct DetachContext {
    /// Whether this process draws the session.
    pub renders_in_process: bool,
    pub is_split_owner: bool,
    pub is_split_guest: bool,
    pub is_detached: bool,
}

/// Puts together what is asked of a session before it is moved.
pub fn detach_context_from(
    renders_in_process: bool,
    split: SplitMembership,
    is_detached: bool,
) -> (r: DetachContext)
    ensures
        r == (DetachContext {
            renders_in_process,
            is_split_owner: split == SplitMembership::Owner,
            is_split_guest: split == SplitMembership::Guest,
            is_detached,
        }),
{
    DetachContext {
        renders_in_process,
        is_split_owner: split == SplitMembership::Owner,
        is_split_guest: split == SplitMembership::Guest,
        is_detached,
    }
}

/// A session that is parked in a split is a guest, one with a split's color that is not parked owns
/// the split, and one with neither mark is in none.
pub proof fn law_marks_tell_the_membership(color: bool, parked: bool, r: SplitMembership)
    requires
        call_ensures(SplitMembership::from_marks, (color, parked), r),
    ensures
        r == SplitMembership::Guest <==> parked,
        r == SplitMembership::Owner <==> color && !parked,
        r == SplitMembership::Outside <==> !color && !parked,
{
}

/// The mark that a session held is told by the set it was in, the split first; none is told exactly
/// where it was in neither.
pub proof fn law_mark_tells_the_set(parked: Set<u128>, detached: Set<u128>, id: u128)
    ensures
        park_mark(parked, detached, id) == Some(ParkMark::InSplit) <==> parked.contains(id),
        park_mark(parked, detached, id) == Some(ParkMark::Detached) <==> detached.contains(id)
            && !parked.contains(id),
        park_mark(parked, detached, id) is None <==> !parked.contains(id) && !detached.contains(id),
{
}

/// What is asked before a move is what was known: each answer is that of its own mark.
pub proof fn law_context_is_what_was_known(
    renders: bool,
    split: SplitMembership,
    detached: bool,
    r: DetachContext,
)
    requires
        call_ensures(detach_context_from, (renders, split, detached), r),
    ensures
        r.renders_in_process <==> renders,
        r.is_split_owner <==> split == SplitMembership::Owner,
        r.is_split_guest <==> split == SplitMembership::Guest,
        r.is_detached <==> detached,
{
}

} // verus!
