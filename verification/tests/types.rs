use rustconn::terminal::types::{
    duration_text, group_still_in_use, strip_group_prefix, tab_title,
};

/// The shape the creation paths produce.
#[test]
fn a_grouped_tab_is_titled_with_its_group() {
    assert_eq!(tab_title("web1", Some("dc1")), "[dc1] web1");
    assert_eq!(tab_title("web1", None), "web1");
}

/// Round trip: the prefix a grouped title carries is the one that comes off.
#[test]
fn stripping_undoes_composing() {
    let titled = tab_title("ssh1 via ssh2", Some("staging"));
    assert_eq!(strip_group_prefix(&titled), "ssh1 via ssh2");
}

/// An ungrouped title is returned untouched, including one containing brackets somewhere other than
/// the start.
#[test]
fn an_ungrouped_title_is_left_alone() {
    assert_eq!(strip_group_prefix("web1"), "web1");
    assert_eq!(strip_group_prefix("web1 [prod]"), "web1 [prod]");
}

/// A leading `[` with no closing `"] "` is not a prefix and must survive.
#[test]
fn a_bare_leading_bracket_is_not_a_prefix() {
    assert_eq!(strip_group_prefix("[unclosed"), "[unclosed");
    assert_eq!(strip_group_prefix("[a]b"), "[a]b");
}

/// A name is in use while any session carries it.
#[test]
fn a_group_worn_by_a_live_session_is_in_use() {
    let live = [Some("dc1"), None, Some("staging")];
    assert!(group_still_in_use("dc1", &live));
    assert!(group_still_in_use("staging", &live));
}

/// A name nothing carries may be retired, including when every session is ungrouped, and when there
/// are no sessions left at all.
#[test]
fn a_group_nothing_carries_may_be_retired() {
    assert!(!group_still_in_use("dc1", &[None, None]));
    assert!(!group_still_in_use("dc1", &[]));
    assert!(!group_still_in_use("dc1", &[Some("dc2")]));
}

/// The check is exact, not a prefix match.
#[test]
fn the_in_use_check_matches_the_whole_name() {
    assert!(!group_still_in_use("dc1", &[Some("dc10")]));
    assert!(!group_still_in_use("dc1", &[Some("DC1")]));
}

#[test]
fn a_duration_shows_its_two_largest_units() {
    assert_eq!(duration_text(0), "0s");
    assert_eq!(duration_text(59), "59s");
    assert_eq!(duration_text(65), "1m 05s");
    assert_eq!(duration_text(3_599), "59m 59s");
    assert_eq!(duration_text(3_725), "1h 02m");
    assert_eq!(duration_text(360_000), "100h 00m");
}
