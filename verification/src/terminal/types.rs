//! What is known of a session, and how its tab is titled.

use crate::clock::{self, whole_seconds, Timestamp};
use crate::text::{self, decimal_of, found, matches_at, opt_str_view, opt_view};
use vstd::prelude::*;

verus! {

/// What is known of a session.
pub struct TerminalSession {
    pub id: u128,
    /// The connection that the session is for.
    pub connection_id: u128,
    pub name: String,
    /// The protocol: ssh, rdp, vnc, ...
    pub protocol: String,
    /// Whether the session is shown in this process.
    pub is_embedded: bool,
    /// The host for the second line of the tab's tooltip, where it is known.
    pub host: Option<String>,
    pub log_file: Option<String>,
    pub history_entry_id: Option<u128>,
    /// The group of the tab.
    pub tab_group: Option<String>,
    pub tab_color_index: Option<usize>,
    pub connected_at: Timestamp,
}

/// What is known of a session.
pub struct SessionView {
    pub id: u128,
    pub connection_id: u128,
    pub name: Seq<char>,
    pub protocol: Seq<char>,
    pub is_embedded: bool,
    pub host: Option<Seq<char>>,
    pub log_file: Option<Seq<char>>,
    pub history_entry_id: Option<u128>,
    pub tab_group: Option<Seq<char>>,
    pub tab_color_index: Option<usize>,
    pub connected_at: Timestamp,
}

impl View for TerminalSession {
    type V = SessionView;

    open spec fn view(&self) -> SessionView {
        SessionView {
            id: self.id,
            connection_id: self.connection_id,
            name: self.name@,
            protocol: self.protocol@,
            is_embedded: self.is_embedded,
            host: opt_view(self.host),
            log_file: opt_view(self.log_file),
            history_entry_id: self.history_entry_id,
            tab_group: opt_view(self.tab_group),
            tab_color_index: self.tab_color_index,
            connected_at: self.connected_at,
        }
    }
}

/// A number with at least two digits.
pub open spec fn two_digits(n: nat) -> Seq<char> {
    if n < 10 {
        "0"@ + decimal_of(n)
    } else {
        decimal_of(n)
    }
}

/// A duration as it is shown: hours and minutes, minutes and seconds, or seconds alone.
pub open spec fn duration_of(seconds: nat) -> Seq<char> {
    if seconds >= 3600 {
        decimal_of(seconds / 3600) + "h "@ + two_digits((seconds % 3600) / 60) + "m"@
    } else if seconds >= 60 {
        decimal_of(seconds / 60) + "m "@ + two_digits(seconds % 60) + "s"@
    } else {
        decimal_of(seconds) + "s"@
    }
}

/// The seconds from `since` to `now`; a clock that was set back counts as no time.
pub open spec fn seconds_since(now: Timestamp, since: Timestamp) -> nat {
    if whole_seconds(now, since) > 0 {
        whole_seconds(now, since) as nat
    } else {
        0
    }
}

fn pad(n: u64) -> (r: String)
    ensures
        r@ == two_digits(n as nat),
{
    let digits = text::decimal(n);
    if n < 10 {
        text::join("0", &digits)
    } else {
        digits
    }
}

/// Writes a duration.
pub fn duration_text(seconds: u64) -> (r: String)
    ensures
        r@ == duration_of(seconds as nat),
{
    if seconds >= 3600 {
        let hours = text::join(&text::decimal(seconds / 3600), "h ");
        text::join3(&hours, &pad((seconds % 3600) / 60), "m")
    } else if seconds >= 60 {
        let minutes = text::join(&text::decimal(seconds / 60), "m ");
        text::join3(&minutes, &pad(seconds % 60), "s")
    } else {
        text::join(&text::decimal(seconds), "s")
    }
}

impl TerminalSession {
    /// How long the session has lasted at `now`, as it is shown.
    pub fn duration_at(&self, now: Timestamp) -> (r: String)
        requires
            now.wf(),
            self.connected_at.wf(),
        ensures
            r@ == duration_of(seconds_since(now, self.connected_at)),
    {
        let elapsed: i64 = clock::elapsed_seconds(now, self.connected_at);
        duration_text(elapsed as u64)
    }

    /// How long the session has lasted, as it is shown.
    pub fn format_duration(&self) -> (r: String)
        requires
            self.connected_at.wf(),
        ensures
            exists|now: Timestamp| #[trigger]
                now.wf() && now.secs >= 0 && r@ == duration_of(seconds_since(now, self.connected_at)),
    {
        let now = clock::now();
        self.duration_at(now)
    }

    /// A copy of what is known.
    pub fn copy(&self) -> (r: TerminalSession)
        ensures
            r@ == self@,
    {
        TerminalSession {
            id: self.id,
            connection_id: self.connection_id,
            name: self.name.clone(),
            protocol: self.protocol.clone(),
            is_embedded: self.is_embedded,
            host: self.host.clone(),
            log_file: self.log_file.clone(),
            history_entry_id: self.history_entry_id,
            tab_group: self.tab_group.clone(),
            tab_color_index: self.tab_color_index,
            connected_at: self.connected_at,
        }
    }
}

/// What shows a session that has no terminal.
#[derive(Clone, Copy, Debug, PartialEq, Eq, Structural)]
pub enum SessionWidgetStorage {
    Vnc,
    EmbeddedRdp,
    EmbeddedWeb,
    /// A viewer in a process of its own, which ends with the tab.
    ExternalProcess,
}

/// A cluster whose connections are being opened, until each tab appears.
pub struct PendingCluster {
    pub cluster_id: u128,
    /// The cluster's name, which becomes the name of the tab group.
    pub group: String,
}

/// The open tabs of a cluster, and the group they carry.
pub struct ClusterTabs {
    pub group: String,
    /// The sessions, in the order in which their tabs appeared.
    pub sessions: Vec<u128>,
}

/// Whether a session still carries `group`. The name has to be the same, not merely to start alike.
pub fn group_still_in_use(group: &str, live: &[Option<&str>]) -> (r: bool)
    ensures
        r == exists|i: int| 0 <= i < live@.len() && opt_str_view(#[trigger] live@[i]) == Some(group@),
{
    let mut i: usize = 0;
    while i < live.len()
        invariant
            i <= live@.len(),
            forall|j: int| 0 <= j < i ==> opt_str_view(#[trigger] live@[j]) != Some(group@),
        decreases live@.len() - i,
    {
        if let Some(name) = live[i] {
            if text::same(name, group) {
                assert(opt_str_view(live@[i as int]) == Some(group@));
                return true;
            }
        }
        i += 1;
    }
    false
}

/// A tab's title: the session's name behind the group in brackets.
pub open spec fn title_of(name: Seq<char>, group: Option<Seq<char>>) -> Seq<char> {
    match group {
        Some(g) => "["@ + g + "] "@ + name,
        None => name,
    }
}

/// Composes a tab's title from the session's name and its group.
pub fn tab_title(name: &str, group: Option<&str>) -> (r: String)
    ensures
        r@ == title_of(name@, opt_str_view(group)),
{
    match group {
        Some(g) => {
            let head = text::join3("[", g, "] ");
            text::join(&head, name)
        },
        None => name.to_owned(),
    }
}

/// A title without the group that it starts with.
pub open spec fn without_group(title: Seq<char>) -> Seq<char> {
    if title.len() > 0 && title[0] == '[' {
        match found(title, "] "@) {
            Some(p) => title.skip(p + 2),
            None => title,
        }
    } else {
        title
    }
}

/// Strips the group from a composed title. A title that merely starts with a bracket is left alone.
pub fn strip_group_prefix(title: &str) -> (r: &str)
    ensures
        r@ == without_group(title@),
{
    let n: usize = title.unicode_len();
    if n == 0 || title.get_char(0) != '[' {
        return title;
    }
    match text::find(title, "] ") {
        Some(p) => {
            proof {
                text::lemma_found_from(title@, "] "@, 0);
                reveal_strlit("] ");
            }
            let rest = title.substring_char(p + 2, n);
            assert(rest@ =~= title@.skip(p + 2));
            rest
        },
        None => title,
    }
}

/// Stripping undoes composing, for a group whose name does not hold the closing bracket and space.
pub proof fn law_stripping_undoes_composing(name: Seq<char>, group: Seq<char>)
    requires
        found(group, "] "@) is None,
    ensures
        without_group(title_of(name, Some(group))) == name,
{
    reveal_strlit("[");
    reveal_strlit("] ");
    let pat = "] "@;
    let title = title_of(name, Some(group));
    let p: int = group.len() as int + 1;
    assert(title.len() == group.len() + 3 + name.len());
    assert(title[0] == '[');
    assert(matches_at(title, pat, p)) by {
        assert(title.subrange(p, p + 2) =~= pat);
    }
    assert forall|q: int| 0 <= q < p implies !matches_at(title, pat, q) by {
        if matches_at(title, pat, q) {
            assert(title.subrange(q, q + 2)[0] == title[q]);
            assert(title.subrange(q, q + 2)[1] == title[q + 1]);
            assert(title[q] == ']' && title[q + 1] == ' ');
            assert(q >= 1);
            if q + 1 < p {
                assert(group[q - 1] == title[q] && group[q] == title[q + 1]);
                assert(group.subrange(q - 1, q + 1) =~= pat);
                assert(matches_at(group, pat, q - 1));
                text::lemma_found_from(group, pat, 0);
            } else {
                assert(title[p] == ']');
            }
        }
    }
    text::lemma_found_is(title, pat, p);
    assert(title.skip(p + 2) =~= name);
}

/// A title without a group is left alone, unless the session's own name looks like a grouped one.
pub proof fn law_ungrouped_title_is_left_alone(name: Seq<char>)
    requires
        name.len() == 0 || name[0] != '[' || found(name, "] "@) is None,
    ensures
        without_group(title_of(name, None)) == name,
{
}

/// A title is the session's name; in a group, the group stands in brackets in front of it.
pub proof fn law_group_stands_in_front_of_the_name(name: &str, group: Option<&str>, r: String)
    requires
        call_ensures(tab_title, (name, group), r),
    ensures
        group is None ==> r@ == name@,
        group matches Some(g) ==> r@ == seq!['['] + g@ + seq![']', ' '] + name@,
{
    reveal_strlit("[");
    reveal_strlit("] ");
    assert("["@ =~= seq!['[']);
    assert("] "@ =~= seq![']', ' ']);
}

/// Only a bracketed group at the start is stripped, up to where its bracket and space first close it.
pub proof fn law_only_a_group_in_front_is_stripped(title: &str, r: &str)
    requires
        call_ensures(strip_group_prefix, (title,), r),
    ensures
        title@.len() == 0 || title@[0] != '[' ==> r@ == title@,
        forall|i: int|
            0 <= i && i + 1 < title@.len() - r@.len() - 1 ==> !(#[trigger] title@[i] == ']' && title@[i
                + 1] == ' '),
        r@ == title@ || exists|group: Seq<char>|
            title@ == #[trigger] ("["@ + group + "] "@ + r@),
        title@.len() > 0 && title@[0] == '[' && r@ == title@ ==> found(title@, "] "@) is None,
{
    reveal_strlit("[");
    reveal_strlit("] ");
    let t = title@;
    let pat = "] "@;
    assert(pat =~= seq![']', ' ']);
    text::lemma_found_from(t, pat, 0);
    assert forall|i: int| 0 <= i && i + 1 < t.len() && #[trigger] t[i] == ']' && t[i + 1]
        == ' ' implies matches_at(t, pat, i) by {
        assert(t.subrange(i, i + 2) =~= pat);
    }
    if t.len() > 0 && t[0] == '[' {
        if let Some(p) = found(t, pat) {
            assert(t.subrange(p, p + 2)[0] == t[p]);
            assert(p > 0);
            let group = t.subrange(1, p);
            assert(t =~= "["@ + group + t.subrange(p, p + 2) + t.skip(p + 2));
            assert(t == "["@ + group + "] "@ + r@);
        }
    }
}

/// A duration shows its two largest units, the smaller with two digits, and its parts add up to the
/// whole, but for the seconds behind the minutes of an hour.
pub proof fn law_duration_adds_up(seconds: u64, r: String)
    requires
        call_ensures(duration_text, (seconds,), r),
    ensures
        seconds < 60 ==> r@ == decimal_of(seconds as nat) + seq!['s'],
        60 <= seconds < 3600 ==> exists|m: nat, s: nat|
            seconds == 60 * m + s && s < 60 && r@ == #[trigger] decimal_of(m) + seq!['m', ' ']
                + #[trigger] padded_two(s) + seq!['s'],
        seconds >= 3600 ==> exists|h: nat, m: nat|
            3600 * h + 60 * m <= seconds < 3600 * h + 60 * m + 60 && m < 60 && r@ == #[trigger] decimal_of(
                h,
            ) + seq!['h', ' '] + #[trigger] padded_two(m) + seq!['m'],
{
    reveal_strlit("s");
    reveal_strlit("m");
    reveal_strlit("m ");
    reveal_strlit("h ");
    reveal_strlit("0");
    assert("s"@ =~= seq!['s']);
    assert("m"@ =~= seq!['m']);
    assert("m "@ =~= seq!['m', ' ']);
    assert("h "@ =~= seq!['h', ' ']);
    assert("0"@ =~= seq!['0']);
    let n = seconds as nat;
    if 60 <= n < 3600 {
        lemma_padded_two(n % 60);
        assert(n == 60 * (n / 60) + n % 60);
        assert(r@ == decimal_of(n / 60) + seq!['m', ' '] + padded_two(n % 60) + seq!['s']);
    }
    if n >= 3600 {
        let m = (n % 3600) / 60;
        lemma_padded_two(m);
        assert(n == 3600 * (n / 3600) + n % 3600);
        assert(r@ == decimal_of(n / 3600) + seq!['h', ' '] + padded_two(m) + seq!['m']);
    }
}

/// A number below a hundred in two digits.
pub open spec fn padded_two(n: nat) -> Seq<char> {
    decimal_of(n / 10) + decimal_of(n % 10)
}

proof fn lemma_padded_two(n: nat)
    requires
        n < 100,
    ensures
        two_digits(n) == padded_two(n),
{
    reveal_strlit("0");
    reveal_with_fuel(decimal_of, 2);
    if n < 10 {
        assert(n / 10 == 0 && n % 10 == n);
        assert(decimal_of(0) =~= "0"@);
        assert(two_digits(n) =~= padded_two(n));
    } else {
        assert(decimal_of(n % 10) =~= seq![text::digit_char(n % 10)]);
        assert(two_digits(n) =~= padded_two(n));
    }
}

/// A session lasts as long as the whole seconds since it was connected, and no time where the clock was
/// set back.
pub proof fn law_session_lasts_since_it_was_connected(
    session: &TerminalSession,
    now: Timestamp,
    r: String,
    seconds: u64,
    shown: String,
)
    requires
        now.wf(),
        session.connected_at.wf(),
        call_ensures(TerminalSession::duration_at, (session, now), r),
        call_ensures(duration_text, (seconds,), shown),
        seconds == (if whole_seconds(now, session.connected_at) > 0 {
            whole_seconds(now, session.connected_at)
        } else {
            0
        }),
    ensures
        r@ == shown@,
{
}

/// A group is in use exactly where a session carries its very name.
pub proof fn law_group_in_use_is_carried(group: &str, live: &[Option<&str>], r: bool)
    requires
        call_ensures(group_still_in_use, (group, live), r),
    ensures
        r <==> exists|i: int|
            0 <= i < live@.len() && (#[trigger] live@[i] matches Some(name) && name@ == group@),
{
    if r {
        let i = choose|i: int|
            0 <= i < live@.len() && opt_str_view(#[trigger] live@[i]) == Some(group@);
        assert(live@[i] matches Some(name) && name@ == group@);
    }
    if exists|i: int|
        0 <= i < live@.len() && (#[trigger] live@[i] matches Some(name) && name@ == group@) {
        let i = choose|i: int|
            0 <= i < live@.len() && (#[trigger] live@[i] matches Some(name) && name@ == group@);
        assert(opt_str_view(live@[i]) == Some(group@));
    }
}

/// A copy says what the session says.
pub proof fn law_copy_says_the_same(session: &TerminalSession, r: TerminalSession)
    requires
        call_ensures(TerminalSession::copy, (session,), r),
    ensures
        r.id == session.id,
        r.connection_id == session.connection_id,
        r.name@ == session.name@,
        r.protocol@ == session.protocol@,
        r.is_embedded == session.is_embedded,
        opt_view(r.host) == opt_view(session.host),
        opt_view(r.log_file) == opt_view(session.log_file),
        r.history_entry_id == session.history_entry_id,
        opt_view(r.tab_group) == opt_view(session.tab_group),
        r.tab_color_index == session.tab_color_index,
        r.connected_at == session.connected_at,
{
    assert(r@.id == session@.id);
}

} // verus!
