//! A session's tab: its title, its tooltip and its marks.

use crate::terminal::types::{self, title_of, without_group, SessionView, TerminalSession};
use crate::text::{self, matches_at, opt_str_view};
use vstd::prelude::*;

verus! {

/// The mark beside a tab's title.
#[derive(Clone, Copy, Debug, PartialEq, Eq, Structural)]
pub enum Indicator {
    Blank,
    /// The session is disconnected.
    Offline,
    /// A circle in the color of the split that the session is in.
    SplitColor(usize),
    /// A plain mark for a split whose circle could not be drawn.
    SplitPlain,
    /// A circle in the color of the session's protocol.
    Protocol,
    /// A circle in the color of the session's group.
    GroupColor(usize),
}

/// A tab's icon.
#[derive(Clone, Copy, Debug, PartialEq, Eq, Structural)]
pub enum TabIcon {
    /// The icon of the session's protocol.
    OfProtocol,
    Displays,
    Computer,
    Browser,
}

impl TabIcon {
    /// The name of the icon in the theme; the protocol's icon is looked up by the protocol.
    pub fn theme_name(self) -> (r: Option<&'static str>)
        ensures
            opt_str_view(r) == match self {
                TabIcon::OfProtocol => None,
                TabIcon::Displays => Some("video-joined-displays-symbolic"@),
                TabIcon::Computer => Some("computer-symbolic"@),
                TabIcon::Browser => Some("web-browser-symbolic"@),
            },
    {
        match self {
            TabIcon::OfProtocol => None,
            TabIcon::Displays => Some("video-joined-displays-symbolic"),
            TabIcon::Computer => Some("computer-symbolic"),
            TabIcon::Browser => Some("web-browser-symbolic"),
        }
    }
}

/// What a tab shows.
#[derive(Clone, Copy, Debug, PartialEq, Eq, Structural)]
pub enum TabContent {
    /// A tab that was made anew and has yet to get its session back.
    Empty,
    /// The session by itself.
    Single,
    /// A split layout.
    Split,
    /// A viewer in a process of its own, whose content is never exchanged.
    Fixed,
}

/// A session's tab.
pub struct Tab {
    pub title: String,
    pub tooltip: String,
    pub icon: TabIcon,
    pub indicator: Indicator,
    /// The split color that the tab's content is styled with.
    pub split_class: Option<usize>,
    pub content: TabContent,
}

/// A session's tab.
#[verifier::ext_equal]
pub struct TabView {
    pub title: Seq<char>,
    pub tooltip: Seq<char>,
    pub icon: TabIcon,
    pub indicator: Indicator,
    pub split_class: Option<usize>,
    pub content: TabContent,
}

impl View for Tab {
    type V = TabView;

    open spec fn view(&self) -> TabView {
        TabView {
            title: self.title@,
            tooltip: self.tooltip@,
            icon: self.icon,
            indicator: self.indicator,
            split_class: self.split_class,
            content: self.content,
        }
    }
}

/// The view of each tab of a map.
pub open spec fn tab_views(m: Map<u128, Tab>) -> Map<u128, TabView> {
    m.map_values(|t: Tab| t@)
}

/// The view of each session of a map.
pub open spec fn session_views(m: Map<u128, TerminalSession>) -> Map<u128, SessionView> {
    m.map_values(|s: TerminalSession| s@)
}

/// A tab's tooltip: the title, the host and the group, each on a line of its own. An empty host has
/// no line.
pub open spec fn tooltip_of(
    title: Seq<char>,
    host: Option<Seq<char>>,
    group: Option<Seq<char>>,
) -> Seq<char> {
    let named = match host {
        Some(h) if h.len() > 0 => title + "\n"@ + h,
        _ => title,
    };
    match group {
        Some(g) => named + group_line(g),
        None => named,
    }
}

/// The line of a tooltip that names the group.
pub open spec fn group_line(group: Seq<char>) -> Seq<char> {
    "\n["@ + group + "]"@
}

/// Composes a tab's tooltip.
pub fn tab_tooltip(title: &str, host: Option<&str>, group: Option<&str>) -> (r: String)
    ensures
        r@ == tooltip_of(title@, opt_str_view(host), opt_str_view(group)),
{
    let named = match host {
        Some(h) => {
            if h.unicode_len() > 0 {
                text::join3(title, "\n", h)
            } else {
                title.to_owned()
            }
        },
        None => title.to_owned(),
    };
    match group {
        Some(g) => {
            let line = text::join3("\n[", g, "]");
            text::join(&named, &line)
        },
        None => named,
    }
}

/// The last position up to `from` where `pat` stands in `s`.
pub open spec fn found_last(s: Seq<char>, pat: Seq<char>, from: int) -> Option<int>
    decreases from + 1,
{
    if from < 0 {
        None
    } else if matches_at(s, pat, from) {
        Some(from)
    } else {
        found_last(s, pat, from - 1)
    }
}

/// A tooltip without the line that names the group.
pub open spec fn without_group_line(tooltip: Seq<char>) -> Seq<char> {
    match found_last(tooltip, "\n["@, tooltip.len() as int) {
        Some(p) => tooltip.take(p),
        None => tooltip,
    }
}

/// Takes the line that names the group off a tooltip.
pub fn strip_group_line(tooltip: &str) -> (r: &str)
    ensures
        r@ == without_group_line(tooltip@),
{
    let n: usize = tooltip.unicode_len();
    proof {
        reveal_strlit("\n[");
    }
    let mut i: usize = n;
    assert(!matches_at(tooltip@, "\n["@, n as int));
    while i > 0
        invariant
            i <= n,
            n == tooltip@.len(),
            "\n["@ == seq!['\n', '['],
            !matches_at(tooltip@, "\n["@, i as int),
            found_last(tooltip@, "\n["@, n as int) == found_last(tooltip@, "\n["@, i as int),
        decreases i,
    {
        i -= 1;
        if i + 1 < n && tooltip.get_char(i) == '\n' && tooltip.get_char(i + 1) == '[' {
            assert(tooltip@.subrange(i as int, i + 2) =~= "\n["@);
            assert(matches_at(tooltip@, "\n["@, i as int));
            let base = tooltip.substring_char(0, i);
            assert(base@ =~= tooltip@.take(i as int));
            return base;
        }
        assert(!matches_at(tooltip@, "\n["@, i as int)) by {
            if matches_at(tooltip@, "\n["@, i as int) {
                assert(tooltip@.subrange(i as int, i + 2)[0] == tooltip@[i as int]);
                assert(tooltip@.subrange(i as int, i + 2)[1] == tooltip@[i + 1]);
            }
        }
    }
    assert(found_last(tooltip@, "\n["@, -1) is None);
    tooltip
}

impl TabView {
    /// The tab with another group in its title.
    pub open spec fn regrouped_title(self, group: Seq<char>) -> TabView {
        TabView { title: title_of(without_group(self.title), Some(group)), ..self }
    }

    /// The tab with another group in its tooltip.
    pub open spec fn regrouped_tooltip(self, group: Seq<char>) -> TabView {
        TabView { tooltip: without_group_line(self.tooltip) + group_line(group), ..self }
    }
}

impl Tab {
    /// Puts a group into the title, in place of any that is there.
    pub fn set_title_group(&mut self, group: &str)
        ensures
            final(self)@ == old(self)@.regrouped_title(group@),
    {
        let base = types::strip_group_prefix(&self.title).to_owned();
        self.title = types::tab_title(&base, Some(group));
    }

    /// Puts a group into the tooltip, in place of any that is there.
    pub fn set_tooltip_group(&mut self, group: &str)
        ensures
            final(self)@ == old(self)@.regrouped_tooltip(group@),
    {
        let base = strip_group_line(&self.tooltip).to_owned();
        let line = text::join3("\n[", group, "]");
        self.tooltip = text::join(&base, &line);
    }
}

proof fn lemma_found_last(s: Seq<char>, pat: Seq<char>, from: int, p: int)
    requires
        0 <= p <= from,
        matches_at(s, pat, p),
        forall|q: int| p < q <= from ==> !matches_at(s, pat, q),
    ensures
        found_last(s, pat, from) == Some(p),
    decreases from - p,
{
    if p < from {
        lemma_found_last(s, pat, from - 1, p);
    }
}

/// Putting a tab into another group leaves the rest of its tooltip alone: the group has the last
/// line, and only that line is exchanged. The name of the old group holds no line break that is
/// followed by a bracket.
pub proof fn law_regrouping_keeps_the_rest_of_the_tooltip(
    title: Seq<char>,
    host: Option<Seq<char>>,
    old_group: Seq<char>,
    new_group: Seq<char>,
)
    requires
        forall|i: int| !matches_at(old_group, "\n["@, i),
    ensures
        without_group_line(tooltip_of(title, host, Some(old_group))) + group_line(new_group)
            == tooltip_of(title, host, Some(new_group)),
{
    reveal_strlit("\n[");
    reveal_strlit("]");
    let pat = "\n["@;
    let base = tooltip_of(title, host, None);
    let full = tooltip_of(title, host, Some(old_group));
    let p = base.len() as int;
    let n = full.len() as int;
    assert(full == base + group_line(old_group));
    assert(n == p + 3 + old_group.len());
    assert(full.subrange(p, p + 2) =~= pat);
    assert forall|q: int| p < q <= n implies !matches_at(full, pat, q) by {
        if matches_at(full, pat, q) {
            assert(full.subrange(q, q + 2)[0] == full[q]);
            assert(full.subrange(q, q + 2)[1] == full[q + 1]);
            assert(full[p + 1] == '[');
            assert(full[n - 1] == ']');
            let i = q - p - 2;
            assert(0 <= i && i + 1 < old_group.len());
            assert(old_group[i] == full[q] && old_group[i + 1] == full[q + 1]);
            assert(old_group.subrange(i, i + 2) =~= pat);
            assert(matches_at(old_group, pat, i));
        }
    }
    lemma_found_last(full, pat, n, p);
    assert(full.take(p) =~= base);
}

/// A tooltip is the title, then the host where one is given, then the group in brackets where there is
/// one, each on its line.
pub proof fn law_tooltip_has_a_line_for_each(
    title: &str,
    host: Option<&str>,
    group: Option<&str>,
    r: String,
)
    requires
        call_ensures(tab_tooltip, (title, host, group), r),
    ensures
        ({
            let named = match host {
                Some(h) => if h@.len() > 0 {
                    title@ + seq!['\n'] + h@
                } else {
                    title@
                },
                None => title@,
            };
            match group {
                Some(g) => r@ == named + seq!['\n', '['] + g@ + seq![']'],
                None => r@ == named,
            }
        }),
{
    reveal_strlit("\n");
    reveal_strlit("\n[");
    reveal_strlit("]");
    assert("\n"@ =~= seq!['\n']);
    assert("\n["@ =~= seq!['\n', '[']);
    assert("]"@ =~= seq![']']);
    if let Some(g) = group {
        let named = match host {
            Some(h) => if h@.len() > 0 {
                title@ + seq!['\n'] + h@
            } else {
                title@
            },
            None => title@,
        };
        assert(r@ =~= named + seq!['\n', '['] + g@ + seq![']']);
    }
}

/// Taking the group's line off a tooltip takes the last line that starts with a bracket, and what
/// follows it; a tooltip without such a line is left alone.
pub proof fn law_group_line_is_taken_off(tooltip: &str, r: &str)
    requires
        call_ensures(strip_group_line, (tooltip,), r),
    ensures
        r@ == tooltip@ || exists|rest: Seq<char>| tooltip@ == #[trigger] (r@ + "\n["@ + rest),
        r@ == tooltip@ ==> forall|i: int|
            0 <= i && i + 1 < tooltip@.len() ==> !(#[trigger] tooltip@[i] == '\n' && tooltip@[i + 1]
                == '['),
        forall|i: int|
            r@.len() < i && i + 1 < tooltip@.len() ==> !(#[trigger] tooltip@[i] == '\n' && tooltip@[i
                + 1] == '['),
{
    reveal_strlit("\n[");
    let s = tooltip@;
    let pat = "\n["@;
    assert(pat =~= seq!['\n', '[']);
    lemma_found_last_none(s, pat, s.len() as int);
    assert forall|i: int| 0 <= i && i + 1 < s.len() && #[trigger] s[i] == '\n' && s[i + 1]
        == '[' implies matches_at(s, pat, i) by {
        assert(s.subrange(i, i + 2) =~= pat);
    }
    match found_last(s, pat, s.len() as int) {
        Some(p) => {
            let rest = s.skip(p + 2);
            assert(s.subrange(p, p + 2) == pat);
            assert(s =~= s.take(p) + s.subrange(p, p + 2) + rest);
            assert(s == r@ + "\n["@ + rest);
        },
        None => {},
    }
}

proof fn lemma_found_last_none(s: Seq<char>, pat: Seq<char>, from: int)
    ensures
        match found_last(s, pat, from) {
            Some(p) => 0 <= p <= from && matches_at(s, pat, p) && forall|q: int|
                p < q <= from ==> !matches_at(s, pat, q),
            None => forall|q: int| 0 <= q <= from ==> !matches_at(s, pat, q),
        },
    decreases from + 1,
{
    if from >= 0 && !matches_at(s, pat, from) {
        lemma_found_last_none(s, pat, from - 1);
    }
}

/// A tab that is put into a group shows that group in front of its own title and last in its tooltip,
/// and nothing else of the tab changes.
pub proof fn law_regrouped_tab_shows_its_group(tab: TabView, name: Seq<char>, old: Seq<char>, group: Seq<char>)
    requires
        tab.title == seq!['['] + old + seq![']', ' '] + name,
        crate::text::found(old, "] "@) is None,
    ensures
        tab.regrouped_title(group).title == seq!['['] + group + seq![']', ' '] + name,
        tab.regrouped_title(group).tooltip == tab.tooltip,
        tab.regrouped_title(group).icon == tab.icon,
        tab.regrouped_title(group).indicator == tab.indicator,
        tab.regrouped_title(group).split_class == tab.split_class,
        tab.regrouped_title(group).content == tab.content,
        tab.regrouped_tooltip(group).title == tab.title,
        tab.regrouped_tooltip(group).indicator == tab.indicator,
        tab.regrouped_tooltip(group).content == tab.content,
{
    reveal_strlit("[");
    reveal_strlit("] ");
    assert("["@ =~= seq!['[']);
    assert("] "@ =~= seq![']', ' ']);
    assert(tab.title == title_of(name, Some(old)));
    types::law_stripping_undoes_composing(name, old);
    assert(tab.regrouped_title(group).title == title_of(name, Some(group)));
}

/// An icon that is not the protocol's has a name of its own.
pub proof fn law_icons_are_told_apart(a: TabIcon, b: TabIcon, r: Option<&'static str>, s: Option<&'static str>)
    requires
        call_ensures(TabIcon::theme_name, (a,), r),
        call_ensures(TabIcon::theme_name, (b,), s),
    ensures
        r is None <==> a == TabIcon::OfProtocol,
        opt_str_view(r) == opt_str_view(s) ==> a == b,
{
    reveal_strlit("video-joined-displays-symbolic");
    reveal_strlit("computer-symbolic");
    reveal_strlit("web-browser-symbolic");
    assert("video-joined-displays-symbolic"@[0] == 'v');
    assert("computer-symbolic"@[0] == 'c');
    assert("web-browser-symbolic"@[0] == 'w');
}

} // verus!
