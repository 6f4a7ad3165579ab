//! The marks on tabs: connected or not, split colors, protocol colors; and getting a session
//! connected again.

use crate::i18n::{plain, with_args, Message, MessageView};
use crate::ids;
use crate::terminal::commands::message_view;
use crate::terminal::notebook::laws::{
    same_processes, same_session, same_settings, same_widgets,
};
use crate::terminal::notebook::{AttachedView, NotebookView, TerminalNotebook};
use crate::terminal::tabs::{Indicator, TabView};
use crate::text::{self, decimal_of};
use vstd::prelude::*;

verus! {

broadcast use vstd::std_specs::hash::group_hash_axioms;

/// Leaves the alternate screen of a terminal.
pub const LEAVE_ALTERNATE_SCREEN: &'static str = "\x1b[?1049l";

/// Who else has to be told of a mark.
#[derive(Clone, Copy, Debug, PartialEq, Eq, Structural)]
pub struct MarkEffects {
    /// The session's own window.
    pub window: bool,
    /// The session's terminal, which is reset with its history kept and leaves the alternate screen.
    pub terminal: bool,
}

/// How a terminal is made ready for another connection.
#[derive(Clone, Copy, Debug, PartialEq, Eq, Structural)]
pub enum TerminalReset {
    /// The history is cleared too.
    Clear,
    /// The history is kept, after it was cut to so many lines if need be. The separator follows.
    KeepHistory { trim_to: Option<i64> },
}

/// What is to be done before a session is connected again, besides taking its banner away.
pub struct ReconnectPlan {
    /// For a session that has a terminal.
    pub terminal: Option<TerminalReset>,
    /// What the separator behind the history that is kept says.
    pub separator: Option<Message>,
}

/// What the separator says of a session that was connected again at the time `stamp`, if history is
/// kept in front of it.
pub open spec fn separator_message(reset: Option<TerminalReset>, stamp: Seq<char>) -> Option<MessageView> {
    match reset {
        Some(TerminalReset::KeepHistory { .. }) => Some(
            with_args("Reconnected at {}"@, seq![stamp]),
        ),
        _ => None,
    }
}

impl NotebookView {
    /// The notebook with another mark on a tab, if the session has one.
    pub open spec fn with_indicator(self, id: u128, indicator: Indicator) -> NotebookView {
        if self.tabs.contains_key(id) {
            NotebookView {
                tabs: self.tabs.insert(id, TabView { indicator, ..self.tabs[id] }),
                ..self
            }
        } else {
            self
        }
    }

    /// The notebook with a session marked disconnected.
    pub open spec fn marked_disconnected(self, id: u128) -> NotebookView {
        NotebookView { disconnected: self.disconnected.insert(id), ..self }.with_indicator(
            id,
            Indicator::Offline,
        )
    }

    /// The notebook with a session marked connected. The color of a split is put back, if its circle
    /// can be drawn.
    pub open spec fn marked_connected(self, id: u128, circle_drawn: bool) -> NotebookView {
        let v = NotebookView { disconnected: self.disconnected.remove(id), ..self };
        if !self.split_colors.contains_key(id) {
            v.with_indicator(id, Indicator::Blank)
        } else if circle_drawn {
            v.with_indicator(id, Indicator::SplitColor(self.split_colors[id]))
        } else {
            v
        }
    }

    /// Whether a session has a place to be connected again in.
    pub open spec fn can_reconnect(self, id: u128) -> bool {
        self.tabs.contains_key(id) || self.detached.contains(id)
    }

    /// The notebook before a session is connected again.
    pub open spec fn ready_to_reconnect(self, id: u128) -> NotebookView {
        let cleared = NotebookView {
            reconnect_shown: self.reconnect_shown.remove(id),
            disconnected: self.disconnected.remove(id),
            row_base: if !self.terminals.contains(id) {
                self.row_base
            } else if self.keep_history {
                self.row_base.insert(id, None)
            } else {
                self.row_base.remove(id)
            },
            attached: AttachedView {
                polls: self.attached.polls.remove(id),
                ..self.attached.renewed(id)
            },
            ..self
        };
        cleared.with_indicator(id, Indicator::Blank)
    }

    /// How the terminal of a session is made ready for another connection.
    pub open spec fn terminal_reset(self, id: u128, scrollback_lines: i64) -> Option<TerminalReset> {
        if !self.terminals.contains(id) {
            None
        } else if self.keep_history {
            Some(
                TerminalReset::KeepHistory {
                    trim_to: match self.max_scrollback {
                        Some(max) if scrollback_lines > max => Some(max as i64),
                        _ => None,
                    },
                },
            )
        } else {
            Some(TerminalReset::Clear)
        }
    }

    /// The notebook with a session in a split of the given color.
    pub open spec fn with_split_color(self, id: u128, color: usize, circle_drawn: bool) -> NotebookView {
        let v = NotebookView { split_colors: self.split_colors.insert(id, color), ..self };
        if self.tabs.contains_key(id) {
            NotebookView {
                tabs: self.tabs.insert(
                    id,
                    TabView {
                        indicator: if circle_drawn {
                            Indicator::SplitColor(color)
                        } else {
                            Indicator::SplitPlain
                        },
                        split_class: Some(color),
                        ..self.tabs[id]
                    },
                ),
                ..v
            }
        } else {
            v
        }
    }

    /// The notebook with a session in no split.
    pub open spec fn without_split_color(self, id: u128) -> NotebookView {
        let v = NotebookView { split_colors: self.split_colors.remove(id), ..self };
        if self.tabs.contains_key(id) {
            NotebookView {
                tabs: self.tabs.insert(
                    id,
                    TabView { indicator: Indicator::Blank, split_class: None, ..self.tabs[id] },
                ),
                ..v
            }
        } else {
            v
        }
    }

    /// The tabs of the sessions `ids`, with the protocol's color or without it. A split's color is
    /// left alone.
    pub open spec fn colored_tabs(self, ids: Set<u128>, enabled: bool) -> Map<u128, TabView> {
        Map::new(
            |k: u128| self.tabs.contains_key(k),
            |k: u128|
                if ids.contains(k) && !self.split_colors.contains_key(k) {
                    TabView {
                        indicator: if enabled {
                            Indicator::Protocol
                        } else {
                            Indicator::Blank
                        },
                        ..self.tabs[k]
                    }
                } else {
                    self.tabs[k]
                },
        )
    }

    /// The notebook with tabs colored by protocol, or not.
    pub open spec fn colored_by_protocol(self, enabled: bool) -> NotebookView {
        NotebookView {
            tabs: self.colored_tabs(self.info.dom(), enabled),
            color_by_protocol: enabled,
            ..self
        }
    }
}

impl TerminalNotebook {
    fn set_indicator(&mut self, session_id: u128, indicator: Indicator)
        ensures
            final(self)@ == old(self)@.with_indicator(session_id, indicator),
    {
        if let Some(mut tab) = self.tabs.remove(&session_id) {
            tab.indicator = indicator;
            self.tabs.insert(session_id, tab);
        }
        assert(self@ =~= old(self)@.with_indicator(session_id, indicator));
    }

    /// Marks a session disconnected. A session in a window has no tab for the mark: its window gets
    /// it.
    pub fn mark_tab_disconnected(&mut self, session_id: u128) -> (r: MarkEffects)
        ensures
            final(self)@ == old(self)@.marked_disconnected(session_id),
            r == (MarkEffects {
                window: old(self)@.detached.contains(session_id),
                terminal: old(self)@.terminals.contains(session_id),
            }),
    {
        self.disconnected_sessions.insert(session_id);
        assert(self@ =~= (NotebookView {
            disconnected: old(self)@.disconnected.insert(session_id),
            ..old(self)@
        }));
        self.set_indicator(session_id, Indicator::Offline);
        MarkEffects {
            window: self.detached.contains(&session_id),
            terminal: self.terminals.contains(&session_id),
        }
    }

    /// Marks a session connected and says whether its window has to be told. `circle_drawn` says
    /// whether the circle of a split's color could be drawn.
    pub fn mark_tab_connected(&mut self, session_id: u128, circle_drawn: bool) -> (r: bool)
        ensures
            final(self)@ == old(self)@.marked_connected(session_id, circle_drawn),
            r == old(self)@.detached.contains(session_id),
    {
        self.disconnected_sessions.remove(&session_id);
        assert(self@ =~= (NotebookView {
            disconnected: old(self)@.disconnected.remove(session_id),
            ..old(self)@
        }));
        let color = match self.split_session_colors.get(&session_id) {
            Some(color) => Some(*color),
            None => None,
        };
        match color {
            Some(color) => {
                if circle_drawn {
                    self.set_indicator(session_id, Indicator::SplitColor(color));
                }
            },
            None => self.set_indicator(session_id, Indicator::Blank),
        }
        self.detached.contains(&session_id)
    }

    /// Makes a session ready to be connected again where it is, in its tab or in its window. `stamp`
    /// is the time, as it is shown. `None`, with nothing changed, where it has neither.
    pub fn prepare_for_reconnect(
        &mut self,
        session_id: u128,
        scrollback_lines: i64,
        stamp: &str,
    ) -> (r: Option<ReconnectPlan>)
        ensures
            match r {
                Some(plan) => {
                    &&& old(self)@.can_reconnect(session_id)
                    &&& final(self)@ == old(self)@.ready_to_reconnect(session_id)
                    &&& plan.terminal == old(self)@.terminal_reset(session_id, scrollback_lines)
                    &&& message_view(plan.separator) == separator_message(plan.terminal, stamp@)
                },
                None => !old(self)@.can_reconnect(session_id) && final(self)@ == old(self)@,
            },
    {
        if !self.tabs.contains_key(&session_id) && !self.detached.contains(&session_id) {
            return None;
        }
        let ghost before = self@;
        self.attached.polls.remove(&session_id);
        let mut terminal: Option<TerminalReset> = None;
        let mut separator: Option<Message> = None;
        if self.terminals.contains(&session_id) {
            if self.keep_history_on_reconnect {
                let trim_to: Option<i64> = match self.max_scrollback_on_reconnect {
                    Some(max) => if scrollback_lines > max as i64 {
                        Some(max as i64)
                    } else {
                        None
                    },
                    None => None,
                };
                terminal = Some(TerminalReset::KeepHistory { trim_to });
                separator = Some(Message::with("Reconnected at {}", stamp));
                self.cursor_row_base.insert(session_id, None);
            } else {
                terminal = Some(TerminalReset::Clear);
                self.cursor_row_base.remove(&session_id);
            }
        }
        self.set_indicator(session_id, Indicator::Blank);
        self.reconnect_shown.remove(&session_id);
        self.disconnected_sessions.remove(&session_id);
        self.drop_automation(session_id);
        self.attached.highlight_rules.remove(&session_id);
        self.attached.highlight_overlays.remove(&session_id);
        self.attached.child_pids.remove(&session_id);
        assert(self@ =~= before.ready_to_reconnect(session_id));
        Some(ReconnectPlan { terminal, separator })
    }

    /// Marks a session as part of a split. The sidebar is told afterwards.
    pub fn set_tab_split_color(&mut self, session_id: u128, color_index: usize, circle_drawn: bool)
        ensures
            final(self)@ == old(self)@.with_split_color(session_id, color_index, circle_drawn),
    {
        self.split_session_colors.insert(session_id, color_index);
        if let Some(mut tab) = self.tabs.remove(&session_id) {
            tab.split_class = Some(color_index);
            tab.indicator = if circle_drawn {
                Indicator::SplitColor(color_index)
            } else {
                Indicator::SplitPlain
            };
            self.tabs.insert(session_id, tab);
        }
        assert(self@ =~= old(self)@.with_split_color(session_id, color_index, circle_drawn));
    }

    /// Marks a session as part of no split. The sidebar is told afterwards.
    pub fn clear_tab_split_color(&mut self, session_id: u128)
        ensures
            final(self)@ == old(self)@.without_split_color(session_id),
    {
        self.split_session_colors.remove(&session_id);
        if let Some(mut tab) = self.tabs.remove(&session_id) {
            tab.split_class = None;
            tab.indicator = Indicator::Blank;
            self.tabs.insert(session_id, tab);
        }
        assert(self@ =~= old(self)@.without_split_color(session_id));
    }

    fn clear_protocol_color(&mut self, session_id: u128)
        ensures
            final(self)@ == (if old(self)@.split_colors.contains_key(session_id) {
                old(self)@
            } else {
                old(self)@.with_indicator(session_id, Indicator::Blank)
            }),
    {
        if !self.split_session_colors.contains_key(&session_id) {
            self.set_indicator(session_id, Indicator::Blank);
        }
    }

    /// Colors the tabs by protocol, or takes those colors away.
    pub fn set_color_tabs_by_protocol(&mut self, enabled: bool)
        ensures
            final(self)@ == old(self)@.colored_by_protocol(enabled),
    {
        self.color_tabs_by_protocol = enabled;
        let ghost before = self@;
        let ids = ids::keys_of(&self.session_info);
        assert(self.session_info@.dom() =~= before.info.dom());
        let mut i: usize = 0;
        assert(before.colored_tabs(ids@.take(0).to_set(), enabled) =~= before.tabs);
        while i < ids.len()
            invariant
                i <= ids@.len(),
                self@ == (NotebookView {
                    tabs: before.colored_tabs(ids@.take(i as int).to_set(), enabled),
                    ..before
                }),
            decreases ids@.len() - i,
        {
            let id: u128 = ids[i];
            let ghost so_far = self@;
            if enabled {
                self.apply_protocol_color(id);
            } else {
                self.clear_protocol_color(id);
            }
            proof {
                assert(ids@.take(i + 1) =~= ids@.take(i as int).push(id));
                ids::lemma_push_set(ids@.take(i as int), id);
                assert(self@ =~= (NotebookView {
                    tabs: before.colored_tabs(ids@.take(i + 1).to_set(), enabled),
                    ..before
                }));
            }
            i += 1;
        }
        assert(ids@.take(i as int) =~= ids@);
        assert(self@ =~= old(self)@.colored_by_protocol(enabled));
    }

    /// Notes whether the Welcome tab is wanted when no session is open.
    pub fn set_show_welcome(&mut self, enabled: bool)
        ensures
            final(self)@ == (NotebookView { show_welcome: enabled, ..old(self)@ }),
    {
        self.show_welcome = enabled;
    }

    /// Notes whether the history is kept when a session is connected again.
    pub fn set_keep_history_on_reconnect(&mut self, enabled: bool)
        ensures
            final(self)@ == (NotebookView { keep_history: enabled, ..old(self)@ }),
    {
        self.keep_history_on_reconnect = enabled;
    }

    /// Notes how much history is kept when a session is connected again.
    pub fn set_max_scrollback_on_reconnect(&mut self, limit: Option<u32>)
        ensures
            final(self)@ == (NotebookView { max_scrollback: limit, ..old(self)@ }),
    {
        self.max_scrollback_on_reconnect = limit;
    }
}

/// A banner that offers to connect a session again.
pub struct ReconnectBanner {
    pub label: Message,
    /// What is said of the automatic attempts, while there are any.
    pub status: Option<Message>,
}

/// A banner that offers to connect a session again.
pub struct BannerView {
    pub label: MessageView,
    pub status: Option<MessageView>,
}

impl View for ReconnectBanner {
    type V = BannerView;

    open spec fn view(&self) -> BannerView {
        BannerView {
            label: self.label@,
            status: match self.status {
                Some(m) => Some(m@),
                None => None,
            },
        }
    }
}

/// The banner as it appears.
pub open spec fn new_banner(auto_reconnect_active: bool) -> BannerView {
    BannerView {
        label: plain("Session disconnected"@),
        status: if auto_reconnect_active {
            Some(plain("Auto-reconnecting…"@))
        } else {
            None
        },
    }
}

/// The view of an optional banner.
pub open spec fn banner_view(banner: Option<ReconnectBanner>) -> Option<BannerView> {
    match banner {
        Some(b) => Some(b@),
        None => None,
    }
}

impl BannerView {
    /// The banner while automatic attempts are made, or after they ended. What it says of attempts
    /// that are under way stays.
    pub open spec fn active(self, active: bool) -> BannerView {
        BannerView {
            status: if !active {
                None
            } else if self.status is Some {
                self.status
            } else {
                Some(plain("Auto-reconnecting…"@))
            },
            ..self
        }
    }

    /// The banner during an automatic attempt.
    pub open spec fn attempt(self, attempt: nat, max_attempts: nat) -> BannerView {
        BannerView {
            status: Some(
                with_args(
                    "Auto-reconnecting (attempt {}/{})"@,
                    seq![decimal_of(attempt), decimal_of(max_attempts)],
                ),
            ),
            ..self
        }
    }
}

impl ReconnectBanner {
    /// Says that automatic attempts are made, or takes that away. What it says of attempts that are
    /// under way stays.
    pub fn set_active(&mut self, active: bool)
        ensures
            final(self)@ == old(self)@.active(active),
    {
        if !active {
            self.status = None;
        } else if self.status.is_none() {
            self.status = Some(Message::plain("Auto-reconnecting…"));
        }
    }

    /// Says which automatic attempt is made.
    pub fn set_attempt(&mut self, attempt: u32, max_attempts: u32)
        ensures
            final(self)@ == old(self)@.attempt(attempt as nat, max_attempts as nat),
    {
        let first = text::decimal(attempt as u64);
        let second = text::decimal(max_attempts as u64);
        self.status = Some(Message::with2("Auto-reconnecting (attempt {}/{})", &first, &second));
    }
}

/// What is done about the banner of a session.
pub enum OverlayStep {
    Nothing,
    /// The banner that is there says that automatic attempts are made.
    UpdateStatus,
    /// The banner appears; its button connects this connection again.
    Show { banner: ReconnectBanner, connection_id: u128 },
}

/// Whether a protocol is shown by a viewer, which has a banner of its own.
pub open spec fn has_own_banner(protocol: Seq<char>) -> bool {
    protocol == "rdp"@ || protocol == "vnc"@ || protocol == "spice"@
}

impl NotebookView {
    /// Whether a banner appears for a session.
    pub open spec fn shows_banner(self, id: u128, place_found: bool) -> bool {
        !self.reconnect_shown.contains(id) && self.info.contains_key(id) && !has_own_banner(
            self.info[id].protocol,
        ) && self.content_box(id) is Some && place_found
    }
}

impl TerminalNotebook {
    /// Shows the banner of a session, once, in the box that shows the session. `place_found` says
    /// whether that box is laid out; where it is not, the banner can still appear later.
    pub fn show_reconnect_overlay_with_status(
        &mut self,
        session_id: u128,
        auto_reconnect_active: bool,
        place_found: bool,
    ) -> (r: OverlayStep)
        ensures
            final(self)@ == (if old(self)@.shows_banner(session_id, place_found) {
                NotebookView {
                    reconnect_shown: old(self)@.reconnect_shown.insert(session_id),
                    ..old(self)@
                }
            } else {
                old(self)@
            }),
            match r {
                OverlayStep::Nothing => !old(self)@.shows_banner(session_id, place_found) && !(old(
                    self,
                )@.reconnect_shown.contains(session_id) && auto_reconnect_active),
                OverlayStep::UpdateStatus => old(self)@.reconnect_shown.contains(session_id)
                    && auto_reconnect_active,
                OverlayStep::Show { banner, connection_id } => {
                    &&& old(self)@.shows_banner(session_id, place_found)
                    &&& banner@ == new_banner(auto_reconnect_active)
                    &&& connection_id == old(self)@.info[session_id].connection_id
                },
            },
    {
        if self.reconnect_shown.contains(&session_id) {
            if auto_reconnect_active {
                return OverlayStep::UpdateStatus;
            }
            return OverlayStep::Nothing;
        }
        let connection_id: u128 = match self.session_info.get(&session_id) {
            Some(info) => {
                if text::same(&info.protocol, "rdp") || text::same(&info.protocol, "vnc")
                    || text::same(&info.protocol, "spice") {
                    return OverlayStep::Nothing;
                }
                info.connection_id
            },
            None => {
                return OverlayStep::Nothing;
            },
        };
        if self.session_content_box(session_id).is_none() || !place_found {
            return OverlayStep::Nothing;
        }
        self.reconnect_shown.insert(session_id);
        assert(self@ =~= (NotebookView {
            reconnect_shown: old(self)@.reconnect_shown.insert(session_id),
            ..old(self)@
        }));
        let status = if auto_reconnect_active {
            Some(Message::plain("Auto-reconnecting…"))
        } else {
            None
        };
        let banner = ReconnectBanner { label: Message::plain("Session disconnected"), status };
        OverlayStep::Show { banner, connection_id }
    }

    /// Shows the banner of a session that nothing connects by itself.
    pub fn show_reconnect_overlay(&mut self, session_id: u128, place_found: bool) -> (r: OverlayStep)
        ensures
            final(self)@ == (if old(self)@.shows_banner(session_id, place_found) {
                NotebookView {
                    reconnect_shown: old(self)@.reconnect_shown.insert(session_id),
                    ..old(self)@
                }
            } else {
                old(self)@
            }),
            match r {
                OverlayStep::Nothing => !old(self)@.shows_banner(session_id, place_found),
                OverlayStep::UpdateStatus => false,
                OverlayStep::Show { banner, connection_id } => {
                    &&& old(self)@.shows_banner(session_id, place_found)
                    &&& banner@ == new_banner(false)
                    &&& connection_id == old(self)@.info[session_id].connection_id
                },
            },
    {
        self.show_reconnect_overlay_with_status(session_id, false, place_found)
    }

    /// Says on the banner of a session that automatic attempts are made, or takes that away.
    /// `banner` is the one found in the session's box.
    pub fn update_reconnect_banner_status(
        &self,
        session_id: u128,
        active: bool,
        banner: Option<ReconnectBanner>,
    ) -> (r: Option<ReconnectBanner>)
        ensures
            banner_view(r) == (match banner_view(banner) {
                Some(b) if self@.content_box(session_id) is Some => Some(b.active(active)),
                b => b,
            }),
    {
        match banner {
            Some(mut b) => {
                if self.session_content_box(session_id).is_some() {
                    b.set_active(active);
                }
                Some(b)
            },
            None => None,
        }
    }

    /// Says on the banner of a session which automatic attempt is made. `banner` is the one found in
    /// the session's box.
    pub fn update_reconnect_banner_attempt(
        &self,
        session_id: u128,
        attempt: u32,
        max_attempts: u32,
        banner: Option<ReconnectBanner>,
    ) -> (r: Option<ReconnectBanner>)
        ensures
            banner_view(r) == (match banner_view(banner) {
                Some(b) if self@.content_box(session_id) is Some => Some(
                    b.attempt(attempt as nat, max_attempts as nat),
                ),
                b => b,
            }),
    {
        match banner {
            Some(mut b) => {
                if self.session_content_box(session_id).is_some() {
                    b.set_attempt(attempt, max_attempts);
                }
                Some(b)
            },
            None => None,
        }
    }

    /// Whether a banner is shown for a session.
    pub fn is_reconnect_shown(&self, session_id: u128) -> (r: bool)
        ensures
            r == self@.reconnect_shown.contains(session_id),
    {
        self.reconnect_shown.contains(&session_id)
    }

    /// Whether a session is there whose connection has ended.
    pub fn is_session_disconnected(&self, session_id: u128) -> (r: bool)
        ensures
            r == self@.disconnected.contains(session_id),
    {
        self.disconnected_sessions.contains(&session_id)
    }

    /// Notes that something is polled for, under a session or a connection.
    pub fn register_poll_cancel(&mut self, key: u128)
        ensures
            final(self)@ == (NotebookView {
                attached: AttachedView {
                    polls: old(self)@.attached.polls.insert(key),
                    ..old(self)@.attached
                },
                ..old(self)@
            }),
    {
        self.attached.polls.insert(key);
    }

    /// Stops polling, and says whether anything was polled for.
    pub fn cancel_poll(&mut self, key: u128) -> (r: bool)
        ensures
            final(self)@ == (NotebookView {
                attached: AttachedView {
                    polls: old(self)@.attached.polls.remove(key),
                    ..old(self)@.attached
                },
                ..old(self)@
            }),
            r == old(self)@.attached.polls.contains(key),
    {
        self.attached.polls.remove(&key)
    }
}

/// The line that separates a session from the one before it in the same terminal.
pub open spec fn separator_of(label: Seq<char>) -> Seq<char> {
    "\r\n\x1b[2m── "@ + label + " ──\x1b[0m\r\n"@
}

/// Writes the line that separates a session from the one before it: dim, on a line of its own.
pub fn reconnect_separator(label: &str) -> (r: String)
    ensures
        r@ == separator_of(label@),
{
    text::join3("\r\n\x1b[2m── ", label, " ──\x1b[0m\r\n")
}

/// A session that was disconnected and is made ready again is live, and can get a banner again.
pub proof fn law_prepared_session_is_live_again(v: NotebookView, id: u128)
    requires
        v.can_reconnect(id),
        v.info.contains_key(id),
        !has_own_banner(v.info[id].protocol),
        v.content_box(id) is Some,
    ensures
        !v.marked_disconnected(id).ready_to_reconnect(id).disconnected.contains(id),
        v.marked_disconnected(id).ready_to_reconnect(id).shows_banner(id, true),
{
}

/// A banner is shown once.
pub proof fn law_banner_is_shown_once(v: NotebookView, id: u128, place_found: bool)
    requires
        v.reconnect_shown.contains(id),
    ensures
        !v.shows_banner(id, place_found),
{
}

/// A session in another session's split gets no banner: it has no box of its own to put one in.
pub proof fn law_session_in_a_split_gets_no_banner(v: NotebookView, id: u128, place_found: bool)
    requires
        v.placed(),
        v.parked.contains(id),
    ensures
        v.content_box(id) is None,
        !v.shows_banner(id, place_found),
{
}

/// A split's color outlasts everything that colors tabs by protocol.
pub proof fn law_split_color_outlasts_protocol_colors(v: NotebookView, id: u128, enabled: bool)
    requires
        v.split_colors.contains_key(id),
        v.tabs.contains_key(id),
    ensures
        v.colored_by_protocol(enabled).tabs[id] == v.tabs[id],
        v.with_protocol_color(id) == v,
{
}

/// Marks neither move a session nor forget it.
pub proof fn law_marks_move_nothing(v: NotebookView, id: u128, color: usize, drawn: bool, enabled: bool)
    requires
        v.placed(),
    ensures
        v.marked_disconnected(id).placed(),
        v.marked_connected(id, drawn).placed(),
        v.ready_to_reconnect(id).placed(),
        v.with_split_color(id, color, drawn).placed(),
        v.without_split_color(id).placed(),
        v.colored_by_protocol(enabled).placed(),
{
    assert(v.marked_disconnected(id).tabs.dom() =~= v.tabs.dom());
    assert(v.marked_connected(id, drawn).tabs.dom() =~= v.tabs.dom());
    assert(v.ready_to_reconnect(id).tabs.dom() =~= v.tabs.dom());
    assert(v.with_split_color(id, color, drawn).tabs.dom() =~= v.tabs.dom());
    assert(v.without_split_color(id).tabs.dom() =~= v.tabs.dom());
    assert(v.colored_by_protocol(enabled).tabs.dom() =~= v.tabs.dom());
}

/// The separator begins and ends on a line of its own, and whatever the label holds, the terminal's
/// attributes are reset at the end.
pub proof fn law_separator_stands_by_itself(label: Seq<char>)
    ensures
        ({
            let s = separator_of(label);
            &&& s.take(2) == "\r\n"@
            &&& s.skip(s.len() - 6) == "\x1b[0m\r\n"@
        }),
{
    reveal_strlit("\r\n\x1b[2m── ");
    reveal_strlit(" ──\x1b[0m\r\n");
    reveal_strlit("\r\n");
    reveal_strlit("\x1b[0m\r\n");
    let s = separator_of(label);
    assert(s.take(2) =~= "\r\n"@);
    assert(s.skip(s.len() - 6) =~= "\x1b[0m\r\n"@);
}

/// A session that is marked disconnected counts as disconnected and shows it on its tab; marking it
/// connected undoes that, and puts the color of its split back where it is in one.
pub proof fn law_mark_shows_the_connection(v: NotebookView, id: u128, drawn: bool, other: u128)
    ensures
        v.marked_disconnected(id).disconnected == v.disconnected.insert(id),
        v.marked_connected(id, drawn).disconnected == v.disconnected.remove(id),
        v.tabs.contains_key(id) ==> v.marked_disconnected(id).tabs[id] == (TabView {
            indicator: Indicator::Offline,
            ..v.tabs[id]
        }),
        v.tabs.contains_key(id) && !v.split_colors.contains_key(id) ==> v.marked_connected(
            id,
            drawn,
        ).tabs[id] == (TabView { indicator: Indicator::Blank, ..v.tabs[id] }),
        v.tabs.contains_key(id) && v.split_colors.contains_key(id) && drawn ==> v.marked_connected(
            id,
            drawn,
        ).tabs[id] == (TabView {
            indicator: Indicator::SplitColor(v.split_colors[id]),
            ..v.tabs[id]
        }),
        v.tabs.contains_key(id) && v.split_colors.contains_key(id) && !drawn ==> v.marked_connected(
            id,
            drawn,
        ).tabs[id] == v.tabs[id],
        other != id ==> same_session(v, v.marked_disconnected(id), other),
        other != id ==> same_session(v, v.marked_connected(id, drawn), other),
        same_processes(v, v.marked_disconnected(id), id),
        same_processes(v, v.marked_connected(id, drawn), id),
        same_widgets(v, v.marked_disconnected(id), id),
        same_widgets(v, v.marked_connected(id, drawn), id),
        same_settings(v, v.marked_disconnected(id)),
        same_settings(v, v.marked_connected(id, drawn)),
{
}

/// A session can be connected again where it has a tab or a window. Its old process, its rules and its
/// banner are then gone, it counts as connected, and it stays where it is; no other session is touched.
pub proof fn law_reconnecting_starts_anew(v: NotebookView, id: u128, other: u128)
    ensures
        v.can_reconnect(id) <==> v.tabs.contains_key(id) || v.detached.contains(id),
        ({
            let w = v.ready_to_reconnect(id);
            &&& !w.reconnect_shown.contains(id)
            &&& !w.disconnected.contains(id)
            &&& !w.attached.polls.contains(id)
            &&& !w.attached.automation.contains_key(id)
            &&& !w.attached.highlight_rules.contains(id)
            &&& !w.attached.highlight_overlays.contains(id)
            &&& !w.attached.child_pids.contains_key(id)
            &&& w.attached.pty_relays == v.attached.pty_relays
            &&& w.attached.ssh_tunnels == v.attached.ssh_tunnels
            &&& w.attached.terminal_overlays == v.attached.terminal_overlays
            &&& w.tabs.dom() == v.tabs.dom()
            &&& v.tabs.contains_key(id) ==> w.tabs[id] == (TabView {
                indicator: Indicator::Blank,
                ..v.tabs[id]
            })
            &&& w.parked == v.parked
            &&& w.detached == v.detached
            &&& w.info == v.info
            &&& w.split_colors == v.split_colors
            &&& same_widgets(v, w, id)
            &&& same_settings(v, w)
            &&& other != id ==> same_session(v, w, other)
            &&& v.terminals.contains(id) && v.keep_history ==> w.row_base.contains_key(id)
                && w.row_base[id] is None
            &&& v.terminals.contains(id) && !v.keep_history ==> !w.row_base.contains_key(id)
            &&& !v.terminals.contains(id) ==> w.row_base == v.row_base
        }),
{
    assert(v.ready_to_reconnect(id).tabs.dom() =~= v.tabs.dom());
}

/// The history of a terminal is kept exactly where that is wanted, cut to the limit exactly where it is
/// longer, and followed by a separator that names the time.
pub proof fn law_history_is_kept_where_wanted(v: NotebookView, id: u128, lines: i64, stamp: Seq<char>)
    ensures
        ({
            let reset = v.terminal_reset(id, lines);
            let separator = separator_message(reset, stamp);
            &&& reset is None <==> !v.terminals.contains(id)
            &&& reset == Some(TerminalReset::Clear) <==> v.terminals.contains(id) && !v.keep_history
            &&& v.terminals.contains(id) && v.keep_history ==> {
                let cut = reset->0->trim_to;
                match v.max_scrollback {
                    Some(max) => if lines > max {
                        cut == Some(max as i64)
                    } else {
                        cut is None
                    },
                    None => cut is None,
                }
            }
            &&& separator is Some <==> v.terminals.contains(id) && v.keep_history
            &&& separator matches Some(m) ==> m.msgid == "Reconnected at {}"@ && m.args == seq![stamp]
        }),
{
}

/// A session in a split wears the split's color, as a circle where it can be drawn; taking the color
/// away leaves no trace of it.
pub proof fn law_split_color_is_worn_and_taken_off(
    v: NotebookView,
    id: u128,
    color: usize,
    drawn: bool,
    other: u128,
)
    ensures
        ({
            let on = v.with_split_color(id, color, drawn);
            let off = on.without_split_color(id);
            &&& on.split_colors == v.split_colors.insert(id, color)
            &&& v.tabs.contains_key(id) ==> on.tabs[id] == (TabView {
                indicator: if drawn {
                    Indicator::SplitColor(color)
                } else {
                    Indicator::SplitPlain
                },
                split_class: Some(color),
                ..v.tabs[id]
            })
            &&& !off.split_colors.contains_key(id)
            &&& v.tabs.contains_key(id) ==> off.tabs[id] == (TabView {
                indicator: Indicator::Blank,
                split_class: None,
                ..v.tabs[id]
            })
            &&& other != id ==> same_session(v, on, other) && same_session(v, off, other)
            &&& on.tabs.dom() == v.tabs.dom()
            &&& off.tabs.dom() == v.tabs.dom()
            &&& same_processes(v, off, id)
            &&& same_settings(v, on)
            &&& same_settings(v, off)
        }),
{
    let on = v.with_split_color(id, color, drawn);
    assert(on.tabs.dom() =~= v.tabs.dom());
    assert(on.without_split_color(id).tabs.dom() =~= v.tabs.dom());
}

/// Coloring by protocol marks the tab of every session that is known and in no split, and switching it
/// off takes those marks away; no tab comes or goes.
pub proof fn law_protocol_colors_are_put_on_and_off(v: NotebookView, enabled: bool, id: u128)
    requires
        v.tabs.contains_key(id),
    ensures
        ({
            let w = v.colored_by_protocol(enabled);
            &&& w.color_by_protocol == enabled
            &&& w.tabs.dom() == v.tabs.dom()
            &&& w.info == v.info
            &&& w.attached == v.attached
            &&& v.info.contains_key(id) && !v.split_colors.contains_key(id) ==> w.tabs[id] == (
            TabView {
                indicator: if enabled {
                    Indicator::Protocol
                } else {
                    Indicator::Blank
                },
                ..v.tabs[id]
            })
            &&& !v.info.contains_key(id) || v.split_colors.contains_key(id) ==> w.tabs[id]
                == v.tabs[id]
        }),
{
    assert(v.colored_by_protocol(enabled).tabs.dom() =~= v.tabs.dom());
}

/// A banner appears exactly where none is shown, the session is known, no viewer has a banner of its
/// own, and there is a box laid out to put it in.
pub proof fn law_banner_appears_where_it_can(v: NotebookView, id: u128, place_found: bool)
    ensures
        v.shows_banner(id, place_found) <==> !v.reconnect_shown.contains(id) && v.info.contains_key(
            id,
        ) && v.info[id].protocol != "rdp"@ && v.info[id].protocol != "vnc"@ && v.info[id].protocol
            != "spice"@ && v.content_box(id) is Some && place_found,
{
}

/// A banner says that the session is disconnected, and that attempts are made exactly while they are;
/// which attempt it is stays on it while they go on.
pub proof fn law_banner_says_what_is_tried(b: BannerView, active: bool, attempt: nat, max: nat)
    ensures
        new_banner(active).label.msgid == "Session disconnected"@,
        new_banner(active).label.args.len() == 0,
        new_banner(active).status is Some <==> active,
        new_banner(true).status->0.msgid == "Auto-reconnecting…"@,
        b.active(false).status is None,
        b.status is Some ==> b.active(true).status == b.status,
        b.status is None ==> b.active(true).status is Some && b.active(true).status->0.msgid
            == "Auto-reconnecting…"@,
        b.active(active).label == b.label,
        b.attempt(attempt, max).label == b.label,
        b.attempt(attempt, max).status matches Some(m) && m.msgid
            == "Auto-reconnecting (attempt {}/{})"@ && m.args == seq![
            decimal_of(attempt),
            decimal_of(max),
        ],
        b.attempt(attempt, max).active(true) == b.attempt(attempt, max),
{
}

/// A banner that is found is updated exactly where its session has a box; without one it stays as it
/// is, and none comes of none.
pub proof fn law_banner_is_updated_in_its_box(
    notebook: &TerminalNotebook,
    id: u128,
    active: bool,
    banner: Option<ReconnectBanner>,
    r: Option<ReconnectBanner>,
    tries: Option<ReconnectBanner>,
    attempt: u32,
    max: u32,
)
    requires
        call_ensures(
            TerminalNotebook::update_reconnect_banner_status,
            (notebook, id, active, banner),
            r,
        ),
        call_ensures(
            TerminalNotebook::update_reconnect_banner_attempt,
            (notebook, id, attempt, max, banner),
            tries,
        ),
    ensures
        r is Some <==> banner is Some,
        tries is Some <==> banner is Some,
        banner matches Some(b) ==> r->0@.label == b@.label && tries->0@.label == b@.label,
        banner matches Some(b) ==> notebook@.content_box(id) is None ==> r->0@ == b@ && tries->0@
            == b@,
        banner is Some && notebook@.content_box(id) is Some ==> (r->0@.status is Some <==> active),
        banner is Some && notebook@.content_box(id) is Some ==> (
        tries->0@.status matches Some(m) && m.args == seq![
            decimal_of(attempt as nat),
            decimal_of(max as nat),
        ]),
{
    assert(banner_view(r) is Some <==> r is Some);
    assert(banner_view(tries) is Some <==> tries is Some);
}

} // verus!
