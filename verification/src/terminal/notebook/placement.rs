//! Moving sessions between tabs, splits and windows.

use crate::terminal::detach::{detach_context_from, take_park_mark, DetachContext, SplitMembership};
use crate::terminal::notebook::{AttachedView, NotebookView, TerminalNotebook};
use crate::terminal::tabs::{tab_tooltip, tab_views, tooltip_of, Indicator, Tab, TabContent, TabIcon, TabView};
use crate::terminal::types::{tab_title, title_of, SessionWidgetStorage};
use vstd::prelude::*;

verus! {

broadcast use vstd::std_specs::hash::group_hash_axioms;

/// What ended with a session, for those who have to clean up after it.
#[derive(Clone, Copy, Debug, PartialEq, Eq, Structural)]
pub struct Teardown {
    pub session_id: u128,
    pub connection_id: Option<u128>,
    /// Whether the session was in a split, whose marks have to be refreshed.
    pub was_in_split: bool,
    /// What has to be disconnected.
    pub widget: Option<SessionWidgetStorage>,
    /// The process group that has to end.
    pub child_pid: Option<i32>,
    /// Whether an SSH tunnel has to be closed.
    pub had_tunnel: bool,
}

/// What closing a tab came to.
#[derive(Clone, Copy, Debug, PartialEq, Eq, Structural)]
pub enum PageClosed {
    /// The session has no tab.
    NoTab,
    /// The tab is gone and the session lives on elsewhere.
    Parked,
    /// The session has ended.
    Ended(Teardown),
}

impl NotebookView {
    /// Whether a session is parked out of the tab bar.
    pub open spec fn is_parked(self, id: u128) -> bool {
        self.parked.contains(id) || self.detached.contains(id)
    }

    /// Whether a session has something that shows it.
    pub open spec fn has_live_widget(self, id: u128) -> bool {
        self.terminals.contains(id) || self.widgets.contains_key(id)
    }

    /// Whether what shows the session can be put into another place. A viewer in a process of its
    /// own cannot; a terminal beside it can.
    pub open spec fn can_rebuild(self, id: u128) -> bool {
        self.has_viewer(id) || self.terminals.contains(id)
    }

    /// Whether the session is shown by a viewer in this process.
    pub open spec fn has_viewer(self, id: u128) -> bool {
        self.widgets.contains_key(id) && self.widgets[id] != SessionWidgetStorage::ExternalProcess
    }

    /// The notebook with its content rebuilt around what shows the session.
    pub open spec fn rebuilt(self, id: u128) -> NotebookView {
        if !self.has_viewer(id) && self.terminals.contains(id) {
            NotebookView {
                attached: AttachedView {
                    terminal_overlays: self.attached.terminal_overlays.insert(id),
                    ..self.attached
                },
                ..self
            }
        } else {
            self
        }
    }

    /// The notebook without the Welcome tab, which goes only where no session has a tab.
    pub open spec fn without_welcome(self) -> NotebookView {
        if self.tabs.len() == 0 {
            NotebookView { welcome: false, ..self }
        } else {
            self
        }
    }

    /// The notebook with the Welcome tab, where it is wanted and no other tab is there.
    pub open spec fn with_welcome(self) -> NotebookView {
        if self.show_welcome && self.tabs.len() == 0 {
            NotebookView { welcome: true, ..self }
        } else {
            self
        }
    }

    /// The notebook with one tab fewer.
    pub open spec fn without_tab(self, id: u128) -> NotebookView {
        NotebookView { tabs: self.tabs.remove(id), ..self }
    }

    /// The notebook without a session.
    pub open spec fn ended(self, id: u128) -> NotebookView {
        NotebookView {
            tabs: self.tabs.remove(id),
            info: self.info.remove(id),
            terminals: self.terminals.remove(id),
            widgets: self.widgets.remove(id),
            split_colors: self.split_colors.remove(id),
            disconnected: self.disconnected.remove(id),
            row_base: self.row_base.remove(id),
            attached: self.attached.released(id),
            ..self
        }
    }

    /// The notebook after a tab was closed: a parked session only loses its tab, any other ends.
    pub open spec fn page_closed(self, id: u128) -> NotebookView {
        if !self.tabs.contains_key(id) {
            self
        } else if self.is_parked(id) {
            self.without_tab(id).with_welcome()
        } else {
            self.ended(id).with_welcome()
        }
    }

    /// What ends with a session.
    pub open spec fn teardown(self, id: u128) -> Teardown {
        Teardown {
            session_id: id,
            connection_id: if self.info.contains_key(id) {
                Some(self.info[id].connection_id)
            } else {
                None
            },
            was_in_split: self.split_colors.contains_key(id),
            widget: if self.widgets.contains_key(id) {
                Some(self.widgets[id])
            } else {
                None
            },
            child_pid: if self.attached.child_pids.contains_key(id) {
                Some(self.attached.child_pids[id])
            } else {
                None
            },
            had_tunnel: self.attached.ssh_tunnels.contains(id),
        }
    }

    /// What closing a tab comes to.
    pub open spec fn close_outcome(self, id: u128) -> PageClosed {
        if !self.tabs.contains_key(id) {
            PageClosed::NoTab
        } else if self.is_parked(id) {
            PageClosed::Parked
        } else {
            PageClosed::Ended(self.teardown(id))
        }
    }

    /// The tab that a parked session gets back, titled as it was when it was made.
    pub open spec fn fresh_tab(self, id: u128) -> TabView {
        let info = self.info[id];
        TabView {
            title: title_of(info.name, info.tab_group),
            tooltip: tooltip_of(info.name, info.host, info.tab_group),
            icon: TabIcon::OfProtocol,
            indicator: Indicator::Blank,
            split_class: None,
            content: TabContent::Empty,
        }
    }

    /// The notebook after a parked session got its tab back. One that nothing is known of stays
    /// parked.
    pub open spec fn restored(self, id: u128) -> NotebookView {
        if self.is_parked(id) && self.info.contains_key(id) {
            NotebookView {
                tabs: self.tabs.insert(id, self.fresh_tab(id)),
                parked: self.parked.remove(id),
                detached: self.detached.remove(id),
                ..self
            }
        } else {
            self
        }
    }

    /// The notebook after a session was moved into another tab's split. A detached session, and one
    /// without a tab, stays where it is.
    pub open spec fn parked_in_split(self, id: u128) -> NotebookView {
        if self.detached.contains(id) || !self.tabs.contains_key(id) {
            self
        } else {
            NotebookView { parked: self.parked.insert(id), ..self }.page_closed(id)
        }
    }

    /// Whether a session is handed over to a window: that is allowed, it is not in one already, and
    /// what shows it can be taken out of its tab.
    pub open spec fn is_taken(self, id: u128, allowed: bool) -> bool {
        allowed && !self.detached.contains(id) && self.tabs.contains_key(id) && self.can_rebuild(id)
    }

    /// The notebook after a session was to be handed over to a window. One that is not handed over
    /// stays as it is.
    pub open spec fn taken(self, id: u128, allowed: bool) -> NotebookView {
        if self.is_taken(id, allowed) {
            NotebookView { detached: self.detached.insert(id), ..self }.page_closed(id).rebuilt(id)
        } else {
            self
        }
    }

    /// Whether a session comes back from its window.
    pub open spec fn is_attached(self, id: u128) -> bool {
        self.detached.contains(id) && self.can_rebuild(id) && (self.info.contains_key(id)
            || self.tabs.contains_key(id))
    }

    /// The notebook after a session was to come back from its window.
    pub open spec fn attached_back(self, id: u128) -> NotebookView {
        if !self.detached.contains(id) || !self.has_live_widget(id) {
            self
        } else {
            let v = self.without_welcome().restored(id);
            if !v.tabs.contains_key(id) {
                v
            } else if !self.can_rebuild(id) {
                NotebookView { detached: v.detached.insert(id), ..v }.page_closed(id)
            } else {
                v.rebuilt(id).single(id).group_colored(id).recolored(id)
            }
        }
    }

    /// The notebook with the session by itself in its tab.
    pub open spec fn single(self, id: u128) -> NotebookView {
        self.with_content(id, TabContent::Single)
    }

    /// The notebook with something else in a tab, where the tab's content can be exchanged.
    pub open spec fn with_content(self, id: u128, content: TabContent) -> NotebookView {
        if self.tabs.contains_key(id) && self.tabs[id].content != TabContent::Fixed {
            NotebookView {
                tabs: self.tabs.insert(id, TabView { content, ..self.tabs[id] }),
                ..self
            }
        } else {
            self
        }
    }

    /// The notebook with the session's group in its tab's title.
    pub open spec fn titled(self, id: u128) -> NotebookView {
        if self.tabs.contains_key(id) && self.info.contains_key(id) && self.info[id].tab_group
            is Some {
            NotebookView {
                tabs: self.tabs.insert(
                    id,
                    self.tabs[id].regrouped_title(self.info[id].tab_group->0),
                ),
                ..self
            }
        } else {
            self
        }
    }

    /// The notebook with the color of a session's group on its tab, if it has one. A split's color is
    /// not replaced.
    pub open spec fn group_colored(self, id: u128) -> NotebookView {
        if self.tabs.contains_key(id) && self.info.contains_key(id) && self.info[id].tab_color_index
            is Some && !self.split_colors.contains_key(id) {
            NotebookView {
                tabs: self.tabs.insert(
                    id,
                    TabView {
                        indicator: Indicator::GroupColor(self.info[id].tab_color_index->0),
                        ..self.tabs[id]
                    },
                ),
                ..self
            }
        } else {
            self
        }
    }

    /// The notebook with the color of the protocol on a tab. A split's color is not replaced.
    pub open spec fn with_protocol_color(self, id: u128) -> NotebookView {
        if self.tabs.contains_key(id) && !self.split_colors.contains_key(id) {
            NotebookView {
                tabs: self.tabs.insert(
                    id,
                    TabView { indicator: Indicator::Protocol, ..self.tabs[id] },
                ),
                ..self
            }
        } else {
            self
        }
    }

    /// The notebook with the color of the protocol on a tab, where tabs are colored so.
    pub open spec fn recolored(self, id: u128) -> NotebookView {
        if self.color_by_protocol && self.info.contains_key(id) {
            self.with_protocol_color(id)
        } else {
            self
        }
    }

    /// The notebook after a session was closed, wherever it was shown.
    pub open spec fn session_closed(self, id: u128) -> NotebookView {
        self.restored(id).page_closed(id)
    }

    /// The notebook before a tab is closed by its session.
    pub open spec fn closing(self, id: u128) -> NotebookView {
        NotebookView {
            reconnect_shown: self.reconnect_shown.remove(id),
            disconnected: self.disconnected.remove(id),
            attached: AttachedView { polls: self.attached.polls.remove(id), ..self.attached },
            ..self
        }
    }

    /// The notebook after a tab was closed by its session.
    pub open spec fn tab_closed(self, id: u128) -> NotebookView {
        if self.detached.contains(id) {
            self.closing(id).session_closed(id)
        } else {
            self.closing(id).page_closed(id)
        }
    }

    /// What is asked of a session before it is moved.
    pub open spec fn context(self, id: u128) -> DetachContext {
        let split = SplitMembership::of_marks(
            self.split_colors.contains_key(id),
            self.parked.contains(id),
        );
        DetachContext {
            renders_in_process: self.info.contains_key(id) && self.info[id].is_embedded,
            is_split_owner: split == SplitMembership::Owner,
            is_split_guest: split == SplitMembership::Guest,
            is_detached: self.detached.contains(id),
        }
    }
}

impl TerminalNotebook {
    /// Takes the Welcome tab away where no session has a tab.
    pub fn remove_welcome_page(&mut self)
        ensures
            final(self)@ == old(self)@.without_welcome(),
    {
        if self.tabs.len() == 0 {
            self.welcome = false;
        }
        proof {
            lemma_tab_count(old(self).tabs@);
        }
    }

    /// Puts the Welcome tab back where it is wanted and no other tab is there.
    pub fn ensure_welcome_page(&mut self)
        ensures
            final(self)@ == old(self)@.with_welcome(),
    {
        if self.show_welcome && self.tabs.len() == 0 {
            self.welcome = true;
        }
        proof {
            lemma_tab_count(old(self).tabs@);
        }
    }

    /// Closes a session's tab.
    pub fn close_page(&mut self, session_id: u128) -> (r: PageClosed)
        ensures
            final(self)@ == old(self)@.page_closed(session_id),
            r == old(self)@.close_outcome(session_id),
    {
        let ghost before = self@;
        if !self.tabs.contains_key(&session_id) {
            return PageClosed::NoTab;
        }
        if self.parked_in_split.contains(&session_id) || self.detached.contains(&session_id) {
            self.tabs.remove(&session_id);
            assert(self@ =~= before.without_tab(session_id));
            self.ensure_welcome_page();
            return PageClosed::Parked;
        }
        let teardown = self.end_session(session_id);
        self.ensure_welcome_page();
        PageClosed::Ended(teardown)
    }

    fn end_session(&mut self, session_id: u128) -> (r: Teardown)
        ensures
            final(self)@ == old(self)@.ended(session_id),
            r == old(self)@.teardown(session_id),
    {
        let connection_id = match self.session_info.get(&session_id) {
            Some(info) => Some(info.connection_id),
            None => None,
        };
        let was_in_split = self.split_session_colors.remove(&session_id).is_some();
        self.tabs.remove(&session_id);
        self.terminals.remove(&session_id);
        self.drop_automation(session_id);
        self.attached.highlight_rules.remove(&session_id);
        self.attached.highlight_overlays.remove(&session_id);
        self.attached.terminal_overlays.remove(&session_id);
        let widget = self.session_widgets.remove(&session_id);
        self.session_info.remove(&session_id);
        self.disconnected_sessions.remove(&session_id);
        self.cursor_row_base.remove(&session_id);
        self.attached.pty_relays.remove(&session_id);
        let child_pid = self.attached.child_pids.remove(&session_id);
        let had_tunnel = self.attached.ssh_tunnels.remove(&session_id);
        assert(self@ =~= old(self)@.ended(session_id));
        Teardown { session_id, connection_id, was_in_split, widget, child_pid, had_tunnel }
    }

    /// Ends the automation of a session. Responses that were never sent may hold passwords: they are
    /// scrubbed.
    pub(crate) fn drop_automation(&mut self, session_id: u128)
        ensures
            final(self)@ == (NotebookView {
                attached: AttachedView {
                    automation: old(self)@.attached.automation.remove(session_id),
                    ..old(self)@.attached
                },
                ..old(self)@
            }),
    {
        if let Some(mut session) = self.attached.automation_sessions.remove(&session_id) {
            session.scrub_responses();
        }
        assert(self@.attached.automation =~= old(self)@.attached.automation.remove(session_id));
    }

    /// Gives a parked session its tab back.
    pub fn restore_session_tab(&mut self, session_id: u128) -> (r: bool)
        ensures
            final(self)@ == old(self)@.restored(session_id),
            r == (old(self)@.is_parked(session_id) && old(self)@.info.contains_key(session_id)),
    {
        if !self.parked_in_split.contains(&session_id) && !self.detached.contains(&session_id) {
            return false;
        }
        let tab = match self.session_info.get(&session_id) {
            Some(info) => Tab {
                title: tab_title(&info.name, as_str(&info.tab_group)),
                tooltip: tab_tooltip(&info.name, as_str(&info.host), as_str(&info.tab_group)),
                icon: TabIcon::OfProtocol,
                indicator: Indicator::Blank,
                split_class: None,
                content: TabContent::Empty,
            },
            None => {
                return false;
            },
        };
        assert(tab@ =~= self@.fresh_tab(session_id));
        self.tabs.insert(session_id, tab);
        let _ = take_park_mark(&mut self.parked_in_split, &mut self.detached, session_id);
        assert(self@ =~= old(self)@.restored(session_id));
        true
    }

    /// Moves a session out of its tab and into another tab's split. A session that lives in a window
    /// of its own is refused.
    pub fn park_session_tab(&mut self, session_id: u128)
        ensures
            final(self)@ == old(self)@.parked_in_split(session_id),
    {
        if self.detached.contains(&session_id) || !self.tabs.contains_key(&session_id) {
            return;
        }
        self.parked_in_split.insert(session_id);
        assert(self@ =~= (NotebookView {
            parked: old(self)@.parked.insert(session_id),
            ..old(self)@
        }));
        let _ = self.close_page(session_id);
    }

    fn shown_by_viewer(&self, session_id: u128) -> (r: bool)
        ensures
            r == self@.has_viewer(session_id),
    {
        match self.session_widgets.get(&session_id) {
            Some(kind) => *kind != SessionWidgetStorage::ExternalProcess,
            None => false,
        }
    }

    fn is_rebuildable(&self, session_id: u128) -> (r: bool)
        ensures
            r == self@.can_rebuild(session_id),
    {
        self.shown_by_viewer(session_id) || self.terminals.contains(&session_id)
    }

    fn rebuild_content(&mut self, session_id: u128) -> (r: bool)
        ensures
            final(self)@ == old(self)@.rebuilt(session_id),
            r == old(self)@.can_rebuild(session_id),
    {
        if self.shown_by_viewer(session_id) {
            return true;
        }
        if !self.terminals.contains(&session_id) {
            return false;
        }
        self.attached.terminal_overlays.insert(session_id);
        assert(self@ =~= old(self)@.rebuilt(session_id));
        true
    }

    fn live_widget(&self, session_id: u128) -> (r: bool)
        ensures
            r == self@.has_live_widget(session_id),
    {
        self.terminals.contains(&session_id) || self.session_widgets.contains_key(&session_id)
    }

    /// Hands a session over to a window of its own, if that is allowed. Either the session is
    /// detached and the window gets what shows it, or nothing has changed.
    pub fn take_session_content(&mut self, session_id: u128, allowed: bool) -> (r: bool)
        ensures
            final(self)@ == old(self)@.taken(session_id, allowed),
            r == old(self)@.is_taken(session_id, allowed),
            r <==> allowed && old(self)@.tabs.contains_key(session_id) && !old(self)@.detached.contains(
                session_id,
            ) && (old(self)@.terminals.contains(session_id) || (old(self)@.widgets.contains_key(
                session_id,
            ) && old(self)@.widgets[session_id] != SessionWidgetStorage::ExternalProcess)),
            r ==> final(self)@.detached.contains(session_id) && !final(self)@.tabs.contains_key(
                session_id,
            ),
            !r ==> final(self)@ == old(self)@,
    {
        if !allowed || self.detached.contains(&session_id) || !self.tabs.contains_key(&session_id)
            || !self.is_rebuildable(session_id) {
            return false;
        }
        self.detached.insert(session_id);
        assert(self@ =~= (NotebookView {
            detached: old(self)@.detached.insert(session_id),
            ..old(self)@
        }));
        let _ = self.close_page(session_id);
        self.rebuild_content(session_id)
    }

    /// Brings a detached session back into a tab. Where that fails the session stays detached.
    pub fn attach_session(&mut self, session_id: u128) -> (r: bool)
        ensures
            final(self)@ == old(self)@.attached_back(session_id),
            r == old(self)@.is_attached(session_id),
            old(self)@.placed() && r ==> final(self)@.tabs.contains_key(session_id)
                && !final(self)@.detached.contains(session_id),
            old(self)@.placed() ==> (r <==> old(self)@.detached.contains(session_id) && (old(
                self,
            )@.terminals.contains(session_id) || (old(self)@.widgets.contains_key(session_id) && old(
                self,
            )@.widgets[session_id] != SessionWidgetStorage::ExternalProcess))),
    {
        if !self.detached.contains(&session_id) || !self.live_widget(session_id) {
            return false;
        }
        self.remove_welcome_page();
        let _ = self.restore_session_tab(session_id);
        let ghost v = self@;
        if !self.tabs.contains_key(&session_id) {
            return false;
        }
        if !self.rebuild_content(session_id) {
            self.detached.insert(session_id);
            assert(self@ =~= (NotebookView { detached: v.detached.insert(session_id), ..v }));
            let _ = self.close_page(session_id);
            return false;
        }
        self.set_content(session_id, TabContent::Single);
        self.apply_group_color(session_id);
        if self.color_tabs_by_protocol && self.session_info.contains_key(&session_id) {
            self.apply_protocol_color(session_id);
        }
        true
    }

    fn set_content(&mut self, session_id: u128, content: TabContent)
        ensures
            final(self)@ == old(self)@.with_content(session_id, content),
    {
        if let Some(mut tab) = self.tabs.remove(&session_id) {
            if tab.content != TabContent::Fixed {
                tab.content = content;
            }
            self.tabs.insert(session_id, tab);
        }
        assert(self@ =~= old(self)@.with_content(session_id, content));
    }

    /// Puts a split layout into a session's tab.
    pub fn switch_tab_to_split(&mut self, session_id: u128)
        ensures
            final(self)@ == old(self)@.with_content(session_id, TabContent::Split),
    {
        self.set_content(session_id, TabContent::Split);
    }

    /// Puts the session by itself into its tab.
    pub fn switch_tab_to_single(&mut self, session_id: u128)
        ensures
            final(self)@ == old(self)@.single(session_id),
    {
        self.set_content(session_id, TabContent::Single);
    }

    /// Brings a session back into its tab, which is made anew where the session was parked.
    pub fn reparent_terminal_to_tab(&mut self, session_id: u128) -> (r: bool)
        ensures
            final(self)@ == (if old(self)@.can_rebuild(session_id) {
                old(self)@.restored(session_id).rebuilt(session_id).single(session_id)
            } else {
                old(self)@.restored(session_id)
            }),
            r == old(self)@.can_rebuild(session_id),
    {
        let _ = self.restore_session_tab(session_id);
        if !self.rebuild_content(session_id) {
            return false;
        }
        self.set_content(session_id, TabContent::Single);
        true
    }

    pub(crate) fn apply_group_title(&mut self, session_id: u128)
        ensures
            final(self)@ == old(self)@.titled(session_id),
    {
        let group = match self.session_info.get(&session_id) {
            Some(info) => info.tab_group.clone(),
            None => None,
        };
        if let Some(name) = group {
            if let Some(mut tab) = self.tabs.remove(&session_id) {
                tab.set_title_group(&name);
                self.tabs.insert(session_id, tab);
            }
        }
        assert(self@ =~= old(self)@.titled(session_id));
    }

    pub(crate) fn apply_group_color(&mut self, session_id: u128)
        ensures
            final(self)@ == old(self)@.group_colored(session_id),
    {
        let color = match self.session_info.get(&session_id) {
            Some(info) => info.tab_color_index,
            None => None,
        };
        if self.split_session_colors.contains_key(&session_id) {
            return;
        }
        if let Some(index) = color {
            if let Some(mut tab) = self.tabs.remove(&session_id) {
                tab.indicator = Indicator::GroupColor(index);
                self.tabs.insert(session_id, tab);
            }
        }
        assert(self@ =~= old(self)@.group_colored(session_id));
    }

    pub(crate) fn apply_protocol_color(&mut self, session_id: u128)
        ensures
            final(self)@ == old(self)@.with_protocol_color(session_id),
    {
        if self.split_session_colors.contains_key(&session_id) {
            return;
        }
        if let Some(mut tab) = self.tabs.remove(&session_id) {
            tab.indicator = Indicator::Protocol;
            self.tabs.insert(session_id, tab);
        }
        assert(self@ =~= old(self)@.with_protocol_color(session_id));
    }

    /// Closes a session, wherever it is shown.
    pub fn close_session(&mut self, session_id: u128) -> (r: PageClosed)
        ensures
            final(self)@ == old(self)@.session_closed(session_id),
            r == old(self)@.restored(session_id).close_outcome(session_id),
    {
        let _ = self.restore_session_tab(session_id);
        self.close_page(session_id)
    }

    /// Closes the tab of a session, or the window of a detached one. Nothing is polled for it any
    /// more.
    pub fn close_tab(&mut self, session_id: u128) -> (r: PageClosed)
        ensures
            final(self)@ == old(self)@.tab_closed(session_id),
            r == (if old(self)@.detached.contains(session_id) {
                old(self)@.closing(session_id).restored(session_id).close_outcome(session_id)
            } else {
                old(self)@.closing(session_id).close_outcome(session_id)
            }),
    {
        self.reconnect_shown.remove(&session_id);
        self.disconnected_sessions.remove(&session_id);
        self.attached.polls.remove(&session_id);
        assert(self@ =~= old(self)@.closing(session_id));
        if self.detached.contains(&session_id) {
            self.close_session(session_id)
        } else {
            self.close_page(session_id)
        }
    }

    /// What is asked of a session before it is moved.
    pub fn detach_context(&self, session_id: u128) -> (r: DetachContext)
        ensures
            r == self@.context(session_id),
    {
        let renders_in_process = match self.session_info.get(&session_id) {
            Some(info) => info.is_embedded,
            None => false,
        };
        let split = SplitMembership::from_marks(
            self.split_session_colors.contains_key(&session_id),
            self.parked_in_split.contains(&session_id),
        );
        detach_context_from(renders_in_process, split, self.detached.contains(&session_id))
    }
}

fn as_str(o: &Option<String>) -> (r: Option<&str>)
    ensures
        crate::text::opt_str_view(r) == crate::text::opt_view(*o),
{
    match o {
        Some(s) => Some(s.as_str()),
        None => None,
    }
}

proof fn lemma_tab_count(m: Map<u128, Tab>)
    ensures
        tab_views(m).len() == m.len(),
{
    assert(tab_views(m).dom() =~= m.dom());
}

} // verus!
