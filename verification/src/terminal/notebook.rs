//! The notebook of all sessions: their tabs, and where each session is shown.

use crate::automation::AutomationSession;
use crate::terminal::clusters::{Clusters, ClustersView};
use crate::terminal::tabs::{session_views, tab_views, Tab, TabView};
use crate::terminal::types::{SessionView, SessionWidgetStorage, TerminalSession};
use std::collections::{HashMap, HashSet};
use vstd::prelude::*;

pub mod laws;
pub mod marks;
pub mod opening;
pub mod placement;
pub mod polling;
pub mod running;
pub mod sessions;

verus! {

broadcast use vstd::std_specs::hash::group_hash_axioms;

/// What runs for a session besides its widget.
pub struct Attachments {
    pub automation_sessions: HashMap<u128, AutomationSession>,
    /// The sessions with highlight rules.
    pub highlight_rules: HashSet<u128>,
    /// The sessions with a layer that draws highlights.
    pub highlight_overlays: HashSet<u128>,
    /// The sessions whose terminal has a layer to draw on.
    pub terminal_overlays: HashSet<u128>,
    /// What is being polled for, by session or by connection.
    pub polls: HashSet<u128>,
    pub ssh_tunnels: HashSet<u128>,
    pub child_pids: HashMap<u128, i32>,
    /// The sessions whose input and output go through a relay.
    pub pty_relays: HashSet<u128>,
}

/// What runs for a session besides its widget.
#[verifier::ext_equal]
pub struct AttachedView {
    pub automation: Map<u128, AutomationSession>,
    pub highlight_rules: Set<u128>,
    pub highlight_overlays: Set<u128>,
    pub terminal_overlays: Set<u128>,
    pub polls: Set<u128>,
    pub ssh_tunnels: Set<u128>,
    pub child_pids: Map<u128, i32>,
    pub pty_relays: Set<u128>,
}

impl View for Attachments {
    type V = AttachedView;

    open spec fn view(&self) -> AttachedView {
        AttachedView {
            automation: self.automation_sessions@,
            highlight_rules: self.highlight_rules@,
            highlight_overlays: self.highlight_overlays@,
            terminal_overlays: self.terminal_overlays@,
            polls: self.polls@,
            ssh_tunnels: self.ssh_tunnels@,
            child_pids: self.child_pids@,
            pty_relays: self.pty_relays@,
        }
    }
}

impl AttachedView {
    /// Nothing runs.
    pub open spec fn empty() -> AttachedView {
        AttachedView {
            automation: Map::empty(),
            highlight_rules: Set::empty(),
            highlight_overlays: Set::empty(),
            terminal_overlays: Set::empty(),
            polls: Set::empty(),
            ssh_tunnels: Set::empty(),
            child_pids: Map::empty(),
            pty_relays: Set::empty(),
        }
    }

    /// What is left when a session has ended.
    pub open spec fn released(self, id: u128) -> AttachedView {
        AttachedView {
            automation: self.automation.remove(id),
            highlight_rules: self.highlight_rules.remove(id),
            highlight_overlays: self.highlight_overlays.remove(id),
            terminal_overlays: self.terminal_overlays.remove(id),
            ssh_tunnels: self.ssh_tunnels.remove(id),
            child_pids: self.child_pids.remove(id),
            pty_relays: self.pty_relays.remove(id),
            ..self
        }
    }

    /// What is left before a session is connected again: the rules are made anew, and the old
    /// process is none of ours any more.
    pub open spec fn renewed(self, id: u128) -> AttachedView {
        AttachedView {
            automation: self.automation.remove(id),
            highlight_rules: self.highlight_rules.remove(id),
            highlight_overlays: self.highlight_overlays.remove(id),
            child_pids: self.child_pids.remove(id),
            ..self
        }
    }
}

/// All sessions, their tabs, and where each session is shown.
pub struct TerminalNotebook {
    /// The tab of each session that has one.
    tabs: HashMap<u128, Tab>,
    /// Whether the Welcome tab is there.
    welcome: bool,
    /// Whether the Welcome tab is wanted when no other is there.
    show_welcome: bool,
    /// The sessions that are shown in another tab's split and have no tab of their own.
    parked_in_split: HashSet<u128>,
    /// The sessions that are shown in a window of their own and have no tab.
    detached: HashSet<u128>,
    session_info: HashMap<u128, TerminalSession>,
    /// The sessions that are shown by a terminal.
    terminals: HashSet<u128>,
    /// The sessions that are shown by something else.
    session_widgets: HashMap<u128, SessionWidgetStorage>,
    /// The color of the split that a session is in.
    split_session_colors: HashMap<u128, usize>,
    color_tabs_by_protocol: bool,
    /// The sessions that a reconnect banner is shown for.
    reconnect_shown: HashSet<u128>,
    /// The sessions whose connection has ended while they are still there.
    disconnected_sessions: HashSet<u128>,
    keep_history_on_reconnect: bool,
    max_scrollback_on_reconnect: Option<u32>,
    /// The row at which a session's present connection started; `None` until it is first read.
    cursor_row_base: HashMap<u128, Option<i64>>,
    attached: Attachments,
    clusters: Clusters,
}

/// All sessions, their tabs, and where each session is shown.
#[verifier::ext_equal]
pub struct NotebookView {
    pub tabs: Map<u128, TabView>,
    pub welcome: bool,
    pub show_welcome: bool,
    pub parked: Set<u128>,
    pub detached: Set<u128>,
    pub info: Map<u128, SessionView>,
    pub terminals: Set<u128>,
    pub widgets: Map<u128, SessionWidgetStorage>,
    pub split_colors: Map<u128, usize>,
    pub color_by_protocol: bool,
    pub reconnect_shown: Set<u128>,
    pub disconnected: Set<u128>,
    pub keep_history: bool,
    pub max_scrollback: Option<u32>,
    pub row_base: Map<u128, Option<i64>>,
    pub attached: AttachedView,
    pub clusters: ClustersView,
}

impl View for TerminalNotebook {
    type V = NotebookView;

    closed spec fn view(&self) -> NotebookView {
        NotebookView {
            tabs: tab_views(self.tabs@),
            welcome: self.welcome,
            show_welcome: self.show_welcome,
            parked: self.parked_in_split@,
            detached: self.detached@,
            info: session_views(self.session_info@),
            terminals: self.terminals@,
            widgets: self.session_widgets@,
            split_colors: self.split_session_colors@,
            color_by_protocol: self.color_tabs_by_protocol,
            reconnect_shown: self.reconnect_shown@,
            disconnected: self.disconnected_sessions@,
            keep_history: self.keep_history_on_reconnect,
            max_scrollback: self.max_scrollback_on_reconnect,
            row_base: self.cursor_row_base@,
            attached: self.attached@,
            clusters: self.clusters@,
        }
    }
}

impl NotebookView {
    /// A notebook without sessions.
    pub open spec fn empty(show_welcome: bool) -> NotebookView {
        NotebookView {
            tabs: Map::empty(),
            welcome: show_welcome,
            show_welcome,
            parked: Set::empty(),
            detached: Set::empty(),
            info: Map::empty(),
            terminals: Set::empty(),
            widgets: Map::empty(),
            split_colors: Map::empty(),
            color_by_protocol: false,
            reconnect_shown: Set::empty(),
            disconnected: Set::empty(),
            keep_history: true,
            max_scrollback: None,
            row_base: Map::empty(),
            attached: AttachedView::empty(),
            clusters: ClustersView {
                sessions: Map::empty(),
                session_to_cluster: Map::empty(),
                pending: Map::empty(),
            },
        }
    }

    /// Every session is shown in exactly one place: in a tab, in a split or in a window.
    pub open spec fn placed(self) -> bool {
        &&& self.info.dom().finite()
        &&& self.tabs.dom().disjoint(self.parked)
        &&& self.tabs.dom().disjoint(self.detached)
        &&& self.parked.disjoint(self.detached)
        &&& self.info.dom() == self.tabs.dom().union(self.parked).union(self.detached)
    }
}

impl TerminalNotebook {
    /// A notebook without sessions. The Welcome tab is there if it is wanted.
    pub fn new(show_welcome: bool) -> (r: Self)
        ensures
            r@ == NotebookView::empty(show_welcome),
            r@.placed(),
    {
        let r = TerminalNotebook {
            tabs: HashMap::new(),
            welcome: show_welcome,
            show_welcome,
            parked_in_split: HashSet::new(),
            detached: HashSet::new(),
            session_info: HashMap::new(),
            terminals: HashSet::new(),
            session_widgets: HashMap::new(),
            split_session_colors: HashMap::new(),
            color_tabs_by_protocol: false,
            reconnect_shown: HashSet::new(),
            disconnected_sessions: HashSet::new(),
            keep_history_on_reconnect: true,
            max_scrollback_on_reconnect: None,
            cursor_row_base: HashMap::new(),
            attached: Attachments {
                automation_sessions: HashMap::new(),
                highlight_rules: HashSet::new(),
                highlight_overlays: HashSet::new(),
                terminal_overlays: HashSet::new(),
                polls: HashSet::new(),
                ssh_tunnels: HashSet::new(),
                child_pids: HashMap::new(),
                pty_relays: HashSet::new(),
            },
            clusters: Clusters::new(),
        };
        assert(r@ =~= NotebookView::empty(show_welcome));
        assert(r@.info.dom() =~= r@.tabs.dom().union(r@.parked).union(r@.detached));
        r
    }
}

impl Default for TerminalNotebook {
    /// A notebook with the Welcome tab.
    fn default() -> (r: Self)
        ensures
            r@ == NotebookView::empty(true),
    {
        Self::new(true)
    }
}

/// A new notebook has no session and no tab but the Welcome tab where that is wanted; nothing runs, tabs
/// are not colored, and the history is kept without a limit.
pub proof fn law_new_notebook_is_empty(show_welcome: bool, r: TerminalNotebook)
    requires
        call_ensures(TerminalNotebook::new, (show_welcome,), r),
    ensures
        r@.welcome == show_welcome,
        r@.show_welcome == show_welcome,
        !r@.color_by_protocol,
        r@.keep_history,
        r@.max_scrollback is None,
        forall|id: u128|
            !#[trigger] r@.tabs.contains_key(id) && !r@.info.contains_key(id)
                && !r@.parked.contains(id) && !r@.detached.contains(id) && !r@.terminals.contains(id)
                && !r@.widgets.contains_key(id) && !r@.split_colors.contains_key(id)
                && !r@.reconnect_shown.contains(id) && !r@.disconnected.contains(id)
                && !r@.row_base.contains_key(id) && !r@.attached.automation.contains_key(id)
                && !r@.attached.highlight_rules.contains(id)
                && !r@.attached.highlight_overlays.contains(id)
                && !r@.attached.terminal_overlays.contains(id) && !r@.attached.polls.contains(id)
                && !r@.attached.ssh_tunnels.contains(id) && !r@.attached.child_pids.contains_key(id)
                && !r@.attached.pty_relays.contains(id) && !r@.clusters.sessions.contains_key(id)
                && !r@.clusters.session_to_cluster.contains_key(id)
                && !r@.clusters.pending.contains_key(id),
{
}

} // verus!
