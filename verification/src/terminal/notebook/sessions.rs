//! What is known of the sessions: names, groups, clusters, lists and counts.

use crate::ids;
use crate::terminal::clusters::ClustersView;
use crate::terminal::notebook::{NotebookView, TerminalNotebook};
use crate::terminal::tabs::{tab_tooltip, tooltip_of, without_group_line, Indicator, Tab, TabView};
use crate::terminal::types::{
    tab_title, title_of, without_group, SessionView, SessionWidgetStorage, TerminalSession,
};
use crate::text::{opt_str_view, opt_view};
use std::collections::HashMap;
use vstd::prelude::*;

verus! {

broadcast use vstd::std_specs::hash::group_hash_axioms;

/// A page of the tab bar.
#[derive(Clone, Copy, Debug, PartialEq, Eq, Structural)]
pub enum Page {
    Welcome,
    Session(u128),
}

/// Where the focus goes when a session is asked for.
#[derive(Clone, Copy, Debug, PartialEq, Eq, Structural)]
pub enum FocusTarget {
    /// The session's own window.
    Window,
    /// The session's tab.
    Tab,
    Nowhere,
}

/// The box that shows a session.
#[derive(Clone, Copy, Debug, PartialEq, Eq, Structural)]
pub enum ContentBox {
    /// In the session's tab.
    Tab,
    /// In the session's own window.
    Window,
}

/// Whether a session can be shown in a split.
#[derive(Clone, Copy, Debug, PartialEq, Eq, Structural)]
pub enum SplitEligibility {
    /// A terminal, or a viewer in this process.
    Embeddable,
    /// A viewer in a process of its own.
    ExternalViewer,
    /// Nothing shows the session.
    Unknown,
}

/// Whether a session can be shown in a split, by what shows it. The viewer counts first.
pub open spec fn eligibility(has_terminal: bool, storage: Option<SessionWidgetStorage>) -> SplitEligibility {
    match storage {
        Some(SessionWidgetStorage::ExternalProcess) => SplitEligibility::ExternalViewer,
        Some(_) => SplitEligibility::Embeddable,
        None => if has_terminal {
            SplitEligibility::Embeddable
        } else {
            SplitEligibility::Unknown
        },
    }
}

/// Says whether a session can be shown in a split, by what shows it.
pub fn eligibility_from(has_terminal: bool, storage: Option<SessionWidgetStorage>) -> (r:
    SplitEligibility)
    ensures
        r == eligibility(has_terminal, storage),
{
    match storage {
        Some(SessionWidgetStorage::ExternalProcess) => SplitEligibility::ExternalViewer,
        Some(_) => SplitEligibility::Embeddable,
        None => {
            if has_terminal {
                SplitEligibility::Embeddable
            } else {
                SplitEligibility::Unknown
            }
        },
    }
}

/// What shows a session.
#[derive(Clone, Copy, Debug, PartialEq, Eq, Structural)]
pub enum DisplayWidget {
    Viewer(SessionWidgetStorage),
    Terminal,
}

/// The widget of a session that can be handed out.
#[derive(Clone, Copy, Debug, PartialEq, Eq, Structural)]
pub enum SessionWidget {
    Vnc,
    Ssh,
}

/// Whether `list` holds the sessions of `keys`, each once, in some order.
pub open spec fn lists(list: Seq<TerminalSession>, info: Map<u128, SessionView>, keys: Set<u128>) -> bool {
    exists|order: Seq<u128>|
        #![trigger order.no_duplicates()]
        {
            &&& order.no_duplicates()
            &&& order.to_set() == keys
            &&& list.len() == order.len()
            &&& forall|i: int| 0 <= i < order.len() ==> (#[trigger] list[i])@ == info[order[i]]
        }
}

impl NotebookView {
    /// What is remembered of a session's viewer.
    pub open spec fn storage(self, id: u128) -> Option<SessionWidgetStorage> {
        if self.widgets.contains_key(id) {
            Some(self.widgets[id])
        } else {
            None
        }
    }

    /// What shows a session. A viewer in a process of its own has nothing to show here.
    pub open spec fn display(self, id: u128) -> Option<DisplayWidget> {
        match self.storage(id) {
            Some(SessionWidgetStorage::ExternalProcess) => None,
            Some(kind) => Some(DisplayWidget::Viewer(kind)),
            None => if self.terminals.contains(id) {
                Some(DisplayWidget::Terminal)
            } else {
                None
            },
        }
    }

    /// The box that shows a session, to put a banner or a bar in. A session in a split has none of
    /// its own.
    pub open spec fn content_box(self, id: u128) -> Option<ContentBox> {
        if self.tabs.contains_key(id) {
            Some(ContentBox::Tab)
        } else if self.detached.contains(id) && (self.attached.terminal_overlays.contains(id)
            || self.display(id) is Some) {
            Some(ContentBox::Window)
        } else {
            None
        }
    }

    /// The sessions whose connection has not ended.
    pub open spec fn live(self) -> Set<u128> {
        self.info.dom().filter(|k: u128| !self.disconnected.contains(self.info[k].id))
    }

    /// The notebook with something else known of a session, if anything is known of it.
    pub open spec fn with_info(self, id: u128, info: SessionView) -> NotebookView {
        if self.info.contains_key(id) {
            NotebookView { info: self.info.insert(id, info), ..self }
        } else {
            self
        }
    }

    /// The notebook with a session in a group.
    pub open spec fn grouped(self, id: u128, group: Seq<char>, color: usize) -> NotebookView {
        let named = self.with_info(
            id,
            SessionView {
                tab_group: Some(group),
                tab_color_index: Some(color),
                ..self.info[id]
            },
        ).titled(id).group_colored(id);
        if named.tabs.contains_key(id) {
            NotebookView {
                tabs: named.tabs.insert(id, named.tabs[id].regrouped_tooltip(group)),
                ..named
            }
        } else {
            named
        }
    }

    /// The sessions of a connection.
    pub open spec fn sessions_of(self, connection_id: u128) -> Set<u128> {
        self.info.dom().filter(|k: u128| self.info[k].connection_id == connection_id)
    }

    /// The tab of a session that goes by another name.
    pub open spec fn renamed_tab(self, id: u128, name: Seq<char>) -> TabView {
        TabView {
            title: title_of(name, self.info[id].tab_group),
            tooltip: tooltip_of(name, self.info[id].host, self.info[id].tab_group),
            ..self.tabs[id]
        }
    }

    /// The notebook with the sessions `ids` under another name.
    pub open spec fn renamed(self, ids: Set<u128>, name: Seq<char>) -> NotebookView {
        NotebookView {
            info: Map::new(
                |k: u128| self.info.contains_key(k),
                |k: u128|
                    if ids.contains(k) {
                        SessionView { name, ..self.info[k] }
                    } else {
                        self.info[k]
                    },
            ),
            tabs: Map::new(
                |k: u128| self.tabs.contains_key(k),
                |k: u128|
                    if ids.contains(k) {
                        self.renamed_tab(k, name)
                    } else {
                        self.tabs[k]
                    },
            ),
            ..self
        }
    }

    /// The session of a page.
    pub open spec fn session_of(self, page: Page) -> Option<u128> {
        match page {
            Page::Session(id) if self.tabs.contains_key(id) => Some(id),
            _ => None,
        }
    }

    /// The sessions of the first `n` pages, in their order.
    pub open spec fn in_order(self, pages: Seq<Page>, n: int) -> Seq<u128>
        decreases n,
    {
        if n <= 0 {
            Seq::empty()
        } else {
            match self.session_of(pages[n - 1]) {
                Some(id) => self.in_order(pages, n - 1).push(id),
                None => self.in_order(pages, n - 1),
            }
        }
    }
}

fn as_str(o: &Option<String>) -> (r: Option<&str>)
    ensures
        opt_str_view(r) == opt_view(*o),
{
    match o {
        Some(s) => Some(s.as_str()),
        None => None,
    }
}

proof fn lemma_kept_keys(all: Seq<u128>, n: int, keep: spec_fn(u128) -> bool)
    requires
        0 <= n < all.len(),
    ensures
        all.take(n + 1).filter(keep) == (if keep(all[n]) {
            all.take(n).filter(keep).push(all[n])
        } else {
            all.take(n).filter(keep)
        }),
{
    assert(all.take(n + 1) =~= all.take(n).push(all[n]));
    all.take(n).lemma_filter_push(all[n], keep);
}

impl TerminalNotebook {
    /// The sessions whose connection has not ended, in no particular order.
    pub fn live_sessions(&self) -> (r: Vec<TerminalSession>)
        ensures
            lists(r@, self@.info, self@.live()),
    {
        let ids = ids::keys_of(&self.session_info);
        let ghost all = self.session_info@;
        let ghost keep = |k: u128| !self@.disconnected.contains(self@.info[k].id);
        let mut list: Vec<TerminalSession> = Vec::new();
        let mut i: usize = 0;
        assert(ids@.take(0).filter(keep) =~= Seq::empty());
        while i < ids.len()
            invariant
                i <= ids@.len(),
                ids@.to_set() == self.session_info@.dom(),
                keep == (|k: u128| !self@.disconnected.contains(self@.info[k].id)),
                list@.len() == ids@.take(i as int).filter(keep).len(),
                forall|j: int|
                    0 <= j < list@.len() ==> (#[trigger] list@[j])@ == self@.info[ids@.take(
                        i as int,
                    ).filter(keep)[j]],
            decreases ids@.len() - i,
        {
            proof {
                lemma_kept_keys(ids@, i as int, keep);
                assert(ids@.to_set().contains(ids@[i as int]));
            }
            if let Some(session) = self.session_info.get(&ids[i]) {
                assert(session@ == self@.info[ids@[i as int]]);
                if !self.disconnected_sessions.contains(&session.id) {
                    list.push(session.copy());
                }
            }
            i += 1;
        }
        proof {
            assert(ids@.take(i as int) =~= ids@);
            let order = ids@.filter(keep);
            lemma_filtered_keys(ids@, keep);
            assert(order.to_set() =~= self@.live()) by {
                assert(self.session_info@.dom() =~= self@.info.dom());
            }
            assert(order.no_duplicates());
        }
        list
    }

    /// All sessions, in no particular order.
    pub fn get_all_sessions(&self) -> (r: Vec<TerminalSession>)
        ensures
            lists(r@, self@.info, self@.info.dom()),
    {
        let ids = ids::keys_of(&self.session_info);
        let mut list: Vec<TerminalSession> = Vec::new();
        let mut i: usize = 0;
        while i < ids.len()
            invariant
                i <= ids@.len(),
                ids@.to_set() == self.session_info@.dom(),
                list@.len() == i,
                forall|j: int| 0 <= j < i ==> (#[trigger] list@[j])@ == self@.info[ids@[j]],
            decreases ids@.len() - i,
        {
            assert(ids@.to_set().contains(ids@[i as int]));
            if let Some(session) = self.session_info.get(&ids[i]) {
                list.push(session.copy());
            }
            i += 1;
        }
        assert(self.session_info@.dom() =~= self@.info.dom());
        assert(ids@.no_duplicates());
        list
    }

    /// What is known of a session.
    pub fn get_session_info(&self, session_id: u128) -> (r: Option<TerminalSession>)
        ensures
            match r {
                Some(s) => self@.info.contains_key(session_id) && s@ == self@.info[session_id],
                None => !self@.info.contains_key(session_id),
            },
    {
        match self.session_info.get(&session_id) {
            Some(session) => Some(session.copy()),
            None => None,
        }
    }

    /// Notes where a session is logged.
    pub fn set_log_file(&mut self, session_id: u128, log_file: &str)
        ensures
            final(self)@ == old(self)@.with_info(
                session_id,
                SessionView { log_file: Some(log_file@), ..old(self)@.info[session_id] },
            ),
    {
        if let Some(mut session) = self.session_info.remove(&session_id) {
            session.log_file = Some(log_file.to_owned());
            self.session_info.insert(session_id, session);
        }
        assert(self@ =~= old(self)@.with_info(
            session_id,
            SessionView { log_file: Some(log_file@), ..old(self)@.info[session_id] },
        ));
    }

    /// Notes the entry of a session in the history.
    pub fn set_history_entry_id(&mut self, session_id: u128, history_entry_id: u128)
        ensures
            final(self)@ == old(self)@.with_info(
                session_id,
                SessionView {
                    history_entry_id: Some(history_entry_id),
                    ..old(self)@.info[session_id]
                },
            ),
    {
        if let Some(mut session) = self.session_info.remove(&session_id) {
            session.history_entry_id = Some(history_entry_id);
            self.session_info.insert(session_id, session);
        }
        assert(self@ =~= old(self)@.with_info(
            session_id,
            SessionView { history_entry_id: Some(history_entry_id), ..old(self)@.info[session_id] },
        ));
    }

    /// Puts a session into a group, whose color is given. The group goes into the tab's title and
    /// tooltip, and its color beside the title unless the session is in a split.
    pub fn set_tab_group(&mut self, session_id: u128, group_name: &str, color_index: usize)
        ensures
            final(self)@ == old(self)@.grouped(session_id, group_name@, color_index),
    {
        let ghost before = self@;
        if let Some(mut session) = self.session_info.remove(&session_id) {
            session.tab_group = Some(group_name.to_owned());
            session.tab_color_index = Some(color_index);
            self.session_info.insert(session_id, session);
        }
        assert(self@ =~= before.with_info(
            session_id,
            SessionView {
                tab_group: Some(group_name@),
                tab_color_index: Some(color_index),
                ..before.info[session_id]
            },
        ));
        self.apply_group_title(session_id);
        self.apply_group_color(session_id);
        if let Some(mut tab) = self.tabs.remove(&session_id) {
            tab.set_tooltip_group(group_name);
            self.tabs.insert(session_id, tab);
        }
        assert(self@ =~= before.grouped(session_id, group_name@, color_index));
    }

    /// The group of a session's tab.
    pub fn get_tab_group(&self, session_id: u128) -> (r: Option<String>)
        ensures
            opt_view(r) == (if self@.info.contains_key(session_id) {
                self@.info[session_id].tab_group
            } else {
                None
            }),
    {
        match self.session_info.get(&session_id) {
            Some(session) => session.tab_group.clone(),
            None => None,
        }
    }

    fn rename_session(&mut self, session_id: u128, new_name: &str)
        requires
            old(self)@.info.contains_key(session_id),
        ensures
            final(self)@ == old(self)@.renamed(Set::empty().insert(session_id), new_name@),
    {
        let ghost before = self@;
        if let Some(mut session) = self.session_info.remove(&session_id) {
            if let Some(mut tab) = self.tabs.remove(&session_id) {
                tab.title = tab_title(new_name, as_str(&session.tab_group));
                tab.tooltip = tab_tooltip(
                    new_name,
                    as_str(&session.host),
                    as_str(&session.tab_group),
                );
                self.tabs.insert(session_id, tab);
            }
            session.name = new_name.to_owned();
            self.session_info.insert(session_id, session);
        }
        assert(self@ =~= before.renamed(Set::empty().insert(session_id), new_name@));
    }

    /// Gives all sessions of a connection another name, and says which they are.
    pub fn rename_connection_sessions(&mut self, connection_id: u128, new_name: &str) -> (r: Vec<u128>)
        ensures
            final(self)@ == old(self)@.renamed(old(self)@.sessions_of(connection_id), new_name@),
            r@.no_duplicates(),
            r@.to_set() == old(self)@.sessions_of(connection_id),
    {
        let ghost before = self@;
        let ids = ids::keys_of(&self.session_info);
        let ghost keep = |k: u128| before.info[k].connection_id == connection_id;
        let mut renamed: Vec<u128> = Vec::new();
        let mut i: usize = 0;
        assert(ids@.take(0).filter(keep) =~= Seq::empty());
        assert(self@ =~= before.renamed(Seq::<u128>::empty().to_set(), new_name@));
        assert(self.session_info@.dom() =~= before.info.dom());
        while i < ids.len()
            invariant
                i <= ids@.len(),
                ids@.no_duplicates(),
                ids@.to_set() == before.info.dom(),
                keep == (|k: u128| before.info[k].connection_id == connection_id),
                renamed@ == ids@.take(i as int).filter(keep),
                self@ == before.renamed(renamed@.to_set(), new_name@),
            decreases ids@.len() - i,
        {
            let id: u128 = ids[i];
            proof {
                lemma_kept_keys(ids@, i as int, keep);
                assert(ids@.to_set().contains(ids@[i as int]));
                lemma_filtered_keys(ids@.take(i as int), keep);
                assert(!renamed@.contains(id)) by {
                    if renamed@.contains(id) {
                        assert(ids@.take(i as int).contains(id));
                        let j = choose|j: int| 0 <= j < i && ids@.take(i as int)[j] == id;
                        assert(ids@[j] == ids@[i as int]);
                    }
                }
            }
            let belongs = match self.session_info.get(&id) {
                Some(session) => session.connection_id == connection_id,
                None => false,
            };
            proof {
                assert(!renamed@.to_set().contains(id));
                assert(self@.info.contains_key(id));
                assert(self@.info[id] == before.info[id]);
                assert(self@.info[id] == self.session_info@[id]@);
                assert(belongs == keep(id));
            }
            if belongs {
                let ghost so_far = self@;
                self.rename_session(id, new_name);
                renamed.push(id);
                proof {
                    let was = ids@.take(i as int).filter(keep);
                    assert(renamed@ =~= was.push(id));
                    ids::lemma_push_set(was, id);
                    assert(self@ =~= before.renamed(renamed@.to_set(), new_name@));
                }
            }
            i += 1;
        }
        proof {
            assert(ids@.take(i as int) =~= ids@);
            lemma_filtered_keys(ids@, keep);
            assert(renamed@.to_set() =~= before.sessions_of(connection_id));
        }
        renamed
    }

    /// Whether a session lives in a window of its own.
    pub fn is_detached(&self, session_id: u128) -> (r: bool)
        ensures
            r == self@.detached.contains(session_id),
    {
        self.detached.contains(&session_id)
    }

    /// The sessions that live in a window of their own, by their ids.
    pub fn detached_session_ids(&self) -> (r: Vec<u128>)
        ensures
            r@.to_set() == self@.detached,
            ids::ascending(r@),
    {
        ids::sorted(&ids::members_of(&self.detached))
    }

    /// How many sessions live in a window of their own.
    pub fn detached_count(&self) -> (r: usize)
        ensures
            r == self@.detached.len(),
    {
        self.detached.len()
    }

    /// How many sessions have a tab.
    pub fn session_count(&self) -> (r: usize)
        ensures
            r == self@.tabs.len(),
    {
        assert(self.tabs@.dom() =~= self@.tabs.dom());
        self.tabs.len()
    }

    /// The sessions that have a tab, in no particular order.
    pub fn session_ids(&self) -> (r: Vec<u128>)
        ensures
            r@.no_duplicates(),
            r@.to_set() == self@.tabs.dom(),
    {
        assert(self.tabs@.dom() =~= self@.tabs.dom());
        ids::keys_of(&self.tabs)
    }

    /// The session of the page that is selected.
    pub fn get_active_session_id(&self, selected: Option<Page>) -> (r: Option<u128>)
        ensures
            r == match selected {
                Some(page) => self@.session_of(page),
                None => None,
            },
    {
        match selected {
            Some(Page::Session(id)) => {
                if self.tabs.contains_key(&id) {
                    Some(id)
                } else {
                    None
                }
            },
            _ => None,
        }
    }

    /// The session of a page, by the page's place in the tab bar.
    pub fn get_session_id_for_page(&self, pages: &Vec<Page>, page_num: usize) -> (r: Option<u128>)
        ensures
            r == (if page_num < pages@.len() {
                self@.session_of(pages@[page_num as int])
            } else {
                None
            }),
    {
        if page_num >= pages.len() {
            return None;
        }
        self.get_active_session_id(Some(pages[page_num]))
    }

    /// The sessions that have a tab, in the order of the tab bar.
    pub fn ordered_session_ids(&self, pages: &Vec<Page>) -> (r: Vec<u128>)
        ensures
            r@ == self@.in_order(pages@, pages@.len() as int),
    {
        let mut ordered: Vec<u128> = Vec::new();
        let mut i: usize = 0;
        while i < pages.len()
            invariant
                i <= pages@.len(),
                ordered@ == self@.in_order(pages@, i as int),
            decreases pages@.len() - i,
        {
            if let Some(id) = self.get_active_session_id(Some(pages[i])) {
                ordered.push(id);
            }
            i += 1;
        }
        ordered
    }

    /// Where the focus goes when a session is asked for.
    pub fn switch_to_tab(&self, session_id: u128) -> (r: FocusTarget)
        ensures
            r == (if self@.detached.contains(session_id) {
                FocusTarget::Window
            } else if self@.tabs.contains_key(session_id) {
                FocusTarget::Tab
            } else {
                FocusTarget::Nowhere
            }),
    {
        if self.detached.contains(&session_id) {
            FocusTarget::Window
        } else if self.tabs.contains_key(&session_id) {
            FocusTarget::Tab
        } else {
            FocusTarget::Nowhere
        }
    }

    /// Whether there is anything for an overview of the tabs.
    pub fn open_tab_overview(&self) -> (r: bool)
        ensures
            r == (self@.tabs.len() > 0),
    {
        self.session_count() > 0
    }

    /// Whether a session can be shown in a split.
    pub fn split_eligibility(&self, session_id: u128) -> (r: SplitEligibility)
        ensures
            r == eligibility(self@.terminals.contains(session_id), self@.storage(session_id)),
    {
        let storage = match self.session_widgets.get(&session_id) {
            Some(kind) => Some(*kind),
            None => None,
        };
        eligibility_from(self.terminals.contains(&session_id), storage)
    }

    /// What shows a session.
    pub fn get_session_display_widget(&self, session_id: u128) -> (r: Option<DisplayWidget>)
        ensures
            r == self@.display(session_id),
    {
        match self.session_widgets.get(&session_id) {
            Some(kind) => {
                if *kind == SessionWidgetStorage::ExternalProcess {
                    None
                } else {
                    Some(DisplayWidget::Viewer(*kind))
                }
            },
            None => {
                if self.terminals.contains(&session_id) {
                    Some(DisplayWidget::Terminal)
                } else {
                    None
                }
            },
        }
    }

    /// The tab of a session, as it is shown.
    pub fn session_tab(&self, session_id: u128) -> (r: Option<&Tab>)
        ensures
            match r {
                Some(tab) => self@.tabs.contains_key(session_id) && tab@ == self@.tabs[session_id],
                None => !self@.tabs.contains_key(session_id),
            },
    {
        self.tabs.get(&session_id)
    }

    /// Whether a session has a box in its tab.
    pub fn get_session_container(&self, session_id: u128) -> (r: bool)
        ensures
            r == self@.tabs.contains_key(session_id),
    {
        self.tabs.contains_key(&session_id)
    }

    /// The box that shows a session, wherever the session is.
    pub fn session_content_box(&self, session_id: u128) -> (r: Option<ContentBox>)
        ensures
            r == self@.content_box(session_id),
    {
        if self.get_session_container(session_id) {
            return Some(ContentBox::Tab);
        }
        if !self.is_detached(session_id) {
            return None;
        }
        if self.attached.terminal_overlays.contains(&session_id) || self.get_session_display_widget(
            session_id,
        ).is_some() {
            Some(ContentBox::Window)
        } else {
            None
        }
    }

    /// The session of the page that is selected, where it has a terminal.
    pub fn get_active_terminal(&self, selected: Option<Page>) -> (r: Option<u128>)
        ensures
            r == match selected {
                Some(page) => match self@.session_of(page) {
                    Some(id) if self@.terminals.contains(id) => Some(id),
                    _ => None,
                },
                None => None,
            },
    {
        match self.get_active_session_id(selected) {
            Some(id) => {
                if self.terminals.contains(&id) {
                    Some(id)
                } else {
                    None
                }
            },
            None => None,
        }
    }

    /// The colors of the splits that sessions are in.
    pub fn split_colors(&self) -> (r: &HashMap<u128, usize>)
        ensures
            r@ == self@.split_colors,
    {
        &self.split_session_colors
    }

    /// Whether a session is shown by a VNC viewer.
    pub fn get_vnc_widget(&self, session_id: u128) -> (r: bool)
        ensures
            r == (self@.storage(session_id) == Some(SessionWidgetStorage::Vnc)),
    {
        match self.session_widgets.get(&session_id) {
            Some(kind) => *kind == SessionWidgetStorage::Vnc,
            None => false,
        }
    }

    /// Whether a session is shown by an RDP viewer in this process, which can be asked to redraw.
    pub fn get_rdp_widget(&self, session_id: u128) -> (r: bool)
        ensures
            r == (self@.storage(session_id) == Some(SessionWidgetStorage::EmbeddedRdp)),
    {
        match self.session_widgets.get(&session_id) {
            Some(kind) => *kind == SessionWidgetStorage::EmbeddedRdp,
            None => false,
        }
    }

    /// The widget of a session that can be handed out: a VNC viewer, or else its terminal.
    pub fn get_session_widget(&self, session_id: u128) -> (r: Option<SessionWidget>)
        ensures
            r == (if self@.storage(session_id) == Some(SessionWidgetStorage::Vnc) {
                Some(SessionWidget::Vnc)
            } else if self@.terminals.contains(session_id) {
                Some(SessionWidget::Ssh)
            } else {
                None
            }),
    {
        if self.get_vnc_widget(session_id) {
            Some(SessionWidget::Vnc)
        } else if self.terminals.contains(&session_id) {
            Some(SessionWidget::Ssh)
        } else {
            None
        }
    }

    /// How many tabs there are, the Welcome tab among them.
    pub fn tab_count(&self) -> (r: u128)
        ensures
            r == self@.tabs.len() + (if self@.welcome {
                1int
            } else {
                0
            }),
    {
        let tabs: usize = self.session_count();
        if self.welcome {
            tabs as u128 + 1
        } else {
            tabs as u128
        }
    }

    /// Adds a session to a cluster.
    pub fn register_cluster_terminal(&mut self, cluster_id: u128, session_id: u128)
        ensures
            final(self)@ == (NotebookView {
                clusters: old(self)@.clusters.registered(cluster_id, session_id),
                ..old(self)@
            }),
    {
        self.clusters.register_cluster_terminal(cluster_id, session_id);
    }

    /// Forgets a cluster.
    pub fn unregister_cluster(&mut self, cluster_id: u128)
        ensures
            final(self)@ == (NotebookView {
                clusters: old(self)@.clusters.unregistered(cluster_id),
                ..old(self)@
            }),
    {
        self.clusters.unregister_cluster(cluster_id);
    }

    /// Notes that a connection is being opened for a cluster.
    pub fn mark_cluster_pending(&mut self, cluster_id: u128, connection_id: u128)
        ensures
            final(self)@ == (NotebookView {
                clusters: ClustersView {
                    pending: old(self)@.clusters.pending.insert(connection_id, cluster_id),
                    ..old(self)@.clusters
                },
                ..old(self)@
            }),
    {
        self.clusters.mark_cluster_pending(cluster_id, connection_id);
    }

    /// The sessions of a cluster.
    pub fn get_cluster_sessions(&self, cluster_id: u128) -> (r: Vec<u128>)
        ensures
            r@ == self@.clusters.members(cluster_id),
    {
        self.clusters.get_cluster_sessions(cluster_id)
    }
}

proof fn lemma_filtered_keys(keys: Seq<u128>, keep: spec_fn(u128) -> bool)
    requires
        keys.no_duplicates(),
    ensures
        keys.filter(keep).no_duplicates(),
        forall|k: u128| #[trigger]
            keys.filter(keep).contains(k) <==> keys.contains(k) && keep(k),
    decreases keys.len(),
{
    if keys.len() == 0 {
        assert(keys.filter(keep) =~= Seq::empty());
    } else {
        let n = keys.len() - 1;
        let head = keys.take(n);
        assert(head.no_duplicates());
        lemma_filtered_keys(head, keep);
        lemma_kept_keys(keys, n, keep);
        assert(keys.take(n + 1) =~= keys);
        let f = head.filter(keep);
        let x = keys[n];
        assert(!head.contains(x)) by {
            if head.contains(x) {
                let j = choose|j: int| 0 <= j < head.len() && head[j] == x;
                assert(keys[j] == keys[n]);
            }
        }
        assert(f.push(x).no_duplicates()) by {
            assert(!f.contains(x));
            assert forall|i: int, j: int| 0 <= i < j < f.push(x).len() implies f.push(x)[i] != f.push(
                x,
            )[j] by {
                assert(f.contains(f[i]));
            }
        }
        assert forall|k: u128| #[trigger]
            keys.filter(keep).contains(k) <==> keys.contains(k) && keep(k) by {
            ids::lemma_push_set(f, x);
            ids::lemma_push_set(head, x);
            assert(keys =~= head.push(x));
        }
    }
}

/// A renamed session keeps its group and host on its tab, which goes by the title and the tooltip that
/// restoring would give it.
pub proof fn law_renamed_tab_keeps_group_and_host(
    v: NotebookView,
    connection_id: u128,
    id: u128,
    name: Seq<char>,
)
    requires
        v.sessions_of(connection_id).contains(id),
        v.tabs.contains_key(id),
    ensures
        ({
            let w = v.renamed(v.sessions_of(connection_id), name);
            &&& w.info[id].name == name
            &&& w.info[id].tab_group == v.info[id].tab_group
            &&& w.info[id].host == v.info[id].host
            &&& w.tabs[id].tooltip == w.fresh_tab(id).tooltip
            &&& w.tabs[id].title == w.fresh_tab(id).title
            &&& w.tabs[id].title == title_of(name, v.info[id].tab_group)
        }),
{
}

/// A tab shows the color of its group, unless the session is in a split, whose color stays.
pub proof fn law_group_color_gives_way_to_a_split(
    v: NotebookView,
    id: u128,
    group: Seq<char>,
    color: usize,
)
    requires
        v.tabs.contains_key(id),
        v.info.contains_key(id),
    ensures
        v.grouped(id, group, color).tabs[id].indicator == (if v.split_colors.contains_key(id) {
            v.tabs[id].indicator
        } else {
            Indicator::GroupColor(color)
        }),
{
}

/// Renaming and grouping move no session.
pub proof fn law_naming_moves_nothing(
    v: NotebookView,
    connection_id: u128,
    id: u128,
    name: Seq<char>,
    color: usize,
)
    requires
        v.placed(),
    ensures
        v.renamed(v.sessions_of(connection_id), name).placed(),
        v.grouped(id, name, color).placed(),
{
    let w = v.renamed(v.sessions_of(connection_id), name);
    assert(w.tabs.dom() =~= v.tabs.dom());
    assert(w.info.dom() =~= v.info.dom());
    let g = v.grouped(id, name, color);
    assert(g.tabs.dom() =~= v.tabs.dom());
    assert(g.info.dom() =~= v.info.dom());
}

/// A session can be shown in a split where this process shows it, by a viewer or by a terminal; a
/// viewer in a process of its own cannot, and one that nothing shows is not known.
pub proof fn law_only_what_is_shown_here_enters_a_split(
    has_terminal: bool,
    storage: Option<SessionWidgetStorage>,
    r: SplitEligibility,
)
    requires
        call_ensures(eligibility_from, (has_terminal, storage), r),
    ensures
        r == SplitEligibility::ExternalViewer <==> storage == Some(
            SessionWidgetStorage::ExternalProcess,
        ),
        r == SplitEligibility::Unknown <==> storage is None && !has_terminal,
        r == SplitEligibility::Embeddable <==> (storage is None && has_terminal) || storage == Some(
            SessionWidgetStorage::Vnc,
        ) || storage == Some(SessionWidgetStorage::EmbeddedRdp) || storage == Some(
            SessionWidgetStorage::EmbeddedWeb,
        ),
{
}

/// What shows a session is its viewer where it has one in this process, and its terminal where it has
/// no viewer; a session can be shown in a split exactly where something shows it.
pub proof fn law_viewer_comes_before_the_terminal(
    notebook: &TerminalNotebook,
    id: u128,
    shown: Option<DisplayWidget>,
    split: SplitEligibility,
    vnc: bool,
    rdp: bool,
    widget: Option<SessionWidget>,
)
    requires
        call_ensures(TerminalNotebook::get_session_display_widget, (notebook, id), shown),
        call_ensures(TerminalNotebook::split_eligibility, (notebook, id), split),
        call_ensures(TerminalNotebook::get_vnc_widget, (notebook, id), vnc),
        call_ensures(TerminalNotebook::get_rdp_widget, (notebook, id), rdp),
        call_ensures(TerminalNotebook::get_session_widget, (notebook, id), widget),
    ensures
        ({
            let v = notebook@;
            &&& v.widgets.contains_key(id) && v.widgets[id] != SessionWidgetStorage::ExternalProcess
                ==> shown == Some(DisplayWidget::Viewer(v.widgets[id]))
            &&& v.widgets.contains_key(id) && v.widgets[id] == SessionWidgetStorage::ExternalProcess
                ==> shown is None
            &&& !v.widgets.contains_key(id) && v.terminals.contains(id) ==> shown == Some(
                DisplayWidget::Terminal,
            )
            &&& !v.widgets.contains_key(id) && !v.terminals.contains(id) ==> shown is None
            &&& shown is Some <==> split == SplitEligibility::Embeddable
            &&& vnc <==> shown == Some(DisplayWidget::Viewer(SessionWidgetStorage::Vnc))
            &&& rdp <==> shown == Some(DisplayWidget::Viewer(SessionWidgetStorage::EmbeddedRdp))
            &&& widget == Some(SessionWidget::Vnc) <==> vnc
            &&& widget == Some(SessionWidget::Ssh) <==> !vnc && v.terminals.contains(id)
        }),
{
}

/// A session has a box of its own in its tab, or in its window where something shows it there; a
/// session in another's split has none.
pub proof fn law_box_is_where_the_session_is(
    notebook: &TerminalNotebook,
    id: u128,
    r: Option<ContentBox>,
)
    requires
        notebook@.placed(),
        call_ensures(TerminalNotebook::session_content_box, (notebook, id), r),
    ensures
        r == Some(ContentBox::Tab) <==> notebook@.tabs.contains_key(id),
        r == Some(ContentBox::Window) ==> notebook@.detached.contains(id),
        notebook@.detached.contains(id) && notebook@.terminals.contains(id)
            && !notebook@.widgets.contains_key(id) ==> r == Some(ContentBox::Window),
        notebook@.detached.contains(id) && notebook@.attached.terminal_overlays.contains(id) ==> r
            == Some(ContentBox::Window),
        notebook@.detached.contains(id) && notebook@.widgets.contains_key(id)
            && notebook@.widgets[id] != SessionWidgetStorage::ExternalProcess ==> r == Some(
            ContentBox::Window,
        ),
        notebook@.parked.contains(id) ==> r is None,
        notebook@.detached.contains(id) && !notebook@.terminals.contains(id)
            && !notebook@.widgets.contains_key(id) && !notebook@.attached.terminal_overlays.contains(
            id,
        ) ==> r is None,
{
}

/// The sessions that are live are those that are known and whose connection has not ended; each is
/// listed once, and no other is.
pub proof fn law_live_sessions_are_listed(
    notebook: &TerminalNotebook,
    r: Vec<TerminalSession>,
    id: u128,
)
    requires
        call_ensures(TerminalNotebook::live_sessions, (notebook,), r),
        forall|k: u128| #[trigger]
            notebook@.info.contains_key(k) ==> notebook@.info[k].id == k,
    ensures
        (exists|i: int| 0 <= i < r@.len() && (#[trigger] r@[i])@.id == id)
            <==> notebook@.info.contains_key(id) && !notebook@.disconnected.contains(id),
        forall|i: int, j: int|
            0 <= i < j < r@.len() ==> (#[trigger] r@[i])@.id != (#[trigger] r@[j])@.id,
        forall|i: int|
            0 <= i < r@.len() ==> notebook@.info.contains_key((#[trigger] r@[i])@.id) && r@[i]@
                == notebook@.info[r@[i]@.id],
{
    lemma_listed(r@, notebook@.info, notebook@.live(), id);
}

/// All sessions that are known are listed, each once.
pub proof fn law_all_sessions_are_listed(
    notebook: &TerminalNotebook,
    r: Vec<TerminalSession>,
    id: u128,
)
    requires
        call_ensures(TerminalNotebook::get_all_sessions, (notebook,), r),
        forall|k: u128| #[trigger]
            notebook@.info.contains_key(k) ==> notebook@.info[k].id == k,
    ensures
        (exists|i: int| 0 <= i < r@.len() && (#[trigger] r@[i])@.id == id)
            <==> notebook@.info.contains_key(id),
        forall|i: int, j: int|
            0 <= i < j < r@.len() ==> (#[trigger] r@[i])@.id != (#[trigger] r@[j])@.id,
        forall|i: int|
            0 <= i < r@.len() ==> notebook@.info.contains_key((#[trigger] r@[i])@.id) && r@[i]@
                == notebook@.info[r@[i]@.id],
{
    lemma_listed(r@, notebook@.info, notebook@.info.dom(), id);
}

proof fn lemma_listed(
    list: Seq<TerminalSession>,
    info: Map<u128, SessionView>,
    keys: Set<u128>,
    id: u128,
)
    requires
        lists(list, info, keys),
        keys.subset_of(info.dom()),
        forall|k: u128| #[trigger] info.contains_key(k) ==> info[k].id == k,
    ensures
        (exists|i: int| 0 <= i < list.len() && (#[trigger] list[i])@.id == id) <==> keys.contains(id),
        forall|i: int, j: int|
            0 <= i < j < list.len() ==> (#[trigger] list[i])@.id != (#[trigger] list[j])@.id,
        forall|i: int|
            0 <= i < list.len() ==> keys.contains((#[trigger] list[i])@.id) && list[i]@
                == info[list[i]@.id],
{
    let order = choose|order: Seq<u128>|
        #![trigger order.no_duplicates()]
        {
            &&& order.no_duplicates()
            &&& order.to_set() == keys
            &&& list.len() == order.len()
            &&& forall|i: int| 0 <= i < order.len() ==> (#[trigger] list[i])@ == info[order[i]]
        };
    assert forall|i: int| 0 <= i < list.len() implies keys.contains((#[trigger] list[i])@.id)
        && list[i]@ == info[list[i]@.id] && list[i]@.id == order[i] by {
        assert(order.contains(order[i]));
        assert(order.to_set().contains(order[i]));
        assert(info.contains_key(order[i]));
    }
    if keys.contains(id) {
        assert(order.to_set().contains(id));
        let i = choose|i: int| 0 <= i < order.len() && order[i] == id;
        assert(list[i]@.id == id);
    }
    assert forall|i: int, j: int| 0 <= i < j < list.len() implies (#[trigger] list[i])@.id != (
    #[trigger] list[j])@.id by {
        assert(list[i]@.id == order[i] && list[j]@.id == order[j]);
    }
}

/// A session in a group carries its name: the group and its color are known, the title has the group in
/// front, in place of any that was there, and the tooltip names it last. Nothing else is changed.
pub proof fn law_grouped_session_carries_its_group(
    v: NotebookView,
    id: u128,
    group: Seq<char>,
    color: usize,
    other: u128,
)
    requires
        v.info.contains_key(id),
    ensures
        ({
            let w = v.grouped(id, group, color);
            &&& w.info[id].tab_group == Some(group)
            &&& w.info[id].tab_color_index == Some(color)
            &&& w.info[id].name == v.info[id].name
            &&& w.info[id].host == v.info[id].host
            &&& w.info[id].connection_id == v.info[id].connection_id
            &&& w.info[id].protocol == v.info[id].protocol
            &&& v.tabs.contains_key(id) ==> {
                &&& w.tabs[id].title == title_of(without_group(v.tabs[id].title), Some(group))
                &&& exists|rest: Seq<char>|
                    w.tabs[id].tooltip == #[trigger] (rest + "\n["@ + group + "]"@)
                &&& w.tabs[id].content == v.tabs[id].content
                &&& w.tabs[id].icon == v.tabs[id].icon
            }
            &&& w.tabs.dom() == v.tabs.dom()
            &&& w.info.dom() == v.info.dom()
            &&& other != id && v.info.contains_key(other) ==> w.info[other] == v.info[other]
            &&& other != id && v.tabs.contains_key(other) ==> w.tabs[other] == v.tabs[other]
            &&& w.parked == v.parked
            &&& w.detached == v.detached
            &&& w.terminals == v.terminals
            &&& w.widgets == v.widgets
            &&& w.split_colors == v.split_colors
            &&& w.attached == v.attached
        }),
{
    let w = v.grouped(id, group, color);
    assert(w.tabs.dom() =~= v.tabs.dom());
    assert(w.info.dom() =~= v.info.dom());
    if v.tabs.contains_key(id) {
        let rest = without_group_line(v.tabs[id].tooltip);
        assert(w.tabs[id].tooltip =~= rest + "\n["@ + group + "]"@);
    }
}

/// Renaming a connection renames its sessions and no others: their tabs go by the new name, and all
/// else that is known of them stays.
pub proof fn law_renaming_renames_the_sessions_of_a_connection(
    v: NotebookView,
    connection_id: u128,
    name: Seq<char>,
    id: u128,
)
    ensures
        ({
            let w = v.renamed(v.sessions_of(connection_id), name);
            let its = v.info.contains_key(id) && v.info[id].connection_id == connection_id;
            &&& v.sessions_of(connection_id).contains(id) <==> its
            &&& w.info.contains_key(id) == v.info.contains_key(id)
            &&& w.tabs.contains_key(id) == v.tabs.contains_key(id)
            &&& its ==> w.info[id] == (SessionView { name, ..v.info[id] })
            &&& its && v.tabs.contains_key(id) ==> {
                &&& w.tabs[id].title == title_of(name, v.info[id].tab_group)
                &&& w.tabs[id].tooltip == tooltip_of(name, v.info[id].host, v.info[id].tab_group)
                &&& w.tabs[id].indicator == v.tabs[id].indicator
                &&& w.tabs[id].content == v.tabs[id].content
                &&& w.tabs[id].icon == v.tabs[id].icon
                &&& w.tabs[id].split_class == v.tabs[id].split_class
            }
            &&& !its && v.info.contains_key(id) ==> w.info[id] == v.info[id]
            &&& !its && v.tabs.contains_key(id) ==> w.tabs[id] == v.tabs[id]
            &&& w.parked == v.parked
            &&& w.detached == v.detached
            &&& w.attached == v.attached
        }),
{
}

/// What is noted of a session is known of it afterwards, and nothing else changes; of a session that
/// is not known nothing is noted.
pub proof fn law_notes_are_kept(v: NotebookView, id: u128, info: SessionView, other: u128)
    ensures
        v.info.contains_key(id) ==> v.with_info(id, info).info[id] == info,
        !v.info.contains_key(id) ==> v.with_info(id, info) == v,
        v.with_info(id, info).info.dom() == v.info.dom(),
        other != id && v.info.contains_key(other) ==> v.with_info(id, info).info[other]
            == v.info[other],
        v.with_info(id, info).tabs == v.tabs,
        v.with_info(id, info).parked == v.parked,
        v.with_info(id, info).detached == v.detached,
{
    assert(v.with_info(id, info).info.dom() =~= v.info.dom());
}

/// The group of a session is the one it was put into, and none for a session that is not known.
pub proof fn law_group_is_read_back(notebook: &TerminalNotebook, id: u128, r: Option<String>)
    requires
        call_ensures(TerminalNotebook::get_tab_group, (notebook, id), r),
    ensures
        notebook@.info.contains_key(id) ==> opt_view(r) == notebook@.info[id].tab_group,
        !notebook@.info.contains_key(id) ==> r is None,
{
}

/// The session of a page is the one whose tab it is; the Welcome page, and a page whose tab is gone,
/// have none. A place behind the last page has none either.
pub proof fn law_page_has_the_session_of_its_tab(
    notebook: &TerminalNotebook,
    id: u128,
    selected: Option<u128>,
    welcome: Option<u128>,
    none: Option<u128>,
    pages: &Vec<Page>,
    place: usize,
    at_place: Option<u128>,
)
    requires
        call_ensures(
            TerminalNotebook::get_active_session_id,
            (notebook, Some(Page::Session(id))),
            selected,
        ),
        call_ensures(
            TerminalNotebook::get_active_session_id,
            (notebook, Some(Page::Welcome)),
            welcome,
        ),
        call_ensures(TerminalNotebook::get_active_session_id, (notebook, None), none),
        call_ensures(
            TerminalNotebook::get_session_id_for_page,
            (notebook, pages, place),
            at_place,
        ),
    ensures
        notebook@.tabs.contains_key(id) ==> selected == Some(id),
        !notebook@.tabs.contains_key(id) ==> selected is None,
        welcome is None,
        none is None,
        place >= pages@.len() ==> at_place is None,
        place < pages@.len() && pages@[place as int] == Page::Session(id) ==> at_place == selected,
        place < pages@.len() && pages@[place as int] == Page::Welcome ==> at_place is None,
{
}

/// Sessions are ordered page by page: a page of a session that has a tab adds that session behind the
/// others, and any other page adds nothing.
pub proof fn law_sessions_are_ordered_like_their_pages(v: NotebookView, pages: Seq<Page>, page: Page)
    ensures
        ({
            let n = pages.len() as int;
            let before = v.in_order(pages, n);
            let after = v.in_order(pages.push(page), n + 1);
            match page {
                Page::Session(id) => if v.tabs.contains_key(id) {
                    after == before.push(id)
                } else {
                    after == before
                },
                Page::Welcome => after == before,
            }
        }),
        v.in_order(pages, 0).len() == 0,
{
    lemma_in_order(v, pages, pages.push(page), pages.len() as int);
}

proof fn lemma_in_order(v: NotebookView, a: Seq<Page>, b: Seq<Page>, n: int)
    requires
        0 <= n <= a.len(),
        n <= b.len(),
        forall|i: int| 0 <= i < n ==> a[i] == b[i],
    ensures
        v.in_order(a, n) == v.in_order(b, n),
    decreases n,
{
    if n > 0 {
        lemma_in_order(v, a, b, n - 1);
    }
}

/// The session whose terminal is active is the selected one, if it has a terminal.
pub proof fn law_active_terminal_is_the_selected_one(
    notebook: &TerminalNotebook,
    page: Option<Page>,
    session: Option<u128>,
    terminal: Option<u128>,
)
    requires
        call_ensures(TerminalNotebook::get_active_session_id, (notebook, page), session),
        call_ensures(TerminalNotebook::get_active_terminal, (notebook, page), terminal),
    ensures
        terminal matches Some(id) ==> session == Some(id) && notebook@.terminals.contains(id),
        session matches Some(id) ==> notebook@.terminals.contains(id) ==> terminal == Some(id),
{
}

} // verus!
