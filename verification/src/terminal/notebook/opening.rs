//! Opening sessions.

use crate::automation::{are_resolved, created_of, has_rule, is_prepared, lemma_places, prepare_rules_from_config, AutomationSession, ExpectRule, RuleCheck};
use crate::clock::{self, Timestamp};
use crate::terminal::notebook::{AttachedView, NotebookView, TerminalNotebook};
use crate::terminal::tabs::{tab_tooltip, tooltip_of, Indicator, Tab, TabContent, TabIcon, TabView};
use crate::terminal::types::{SessionView, SessionWidgetStorage, TerminalSession};
use vstd::prelude::*;

verus! {

broadcast use vstd::std_specs::hash::group_hash_axioms;

/// What shows a session that is opened.
#[derive(Clone, Copy, Debug, PartialEq, Eq, Structural)]
pub enum OpenKind {
    Terminal,
    Vnc,
    EmbeddedRdp,
    EmbeddedWeb,
    /// A viewer in a process of its own, which may already run.
    External { running: bool },
}

impl OpenKind {
    /// What is remembered of the viewer.
    pub open spec fn storage(self) -> Option<SessionWidgetStorage> {
        match self {
            OpenKind::Terminal => None,
            OpenKind::Vnc => Some(SessionWidgetStorage::Vnc),
            OpenKind::EmbeddedRdp => Some(SessionWidgetStorage::EmbeddedRdp),
            OpenKind::EmbeddedWeb => Some(SessionWidgetStorage::EmbeddedWeb),
            OpenKind::External { running } => if running {
                Some(SessionWidgetStorage::ExternalProcess)
            } else {
                None
            },
        }
    }

    /// The icon of the tab.
    pub open spec fn icon(self) -> TabIcon {
        match self {
            OpenKind::Vnc => TabIcon::Displays,
            OpenKind::EmbeddedRdp => TabIcon::Computer,
            OpenKind::EmbeddedWeb => TabIcon::Browser,
            _ => TabIcon::OfProtocol,
        }
    }
}

/// A session that is opened.
pub struct Opening<'a> {
    pub session_id: u128,
    pub connection_id: u128,
    pub title: &'a str,
    pub protocol: &'a str,
    /// The host, where the tab names it; an empty one is not named.
    pub host: &'a str,
    pub kind: OpenKind,
}

/// A session that is opened.
pub struct OpeningView {
    pub session_id: u128,
    pub connection_id: u128,
    pub title: Seq<char>,
    pub protocol: Seq<char>,
    pub host: Option<Seq<char>>,
    pub kind: OpenKind,
}

impl<'a> Opening<'a> {
    pub open spec fn view(&self) -> OpeningView {
        OpeningView {
            session_id: self.session_id,
            connection_id: self.connection_id,
            title: self.title@,
            protocol: self.protocol@,
            host: if self.host@.len() > 0 {
                Some(self.host@)
            } else {
                None
            },
            kind: self.kind,
        }
    }
}

impl OpeningView {
    /// The tab of the session.
    pub open spec fn tab(self) -> TabView {
        TabView {
            title: self.title,
            tooltip: tooltip_of(self.title, self.host, None),
            icon: self.kind.icon(),
            indicator: Indicator::Blank,
            split_class: None,
            content: if self.kind is External {
                TabContent::Fixed
            } else {
                TabContent::Single
            },
        }
    }

    /// What is known of the session.
    pub open spec fn info(self, at: Timestamp) -> SessionView {
        SessionView {
            id: self.session_id,
            connection_id: self.connection_id,
            name: self.title,
            protocol: self.protocol,
            is_embedded: !(self.kind is External),
            host: self.host,
            log_file: None,
            history_entry_id: None,
            tab_group: None,
            tab_color_index: None,
            connected_at: at,
        }
    }
}

impl NotebookView {
    /// Whether an id is taken, by a tab or by anything that is known of a session.
    pub open spec fn knows(self, id: u128) -> bool {
        self.info.contains_key(id) || self.tabs.contains_key(id)
    }

    /// The notebook with a session that was opened at `at`: the Welcome tab makes room, and a
    /// terminal joins the cluster that it was opened for.
    pub open spec fn opened(self, o: OpeningView, at: Timestamp) -> NotebookView {
        let id = o.session_id;
        let v = self.without_welcome();
        let terminal = o.kind is Terminal;
        let added = NotebookView {
            tabs: v.tabs.insert(id, o.tab()),
            info: v.info.insert(id, o.info(at)),
            terminals: if terminal {
                v.terminals.insert(id)
            } else {
                v.terminals
            },
            widgets: match o.kind.storage() {
                Some(kind) => v.widgets.insert(id, kind),
                None => v.widgets,
            },
            attached: if terminal {
                AttachedView {
                    terminal_overlays: v.attached.terminal_overlays.insert(id),
                    ..v.attached
                }
            } else {
                v.attached
            },
            clusters: if terminal {
                v.clusters.resolved(o.connection_id, id)
            } else {
                v.clusters
            },
            ..v
        };
        added.recolored(id)
    }

    /// The notebook with expect rules for a session.
    pub open spec fn automated(self, id: u128, automation: Option<AutomationSession>) -> NotebookView {
        match automation {
            Some(a) => NotebookView {
                attached: AttachedView {
                    automation: self.attached.automation.insert(id, a),
                    ..self.attached
                },
                ..self
            },
            None => self,
        }
    }
}

/// Whether `automation` is what the configured rules start with: nothing where no rule is left.
pub open spec fn is_started(
    automation: Option<AutomationSession>,
    rules: Seq<ExpectRule>,
    checks: Seq<RuleCheck>,
    compiled: bool,
    now_ms: u64,
) -> bool {
    exists|prepared: Seq<ExpectRule>| #[trigger]
        are_resolved(prepared, rules, checks, rules.len() as int) && match automation {
            Some(a) => {
                &&& prepared.len() > 0
                &&& a.rules@ == (if compiled {
                    prepared
                } else {
                    Seq::empty()
                })
                &&& a.created_at@ == created_of(prepared, now_ms)
                &&& a.last_content@.len() == 0
                &&& a.poll_count == 0
            },
            None => prepared.len() == 0,
        }
}

/// Starts the automation of a session, if any of its rules can be used.
pub fn start_automation(
    rules: &Vec<ExpectRule>,
    checks: Vec<RuleCheck>,
    compiled: bool,
    now_ms: u64,
) -> (r: Option<AutomationSession>)
    requires
        rules@.len() == checks@.len(),
    ensures
        is_started(r, rules@, checks@, compiled, now_ms),
{
    let ghost given = checks@;
    let prepared = prepare_rules_from_config(rules, checks);
    assert(are_resolved(prepared@, rules@, given, rules@.len() as int));
    if prepared.len() == 0 {
        None
    } else {
        Some(AutomationSession::new(prepared, compiled, now_ms))
    }
}

/// Whether a number is a random UUID: the four bits of the version and the two of the variant say
/// so.
pub open spec fn is_random_uuid(id: u128) -> bool {
    id & 0xF000_C000_0000_0000_0000u128 == 0x4000_8000_0000_0000_0000u128
}

/// An id that no session had before, as far as chance can tell.
///
/// Trusted: `uuid::Uuid::new_v4`, as the number that `Uuid::as_u128` gives. All that is claimed is
/// that the bits that tell a random UUID are set.
#[verifier::external_body]
fn random_id() -> (r: u128)
    ensures
        is_random_uuid(r),
{
    uuid::Uuid::new_v4().as_u128()
}

/// An id for a session: a random UUID, and so never the nil one.
fn new_session_id() -> (r: u128)
    ensures
        is_random_uuid(r),
        r != 0,
{
    let id: u128 = random_id();
    assert(id & 0xF000_C000_0000_0000_0000u128 == 0x4000_8000_0000_0000_0000u128 ==> id != 0)
        by (bit_vector);
    id
}

impl TerminalNotebook {
    /// Opens a session. What is there under its id already makes room for it.
    pub fn open_session(&mut self, opening: &Opening, at: Timestamp)
        ensures
            final(self)@ == old(self)@.opened(opening.view(), at),
    {
        let id: u128 = opening.session_id;
        self.remove_welcome_page();
        let ghost v = self@;
        let host = if opening.host.unicode_len() > 0 {
            Some(opening.host.to_owned())
        } else {
            None
        };
        let named = match &host {
            Some(h) => Some(h.as_str()),
            None => None,
        };
        let (icon, storage, is_embedded) = match opening.kind {
            OpenKind::Terminal => (TabIcon::OfProtocol, None, true),
            OpenKind::Vnc => (TabIcon::Displays, Some(SessionWidgetStorage::Vnc), true),
            OpenKind::EmbeddedRdp => (
                TabIcon::Computer,
                Some(SessionWidgetStorage::EmbeddedRdp),
                true,
            ),
            OpenKind::EmbeddedWeb => (
                TabIcon::Browser,
                Some(SessionWidgetStorage::EmbeddedWeb),
                true,
            ),
            OpenKind::External { running } => (
                TabIcon::OfProtocol,
                if running {
                    Some(SessionWidgetStorage::ExternalProcess)
                } else {
                    None
                },
                false,
            ),
        };
        let tab = Tab {
            title: opening.title.to_owned(),
            tooltip: tab_tooltip(opening.title, named, None),
            icon,
            indicator: Indicator::Blank,
            split_class: None,
            content: if is_embedded {
                TabContent::Single
            } else {
                TabContent::Fixed
            },
        };
        let session = TerminalSession {
            id,
            connection_id: opening.connection_id,
            name: opening.title.to_owned(),
            protocol: opening.protocol.to_owned(),
            is_embedded,
            host,
            log_file: None,
            history_entry_id: None,
            tab_group: None,
            tab_color_index: None,
            connected_at: at,
        };
        assert(tab@ =~= opening.view().tab());
        assert(session@ == opening.view().info(at));
        self.tabs.insert(id, tab);
        self.session_info.insert(id, session);
        if let Some(kind) = storage {
            self.session_widgets.insert(id, kind);
        }
        if let OpenKind::Terminal = opening.kind {
            self.terminals.insert(id);
            self.attached.terminal_overlays.insert(id);
            self.clusters.resolve_cluster_pending(opening.connection_id, id);
        }
        let ghost added = self@;
        if self.color_tabs_by_protocol {
            self.apply_protocol_color(id);
        }
        assert(added =~= (NotebookView {
            tabs: v.tabs.insert(id, opening.view().tab()),
            info: v.info.insert(id, opening.view().info(at)),
            terminals: added.terminals,
            widgets: added.widgets,
            attached: added.attached,
            clusters: added.clusters,
            ..v
        }));
        assert(self@ =~= old(self)@.opened(opening.view(), at));
    }

    fn open_now(&mut self, opening: &Opening)
        ensures
            exists|at: Timestamp| #[trigger]
                at.wf() && at.secs >= 0 && final(self)@ == old(self)@.opened(opening.view(), at),
    {
        let at = clock::now();
        self.open_session(opening, at);
    }

    /// Opens a terminal with expect rules under an id of its own, which is returned.
    pub fn create_terminal_tab_with_settings(
        &mut self,
        connection_id: u128,
        title: &str,
        protocol: &str,
        rules: &Vec<ExpectRule>,
        checks: Vec<RuleCheck>,
        compiled: bool,
        now_ms: u64,
    ) -> (r: u128)
        requires
            rules@.len() == checks@.len(),
        ensures
            is_random_uuid(r),
            r != 0,
            exists|at: Timestamp, a: Option<AutomationSession>|
                at.wf() && at.secs >= 0 && is_started(a, rules@, checks@, compiled, now_ms) && final(self)@
                    == #[trigger] old(self)@.opened(
                    OpeningView {
                        session_id: r,
                        connection_id,
                        title: title@,
                        protocol: protocol@,
                        host: None,
                        kind: OpenKind::Terminal,
                    },
                    at,
                ).automated(r, a),
    {
        let id: u128 = new_session_id();
        let opening = Opening {
            session_id: id,
            connection_id,
            title,
            protocol,
            host: "",
            kind: OpenKind::Terminal,
        };
        proof {
            reveal_strlit("");
        }
        self.open_now(&opening);
        let ghost opened = self@;
        let automation = start_automation(rules, checks, compiled, now_ms);
        let ghost a = automation;
        if let Some(session) = automation {
            self.drop_automation(id);
            self.attached.automation_sessions.insert(id, session);
        }
        proof {
            let at = choose|at: Timestamp| #[trigger]
                at.wf() && at.secs >= 0 && opened == old(self)@.opened(opening.view(), at);
            assert(self@ =~= old(self)@.opened(opening.view(), at).automated(id, a));
        }
        id
    }

    /// Opens a terminal without expect rules.
    pub fn create_terminal_tab(&mut self, connection_id: u128, title: &str, protocol: &str) -> (r: u128)
        ensures
            is_random_uuid(r),
            r != 0,
            exists|at: Timestamp| #[trigger]
                at.wf() && at.secs >= 0 && final(self)@ == old(self)@.opened(
                    OpeningView {
                        session_id: r,
                        connection_id,
                        title: title@,
                        protocol: protocol@,
                        host: None,
                        kind: OpenKind::Terminal,
                    },
                    at,
                ),
    {
        proof {
            reveal_strlit("");
        }
        self.create_tab(connection_id, title, protocol, "", OpenKind::Terminal)
    }

    fn create_tab(
        &mut self,
        connection_id: u128,
        title: &str,
        protocol: &str,
        host: &str,
        kind: OpenKind,
    ) -> (r: u128)
        ensures
            is_random_uuid(r),
            r != 0,
            exists|at: Timestamp| #[trigger]
                at.wf() && at.secs >= 0 && final(self)@ == old(self)@.opened(
                    OpeningView {
                        session_id: r,
                        connection_id,
                        title: title@,
                        protocol: protocol@,
                        host: if host@.len() > 0 {
                            Some(host@)
                        } else {
                            None
                        },
                        kind,
                    },
                    at,
                ),
    {
        let id: u128 = new_session_id();
        let opening = Opening { session_id: id, connection_id, title, protocol, host, kind };
        self.open_now(&opening);
        id
    }

    /// Opens a VNC session.
    pub fn create_vnc_session_tab(&mut self, connection_id: u128, title: &str) -> (r: u128)
        ensures
            is_random_uuid(r),
            r != 0,
            exists|at: Timestamp| #[trigger]
                at.wf() && at.secs >= 0 && final(self)@ == old(self)@.opened(
                    OpeningView {
                        session_id: r,
                        connection_id,
                        title: title@,
                        protocol: "vnc"@,
                        host: None,
                        kind: OpenKind::Vnc,
                    },
                    at,
                ),
    {
        proof {
            reveal_strlit("");
        }
        self.create_vnc_session_tab_with_host(connection_id, title, "")
    }

    /// Opens a VNC session whose tab names the host.
    pub fn create_vnc_session_tab_with_host(
        &mut self,
        connection_id: u128,
        title: &str,
        host: &str,
    ) -> (r: u128)
        ensures
            is_random_uuid(r),
            r != 0,
            exists|at: Timestamp| #[trigger]
                at.wf() && at.secs >= 0 && final(self)@ == old(self)@.opened(
                    OpeningView {
                        session_id: r,
                        connection_id,
                        title: title@,
                        protocol: "vnc"@,
                        host: if host@.len() > 0 {
                            Some(host@)
                        } else {
                            None
                        },
                        kind: OpenKind::Vnc,
                    },
                    at,
                ),
    {
        self.create_tab(connection_id, title, "vnc", host, OpenKind::Vnc)
    }

    /// Opens an RDP session that this process shows.
    pub fn add_embedded_rdp_tab(&mut self, session_id: u128, connection_id: u128, title: &str)
        ensures
            exists|at: Timestamp| #[trigger]
                at.wf() && at.secs >= 0 && final(self)@ == old(self)@.opened(
                    OpeningView {
                        session_id,
                        connection_id,
                        title: title@,
                        protocol: "rdp"@,
                        host: None,
                        kind: OpenKind::EmbeddedRdp,
                    },
                    at,
                ),
    {
        proof {
            reveal_strlit("");
        }
        let opening = Opening {
            session_id,
            connection_id,
            title,
            protocol: "rdp",
            host: "",
            kind: OpenKind::EmbeddedRdp,
        };
        self.open_now(&opening);
    }

    /// Opens a web session that this process shows.
    pub fn add_embedded_web_tab(&mut self, session_id: u128, connection_id: u128, title: &str)
        ensures
            exists|at: Timestamp| #[trigger]
                at.wf() && at.secs >= 0 && final(self)@ == old(self)@.opened(
                    OpeningView {
                        session_id,
                        connection_id,
                        title: title@,
                        protocol: "web"@,
                        host: None,
                        kind: OpenKind::EmbeddedWeb,
                    },
                    at,
                ),
    {
        proof {
            reveal_strlit("");
        }
        let opening = Opening {
            session_id,
            connection_id,
            title,
            protocol: "web",
            host: "",
            kind: OpenKind::EmbeddedWeb,
        };
        self.open_now(&opening);
    }

    /// Opens a session whose viewer is a process of its own. `running` says whether the process is
    /// there to be ended with the tab.
    pub fn add_embedded_session_tab(
        &mut self,
        session_id: u128,
        connection_id: u128,
        title: &str,
        protocol: &str,
        running: bool,
    )
        ensures
            exists|at: Timestamp| #[trigger]
                at.wf() && at.secs >= 0 && final(self)@ == old(self)@.opened(
                    OpeningView {
                        session_id,
                        connection_id,
                        title: title@,
                        protocol: protocol@,
                        host: None,
                        kind: OpenKind::External { running },
                    },
                    at,
                ),
    {
        proof {
            reveal_strlit("");
        }
        let opening = Opening {
            session_id,
            connection_id,
            title,
            protocol,
            host: "",
            kind: OpenKind::External { running },
        };
        self.open_now(&opening);
    }
}

/// A session is automated exactly where one of its rules is enabled, has a pattern that compiles and
/// a response that could be filled in. It starts unread and unpolled, with a rule for every rule of
/// that kind, each created now.
pub proof fn law_usable_rule_starts_the_automation(
    rules: &Vec<ExpectRule>,
    checks: Vec<RuleCheck>,
    compiled: bool,
    now_ms: u64,
    r: Option<AutomationSession>,
)
    requires
        rules@.len() == checks@.len(),
        call_ensures(start_automation, (rules, checks, compiled, now_ms), r),
    ensures
        r is Some <==> exists|i: int|
            0 <= i < rules@.len() && (#[trigger] rules@[i]).enabled && checks@[i].pattern_valid
                && checks@[i].substituted is Some,
        r matches Some(a) ==> a.poll_count == 0 && a.last_content@.len() == 0,
        r matches Some(a) ==> (!compiled ==> a.rules@.len() == 0),
        r matches Some(a) ==> (forall|i: int|
            0 <= i < rules@.len() && (#[trigger] rules@[i]).enabled && checks@[i].pattern_valid
                && checks@[i].substituted is Some ==> a.created_at@.contains_key(rules@[i].id)
                && a.created_at@[rules@[i].id] == now_ms && (compiled ==> answers_with(
                a.rules@,
                rules@[i].id,
                checks@[i].substituted->0@,
            ))),
{
    assert(is_started(r, rules@, checks@, compiled, now_ms));
    let n = rules@.len() as int;
    let prepared = choose|prepared: Seq<ExpectRule>| #[trigger]
        are_resolved(prepared, rules@, checks@, n) && match r {
            Some(a) => {
                &&& prepared.len() > 0
                &&& a.rules@ == (if compiled {
                    prepared
                } else {
                    Seq::empty()
                })
                &&& a.created_at@ == created_of(prepared, now_ms)
                &&& a.last_content@.len() == 0
                &&& a.poll_count == 0
            },
            None => prepared.len() == 0,
        };
    let places = lemma_places(prepared, rules@, checks@, n);
    if prepared.len() > 0 {
        assert(rules@[places[0]].enabled);
    }
    assert forall|i: int|
        0 <= i < n && (#[trigger] rules@[i]).enabled && checks@[i].pattern_valid
            && checks@[i].substituted is Some implies r is Some && r->0.created_at@.contains_key(
        rules@[i].id,
    ) && r->0.created_at@[rules@[i].id] == now_ms && (compiled ==> answers_with(
        r->0.rules@,
        rules@[i].id,
        checks@[i].substituted->0@,
    )) by {
        assert(is_prepared(rules@[i], checks@[i]));
        let k = choose|k: int| 0 <= k < places.len() && places[k] == i;
        assert(prepared[k].id == rules@[i].id);
        assert(has_rule(prepared, rules@[i].id));
    }
}

/// Whether a rule with this id is there and answers with this text.
pub open spec fn answers_with(rules: Seq<ExpectRule>, id: u128, response: Seq<char>) -> bool {
    exists|k: int| 0 <= k < rules.len() && (#[trigger] rules[k]).id == id && rules[k].response@ == response
}

/// The rules of a session are noted under its id, and nothing else changes.
pub proof fn law_rules_are_noted_under_the_session(
    v: NotebookView,
    id: u128,
    automation: Option<AutomationSession>,
)
    ensures
        automation is None ==> v.automated(id, automation) == v,
        automation matches Some(a) ==> {
            let w = v.automated(id, automation);
            &&& w.attached.automation == v.attached.automation.insert(id, a)
            &&& w == (NotebookView { attached: w.attached, ..v })
            &&& w.attached == (AttachedView {
                automation: w.attached.automation,
                ..v.attached
            })
        },
{
}

/// A host is named where there is one, and everything else of an opening is taken as it is.
pub proof fn law_empty_host_is_not_named(o: &Opening)
    ensures
        o.host@.len() > 0 ==> o.view().host == Some(o.host@),
        o.host@.len() == 0 ==> o.view().host is None,
        o.view().session_id == o.session_id,
        o.view().connection_id == o.connection_id,
        o.view().title == o.title@,
        o.view().protocol == o.protocol@,
        o.view().kind == o.kind,
{
}

} // verus!
