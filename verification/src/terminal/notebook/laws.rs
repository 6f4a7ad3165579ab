//! What holds of the notebook whatever is done with its sessions.

use crate::clock::Timestamp;
use crate::terminal::detach::DetachContext;
use crate::terminal::notebook::opening::{OpenKind, OpeningView};
use crate::terminal::notebook::sessions::FocusTarget;
use crate::terminal::notebook::{NotebookView, TerminalNotebook};
use crate::terminal::tabs::{tooltip_of, Indicator, TabContent, TabIcon};
use crate::terminal::types::{title_of, SessionWidgetStorage};
use vstd::prelude::*;

verus! {

/// Something that is done with a session.
pub enum Move {
    /// It is opened.
    Open(OpeningView, Timestamp),
    /// It is to be handed over to a window, if that is allowed.
    Detach(u128, bool),
    /// It is to come back from its window.
    Attach(u128),
    /// It is to be moved into another tab's split.
    ParkInSplit(u128),
    /// It gets its tab back.
    Restore(u128),
    /// Its tab is closed.
    ClosePage(u128),
    /// Its tab is closed by the session itself.
    CloseTab(u128),
    /// It is closed, wherever it is.
    Close(u128),
}

/// The notebook after a move.
pub open spec fn moved(v: NotebookView, m: Move) -> NotebookView {
    match m {
        Move::Open(o, at) => v.opened(o, at),
        Move::Detach(id, allowed) => v.taken(id, allowed),
        Move::Attach(id) => v.attached_back(id),
        Move::ParkInSplit(id) => v.parked_in_split(id),
        Move::Restore(id) => v.restored(id),
        Move::ClosePage(id) => v.page_closed(id),
        Move::CloseTab(id) => v.tab_closed(id),
        Move::Close(id) => v.session_closed(id),
    }
}

/// Whether a move can be made: a session is opened under an id of its own.
pub open spec fn can_move(v: NotebookView, m: Move) -> bool {
    match m {
        Move::Open(o, _) => !v.knows(o.session_id),
        _ => true,
    }
}

/// The notebook after a sequence of moves.
pub open spec fn after_moves(v: NotebookView, moves: Seq<Move>) -> NotebookView
    decreases moves.len(),
{
    if moves.len() == 0 {
        v
    } else {
        moved(after_moves(v, moves.drop_last()), moves.last())
    }
}

/// Whether each move of a sequence can be made when its turn comes.
pub open spec fn can_make(v: NotebookView, moves: Seq<Move>) -> bool
    decreases moves.len(),
{
    moves.len() == 0 || can_make(v, moves.drop_last()) && can_move(
        after_moves(v, moves.drop_last()),
        moves.last(),
    )
}

/// Every move leaves each session in exactly one place.
pub proof fn law_every_move_keeps_sessions_placed(v: NotebookView, m: Move)
    requires
        v.placed(),
        can_move(v, m),
    ensures
        moved(v, m).placed(),
{
    match m {
        Move::Open(o, at) => lemma_opened_placed(v, o, at),
        Move::Detach(id, allowed) => lemma_taken_placed(v, id, allowed),
        Move::Attach(id) => lemma_attached_placed(v, id),
        Move::ParkInSplit(id) => {
            assert(v.parked_in_split(id).info.dom() =~= v.parked_in_split(id).tabs.dom().union(
                v.parked_in_split(id).parked,
            ).union(v.parked_in_split(id).detached));
        },
        Move::Restore(id) => lemma_restored_placed(v, id),
        Move::ClosePage(id) => lemma_closed_placed(v, id),
        Move::CloseTab(id) => {
            let w = v.closing(id);
            assert(w.placed());
            lemma_restored_placed(w, id);
            lemma_closed_placed(w.restored(id), id);
            lemma_closed_placed(w, id);
        },
        Move::Close(id) => {
            lemma_restored_placed(v, id);
            lemma_closed_placed(v.restored(id), id);
        },
    }
}

/// Every sequence of moves leaves each session in exactly one place.
pub proof fn law_moves_keep_sessions_placed(v: NotebookView, moves: Seq<Move>)
    requires
        v.placed(),
        can_make(v, moves),
    ensures
        after_moves(v, moves).placed(),
    decreases moves.len(),
{
    if moves.len() > 0 {
        law_moves_keep_sessions_placed(v, moves.drop_last());
        law_every_move_keeps_sessions_placed(after_moves(v, moves.drop_last()), moves.last());
    }
}

proof fn lemma_opened_placed(v: NotebookView, o: OpeningView, at: Timestamp)
    requires
        v.placed(),
        !v.knows(o.session_id),
    ensures
        v.opened(o, at).placed(),
{
    let w = v.opened(o, at);
    assert(w.tabs.dom() =~= v.tabs.dom().insert(o.session_id));
    assert(w.info.dom() =~= w.tabs.dom().union(w.parked).union(w.detached));
}

proof fn lemma_restored_placed(v: NotebookView, id: u128)
    requires
        v.placed(),
    ensures
        v.restored(id).placed(),
{
    let w = v.restored(id);
    assert(w.info.dom() =~= w.tabs.dom().union(w.parked).union(w.detached));
}

proof fn lemma_closed_placed(v: NotebookView, id: u128)
    requires
        v.placed(),
    ensures
        v.page_closed(id).placed(),
{
    let w = v.page_closed(id);
    assert(w.info.dom() =~= w.tabs.dom().union(w.parked).union(w.detached));
}

proof fn lemma_taken_placed(v: NotebookView, id: u128, allowed: bool)
    requires
        v.placed(),
    ensures
        v.taken(id, allowed).placed(),
{
    let w = v.taken(id, allowed);
    if v.is_taken(id, allowed) {
        assert(w.info.dom() =~= w.tabs.dom().union(w.parked).union(w.detached));
    }
}

proof fn lemma_attached_placed(v: NotebookView, id: u128)
    requires
        v.placed(),
    ensures
        v.attached_back(id).placed(),
{
    let room = v.without_welcome();
    assert(room.placed());
    lemma_restored_placed(room, id);
    let r = room.restored(id);
    let w = v.attached_back(id);
    if v.detached.contains(id) && v.has_live_widget(id) {
        assert(r.tabs.contains_key(id));
        if !v.can_rebuild(id) {
            assert(w.info.dom() =~= w.tabs.dom().union(w.parked).union(w.detached));
        } else {
            assert(w.tabs.dom() =~= r.tabs.dom());
        }
    }
}

/// The sessions with a tab and those with a window are all that are open, but for those that are
/// shown in another session's split.
pub proof fn law_counts_cover_every_session(v: NotebookView)
    requires
        v.placed(),
    ensures
        v.tabs.len() + v.detached.len() + v.parked.len() == v.info.len(),
{
    let t = v.tabs.dom();
    vstd::set_lib::lemma_len_subset(t, v.info.dom());
    vstd::set_lib::lemma_len_subset(v.parked, v.info.dom());
    vstd::set_lib::lemma_len_subset(v.detached, v.info.dom());
    vstd::set_lib::lemma_set_disjoint_lens(t, v.parked);
    vstd::set_lib::lemma_set_disjoint_lens(t.union(v.parked), v.detached);
}

/// A session that lives in a window never enters a split.
pub proof fn law_detached_session_never_enters_a_split(v: NotebookView, id: u128)
    requires
        v.detached.contains(id),
    ensures
        v.parked_in_split(id) == v,
{
}

/// What is shown elsewhere lives on: handing a session over to a window or to a split ends nothing
/// and forgets nothing.
pub proof fn law_parking_ends_no_session(v: NotebookView, id: u128, allowed: bool)
    requires
        v.placed(),
    ensures
        v.taken(id, allowed).info == v.info,
        v.taken(id, allowed).terminals == v.terminals,
        v.taken(id, allowed).widgets == v.widgets,
        v.taken(id, allowed).attached.child_pids == v.attached.child_pids,
        v.parked_in_split(id).info == v.info,
        v.parked_in_split(id).terminals == v.terminals,
        v.parked_in_split(id).widgets == v.widgets,
        v.parked_in_split(id).attached == v.attached,
{
}

/// A refused hand-over changes nothing, and a session in a window is refused whatever is allowed.
pub proof fn law_refused_hand_over_changes_nothing(v: NotebookView, id: u128, allowed: bool)
    ensures
        !v.is_taken(id, allowed) ==> v.taken(id, allowed) == v,
        v.detached.contains(id) ==> !v.is_taken(id, allowed),
        v.is_taken(id, allowed) ==> v.taken(id, allowed).taken(id, true) == v.taken(id, allowed),
{
}

/// Bringing a session back undoes handing it over: every session is where it was, and the tab shows
/// the session by itself, titled as when it was opened and grouped.
pub proof fn law_attaching_undoes_detaching(v: NotebookView, id: u128)
    requires
        v.placed(),
        v.is_taken(id, true),
    ensures
        ({
            let away = v.taken(id, true);
            let back = away.attached_back(id);
            &&& away.detached.contains(id)
            &&& !away.tabs.contains_key(id)
            &&& away.is_attached(id)
            &&& back.tabs.dom() == v.tabs.dom()
            &&& back.parked == v.parked
            &&& back.detached == v.detached
            &&& back.info == v.info
            &&& back.terminals == v.terminals
            &&& back.widgets == v.widgets
            &&& forall|other: u128|
                other != id && #[trigger] v.tabs.contains_key(other) ==> back.tabs[other]
                    == v.tabs[other]
            &&& back.tabs[id].content == TabContent::Single
            &&& back.tabs[id].tooltip == tooltip_of(
                v.info[id].name,
                v.info[id].host,
                v.info[id].tab_group,
            )
            &&& back.tabs[id].title == title_of(v.info[id].name, v.info[id].tab_group)
        }),
{
    let away = v.taken(id, true);
    let back = away.attached_back(id);
    assert(v.info.contains_key(id));
    assert(back.tabs.dom() =~= v.tabs.dom());
    assert(back.detached =~= v.detached);
    assert(back.parked =~= v.parked);
}

/// A tab that is made anew after a split goes by the name and the group of its session, as the first
/// one did.
pub proof fn law_restored_tab_is_titled_as_before(v: NotebookView, id: u128)
    requires
        v.placed(),
        v.tabs.contains_key(id),
    ensures
        ({
            let back = v.parked_in_split(id).restored(id);
            &&& back.tabs.dom() == v.tabs.dom()
            &&& back.parked == v.parked
            &&& back.detached == v.detached
            &&& back.tabs[id].title == title_of(v.info[id].name, v.info[id].tab_group)
            &&& back.tabs[id].tooltip == tooltip_of(
                v.info[id].name,
                v.info[id].host,
                v.info[id].tab_group,
            )
        }),
{
    let back = v.parked_in_split(id).restored(id);
    assert(v.info.contains_key(id));
    assert(back.tabs.dom() =~= v.tabs.dom());
    assert(back.parked =~= v.parked);
    assert(back.detached =~= v.detached);
}

/// A closed session leaves nothing behind, and no other session is touched.
pub proof fn law_closed_session_is_gone(v: NotebookView, id: u128)
    requires
        v.placed(),
        v.info.contains_key(id),
    ensures
        ({
            let w = v.session_closed(id);
            &&& v.restored(id).close_outcome(id) is Ended
            &&& !w.knows(id)
            &&& !w.is_parked(id)
            &&& !w.has_live_widget(id)
            &&& !w.split_colors.contains_key(id)
            &&& !w.attached.child_pids.contains_key(id)
            &&& !w.attached.ssh_tunnels.contains(id)
            &&& w.info == v.info.remove(id)
            &&& w.tabs == v.tabs.remove(id)
            &&& w.parked == v.parked.remove(id)
            &&& w.detached == v.detached.remove(id)
        }),
{
    let w = v.session_closed(id);
    let r = v.restored(id);
    assert(r.tabs.contains_key(id));
    assert(w.tabs =~= v.tabs.remove(id));
    assert(w.parked =~= v.parked.remove(id));
    assert(w.detached =~= v.detached.remove(id));
}

/// When the last tab goes, by closing or by handing its session over, the Welcome tab comes, if it
/// is wanted.
pub proof fn law_welcome_comes_with_the_last_tab(v: NotebookView, id: u128)
    requires
        v.show_welcome,
        v.tabs.contains_key(id),
        v.page_closed(id).tabs.len() == 0,
    ensures
        v.page_closed(id).welcome,
{
}

/// The first tab takes the place of the Welcome tab.
pub proof fn law_welcome_makes_room(v: NotebookView, o: OpeningView, at: Timestamp, id: u128)
    requires
        v.tabs.len() == 0,
    ensures
        !v.opened(o, at).welcome,
        v.is_attached(id) ==> !v.attached_back(id).welcome,
{
}

/// Whether nothing about a session differs between two notebooks: not where it is, nor what shows it,
/// nor what is known of it, nor what runs for it.
pub open spec fn same_session(v: NotebookView, w: NotebookView, id: u128) -> bool {
    &&& same_place(v, w, id)
    &&& v.info.contains_key(id) == w.info.contains_key(id)
    &&& v.info.contains_key(id) ==> v.info[id] == w.info[id]
    &&& same_widgets(v, w, id)
    &&& v.split_colors.contains_key(id) == w.split_colors.contains_key(id)
    &&& v.split_colors.contains_key(id) ==> v.split_colors[id] == w.split_colors[id]
    &&& v.reconnect_shown.contains(id) == w.reconnect_shown.contains(id)
    &&& v.disconnected.contains(id) == w.disconnected.contains(id)
    &&& v.row_base.contains_key(id) == w.row_base.contains_key(id)
    &&& v.row_base.contains_key(id) ==> v.row_base[id] == w.row_base[id]
    &&& v.attached.polls.contains(id) == w.attached.polls.contains(id)
    &&& same_processes(v, w, id)
}

/// Whether a session has the same tab, or none, in two notebooks, and is in a split or in a window in
/// both or in neither.
pub open spec fn same_place(v: NotebookView, w: NotebookView, id: u128) -> bool {
    &&& v.tabs.contains_key(id) == w.tabs.contains_key(id)
    &&& v.tabs.contains_key(id) ==> v.tabs[id] == w.tabs[id]
    &&& v.parked.contains(id) == w.parked.contains(id)
    &&& v.detached.contains(id) == w.detached.contains(id)
}

/// Whether a session is shown by the same things in two notebooks.
pub open spec fn same_widgets(v: NotebookView, w: NotebookView, id: u128) -> bool {
    &&& v.terminals.contains(id) == w.terminals.contains(id)
    &&& v.widgets.contains_key(id) == w.widgets.contains_key(id)
    &&& v.widgets.contains_key(id) ==> v.widgets[id] == w.widgets[id]
}

/// Whether the same runs for a session in two notebooks.
pub open spec fn same_processes(v: NotebookView, w: NotebookView, id: u128) -> bool {
    let a = v.attached;
    let b = w.attached;
    &&& a.automation.contains_key(id) == b.automation.contains_key(id)
    &&& a.automation.contains_key(id) ==> a.automation[id] == b.automation[id]
    &&& a.highlight_rules.contains(id) == b.highlight_rules.contains(id)
    &&& a.highlight_overlays.contains(id) == b.highlight_overlays.contains(id)
    &&& a.terminal_overlays.contains(id) == b.terminal_overlays.contains(id)
    &&& a.ssh_tunnels.contains(id) == b.ssh_tunnels.contains(id)
    &&& a.child_pids.contains_key(id) == b.child_pids.contains_key(id)
    &&& a.child_pids.contains_key(id) ==> a.child_pids[id] == b.child_pids[id]
    &&& a.pty_relays.contains(id) == b.pty_relays.contains(id)
}

/// Whether the settings are the same in two notebooks.
pub open spec fn same_settings(v: NotebookView, w: NotebookView) -> bool {
    &&& v.show_welcome == w.show_welcome
    &&& v.color_by_protocol == w.color_by_protocol
    &&& v.keep_history == w.keep_history
    &&& v.max_scrollback == w.max_scrollback
}

/// Whether a session is shown in this process: by a terminal, or by a viewer that is no process of
/// its own.
pub open spec fn shown_here(v: NotebookView, id: u128) -> bool {
    v.terminals.contains(id) || (v.widgets.contains_key(id) && v.widgets[id]
        != SessionWidgetStorage::ExternalProcess)
}

/// A session that has a tab and is shown in this process can get a window, whatever shows it: it is
/// then in its window and no longer in a tab. It is refused only where that is not allowed, where it
/// has no tab or has a window already, or where nothing shows it here; then nothing changes.
pub proof fn law_session_shown_here_gets_a_window(v: NotebookView, id: u128, allowed: bool)
    requires
        v.placed(),
    ensures
        v.is_taken(id, allowed) <==> allowed && v.tabs.contains_key(id) && !v.detached.contains(id)
            && shown_here(v, id),
        allowed && v.tabs.contains_key(id) && !v.detached.contains(id) && shown_here(v, id) ==> {
            let w = v.taken(id, allowed);
            &&& w.detached == v.detached.insert(id)
            &&& w.tabs == v.tabs.remove(id)
            &&& w.parked == v.parked
            &&& w.info == v.info
            &&& same_widgets(v, w, id)
            &&& !w.disconnected.contains(id) == !v.disconnected.contains(id)
            &&& w.attached.child_pids == v.attached.child_pids
            &&& w.attached.automation == v.attached.automation
            &&& w.attached.pty_relays == v.attached.pty_relays
            &&& w.attached.ssh_tunnels == v.attached.ssh_tunnels
        },
        !(allowed && v.tabs.contains_key(id) && !v.detached.contains(id) && shown_here(v, id))
            ==> v.taken(id, allowed) == v,
{
    if v.is_taken(id, allowed) {
        let w = v.taken(id, allowed);
        assert(w.tabs =~= v.tabs.remove(id));
        assert(w.detached =~= v.detached.insert(id));
    }
}

/// Every session that was opened to be shown here can get a window right away: a terminal, a VNC
/// viewer, an RDP viewer and a web page alike. A viewer that is a process of its own cannot.
pub proof fn law_opened_session_can_get_a_window(v: NotebookView, o: OpeningView, at: Timestamp)
    requires
        v.placed(),
        !v.knows(o.session_id),
        !v.terminals.contains(o.session_id),
        !v.widgets.contains_key(o.session_id),
    ensures
        ({
            let opened = v.opened(o, at);
            let id = o.session_id;
            &&& (o.kind == OpenKind::Terminal || o.kind == OpenKind::Vnc || o.kind
                == OpenKind::EmbeddedRdp || o.kind == OpenKind::EmbeddedWeb) ==> {
                &&& opened.is_taken(id, true)
                &&& opened.taken(id, true).detached == v.detached.insert(id)
                &&& opened.taken(id, true).tabs == v.tabs
                &&& opened.taken(id, true).is_attached(id)
            }
            &&& (o.kind is External) ==> !opened.is_taken(id, true)
        }),
{
    let id = o.session_id;
    let opened = v.opened(o, at);
    lemma_opened_placed(v, o, at);
    assert(!v.tabs.contains_key(id));
    assert(!v.detached.contains(id)) by {
        assert(v.info.dom().contains(id) == v.tabs.dom().union(v.parked).union(v.detached).contains(id));
    }
    if !(o.kind is External) {
        law_session_shown_here_gets_a_window(opened, id, true);
        assert(opened.taken(id, true).tabs =~= v.tabs);
        assert(opened.taken(id, true).detached =~= v.detached.insert(id));
    }
}

/// Handing a session over touches no other one, and no setting.
#[verifier::spinoff_prover]
#[verifier::rlimit(40)]
pub proof fn law_handing_over_touches_no_other_session(
    v: NotebookView,
    id: u128,
    other: u128,
    allowed: bool,
)
    requires
        other != id,
    ensures
        same_session(v, v.taken(id, allowed), other),
        same_settings(v, v.taken(id, allowed)),
        v.taken(id, allowed).clusters == v.clusters,
        same_session(v, v.attached_back(id), other),
        same_settings(v, v.attached_back(id)),
        v.attached_back(id).clusters == v.clusters,
        same_session(v, v.parked_in_split(id), other),
        same_settings(v, v.parked_in_split(id)),
        v.parked_in_split(id).clusters == v.clusters,
        same_session(v, v.restored(id), other),
        same_settings(v, v.restored(id)),
        v.restored(id).clusters == v.clusters,
{
}

/// A session comes back from its window exactly where it is in one, something is known of it and it is
/// shown in this process; it then has a tab and no window. Where it does not come back it stays in its
/// window.
pub proof fn law_session_comes_back_from_its_window(v: NotebookView, id: u128)
    requires
        v.placed(),
    ensures
        v.is_attached(id) <==> v.detached.contains(id) && shown_here(v, id),
        v.detached.contains(id) && shown_here(v, id) ==> {
            let w = v.attached_back(id);
            &&& w.tabs.dom() == v.tabs.dom().insert(id)
            &&& w.detached == v.detached.remove(id)
            &&& w.parked == v.parked
            &&& w.info == v.info
            &&& same_widgets(v, w, id)
            &&& w.tabs[id].content == TabContent::Single
            &&& w.tabs[id].title == title_of(v.info[id].name, v.info[id].tab_group)
            &&& w.tabs[id].tooltip == tooltip_of(
                v.info[id].name,
                v.info[id].host,
                v.info[id].tab_group,
            )
            &&& w.tabs[id].indicator == (if v.split_colors.contains_key(id) {
                Indicator::Blank
            } else if v.color_by_protocol {
                Indicator::Protocol
            } else if v.info[id].tab_color_index is Some {
                Indicator::GroupColor(v.info[id].tab_color_index->0)
            } else {
                Indicator::Blank
            })
            &&& v.tabs.len() == 0 ==> !w.welcome
        },
        !(v.detached.contains(id) && shown_here(v, id)) ==> v.attached_back(id).detached == v.detached
            && v.attached_back(id).tabs == v.tabs && v.attached_back(id).parked == v.parked
            && v.attached_back(id).info == v.info,
{
    let w = v.attached_back(id);
    if v.detached.contains(id) {
        assert(v.info.dom().contains(id));
        assert(!v.tabs.dom().contains(id));
        assert(!v.parked.contains(id));
        if shown_here(v, id) {
            assert(w.tabs.dom() =~= v.tabs.dom().insert(id));
            assert(w.detached =~= v.detached.remove(id));
            assert(w.parked =~= v.parked);
        } else if v.has_live_widget(id) {
            assert(w.tabs =~= v.tabs);
            assert(w.detached =~= v.detached);
            assert(w.parked =~= v.parked);
        }
    }
}

/// A session that has a tab can be moved into a split, unless it is in a window; it then has no tab and
/// is in the split, and lives on. Getting its tab back undoes that.
pub proof fn law_session_enters_and_leaves_a_split(v: NotebookView, id: u128)
    requires
        v.placed(),
    ensures
        v.tabs.contains_key(id) ==> {
            let w = v.parked_in_split(id);
            &&& w.parked == v.parked.insert(id)
            &&& w.tabs == v.tabs.remove(id)
            &&& w.detached == v.detached
            &&& w.info == v.info
            &&& same_widgets(v, w, id)
            &&& same_processes(v, w, id)
            &&& w.restored(id).tabs.dom() == v.tabs.dom()
            &&& w.restored(id).parked == v.parked
        },
        !v.tabs.contains_key(id) ==> v.parked_in_split(id) == v,
{
    if v.tabs.contains_key(id) {
        let w = v.parked_in_split(id);
        assert(v.info.dom().contains(id));
        assert(!v.parked.contains(id) && !v.detached.contains(id));
        assert(w.tabs =~= v.tabs.remove(id));
        assert(w.restored(id).tabs.dom() =~= v.tabs.dom());
        assert(w.restored(id).parked =~= v.parked);
    }
}

/// A session gets a tab back exactly where it has none: out of a split or out of a window, empty until
/// its content follows. It is then in neither.
pub proof fn law_restored_session_has_a_tab(v: NotebookView, id: u128)
    requires
        v.placed(),
    ensures
        v.parked.contains(id) || v.detached.contains(id) ==> {
            let w = v.restored(id);
            &&& w.tabs.dom() == v.tabs.dom().insert(id)
            &&& !w.parked.contains(id)
            &&& !w.detached.contains(id)
            &&& w.tabs[id].content == TabContent::Empty
            &&& w.tabs[id].indicator == Indicator::Blank
            &&& w.tabs[id].split_class is None
            &&& w.tabs[id].icon == TabIcon::OfProtocol
            &&& w.info == v.info
            &&& same_widgets(v, w, id)
            &&& same_processes(v, w, id)
        },
        !(v.parked.contains(id) || v.detached.contains(id)) ==> v.restored(id) == v,
{
    if v.parked.contains(id) || v.detached.contains(id) {
        assert(v.info.dom().contains(id));
        assert(v.restored(id).tabs.dom() =~= v.tabs.dom().insert(id));
    }
}

/// Closing a tab ends the session in it, with all that belongs to it; what ended is handed over. A
/// session that is shown elsewhere only loses its tab, and one without a tab is left alone.
pub proof fn law_closing_a_tab_ends_its_session(v: NotebookView, id: u128)
    ensures
        v.close_outcome(id) is NoTab <==> !v.tabs.contains_key(id),
        v.close_outcome(id) is Parked <==> v.tabs.contains_key(id) && (v.parked.contains(id)
            || v.detached.contains(id)),
        !v.tabs.contains_key(id) ==> v.page_closed(id) == v,
        v.tabs.contains_key(id) ==> v.page_closed(id).tabs == v.tabs.remove(id),
        v.close_outcome(id) is Parked ==> v.page_closed(id).info == v.info && same_widgets(
            v,
            v.page_closed(id),
            id,
        ) && same_processes(v, v.page_closed(id), id),
        v.close_outcome(id) is Ended ==> {
            let w = v.page_closed(id);
            let end = v.close_outcome(id)->Ended_0;
            &&& !w.info.contains_key(id)
            &&& !w.terminals.contains(id)
            &&& !w.widgets.contains_key(id)
            &&& !w.split_colors.contains_key(id)
            &&& !w.disconnected.contains(id)
            &&& !w.row_base.contains_key(id)
            &&& !w.attached.automation.contains_key(id)
            &&& !w.attached.highlight_rules.contains(id)
            &&& !w.attached.highlight_overlays.contains(id)
            &&& !w.attached.terminal_overlays.contains(id)
            &&& !w.attached.ssh_tunnels.contains(id)
            &&& !w.attached.child_pids.contains_key(id)
            &&& !w.attached.pty_relays.contains(id)
            &&& end.session_id == id
            &&& end.connection_id is Some <==> v.info.contains_key(id)
            &&& v.info.contains_key(id) ==> end.connection_id == Some(v.info[id].connection_id)
            &&& end.was_in_split <==> v.split_colors.contains_key(id)
            &&& end.widget is Some <==> v.widgets.contains_key(id)
            &&& v.widgets.contains_key(id) ==> end.widget == Some(v.widgets[id])
            &&& end.child_pid is Some <==> v.attached.child_pids.contains_key(id)
            &&& v.attached.child_pids.contains_key(id) ==> end.child_pid == Some(
                v.attached.child_pids[id],
            )
            &&& end.had_tunnel <==> v.attached.ssh_tunnels.contains(id)
        },
{
    if v.tabs.contains_key(id) {
        assert(v.page_closed(id).tabs =~= v.tabs.remove(id));
    }
}

/// Closing touches no other session, no setting and no cluster, however it is done.
#[verifier::spinoff_prover]
#[verifier::rlimit(40)]
pub proof fn law_closing_touches_no_other_session(v: NotebookView, id: u128, other: u128)
    requires
        other != id,
    ensures
        same_session(v, v.page_closed(id), other),
        same_settings(v, v.page_closed(id)),
        v.page_closed(id).clusters == v.clusters,
        same_session(v, v.session_closed(id), other),
        same_settings(v, v.session_closed(id)),
        v.session_closed(id).clusters == v.clusters,
        same_session(v, v.tab_closed(id), other),
        same_settings(v, v.tab_closed(id)),
        v.tab_closed(id).clusters == v.clusters,
{
}

/// A session that closes its tab, or its window, ends wherever it is but in another's split, and
/// nothing is polled for it any more.
pub proof fn law_closed_tab_ends_wherever_it_is(v: NotebookView, id: u128)
    requires
        v.placed(),
    ensures
        ({
            let w = v.tab_closed(id);
            &&& !w.attached.polls.contains(id)
            &&& !w.reconnect_shown.contains(id)
            &&& !w.disconnected.contains(id)
            &&& v.tabs.contains_key(id) || v.detached.contains(id) ==> !w.info.contains_key(id)
                && !w.tabs.contains_key(id) && !w.detached.contains(id)
            &&& v.parked.contains(id) ==> w.parked.contains(id) && w.info.contains_key(id)
        }),
{
    let w = v.tab_closed(id);
    if v.tabs.contains_key(id) || v.detached.contains(id) || v.parked.contains(id) {
        assert(v.info.dom().contains(id));
    }
}

/// The Welcome tab comes exactly when the last tab goes and it is wanted; it goes when a session comes
/// that has no other tab beside it, and otherwise stays as it is.
pub proof fn law_welcome_stands_in_for_tabs(v: NotebookView, o: OpeningView, at: Timestamp, id: u128)
    ensures
        v.page_closed(id).welcome == (v.welcome || (v.tabs.contains_key(id) && v.show_welcome
            && v.tabs.remove(id).len() == 0)),
        v.opened(o, at).welcome == (v.welcome && v.tabs.len() > 0),
        v.restored(id).welcome == v.welcome,
        v.with_welcome().welcome == (v.welcome || (v.show_welcome && v.tabs.len() == 0)),
        v.without_welcome().welcome == (v.welcome && v.tabs.len() > 0),
        v.with_welcome().tabs == v.tabs,
        v.without_welcome().tabs == v.tabs,
        forall|show: bool| (#[trigger] NotebookView::empty(show)).welcome == show,
{
}

/// A session that is opened has a tab, by itself, that goes by its title and names its host where
/// there is one; all that it was opened with is known of it, and it is shown by what it was opened for.
pub proof fn law_opened_session_is_there(v: NotebookView, o: OpeningView, at: Timestamp)
    ensures
        ({
            let id = o.session_id;
            let w = v.opened(o, at);
            &&& w.tabs.dom() == v.tabs.dom().insert(id)
            &&& w.info.dom() == v.info.dom().insert(id)
            &&& w.parked == v.parked
            &&& w.detached == v.detached
            &&& w.tabs[id].title == o.title
            &&& w.tabs[id].tooltip == tooltip_of(o.title, o.host, None)
            &&& w.tabs[id].content == (if o.kind is External {
                TabContent::Fixed
            } else {
                TabContent::Single
            })
            &&& w.tabs[id].icon == TabIcon::Displays <==> o.kind == OpenKind::Vnc
            &&& w.tabs[id].icon == TabIcon::Computer <==> o.kind == OpenKind::EmbeddedRdp
            &&& w.tabs[id].icon == TabIcon::Browser <==> o.kind == OpenKind::EmbeddedWeb
            &&& w.tabs[id].split_class is None
            &&& w.tabs[id].indicator == (if v.color_by_protocol && !v.split_colors.contains_key(id) {
                Indicator::Protocol
            } else {
                Indicator::Blank
            })
            &&& w.info[id].id == id
            &&& w.info[id].connection_id == o.connection_id
            &&& w.info[id].name == o.title
            &&& w.info[id].protocol == o.protocol
            &&& w.info[id].host == o.host
            &&& w.info[id].is_embedded == !(o.kind is External)
            &&& w.info[id].tab_group is None
            &&& w.info[id].tab_color_index is None
            &&& w.info[id].log_file is None
            &&& w.info[id].history_entry_id is None
            &&& w.info[id].connected_at == at
            &&& w.terminals == (if o.kind == OpenKind::Terminal {
                v.terminals.insert(id)
            } else {
                v.terminals
            })
            &&& o.kind == OpenKind::Vnc ==> w.widgets == v.widgets.insert(
                id,
                SessionWidgetStorage::Vnc,
            )
            &&& o.kind == OpenKind::EmbeddedRdp ==> w.widgets == v.widgets.insert(
                id,
                SessionWidgetStorage::EmbeddedRdp,
            )
            &&& o.kind == OpenKind::EmbeddedWeb ==> w.widgets == v.widgets.insert(
                id,
                SessionWidgetStorage::EmbeddedWeb,
            )
            &&& o.kind == (OpenKind::External { running: true }) ==> w.widgets == v.widgets.insert(
                id,
                SessionWidgetStorage::ExternalProcess,
            )
            &&& o.kind == OpenKind::Terminal || o.kind == (OpenKind::External { running: false })
                ==> w.widgets == v.widgets
            &&& w.attached.terminal_overlays == (if o.kind == OpenKind::Terminal {
                v.attached.terminal_overlays.insert(id)
            } else {
                v.attached.terminal_overlays
            })
            &&& o.kind != OpenKind::Terminal ==> w.clusters == v.clusters
            &&& o.kind == OpenKind::Terminal && v.clusters.pending.contains_key(o.connection_id)
                ==> w.clusters.members(v.clusters.pending[o.connection_id]).contains(id)
            &&& o.kind == OpenKind::Terminal && !v.clusters.pending.contains_key(o.connection_id)
                ==> w.clusters == v.clusters
        }),
{
    let id = o.session_id;
    let w = v.opened(o, at);
    assert(w.tabs.dom() =~= v.tabs.dom().insert(id));
    assert(w.info.dom() =~= v.info.dom().insert(id));
    if o.kind == OpenKind::Terminal && v.clusters.pending.contains_key(o.connection_id) {
        let c = v.clusters.pending[o.connection_id];
        let members = w.clusters.members(c);
        assert(members[members.len() - 1] == id);
    }
}

/// Opening a session touches no other one, and no setting.
pub proof fn law_opening_touches_no_other_session(
    v: NotebookView,
    o: OpeningView,
    at: Timestamp,
    other: u128,
)
    requires
        other != o.session_id,
    ensures
        same_session(v, v.opened(o, at), other),
        same_settings(v, v.opened(o, at)),
{
}

/// What is asked before a session is moved: it is drawn here where it was opened to be, it owns a split
/// where it has a split's color and a tab's place, it is a guest where it is shown in another's split.
pub proof fn law_context_tells_where_a_session_is(
    notebook: &TerminalNotebook,
    id: u128,
    r: DetachContext,
)
    requires
        call_ensures(TerminalNotebook::detach_context, (notebook, id), r),
    ensures
        r.renders_in_process <==> notebook@.info.contains_key(id) && notebook@.info[id].is_embedded,
        r.is_split_guest <==> notebook@.parked.contains(id),
        r.is_split_owner <==> !notebook@.parked.contains(id) && notebook@.split_colors.contains_key(
            id,
        ),
        r.is_detached <==> notebook@.detached.contains(id),
{
}

/// The focus goes to where the session is: to its window, to its tab, or nowhere.
pub proof fn law_focus_follows_the_session(
    notebook: &TerminalNotebook,
    id: u128,
    r: FocusTarget,
    detached: bool,
    tab: bool,
)
    requires
        notebook@.placed(),
        call_ensures(TerminalNotebook::switch_to_tab, (notebook, id), r),
        call_ensures(TerminalNotebook::is_detached, (notebook, id), detached),
        call_ensures(TerminalNotebook::get_session_container, (notebook, id), tab),
    ensures
        r == FocusTarget::Window <==> detached,
        r == FocusTarget::Tab <==> tab,
        detached <==> notebook@.detached.contains(id),
        tab <==> notebook@.tabs.contains_key(id),
{
}

/// The counts are those of what is listed: as many sessions have a tab as are listed, and as many have
/// a window.
pub proof fn law_counts_are_those_of_the_lists(
    notebook: &TerminalNotebook,
    count: usize,
    ids: Vec<u128>,
    detached_count: usize,
    detached: Vec<u128>,
    all: u128,
)
    requires
        call_ensures(TerminalNotebook::session_count, (notebook,), count),
        call_ensures(TerminalNotebook::session_ids, (notebook,), ids),
        call_ensures(TerminalNotebook::detached_count, (notebook,), detached_count),
        call_ensures(TerminalNotebook::detached_session_ids, (notebook,), detached),
        call_ensures(TerminalNotebook::tab_count, (notebook,), all),
    ensures
        count == ids@.len(),
        detached_count == notebook@.detached.len(),
        forall|id: u128| ids@.contains(id) <==> #[trigger] notebook@.tabs.contains_key(id),
        forall|id: u128| detached@.contains(id) <==> #[trigger] notebook@.detached.contains(id),
        forall|i: int, j: int|
            0 <= i < j < detached@.len() ==> #[trigger] detached@[i] < #[trigger] detached@[j],
        all == count + (if notebook@.welcome {
            1int
        } else {
            0
        }),
{
    ids@.unique_seq_to_set();
    assert forall|id: u128| ids@.contains(id) <==> #[trigger] notebook@.tabs.contains_key(id) by {
        assert(ids@.to_set().contains(id) <==> ids@.contains(id));
        assert(notebook@.tabs.dom().contains(id) <==> notebook@.tabs.contains_key(id));
    }
    assert forall|id: u128| detached@.contains(id) <==> #[trigger] notebook@.detached.contains(id) by {
        assert(detached@.to_set().contains(id) <==> detached@.contains(id));
    }
}

/// What a tab shows is exchanged only where it can be: a viewer in a process of its own keeps its tab.
pub proof fn law_only_exchangeable_content_is_exchanged(
    v: NotebookView,
    id: u128,
    content: TabContent,
)
    ensures
        v.tabs.contains_key(id) && v.tabs[id].content != TabContent::Fixed ==> v.with_content(
            id,
            content,
        ).tabs[id].content == content,
        v.tabs.contains_key(id) && v.tabs[id].content == TabContent::Fixed ==> v.with_content(
            id,
            content,
        ) == v,
        v.with_content(id, content).tabs.dom() == v.tabs.dom(),
        v.with_content(id, content).info == v.info,
        v.tabs.contains_key(id) ==> v.with_content(id, content).tabs[id].title == v.tabs[id].title
            && v.with_content(id, content).tabs[id].indicator == v.tabs[id].indicator,
        forall|other: u128| other != id ==> #[trigger] same_session(v, v.with_content(id, content), other),
{
    assert(v.with_content(id, content).tabs.dom() =~= v.tabs.dom());
}

/// A terminal whose content is put into another place gets its overlay there; a viewer in this process
/// comes before the terminal and needs none. Nothing else changes.
pub proof fn law_moved_terminal_has_its_overlay(v: NotebookView, id: u128)
    ensures
        ({
            let w = v.rebuilt(id);
            let viewer = v.widgets.contains_key(id) && v.widgets[id]
                != SessionWidgetStorage::ExternalProcess;
            &&& v.terminals.contains(id) && !viewer ==> w.attached.terminal_overlays
                == v.attached.terminal_overlays.insert(id)
            &&& !v.terminals.contains(id) || viewer ==> w == v
            &&& same_place(v, w, id)
            &&& same_widgets(v, w, id)
            &&& same_settings(v, w)
        }),
        forall|other: u128| other != id ==> #[trigger] same_session(v, v.rebuilt(id), other),
{
}

} // verus!
