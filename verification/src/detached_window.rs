//! Top-level windows that host a single detached session.
//!
//! A detached window borrows the content of a session that the notebook still owns. It keeps the
//! two ids it needs, its labels, and whether its close means that the session moved back.

use crate::i18n::{is_said, with_args, Message};
use crate::ids;
use std::collections::HashMap;
use vstd::prelude::*;

verus! {

broadcast use vstd::std_specs::hash::group_hash_axioms;

/// Width of a new window.
pub const DEFAULT_WIDTH: i32 = 900;

/// Height of a new window.
pub const DEFAULT_HEIGHT: i32 = 650;

/// Smallest width of a window.
pub const MIN_WIDTH: i32 = 400;

/// Smallest height of a window.
pub const MIN_HEIGHT: i32 = 300;

/// The title of a window, before it is translated.
pub fn title_message(connection: &str) -> (r: Message)
    ensures
        r@ == with_args("{} — RustConn"@, seq![connection@]),
{
    Message::with("{} — RustConn", connection)
}

/// Builds the title of the window for a connection, in the current locale.
pub fn detached_window_title(connection: &str) -> (r: String)
    ensures
        is_said(r@, with_args("{} — RustConn"@, seq![connection@])),
{
    proof {
        reveal_strlit("{} — RustConn");
    }
    title_message(connection).render()
}

/// What a close of the window means.
#[derive(Clone, Copy, Debug, PartialEq, Eq, Structural)]
pub enum CloseMeaning {
    /// The session moved back into a tab.
    Attached,
    /// The session ends.
    Teardown,
}

/// A window that hosts one detached session.
pub struct DetachedSessionWindow {
    session_id: u128,
    connection_id: u128,
    title: String,
    subtitle: String,
    attaching: bool,
}

impl DetachedSessionWindow {
    /// The session in the window.
    pub closed spec fn session(self) -> u128 {
        self.session_id
    }

    /// The connection of that session.
    pub closed spec fn connection(self) -> u128 {
        self.connection_id
    }

    /// The connection's name.
    pub closed spec fn name(self) -> Seq<char> {
        self.title@
    }

    /// The protocol's name.
    pub closed spec fn protocol(self) -> Seq<char> {
        self.subtitle@
    }

    /// Whether the window is about to close for an attach.
    pub closed spec fn is_attaching(self) -> bool {
        self.attaching
    }

    /// Creates a window for a session.
    pub fn new(session_id: u128, connection_id: u128, title: &str, protocol: &str) -> (r: Self)
        ensures
            r.session() == session_id,
            r.connection() == connection_id,
            r.name() == title@,
            r.protocol() == protocol@,
            !r.is_attaching(),
    {
        DetachedSessionWindow {
            session_id,
            connection_id,
            title: title.to_owned(),
            subtitle: protocol.to_owned(),
            attaching: false,
        }
    }

    /// Updates the title after a connection was renamed.
    pub fn set_session_title(&mut self, title: &str)
        ensures
            final(self).name() == title@,
            final(self).session() == old(self).session(),
            final(self).connection() == old(self).connection(),
            final(self).protocol() == old(self).protocol(),
            final(self).is_attaching() == old(self).is_attaching(),
    {
        self.title = title.to_owned();
    }

    /// Returns the title of the header bar.
    pub fn session_title(&self) -> (r: &str)
        ensures
            r@ == self.name(),
    {
        self.title.as_str()
    }

    /// Returns the subtitle of the header bar.
    pub fn protocol_name(&self) -> (r: &str)
        ensures
            r@ == self.protocol(),
    {
        self.subtitle.as_str()
    }

    /// Returns the session hosted by this window.
    pub fn session_id(&self) -> (r: u128)
        ensures
            r == self.session(),
    {
        self.session_id
    }

    /// Returns the connection the hosted session belongs to.
    pub fn connection_id(&self) -> (r: u128)
        ensures
            r == self.connection(),
    {
        self.connection_id
    }

    /// Marks the pending close as an attach.
    pub fn begin_attach(&mut self)
        ensures
            final(self).is_attaching(),
            final(self).session() == old(self).session(),
            final(self).connection() == old(self).connection(),
            final(self).name() == old(self).name(),
            final(self).protocol() == old(self).protocol(),
    {
        self.attaching = true;
    }

    /// Says what a close of the window means: teardown, unless an attach was begun.
    pub fn close_requested(&self) -> (r: CloseMeaning)
        ensures
            r == (if self.is_attaching() {
                CloseMeaning::Attached
            } else {
                CloseMeaning::Teardown
            }),
    {
        if self.attaching {
            CloseMeaning::Attached
        } else {
            CloseMeaning::Teardown
        }
    }
}

/// The detached windows that are open, each under its own session.
pub struct DetachedWindowRegistry {
    windows: HashMap<u128, DetachedSessionWindow>,
}

impl View for DetachedWindowRegistry {
    type V = Map<u128, DetachedSessionWindow>;

    closed spec fn view(&self) -> Map<u128, DetachedSessionWindow> {
        self.windows@
    }
}

impl Default for DetachedWindowRegistry {
    fn default() -> (r: Self)
        ensures
            r@ == Map::<u128, DetachedSessionWindow>::empty(),
            r.wf(),
    {
        DetachedWindowRegistry::new()
    }
}

impl DetachedWindowRegistry {
    /// Every window stands under the session it hosts.
    pub open spec fn wf(&self) -> bool {
        &&& self@.dom().finite()
        &&& forall|id: u128| #[trigger] self@.contains_key(id) ==> self@[id].session() == id
    }

    /// Creates an empty registry.
    pub fn new() -> (r: Self)
        ensures
            r@ == Map::<u128, DetachedSessionWindow>::empty(),
            r.wf(),
    {
        DetachedWindowRegistry { windows: HashMap::new() }
    }

    /// Registers a window under its own session.
    pub fn insert(&mut self, window: DetachedSessionWindow)
        requires
            old(self).wf(),
        ensures
            final(self).wf(),
            final(self)@ == old(self)@.insert(window.session(), window),
    {
        self.windows.insert(window.session_id, window);
    }

    /// Removes and returns the window of a session, if it has one.
    pub fn take(&mut self, session_id: u128) -> (r: Option<DetachedSessionWindow>)
        requires
            old(self).wf(),
        ensures
            final(self).wf(),
            final(self)@ == old(self)@.remove(session_id),
            r == (if old(self)@.contains_key(session_id) {
                Some(old(self)@[session_id])
            } else {
                None
            }),
    {
        self.windows.remove(&session_id)
    }

    /// Reports whether a session has a detached window.
    pub fn contains(&self, session_id: u128) -> (r: bool)
        ensures
            r == self@.contains_key(session_id),
    {
        self.windows.contains_key(&session_id)
    }

    /// Returns how many detached windows are open.
    pub fn count(&self) -> (r: usize)
        ensures
            r == self@.len(),
    {
        self.windows.len()
    }

    /// Runs a closure on the window of a session, if it has one.
    pub fn with_window<F, R>(&self, session_id: u128, f: F) -> (r: Option<R>) where
        F: FnOnce(&DetachedSessionWindow) -> R,

        requires
            self@.contains_key(session_id) ==> f.requires((&self@[session_id],)),
        ensures
            r is Some <==> self@.contains_key(session_id),
            r matches Some(v) ==> f.ensures((&self@[session_id],), v),
    {
        match self.windows.get(&session_id) {
            Some(w) => Some(f(w)),
            None => None,
        }
    }

    /// Empties the registry and hands every window out, to be closed.
    ///
    /// The entries are gone before anything is closed, so that a close handler may look into the
    /// registry. The order is not fixed.
    pub fn close_all(&mut self) -> (r: Vec<DetachedSessionWindow>)
        requires
            old(self).wf(),
        ensures
            final(self).wf(),
            final(self)@ == Map::<u128, DetachedSessionWindow>::empty(),
            r@.len() == old(self)@.len(),
            forall|i: int|
                0 <= i < r@.len() ==> old(self)@.contains_key((#[trigger] r@[i]).session()) && old(
                    self,
                )@[r@[i].session()] == r@[i],
            forall|i: int, j: int|
                0 <= i < j < r@.len() ==> (#[trigger] r@[i]).session() != (#[trigger] r@[j]).session(),
    {
        let ghost all = self@;
        let ids = ids::keys_of(&self.windows);
        let mut closed: Vec<DetachedSessionWindow> = Vec::new();
        let mut i: usize = 0;
        assert(self@ =~= all.remove_keys(ids@.take(0).to_set()));
        while i < ids.len()
            invariant
                i <= ids@.len(),
                ids@.no_duplicates(),
                ids@.to_set() == all.dom(),
                forall|id: u128| #[trigger] all.contains_key(id) ==> all[id].session() == id,
                closed@.len() == i,
                forall|k: int| 0 <= k < i ==> closed@[k] == all[#[trigger] ids@[k]],
                self@ == all.remove_keys(ids@.take(i as int).to_set()),
            decreases ids@.len() - i,
        {
            let id: u128 = ids[i];
            assert(ids@.to_set().contains(ids@[i as int]));
            assert(all.contains_key(id));
            let ghost before = ids@.take(i as int);
            let ghost after = ids@.take(i + 1);
            assert(!before.contains(id));
            assert forall|k: u128| after.contains(k) <==> before.contains(k) || k == id by {
                assert(after =~= before.push(id));
                if before.contains(k) {
                    let x = choose|x: int| 0 <= x < before.len() && before[x] == k;
                    assert(after[x] == k);
                }
                if k == id {
                    assert(after[i as int] == k);
                }
            }
            let removed = self.windows.remove(&id);
            if let Some(w) = removed {
                closed.push(w);
            }
            assert(self@ =~= all.remove_keys(after.to_set()));
            i += 1;
        }
        assert(ids@.take(i as int) =~= ids@);
        assert(self@ =~= Map::<u128, DetachedSessionWindow>::empty());
        assert forall|k: int| 0 <= k < closed@.len() implies all.contains_key(
            (#[trigger] closed@[k]).session(),
        ) && all[closed@[k].session()] == closed@[k] by {
            assert(ids@.to_set().contains(ids@[k]));
        }
        assert forall|j: int, k: int| 0 <= j < k < closed@.len() implies (
        #[trigger] closed@[j]).session() != (#[trigger] closed@[k]).session() by {
            assert(ids@.to_set().contains(ids@[j]));
            assert(ids@.to_set().contains(ids@[k]));
        }
        closed
    }
}

/// A window says what it was opened for, and a window that nothing was begun with ends its session
/// when it is closed.
pub proof fn law_new_window_ends_its_session(
    session: u128,
    connection: u128,
    title: &str,
    protocol: &str,
    window: DetachedSessionWindow,
    its_session: u128,
    its_connection: u128,
    its_title: &str,
    its_protocol: &str,
    close: CloseMeaning,
)
    requires
        call_ensures(DetachedSessionWindow::new, (session, connection, title, protocol), window),
        call_ensures(DetachedSessionWindow::session_id, (&window,), its_session),
        call_ensures(DetachedSessionWindow::connection_id, (&window,), its_connection),
        call_ensures(DetachedSessionWindow::session_title, (&window,), its_title),
        call_ensures(DetachedSessionWindow::protocol_name, (&window,), its_protocol),
        call_ensures(DetachedSessionWindow::close_requested, (&window,), close),
    ensures
        its_session == session,
        its_connection == connection,
        its_title@ == title@,
        its_protocol@ == protocol@,
        close == CloseMeaning::Teardown,
{
}

/// A close means that the session moved back exactly where an attach was begun.
pub proof fn law_only_a_begun_attach_keeps_the_session(
    window: &DetachedSessionWindow,
    close: CloseMeaning,
)
    requires
        call_ensures(DetachedSessionWindow::close_requested, (window,), close),
    ensures
        close == CloseMeaning::Attached <==> window.is_attaching(),
        close == CloseMeaning::Teardown <==> !window.is_attaching(),
{
}

/// A window is titled by its connection and by the program.
pub proof fn law_window_is_titled_by_its_connection(connection: &str, r: Message)
    requires
        call_ensures(title_message, (connection,), r),
    ensures
        r@.msgid == "{} — RustConn"@,
        r@.args == seq![connection@],
{
}

/// A registry has the window of a session exactly where it holds one, and starts without any.
pub proof fn law_registry_starts_empty(
    registry: DetachedWindowRegistry,
    session: u128,
    found: bool,
    count: usize,
)
    requires
        call_ensures(DetachedWindowRegistry::new, (), registry),
        call_ensures(DetachedWindowRegistry::contains, (&registry, session), found),
        call_ensures(DetachedWindowRegistry::count, (&registry,), count),
    ensures
        !found,
        count == 0,
{
}

} // verus!
