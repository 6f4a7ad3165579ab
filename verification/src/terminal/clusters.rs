//! Which sessions belong to which cluster.

use crate::ids;
use std::collections::HashMap;
use vstd::prelude::*;

verus! {

broadcast use vstd::std_specs::hash::group_hash_axioms;

/// The sessions of every cluster, and the clusters whose tabs have yet to appear.
pub struct Clusters {
    /// The sessions of each cluster, in the order in which they appeared.
    sessions: HashMap<u128, Vec<u128>>,
    /// The cluster of each session.
    session_to_cluster: HashMap<u128, u128>,
    /// The cluster that a connection is being opened for.
    pending: HashMap<u128, u128>,
}

/// Which sessions belong to which cluster.
#[verifier::ext_equal]
pub struct ClustersView {
    pub sessions: Map<u128, Seq<u128>>,
    pub session_to_cluster: Map<u128, u128>,
    pub pending: Map<u128, u128>,
}

spec fn list_views(m: Map<u128, Vec<u128>>) -> Map<u128, Seq<u128>> {
    m.map_values(|v: Vec<u128>| v@)
}

impl View for Clusters {
    type V = ClustersView;

    closed spec fn view(&self) -> ClustersView {
        ClustersView {
            sessions: list_views(self.sessions@),
            session_to_cluster: self.session_to_cluster@,
            pending: self.pending@,
        }
    }
}

impl ClustersView {
    /// The sessions of a cluster.
    pub open spec fn members(self, cluster_id: u128) -> Seq<u128> {
        if self.sessions.contains_key(cluster_id) {
            self.sessions[cluster_id]
        } else {
            Seq::empty()
        }
    }

    /// The clusters with one more session.
    pub open spec fn registered(self, cluster_id: u128, session_id: u128) -> ClustersView {
        ClustersView {
            sessions: self.sessions.insert(cluster_id, self.members(cluster_id).push(session_id)),
            session_to_cluster: self.session_to_cluster.insert(session_id, cluster_id),
            ..self
        }
    }

    /// The clusters without one of them.
    pub open spec fn unregistered(self, cluster_id: u128) -> ClustersView {
        ClustersView {
            sessions: self.sessions.remove(cluster_id),
            session_to_cluster: self.session_to_cluster.remove_keys(
                self.members(cluster_id).to_set(),
            ),
            pending: self.pending.remove_keys(self.waiting_for(cluster_id)),
        }
    }

    /// The connections that are being opened for a cluster.
    pub open spec fn waiting_for(self, cluster_id: u128) -> Set<u128> {
        self.pending.dom().filter(|c: u128| self.pending[c] == cluster_id)
    }

    /// The clusters once the tab of a connection has appeared.
    pub open spec fn resolved(self, connection_id: u128, session_id: u128) -> ClustersView {
        if self.pending.contains_key(connection_id) {
            let rest = ClustersView { pending: self.pending.remove(connection_id), ..self };
            rest.registered(self.pending[connection_id], session_id)
        } else {
            self
        }
    }

    /// Every session that has a cluster is among that cluster's sessions.
    pub open spec fn wf(self) -> bool {
        forall|s: u128| #[trigger]
            self.session_to_cluster.contains_key(s) ==> self.members(
                self.session_to_cluster[s],
            ).contains(s)
    }
}

impl Clusters {
    /// No clusters.
    pub fn new() -> (r: Self)
        ensures
            r@ == (ClustersView {
                sessions: Map::empty(),
                session_to_cluster: Map::empty(),
                pending: Map::empty(),
            }),
            r@.wf(),
    {
        let r = Clusters {
            sessions: HashMap::new(),
            session_to_cluster: HashMap::new(),
            pending: HashMap::new(),
        };
        assert(list_views(r.sessions@) =~= Map::empty());
        r
    }

    /// Adds a session to a cluster.
    pub fn register_cluster_terminal(&mut self, cluster_id: u128, session_id: u128)
        ensures
            final(self)@ == old(self)@.registered(cluster_id, session_id),
            old(self)@.wf() ==> final(self)@.wf(),
    {
        let mut list = match self.sessions.remove(&cluster_id) {
            Some(list) => list,
            None => Vec::new(),
        };
        list.push(session_id);
        self.sessions.insert(cluster_id, list);
        self.session_to_cluster.insert(session_id, cluster_id);
        proof {
            assert(self@ =~= old(self)@.registered(cluster_id, session_id));
            if old(self)@.wf() {
                lemma_registered_wf(old(self)@, cluster_id, session_id);
            }
        }
    }

    /// Forgets a cluster: its sessions belong to no cluster, and nothing is opened for it any more.
    pub fn unregister_cluster(&mut self, cluster_id: u128)
        ensures
            final(self)@ == old(self)@.unregistered(cluster_id),
            old(self)@.wf() ==> final(self)@.wf(),
    {
        let ghost before = self@;
        if let Some(members) = self.sessions.remove(&cluster_id) {
            let mut i: usize = 0;
            assert(before.session_to_cluster.remove_keys(members@.take(0).to_set())
                =~= before.session_to_cluster);
            while i < members.len()
                invariant
                    i <= members@.len(),
                    self.sessions@ == old(self).sessions@.remove(cluster_id),
                    self.pending@ == before.pending,
                    self.session_to_cluster@ == before.session_to_cluster.remove_keys(
                        members@.take(i as int).to_set(),
                    ),
                decreases members@.len() - i,
            {
                proof {
                    assert(members@.take(i + 1) =~= members@.take(i as int).push(members@[i as int]));
                    ids::lemma_push_set(members@.take(i as int), members@[i as int]);
                }
                self.session_to_cluster.remove(&members[i]);
                assert(self.session_to_cluster@ =~= before.session_to_cluster.remove_keys(
                    members@.take(i + 1).to_set(),
                ));
                i += 1;
            }
            assert(members@.take(i as int) =~= members@);
            assert(members@ == before.members(cluster_id));
        } else {
            assert(before.session_to_cluster.remove_keys(Seq::<u128>::empty().to_set())
                =~= before.session_to_cluster);
        }
        self.forget_pending(cluster_id);
        proof {
            assert(self@ =~= before.unregistered(cluster_id));
            if before.wf() {
                lemma_unregistered_wf(before, cluster_id);
            }
        }
    }

    fn forget_pending(&mut self, cluster_id: u128)
        ensures
            final(self).sessions == old(self).sessions,
            final(self).session_to_cluster == old(self).session_to_cluster,
            final(self).pending@ == old(self).pending@.remove_keys(
                old(self)@.waiting_for(cluster_id),
            ),
    {
        let ghost all = self.pending@;
        let ghost gone = self@.waiting_for(cluster_id);
        let connections = ids::keys_of(&self.pending);
        let mut i: usize = 0;
        assert(all.remove_keys(gone.intersect(connections@.take(0).to_set())) =~= all);
        while i < connections.len()
            invariant
                i <= connections@.len(),
                connections@.no_duplicates(),
                connections@.to_set() == all.dom(),
                gone == all.dom().filter(|c: u128| all[c] == cluster_id),
                self.sessions == old(self).sessions,
                self.session_to_cluster == old(self).session_to_cluster,
                self.pending@ == all.remove_keys(
                    gone.intersect(connections@.take(i as int).to_set()),
                ),
            decreases connections@.len() - i,
        {
            let c: u128 = connections[i];
            proof {
                assert(connections@.take(i + 1) =~= connections@.take(i as int).push(c));
                ids::lemma_push_set(connections@.take(i as int), c);
                assert(connections@.to_set().contains(connections@[i as int]));
                assert(!connections@.take(i as int).to_set().contains(c)) by {
                    if connections@.take(i as int).to_set().contains(c) {
                        assert(connections@.take(i as int).contains(c));
                    }
                }
            }
            let waits = match self.pending.get(&c) {
                Some(cluster) => *cluster == cluster_id,
                None => false,
            };
            if waits {
                self.pending.remove(&c);
            }
            assert(self.pending@ =~= all.remove_keys(
                gone.intersect(connections@.take(i + 1).to_set()),
            ));
            i += 1;
        }
        assert(connections@.take(i as int) =~= connections@);
        assert(gone.intersect(connections@.to_set()) =~= gone);
    }

    /// Notes that a connection is being opened for a cluster.
    pub fn mark_cluster_pending(&mut self, cluster_id: u128, connection_id: u128)
        ensures
            final(self)@ == (ClustersView {
                pending: old(self)@.pending.insert(connection_id, cluster_id),
                ..old(self)@
            }),
            old(self)@.wf() ==> final(self)@.wf(),
    {
        self.pending.insert(connection_id, cluster_id);
        assert(old(self)@.wf() ==> self@.wf()) by {
            assert forall|c: u128| self@.members(c) == old(self)@.members(c) by {}
        }
    }

    /// Adds the session of a connection to the cluster that it was opened for, if any.
    pub fn resolve_cluster_pending(&mut self, connection_id: u128, session_id: u128)
        ensures
            final(self)@ == old(self)@.resolved(connection_id, session_id),
            old(self)@.wf() ==> final(self)@.wf(),
    {
        if let Some(cluster_id) = self.pending.remove(&connection_id) {
            proof {
                assert(old(self)@.wf() ==> self@.wf()) by {
                    assert forall|c: u128| self@.members(c) == old(self)@.members(c) by {}
                }
                assert(self@ =~= (ClustersView {
                    pending: old(self)@.pending.remove(connection_id),
                    ..old(self)@
                }));
            }
            self.register_cluster_terminal(cluster_id, session_id);
        } else {
            assert(self@ =~= old(self)@);
        }
    }

    /// The sessions of a cluster.
    pub fn get_cluster_sessions(&self, cluster_id: u128) -> (r: Vec<u128>)
        ensures
            r@ == self@.members(cluster_id),
    {
        match self.sessions.get(&cluster_id) {
            Some(list) => {
                let copy = list.clone();
                assert(copy@ =~= list@);
                copy
            },
            None => Vec::new(),
        }
    }
}

proof fn lemma_registered_wf(v: ClustersView, cluster_id: u128, session_id: u128)
    requires
        v.wf(),
    ensures
        v.registered(cluster_id, session_id).wf(),
{
    let w = v.registered(cluster_id, session_id);
    assert forall|s: u128| #[trigger] w.session_to_cluster.contains_key(s) implies w.members(
        w.session_to_cluster[s],
    ).contains(s) by {
        let list = v.members(cluster_id);
        if s == session_id {
            assert(list.push(session_id)[list.len() as int] == s);
        } else {
            assert(v.session_to_cluster.contains_key(s));
            if v.session_to_cluster[s] == cluster_id {
                let i = choose|i: int| 0 <= i < list.len() && list[i] == s;
                assert(list.push(session_id)[i] == s);
            }
        }
    }
}

proof fn lemma_unregistered_wf(v: ClustersView, cluster_id: u128)
    requires
        v.wf(),
    ensures
        v.unregistered(cluster_id).wf(),
{
    let w = v.unregistered(cluster_id);
    assert forall|s: u128| #[trigger] w.session_to_cluster.contains_key(s) implies w.members(
        w.session_to_cluster[s],
    ).contains(s) by {
        assert(v.session_to_cluster.contains_key(s));
        assert(!v.members(cluster_id).contains(s));
    }
}

/// A forgotten cluster leaves nothing behind: no session belongs to it, and no connection is being
/// opened for it.
pub proof fn law_forgotten_cluster_leaves_nothing(v: ClustersView, cluster_id: u128)
    requires
        v.wf(),
    ensures
        v.unregistered(cluster_id).members(cluster_id).len() == 0,
        forall|s: u128| #[trigger]
            v.unregistered(cluster_id).session_to_cluster.contains_key(s) ==> v.unregistered(
                cluster_id,
            ).session_to_cluster[s] != cluster_id,
        forall|c: u128| #[trigger]
            v.unregistered(cluster_id).pending.contains_key(c) ==> v.unregistered(
                cluster_id,
            ).pending[c] != cluster_id,
{
    let w = v.unregistered(cluster_id);
    assert forall|s: u128| #[trigger]
        w.session_to_cluster.contains_key(s) implies w.session_to_cluster[s] != cluster_id by {
        assert(v.session_to_cluster.contains_key(s));
        assert(!v.members(cluster_id).contains(s));
    }
}

/// A tab that appears late still joins the cluster that its connection was opened for, and joins it
/// once.
pub proof fn law_late_tab_joins_its_cluster(
    v: ClustersView,
    cluster_id: u128,
    connection_id: u128,
    session_id: u128,
)
    ensures
        ({
            let opened = ClustersView { pending: v.pending.insert(connection_id, cluster_id), ..v };
            let w = opened.resolved(connection_id, session_id);
            &&& w.members(cluster_id) == v.members(cluster_id).push(session_id)
            &&& w.session_to_cluster[session_id] == cluster_id
            &&& forall|other: u128| w.resolved(connection_id, other) == w
        }),
{
}

/// A session that joins a cluster comes last in it and belongs to it; no other cluster, and no
/// connection that is being opened, is touched.
pub proof fn law_session_joins_its_cluster(v: ClustersView, cluster: u128, session: u128, other: u128)
    ensures
        ({
            let w = v.registered(cluster, session);
            &&& w.members(cluster) == v.members(cluster).push(session)
            &&& w.session_to_cluster.contains_key(session)
            &&& w.session_to_cluster[session] == cluster
            &&& other != cluster ==> w.members(other) == v.members(other)
            &&& other != session ==> w.session_to_cluster.contains_key(other)
                == v.session_to_cluster.contains_key(other)
            &&& other != session && v.session_to_cluster.contains_key(other)
                ==> w.session_to_cluster[other] == v.session_to_cluster[other]
            &&& w.pending == v.pending
        }),
{
}

/// Forgetting a cluster touches no other: its sessions, and the connections that are opened for it,
/// stay.
pub proof fn law_forgetting_touches_no_other_cluster(v: ClustersView, cluster: u128, other: u128, x: u128)
    requires
        other != cluster,
    ensures
        ({
            let w = v.unregistered(cluster);
            &&& w.members(other) == v.members(other)
            &&& v.pending.contains_key(x) && v.pending[x] == other ==> w.pending.contains_key(x)
                && w.pending[x] == other
            &&& v.session_to_cluster.contains_key(x) && !v.members(cluster).contains(x)
                ==> w.session_to_cluster.contains_key(x) && w.session_to_cluster[x]
                == v.session_to_cluster[x]
        }),
{
    assert(v.members(cluster).to_set().contains(x) <==> v.members(cluster).contains(x));
}

/// A tab of a connection that is opened for no cluster joins none; one that is joins that one, and the
/// connection is then no longer waited for.
pub proof fn law_only_awaited_tabs_join(v: ClustersView, connection: u128, session: u128, other: u128)
    ensures
        ({
            let w = v.resolved(connection, session);
            &&& !v.pending.contains_key(connection) ==> w == v
            &&& !w.pending.contains_key(connection)
            &&& other != connection ==> w.pending.contains_key(other) == v.pending.contains_key(other)
            &&& v.pending.contains_key(connection) ==> w.members(v.pending[connection]) == v.members(
                v.pending[connection],
            ).push(session) && w.session_to_cluster[session] == v.pending[connection]
            &&& v.pending.contains_key(connection) && other != v.pending[connection] ==> w.members(
                other,
            ) == v.members(other)
        }),
{
}

/// The sessions of a cluster are listed as they joined; a cluster that is not known has none.
pub proof fn law_cluster_lists_its_sessions(clusters: &Clusters, cluster: u128, r: Vec<u128>)
    requires
        call_ensures(Clusters::get_cluster_sessions, (clusters, cluster), r),
    ensures
        clusters@.sessions.contains_key(cluster) ==> r@ == clusters@.sessions[cluster],
        !clusters@.sessions.contains_key(cluster) ==> r@.len() == 0,
{
}

} // verus!
