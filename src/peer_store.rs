//! A two-way index of peers: by identity, and by each of their tunnel addresses.
use crate::addr::IpAddr;
use crate::gateway_on_client::GatewayOnClient;
use std::collections::HashMap;
use std::hash::Hash;
use vstd::prelude::*;
use vstd::std_specs::hash::{obeys_key_model, spec_keys_iter};
use vstd::std_specs::iter::IteratorSpec;

verus! {

/// An identifier of a peer, gateway or client: the 128 bits of its UUID.
pub type PeerId = u128;

/// A stored peer reports its two tunnel addresses.
pub trait Peer {
    spec fn spec_tun_ipv4(&self) -> u32;

    spec fn spec_tun_ipv6(&self) -> u128;

    fn tun_ipv4(&self) -> (r: u32)
        ensures
            r == self.spec_tun_ipv4(),
    ;

    fn tun_ipv6(&self) -> (r: u128)
        ensures
            r == self.spec_tun_ipv6(),
    ;
}

impl Peer for GatewayOnClient {
    open spec fn spec_tun_ipv4(&self) -> u32 {
        self.spec_gateway_tun().v4
    }

    open spec fn spec_tun_ipv6(&self) -> u128 {
        self.spec_gateway_tun().v6
    }

    fn tun_ipv4(&self) -> (r: u32) {
        self.gateway_tun().v4
    }

    fn tun_ipv6(&self) -> (r: u128) {
        self.gateway_tun().v6
    }
}

/// The two index keys of a peer.
pub open spec fn v4_key<P: Peer>(p: P) -> IpAddr {
    IpAddr::V4(p.spec_tun_ipv4())
}

pub open spec fn v6_key<P: Peer>(p: P) -> IpAddr {
    IpAddr::V6(p.spec_tun_ipv6())
}

/// Both peers report the same pair of tunnel addresses.
pub open spec fn same_addrs<P: Peer>(a: P, b: P) -> bool {
    a.spec_tun_ipv4() == b.spec_tun_ipv4() && a.spec_tun_ipv6() == b.spec_tun_ipv6()
}

/// An upsert keeps the stored peer: one is stored under `pid` with the same
/// addresses as the candidate.
pub open spec fn keeps_existing<P: Peer>(peers: Map<PeerId, P>, pid: PeerId, peer: P) -> bool {
    peers.contains_key(pid) && same_addrs(peers[pid], peer)
}

/// The peers after an upsert of `peer` under `pid`.
pub open spec fn upserted_peers<P: Peer>(peers: Map<PeerId, P>, pid: PeerId, peer: P) -> Map<
    PeerId,
    P,
> {
    if keeps_existing(peers, pid, peer) {
        peers
    } else {
        peers.insert(pid, peer)
    }
}

/// The address index after an upsert of `peer` under `pid`: a replaced peer's two
/// addresses leave it, then the stored peer's two addresses point at `pid`.
pub open spec fn upserted_index<P: Peer>(
    peers: Map<PeerId, P>,
    index: Map<IpAddr, PeerId>,
    pid: PeerId,
    peer: P,
) -> Map<IpAddr, PeerId> {
    let base = if peers.contains_key(pid) && !keeps_existing(peers, pid, peer) {
        index.remove(v4_key(peers[pid])).remove(v6_key(peers[pid]))
    } else {
        index
    };
    base.insert(v4_key(peer), pid).insert(v6_key(peer), pid)
}

/// The index without every address that points at `id`.
pub open spec fn index_without(index: Map<IpAddr, PeerId>, id: PeerId) -> Map<IpAddr, PeerId> {
    Map::new(|a: IpAddr| index.contains_key(a) && index[a] != id, |a: IpAddr| index[a])
}

/// The index without every address whose peer is no longer stored.
pub open spec fn index_pruned<P>(index: Map<IpAddr, PeerId>, peers: Map<PeerId, P>) -> Map<
    IpAddr,
    PeerId,
> {
    Map::new(|a: IpAddr| index.contains_key(a) && peers.contains_key(index[a]), |a: IpAddr| index[a])
}

/// A second upsert under one identity, with the same addresses as the first,
/// keeps the peer that the first one stored and leaves the index as it was.
pub proof fn lemma_upsert_same_addrs_keeps_peer<P: Peer>(
    peers: Map<PeerId, P>,
    index: Map<IpAddr, PeerId>,
    pid: PeerId,
    first: P,
    second: P,
)
    requires
        same_addrs(first, second),
    ensures
        upserted_peers(upserted_peers(peers, pid, first), pid, second) == upserted_peers(
            peers,
            pid,
            first,
        ),
        upserted_index(upserted_peers(peers, pid, first), upserted_index(peers, index, pid, first), pid, second)
            == upserted_index(peers, index, pid, first),
{
    let peers1 = upserted_peers(peers, pid, first);
    let index1 = upserted_index(peers, index, pid, first);
    assert(keeps_existing(peers1, pid, second));
    assert(upserted_index(peers1, index1, pid, second) =~= index1);
}

/// An upsert whose addresses differ from those of the peer stored under `pid`
/// stores the new peer: its addresses resolve to `pid`, and the old addresses that
/// it does not share no longer resolve.
pub proof fn lemma_upsert_new_addrs_replaces_peer<P: Peer>(
    peers: Map<PeerId, P>,
    index: Map<IpAddr, PeerId>,
    pid: PeerId,
    peer: P,
)
    requires
        peers.contains_key(pid),
        !same_addrs(peers[pid], peer),
    ensures
        upserted_peers(peers, pid, peer)[pid] == peer,
        upserted_index(peers, index, pid, peer)[v4_key(peer)] == pid,
        upserted_index(peers, index, pid, peer)[v6_key(peer)] == pid,
        v4_key(peers[pid]) != v4_key(peer) ==> !upserted_index(peers, index, pid, peer).contains_key(
            v4_key(peers[pid]),
        ),
        v6_key(peers[pid]) != v6_key(peer) ==> !upserted_index(peers, index, pid, peer).contains_key(
            v6_key(peers[pid]),
        ),
{
}

/// After a removal nothing is stored under `id`, and no address that resolved to
/// `id` resolves any more.
pub proof fn lemma_remove_forgets_peer<P>(peers: Map<PeerId, P>, index: Map<IpAddr, PeerId>, id: PeerId, a: IpAddr)
    requires
        index.contains_key(a) && index[a] == id,
    ensures
        !peers.remove(id).contains_key(id),
        !index_without(index, id).contains_key(a),
        forall|b: IpAddr| #[trigger]
            index_without(index, id).contains_key(b) ==> index_without(index, id)[b] != id,
{
}

/// The keys of `m`, each once.
fn keys_of<K: Copy + Eq + Hash, V>(m: &HashMap<K, V>) -> (r: Vec<K>)
    requires
        obeys_key_model::<K>(),
    ensures
        r@.to_set() == m@.dom(),
{
    broadcast use vstd::std_specs::hash::group_hash_axioms;

    let ghost all = spec_keys_iter(m).remaining().unref();
    let mut r: Vec<K> = Vec::new();
    for k in it: m.keys()
        invariant
            it.seq().unref() == all,
            all.to_set() == m@.dom(),
            r@ == all.take(it.index()),
    {
        r.push(*k);
        proof {
            assert(r@ =~= all.take(it.index() + 1));
        }
    }
    proof {
        assert(r@ =~= all);
    }
    r
}

/// Drops every entry of `m` whose value is `id`.
fn drop_entries_to<K: Copy + Eq + Hash>(m: &mut HashMap<K, PeerId>, id: PeerId)
    requires
        obeys_key_model::<K>(),
    ensures
        final(m)@ == Map::new(|k: K| old(m)@.contains_key(k) && old(m)@[k] != id, |k: K| old(m)@[k]),
{
    broadcast use vstd::std_specs::hash::group_hash_axioms;

    let ghost orig = m@;
    let keys = keys_of(m);
    let ghost mut done: Set<K> = Set::empty();
    let mut i: usize = 0;
    while i < keys.len()
        invariant
            obeys_key_model::<K>(),
            0 <= i <= keys.len(),
            keys@.to_set() == orig.dom(),
            forall|j: int| 0 <= j < i ==> done.contains(#[trigger] keys@[j]),
            m@ == Map::new(
                |k: K| orig.contains_key(k) && (orig[k] != id || !done.contains(k)),
                |k: K| orig[k],
            ),
        decreases keys.len() - i,
    {
        let k = keys[i];
        let hit = match m.get(&k) {
            Some(v) => *v == id,
            None => false,
        };
        if hit {
            m.remove(&k);
        }
        proof {
            done = done.insert(k);
        }
        i = i + 1;
        proof {
            assert(m@ =~= Map::new(
                |k: K| orig.contains_key(k) && (orig[k] != id || !done.contains(k)),
                |k: K| orig[k],
            ));
        }
    }
    proof {
        assert forall|k: K| orig.contains_key(k) implies done.contains(k) by {
            assert(keys@.to_set().contains(k));
            let j = choose|j: int| 0 <= j < keys@.len() && #[trigger] keys@[j] == k;
            assert(done.contains(keys@[j]));
        }
        assert(m@ =~= Map::new(|k: K| orig.contains_key(k) && orig[k] != id, |k: K| orig[k]));
    }
}

/// Drops every entry of `m` whose value is not a key of `peers`.
fn drop_orphans<K: Copy + Eq + Hash, P>(m: &mut HashMap<K, PeerId>, peers: &HashMap<PeerId, P>)
    requires
        obeys_key_model::<K>(),
    ensures
        final(m)@ == Map::new(
            |k: K| old(m)@.contains_key(k) && peers@.contains_key(old(m)@[k]),
            |k: K| old(m)@[k],
        ),
{
    broadcast use vstd::std_specs::hash::group_hash_axioms;

    let ghost orig = m@;
    let keys = keys_of(m);
    let ghost mut done: Set<K> = Set::empty();
    let mut i: usize = 0;
    while i < keys.len()
        invariant
            obeys_key_model::<K>(),
            0 <= i <= keys.len(),
            keys@.to_set() == orig.dom(),
            forall|j: int| 0 <= j < i ==> done.contains(#[trigger] keys@[j]),
            m@ == Map::new(
                |k: K| orig.contains_key(k) && (peers@.contains_key(orig[k]) || !done.contains(k)),
                |k: K| orig[k],
            ),
        decreases keys.len() - i,
    {
        let k = keys[i];
        let orphan = match m.get(&k) {
            Some(v) => !peers.contains_key(v),
            None => false,
        };
        if orphan {
            m.remove(&k);
        }
        proof {
            done = done.insert(k);
        }
        i = i + 1;
        proof {
            assert(m@ =~= Map::new(
                |k: K| orig.contains_key(k) && (peers@.contains_key(orig[k]) || !done.contains(k)),
                |k: K| orig[k],
            ));
        }
    }
    proof {
        assert forall|k: K| orig.contains_key(k) implies done.contains(k) by {
            assert(keys@.to_set().contains(k));
            let j = choose|j: int| 0 <= j < keys@.len() && #[trigger] keys@[j] == k;
            assert(done.contains(keys@[j]));
        }
        assert(m@ =~= Map::new(
            |k: K| orig.contains_key(k) && peers@.contains_key(orig[k]),
            |k: K| orig[k],
        ));
    }
}

/// Peers by identity, and the identity behind each tunnel address.
pub struct PeerStore<P> {
    id_by_v4: HashMap<u32, PeerId>,
    id_by_v6: HashMap<u128, PeerId>,
    peer_by_id: HashMap<PeerId, P>,
}

impl<P> PeerStore<P> {
    /// The stored peers by identity.
    pub closed spec fn peers(&self) -> Map<PeerId, P> {
        self.peer_by_id@
    }

    /// The identity that each indexed address resolves to.
    pub closed spec fn index(&self) -> Map<IpAddr, PeerId> {
        Map::new(
            |a: IpAddr|
                match a {
                    IpAddr::V4(x) => self.id_by_v4@.contains_key(x),
                    IpAddr::V6(x) => self.id_by_v6@.contains_key(x),
                },
            |a: IpAddr|
                match a {
                    IpAddr::V4(x) => self.id_by_v4@[x],
                    IpAddr::V6(x) => self.id_by_v6@[x],
                },
        )
    }
}

impl<P> Default for PeerStore<P> {
    fn default() -> (r: Self)
        ensures
            r.peers() == Map::<PeerId, P>::empty(),
            r.index() == Map::<IpAddr, PeerId>::empty(),
    {
        let r = PeerStore { id_by_v4: HashMap::new(), id_by_v6: HashMap::new(), peer_by_id: HashMap::new() };
        proof {
            assert(r.index() =~= Map::<IpAddr, PeerId>::empty());
        }
        r
    }
}

impl<P: Peer> PeerStore<P> {
    /// Every indexed address points at a stored peer that reports that address.
    pub open spec fn wf(&self) -> bool {
        forall|a: IpAddr| #[trigger]
            self.index().contains_key(a) ==> self.peers().contains_key(self.index()[a]) && (a
                == v4_key(self.peers()[self.index()[a]]) || a == v6_key(
                self.peers()[self.index()[a]],
            ))
    }

    /// Stores `peer` under `pid` and indexes its addresses; where a peer with the
    /// same addresses is stored already, that one stays and `peer` is dropped.
    /// Returns the stored peer.
    pub fn upsert_peer(&mut self, pid: PeerId, peer: P) -> (r: &mut P)
        ensures
            *r == upserted_peers(old(self).peers(), pid, peer)[pid],
            final(self).peers() == upserted_peers(old(self).peers(), pid, peer).insert(pid, *final(r)),
            final(self).index() == upserted_index(old(self).peers(), old(self).index(), pid, peer),
            old(self).wf() && same_addrs(*final(r), *r) ==> final(self).wf(),
    {
        broadcast use vstd::std_specs::hash::group_hash_axioms;

        let ghost old_peers = self.peers();
        let ghost old_index = self.index();
        let ghost candidate = peer;
        let v4 = peer.tun_ipv4();
        let v6 = peer.tun_ipv6();
        if let Some(existing) = self.peer_by_id.get(&pid) {
            let old_v4 = existing.tun_ipv4();
            let old_v6 = existing.tun_ipv6();
            if old_v4 != v4 || old_v6 != v6 {
                self.id_by_v4.remove(&old_v4);
                self.id_by_v6.remove(&old_v6);
                self.peer_by_id.remove(&pid);
            }
        }
        self.id_by_v4.insert(v4, pid);
        self.id_by_v6.insert(v6, pid);
        proof {
            assert(self.index() =~= upserted_index(old_peers, old_index, pid, candidate));
        }
        self.peer_by_id.entry(pid).or_insert(peer)
    }

    /// Calls `make_peer` once, then stores its result as `upsert_peer` does.
    pub fn upsert<F: FnOnce() -> P>(&mut self, pid: PeerId, make_peer: F) -> (r: &mut P)
        requires
            make_peer.requires(()),
        ensures
            exists|peer: P|
                #[trigger] make_peer.ensures((), peer) && *r == upserted_peers(
                    old(self).peers(),
                    pid,
                    peer,
                )[pid] && final(self).peers() == upserted_peers(old(self).peers(), pid, peer).insert(
                    pid,
                    *final(r),
                ) && final(self).index() == upserted_index(
                    old(self).peers(),
                    old(self).index(),
                    pid,
                    peer,
                ),
    {
        let peer = make_peer();
        self.upsert_peer(pid, peer)
    }

    /// Removes the peer stored under `id`, and every address that points at `id`.
    pub fn remove(&mut self, id: &PeerId) -> (r: Option<P>)
        ensures
            final(self).peers() == old(self).peers().remove(*id),
            final(self).index() == index_without(old(self).index(), *id),
            old(self).wf() ==> final(self).wf(),
            r == (if old(self).peers().contains_key(*id) {
                Some(old(self).peers()[*id])
            } else {
                None
            }),
    {
        broadcast use vstd::std_specs::hash::group_hash_axioms;

        let ghost old_index = self.index();
        drop_entries_to(&mut self.id_by_v4, *id);
        drop_entries_to(&mut self.id_by_v6, *id);
        proof {
            assert(self.index() =~= index_without(old_index, *id));
        }
        self.peer_by_id.remove(id)
    }

    /// The peer stored under `id`.
    pub fn peer_by_id(&self, id: &PeerId) -> (r: Option<&P>)
        ensures
            r is Some <==> self.peers().contains_key(*id),
            r is Some ==> *r->0 == self.peers()[*id],
    {
        broadcast use vstd::std_specs::hash::group_hash_axioms;

        self.peer_by_id.get(id)
    }

    /// The peer stored under `id`, to change in place.
    pub fn peer_by_id_mut(&mut self, id: &PeerId) -> (r: Option<&mut P>)
        ensures
            r is Some <==> old(self).peers().contains_key(*id),
            r is Some ==> *r->0 == old(self).peers()[*id] && final(self).peers() == old(
                self,
            ).peers().insert(*id, *final(r->0)),
            r is None ==> final(self).peers() == old(self).peers(),
            final(self).index() == old(self).index(),
            old(self).wf() && (r is Some ==> same_addrs(*final(r->0), *r->0)) ==> final(self).wf(),
    {
        broadcast use vstd::std_specs::hash::group_hash_axioms;

        match self.peer_by_id.entry(*id) {
            std::collections::hash_map::Entry::Occupied(e) => Some(e.into_mut()),
            std::collections::hash_map::Entry::Vacant(_) => None,
        }
    }

    /// The peer that the address `ip` resolves to.
    pub fn peer_by_ip(&self, ip: IpAddr) -> (r: Option<&P>)
        ensures
            r is Some <==> self.index().contains_key(ip) && self.peers().contains_key(
                self.index()[ip],
            ),
            r is Some ==> *r->0 == self.peers()[self.index()[ip]],
    {
        broadcast use vstd::std_specs::hash::group_hash_axioms;

        let id = match ip {
            IpAddr::V4(x) => self.id_by_v4.get(&x),
            IpAddr::V6(x) => self.id_by_v6.get(&x),
        };
        match id {
            Some(id) => self.peer_by_id.get(id),
            None => None,
        }
    }

    /// The peer that the address `ip` resolves to, to change in place.
    pub fn peer_by_ip_mut(&mut self, ip: IpAddr) -> (r: Option<&mut P>)
        ensures
            r is Some <==> old(self).index().contains_key(ip) && old(self).peers().contains_key(
                old(self).index()[ip],
            ),
            r is Some ==> *r->0 == old(self).peers()[old(self).index()[ip]] && final(self).peers()
                == old(self).peers().insert(old(self).index()[ip], *final(r->0)),
            r is None ==> final(self).peers() == old(self).peers(),
            final(self).index() == old(self).index(),
            old(self).wf() && (r is Some ==> same_addrs(*final(r->0), *r->0)) ==> final(self).wf(),
    {
        broadcast use vstd::std_specs::hash::group_hash_axioms;

        let id = match ip {
            IpAddr::V4(x) => self.id_by_v4.get(&x),
            IpAddr::V6(x) => self.id_by_v6.get(&x),
        };
        match id {
            Some(id) => {
                let id = *id;
                self.peer_by_id_mut(&id)
            },
            None => None,
        }
    }

    /// Removes every peer for which `f` holds and returns them with their
    /// identities, then drops the addresses whose peer is gone.
    pub fn extract_if<F: Fn(&PeerId, &P) -> bool>(&mut self, f: F) -> (removed: Vec<(PeerId, P)>)
        requires
            forall|id: PeerId, p: P| #[trigger] f.requires((&id, &p)),
        ensures
            forall|id: PeerId| #[trigger]
                final(self).peers().contains_key(id) ==> old(self).peers().contains_key(id)
                    && final(self).peers()[id] == old(self).peers()[id] && f.ensures(
                    (&id, &old(self).peers()[id]),
                    false,
                ),
            forall|i: int| #![trigger removed@[i]]
                0 <= i < removed@.len() ==> old(self).peers().contains_key(removed@[i].0)
                    && removed@[i].1 == old(self).peers()[removed@[i].0]
                    && !final(self).peers().contains_key(removed@[i].0) && f.ensures(
                    (&removed@[i].0, &removed@[i].1),
                    true,
                ),
            forall|i: int, j: int|
                0 <= i < j < removed@.len() ==> #[trigger] removed@[i].0 != #[trigger] removed@[j].0,
            forall|id: PeerId| #[trigger]
                old(self).peers().contains_key(id) ==> final(self).peers().contains_key(id) || exists|
                    i: int,
                | 0 <= i < removed@.len() && #[trigger] removed@[i].0 == id,
            final(self).index() == index_pruned(old(self).index(), final(self).peers()),
            old(self).wf() ==> final(self).wf(),
    {
        broadcast use vstd::std_specs::hash::group_hash_axioms;

        let ghost orig = self.peers();
        let ghost orig_index = self.index();
        let ids = keys_of(&self.peer_by_id);
        let mut removed: Vec<(PeerId, P)> = Vec::new();
        let ghost mut done: Set<PeerId> = Set::empty();
        let mut i: usize = 0;
        while i < ids.len()
            invariant
                0 <= i <= ids.len(),
                ids@.to_set() == orig.dom(),
                forall|id: PeerId, p: P| #[trigger] f.requires((&id, &p)),
                forall|j: int| 0 <= j < i ==> done.contains(#[trigger] ids@[j]),
                self.index() == orig_index,
                forall|id: PeerId| #[trigger]
                    self.peers().contains_key(id) ==> orig.contains_key(id) && self.peers()[id]
                        == orig[id] && (done.contains(id) ==> f.ensures((&id, &orig[id]), false)),
                forall|id: PeerId| #[trigger]
                    orig.contains_key(id) && !done.contains(id) ==> self.peers().contains_key(id),
                forall|k: int| #![trigger removed@[k]]
                    0 <= k < removed@.len() ==> orig.contains_key(removed@[k].0) && removed@[k].1
                        == orig[removed@[k].0] && !self.peers().contains_key(removed@[k].0)
                        && f.ensures((&removed@[k].0, &removed@[k].1), true),
                forall|k: int, l: int|
                    0 <= k < l < removed@.len() ==> #[trigger] removed@[k].0 != #[trigger] removed@[l].0,
                forall|id: PeerId| #[trigger]
                    orig.contains_key(id) ==> self.peers().contains_key(id) || exists|k: int|
                        0 <= k < removed@.len() && #[trigger] removed@[k].0 == id,
            decreases ids.len() - i,
        {
            let id = ids[i];
            let ghost removed_before = removed@;
            let ghost peers_before = self.peers();
            let take = match self.peer_by_id.get(&id) {
                Some(p) => f(&id, p),
                None => false,
            };
            proof {
                if peers_before.contains_key(id) {
                    assert(f.ensures((&id, &orig[id]), take));
                }
            }
            if take {
                if let Some(p) = self.peer_by_id.remove(&id) {
                    removed.push((id, p));
                    proof {
                        assert(removed@[removed@.len() - 1].0 == id);
                    }
                }
            }
            proof {
                done = done.insert(id);
                assert forall|x: PeerId| #[trigger]
                    orig.contains_key(x) implies self.peers().contains_key(x) || exists|k: int|
                        0 <= k < removed@.len() && #[trigger] removed@[k].0 == x by {
                    if !self.peers().contains_key(x) {
                        if x == id && take {
                            assert(removed@[removed@.len() - 1].0 == x);
                        } else {
                            let k = choose|k: int|
                                0 <= k < removed_before.len() && #[trigger] removed_before[k].0 == x;
                            assert(removed@[k] == removed_before[k]);
                        }
                    }
                }
            }
            i = i + 1;
        }
        proof {
            assert forall|id: PeerId| orig.contains_key(id) implies done.contains(id) by {
                assert(ids@.to_set().contains(id));
                let j = choose|j: int| 0 <= j < ids@.len() && #[trigger] ids@[j] == id;
                assert(done.contains(ids@[j]));
            }
        }
        let ghost kept = self.peers();
        drop_orphans(&mut self.id_by_v4, &self.peer_by_id);
        drop_orphans(&mut self.id_by_v6, &self.peer_by_id);
        proof {
            assert(self.index() =~= index_pruned(orig_index, kept));
        }
        removed
    }

    /// The identities of all stored peers, each once, in no set order; with
    /// `peer_by_id_mut` they give mutable access to every peer.
    pub fn ids(&self) -> (r: Vec<PeerId>)
        ensures
            r@.to_set() == self.peers().dom(),
    {
        broadcast use vstd::std_specs::hash::group_hash_axioms;

        keys_of(&self.peer_by_id)
    }

    /// Empties both the peers and the address index.
    pub fn clear(&mut self)
        ensures
            final(self).peers() == Map::<PeerId, P>::empty(),
            final(self).index() == Map::<IpAddr, PeerId>::empty(),
            final(self).wf(),
    {
        self.id_by_v4.clear();
        self.id_by_v6.clear();
        self.peer_by_id.clear();
        proof {
            assert(self.index() =~= Map::<IpAddr, PeerId>::empty());
        }
    }
}

} // verus!
