//! A remote gateway as a client sees it: its tunnel addresses and the source
//! networks it may send from, each granted by one or more resources.
use crate::addr::{IpAddr, IpConfig, NetworkPrefix, SocketAddr};
use crate::allowed_ips::{
    has_covering_entry, table_drop_resource, table_entries, table_exact_match_mut,
    table_has_match, table_insert, table_is_empty, table_new, without_resource, ResourceId,
};
use ip_network_table::IpNetworkTable;
use std::collections::HashSet;
use vstd::prelude::*;

verus! {

/// An identifier of a gateway: the 128 bits of its UUID.
pub type GatewayId = u128;

/// The port on a gateway's tunnel address where it answers DNS queries.
pub const TUN_DNS_PORT: u16 = 53535;

/// A packet's source was neither the gateway itself nor inside an allowed network.
#[derive(Clone, Copy, PartialEq, Eq, Structural, Debug)]
pub struct NotAllowedResource(pub IpAddr);

/// The entries after `id` was granted for exactly the network `n`.
pub open spec fn with_grant(m: Map<NetworkPrefix, Set<u128>>, n: NetworkPrefix, id: u128) -> Map<
    NetworkPrefix,
    Set<u128>,
> {
    m.insert(n, grants_of(m, n).insert(id))
}

/// The resources that grant exactly the network `n`, empty where it has no entry.
pub open spec fn grants_of(m: Map<NetworkPrefix, Set<u128>>, n: NetworkPrefix) -> Set<u128> {
    if m.contains_key(n) {
        m[n]
    } else {
        Set::empty()
    }
}

/// Every entry has a valid network and at least one resource.
pub open spec fn entries_wf(m: Map<NetworkPrefix, Set<u128>>) -> bool {
    forall|n: NetworkPrefix| #[trigger]
        m.contains_key(n) ==> n.wf() && m[n] != Set::<u128>::empty()
}

/// Granting two resources for one network leaves both in its set, beside what it
/// held before (nothing, where it had no entry), and every address inside the
/// network is then permitted.
pub proof fn lemma_grants_accumulate(
    m: Map<NetworkPrefix, Set<u128>>,
    p: NetworkPrefix,
    r1: u128,
    r2: u128,
    a: IpAddr,
)
    requires
        r1 != r2,
        p.contains(a),
    ensures
        with_grant(with_grant(m, p, r1), p, r2)[p] == grants_of(m, p).insert(r1).insert(r2),
        !m.contains_key(p) ==> with_grant(with_grant(m, p, r1), p, r2)[p] == set![r1, r2],
        has_covering_entry(with_grant(with_grant(m, p, r1), p, r2), a),
{
    let m2 = with_grant(with_grant(m, p, r1), p, r2);
    assert(m2.contains_key(p));
    if !m.contains_key(p) {
        assert(m2[p] =~= set![r1, r2]);
    }
}

/// A grant for one network leaves unchanged whether an address outside it is
/// permitted.
pub proof fn lemma_grant_is_local(m: Map<NetworkPrefix, Set<u128>>, p: NetworkPrefix, r: u128, a: IpAddr)
    requires
        !p.contains(a),
    ensures
        has_covering_entry(with_grant(m, p, r), a) == has_covering_entry(m, a),
{
    let m2 = with_grant(m, p, r);
    if has_covering_entry(m2, a) {
        let n = choose|n: NetworkPrefix| #[trigger] m2.contains_key(n) && n.contains(a);
        assert(m.contains_key(n));
    }
    if has_covering_entry(m, a) {
        let n = choose|n: NetworkPrefix| #[trigger] m.contains_key(n) && n.contains(a);
        assert(m2.contains_key(n));
    }
}

/// Revoking a resource takes it out of every entry, drops exactly the entries it
/// leaves empty, keeps the other entries as they were, and an address that only
/// entries granted by that resource alone covered is no longer permitted.
pub proof fn lemma_revoke(m: Map<NetworkPrefix, Set<u128>>, r: u128, a: IpAddr)
    requires
        entries_wf(m),
    ensures
        forall|n: NetworkPrefix| #[trigger]
            without_resource(m, r).contains_key(n) ==> without_resource(m, r)[n] == m[n].remove(r)
                && !without_resource(m, r)[n].contains(r),
        forall|n: NetworkPrefix| #[trigger]
            m.contains_key(n) && m[n].remove(r) == Set::<u128>::empty() ==> !without_resource(
                m,
                r,
            ).contains_key(n),
        forall|n: NetworkPrefix| #[trigger]
            m.contains_key(n) && !m[n].contains(r) ==> without_resource(m, r).contains_key(n)
                && without_resource(m, r)[n] == m[n],
        (forall|n: NetworkPrefix| #[trigger]
            m.contains_key(n) && n.contains(a) ==> m[n] == set![r]) ==> !has_covering_entry(
            without_resource(m, r),
            a,
        ),
{
    let m2 = without_resource(m, r);
    assert forall|n: NetworkPrefix| #[trigger]
        m.contains_key(n) && !m[n].contains(r) implies m2.contains_key(n) && m2[n] == m[n] by {
        assert(m[n].remove(r) =~= m[n]);
    }
    if forall|n: NetworkPrefix| #[trigger] m.contains_key(n) && n.contains(a) ==> m[n] == set![r] {
        if has_covering_entry(m2, a) {
            let n = choose|n: NetworkPrefix| #[trigger] m2.contains_key(n) && n.contains(a);
            assert(set![r].remove(r) =~= Set::<u128>::empty());
        }
    }
}

/// The state of one gateway on a client.
pub struct GatewayOnClient {
    id: GatewayId,
    gateway_tun: IpConfig,
    allowed_ips: IpNetworkTable<HashSet<u128>>,
}

impl GatewayOnClient {
    pub closed spec fn spec_id(&self) -> GatewayId {
        self.id
    }

    pub closed spec fn spec_gateway_tun(&self) -> IpConfig {
        self.gateway_tun
    }

    /// The allowed networks, each with the resources that grant it.
    pub closed spec fn allowed(&self) -> Map<NetworkPrefix, Set<u128>> {
        table_entries(self.allowed_ips)
    }

    pub open spec fn wf(&self) -> bool {
        entries_wf(self.allowed())
    }

    /// A gateway with the given tunnel addresses and no allowed network.
    pub fn new(id: GatewayId, gateway_tun: IpConfig) -> (r: GatewayOnClient)
        ensures
            r.spec_id() == id,
            r.spec_gateway_tun() == gateway_tun,
            r.allowed().dom() == Set::<NetworkPrefix>::empty(),
            r.wf(),
    {
        GatewayOnClient { id, allowed_ips: table_new(), gateway_tun }
    }

    /// Grants `id` for exactly the network `ip`, beside the resources it had.
    pub fn allow_ip_for_resource(&mut self, ip: NetworkPrefix, id: ResourceId)
        requires
            ip.wf(),
        ensures
            final(self).allowed() == with_grant(old(self).allowed(), ip, id),
            final(self).spec_id() == old(self).spec_id(),
            final(self).spec_gateway_tun() == old(self).spec_gateway_tun(),
            old(self).wf() ==> final(self).wf(),
    {
        broadcast use vstd::std_specs::hash::group_hash_axioms;

        match table_exact_match_mut(&mut self.allowed_ips, ip) {
            Some(resources) => {
                resources.insert(id);
            },
            None => {
                let mut resources: HashSet<u128> = HashSet::new();
                resources.insert(id);
                table_insert(&mut self.allowed_ips, ip, resources);
            },
        }
        proof {
            let m = table_entries(self.allowed_ips);
            assert(m =~= with_grant(old(self).allowed(), ip, id));
            assert(m[ip].contains(id));
        }
    }

    /// Withdraws `id` from every network and drops the networks it leaves empty.
    pub fn remove_resource(&mut self, id: ResourceId)
        ensures
            final(self).allowed() == without_resource(old(self).allowed(), id),
            final(self).spec_id() == old(self).spec_id(),
            final(self).spec_gateway_tun() == old(self).spec_gateway_tun(),
            old(self).wf() ==> final(self).wf(),
    {
        table_drop_resource(&mut self.allowed_ips, id);
    }

    /// No network is allowed any more.
    pub fn no_allowed_resources(&self) -> (r: bool)
        ensures
            r == (self.allowed().dom() == Set::<NetworkPrefix>::empty()),
    {
        table_is_empty(&self.allowed_ips)
    }

    /// For a given destination, the endpoint to which a DNS query should be sent:
    /// the gateway's tunnel address of the same family, at the DNS port.
    pub fn tun_dns_server_endpoint(&self, dst: IpAddr) -> (r: SocketAddr)
        ensures
            r.port == TUN_DNS_PORT,
            r.ip == match dst {
                IpAddr::V4(_) => IpAddr::V4(self.spec_gateway_tun().v4),
                IpAddr::V6(_) => IpAddr::V6(self.spec_gateway_tun().v6),
            },
    {
        let new_dst_ip = match dst {
            IpAddr::V4(_) => IpAddr::V4(self.gateway_tun.v4),
            IpAddr::V6(_) => IpAddr::V6(self.gateway_tun.v6),
        };
        SocketAddr { ip: new_dst_ip, port: TUN_DNS_PORT }
    }

    pub fn gateway_tun(&self) -> (r: IpConfig)
        ensures
            r == self.spec_gateway_tun(),
    {
        self.gateway_tun
    }

    /// Accepts a packet from `src` where it is the gateway's own tunnel address or
    /// lies inside an allowed network; refuses it with `src` otherwise.
    pub fn ensure_allowed_src(&self, src: IpAddr) -> (r: Result<(), NotAllowedResource>)
        ensures
            r is Ok <==> self.spec_gateway_tun().spec_is_ip(src) || has_covering_entry(
                self.allowed(),
                src,
            ),
            r is Err ==> r == Err::<(), NotAllowedResource>(NotAllowedResource(src)),
    {
        if self.gateway_tun.is_ip(src) {
            return Ok(());
        }
        if !table_has_match(&self.allowed_ips, src) {
            return Err(NotAllowedResource(src));
        }
        Ok(())
    }

    pub fn id(&self) -> (r: GatewayId)
        ensures
            r == self.spec_id(),
    {
        self.id
    }
}

} // verus!
