//! The table of allowed source networks, kept in `ip_network_table`'s prefix
//! table and seen through the map of its entries.
use crate::addr::{IpAddr, NetworkPrefix};
use ip_network_table::IpNetworkTable;
use std::collections::HashSet;
use vstd::prelude::*;

verus! {

/// An identifier of a resource: the 128 bits of its UUID.
pub type ResourceId = u128;

#[verifier::external_type_specification]
#[verifier::external_body]
#[verifier::reject_recursive_types(T)]
pub struct ExIpNetworkTable<T>(IpNetworkTable<T>);

#[verifier::external_type_specification]
#[verifier::external_body]
pub struct ExOutsideIpNetwork(ip_network::IpNetwork);

/// What a table of resource sets holds: each exact network with its set.
pub uninterp spec fn table_entries(t: IpNetworkTable<HashSet<u128>>) -> Map<NetworkPrefix, Set<u128>>;

/// Some entry's network holds `ip`.
pub open spec fn has_covering_entry(m: Map<NetworkPrefix, Set<u128>>, ip: IpAddr) -> bool {
    exists|n: NetworkPrefix| #[trigger] m.contains_key(n) && n.contains(ip)
}

/// The entries once `id` left every set and the emptied entries were dropped.
pub open spec fn without_resource(m: Map<NetworkPrefix, Set<u128>>, id: u128) -> Map<
    NetworkPrefix,
    Set<u128>,
> {
    Map::new(
        |n: NetworkPrefix| m.contains_key(n) && m[n].remove(id) != Set::<u128>::empty(),
        |n: NetworkPrefix| m[n].remove(id),
    )
}

/// Relies on ip_network::Ipv4Network::new and Ipv6Network::new, which accept a
/// network whose prefix length fits and whose host bits are clear.
#[verifier::external_body]
fn outside_network(n: NetworkPrefix) -> ip_network::IpNetwork
    requires
        n.wf(),
{
    match n {
        NetworkPrefix::V4 { addr, len } => ip_network::Ipv4Network::new(addr.into(), len).unwrap().into(),
        NetworkPrefix::V6 { addr, len } => ip_network::Ipv6Network::new(addr.into(), len).unwrap().into(),
    }
}

/// Relies on IpNetworkTable::new: a table without entries.
#[verifier::external_body]
pub(crate) fn table_new() -> (r: IpNetworkTable<HashSet<u128>>)
    ensures
        table_entries(r).dom() == Set::<NetworkPrefix>::empty(),
{
    IpNetworkTable::new()
}

/// Relies on IpNetworkTable::is_empty: true iff neither family holds an entry.
#[verifier::external_body]
pub(crate) fn table_is_empty(t: &IpNetworkTable<HashSet<u128>>) -> (r: bool)
    ensures
        r == (table_entries(*t).dom() == Set::<NetworkPrefix>::empty()),
{
    t.is_empty()
}

/// Relies on IpNetworkTable::insert: the value for `n` is set, whether or not `n`
/// had one.
#[verifier::external_body]
pub(crate) fn table_insert(t: &mut IpNetworkTable<HashSet<u128>>, n: NetworkPrefix, v: HashSet<u128>)
    requires
        n.wf(),
    ensures
        table_entries(*final(t)) == table_entries(*old(t)).insert(n, v@),
{
    t.insert(outside_network(n), v);
}

/// Relies on IpNetworkTable::exact_match_mut: the value stored for exactly `n`,
/// which the caller may change in place.
#[verifier::external_body]
pub(crate) fn table_exact_match_mut(t: &mut IpNetworkTable<HashSet<u128>>, n: NetworkPrefix) -> (r:
    Option<&mut HashSet<u128>>)
    requires
        n.wf(),
    ensures
        r is None ==> !table_entries(*old(t)).contains_key(n) && *final(t) == *old(t),
        r is Some ==> table_entries(*old(t)).contains_key(n) && (*r->0)@ == table_entries(
            *old(t),
        )[n] && table_entries(*final(t)) == table_entries(*old(t)).insert(n, (*final(r->0))@),
{
    t.exact_match_mut(outside_network(n))
}

/// Relies on IpNetworkTable::longest_match_ipv4 and longest_match_ipv6: some
/// network is found iff an entry contains the address.
#[verifier::external_body]
pub(crate) fn table_has_match(t: &IpNetworkTable<HashSet<u128>>, ip: IpAddr) -> (r: bool)
    ensures
        r == has_covering_entry(table_entries(*t), ip),
{
    match ip {
        IpAddr::V4(a) => t.longest_match_ipv4(a.into()).is_some(),
        IpAddr::V6(a) => t.longest_match_ipv6(a.into()).is_some(),
    }
}

/// Takes `id` out of `set` and tells whether anything is left.
pub(crate) fn drop_resource(set: &mut HashSet<u128>, id: u128) -> (keep: bool)
    ensures
        final(set)@ == old(set)@.remove(id),
        keep == (final(set)@ != Set::<u128>::empty()),
{
    broadcast use vstd::std_specs::hash::group_hash_axioms;

    set.remove(&id);
    let keep = !set.is_empty();
    proof {
        if !keep {
            assert(set@ =~= Set::<u128>::empty());
        } else if set@ == Set::<u128>::empty() {
            assert(set@.len() == 0);
        }
    }
    keep
}

/// Relies on IpNetworkTable::retain: every entry is handed to the closure once,
/// and those for which it answers false are removed after the scan.
#[verifier::external_body]
pub(crate) fn table_drop_resource(t: &mut IpNetworkTable<HashSet<u128>>, id: u128)
    ensures
        table_entries(*final(t)) == without_resource(table_entries(*old(t)), id),
{
    t.retain(|_, set| drop_resource(set, id));
}

} // verus!
