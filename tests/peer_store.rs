use peer_routing::addr::{IpAddr, NetworkPrefix};
use peer_routing::addr::IpConfig;
use peer_routing::gateway_on_client::GatewayOnClient;
use peer_routing::peer_store::PeerStore;

/// A peer for the store: a gateway whose identity stands for the peer's.
fn dummy_peer(id: u128, ipv4: u32, ipv6: u128) -> GatewayOnClient {
    GatewayOnClient::new(id, IpConfig { v4: ipv4, v6: ipv6 })
}

fn v4(a: u8, b: u8, c: u8, d: u8) -> u32 {
    u32::from_be_bytes([a, b, c, d])
}

const V4_LOCALHOST: u32 = 0x7f00_0001;
const V6_LOCALHOST: u128 = 1;

#[test]
fn can_insert_and_retrieve_peer() {
    let mut peer_storage = PeerStore::<GatewayOnClient>::default();
    peer_storage.upsert(0, || dummy_peer(0, V4_LOCALHOST, V6_LOCALHOST));
    assert!(peer_storage.peer_by_id(&0).is_some());
}

#[test]
fn can_insert_and_retrieve_peer_by_ip() {
    let mut peer_storage = PeerStore::<GatewayOnClient>::default();
    peer_storage.upsert(0, || dummy_peer(0, V4_LOCALHOST, V6_LOCALHOST));

    assert_eq!(
        peer_storage
            .peer_by_ip(IpAddr::V4(V4_LOCALHOST))
            .unwrap()
            .id(),
        0
    );
}

#[test]
fn can_remove_peer() {
    let mut peer_storage = PeerStore::<GatewayOnClient>::default();
    peer_storage.upsert(0, || dummy_peer(0, V4_LOCALHOST, V6_LOCALHOST));
    peer_storage.remove(&0);

    assert!(peer_storage.peer_by_id(&0).is_none());
    assert!(peer_storage.peer_by_ip(IpAddr::V4(V4_LOCALHOST)).is_none())
}

#[test]
fn inserting_peer_removes_previous_instances_of_same_id() {
    let mut peer_storage = PeerStore::<GatewayOnClient>::default();
    peer_storage.upsert(0, || dummy_peer(0, v4(1, 1, 1, 1), V6_LOCALHOST));
    peer_storage.upsert(0, || dummy_peer(0, V4_LOCALHOST, V6_LOCALHOST));

    assert!(peer_storage.peer_by_id(&0).is_some());
    assert!(peer_storage.peer_by_ip(IpAddr::V4(v4(1, 1, 1, 1))).is_none())
}

#[test]
fn upsert_with_same_addresses_keeps_stored_peer() {
    let mut store = PeerStore::<GatewayOnClient>::default();
    store.upsert(3, || dummy_peer(1, v4(10, 0, 0, 1), 7));
    let second = store.upsert(3, || dummy_peer(2, v4(10, 0, 0, 1), 7));
    assert_eq!(second.id(), 1);
    assert_eq!(store.peer_by_id(&3).unwrap().id(), 1);
    assert_eq!(store.peer_by_ip(IpAddr::V4(v4(10, 0, 0, 1))).unwrap().id(), 1);
    assert_eq!(store.peer_by_ip(IpAddr::V6(7)).unwrap().id(), 1);
}

#[test]
fn upsert_with_new_addresses_replaces_peer() {
    let mut store = PeerStore::<GatewayOnClient>::default();
    store.upsert(5, || dummy_peer(1, v4(1, 1, 1, 1), V6_LOCALHOST));
    let second = store.upsert(5, || dummy_peer(2, V4_LOCALHOST, V6_LOCALHOST));
    assert_eq!(second.id(), 2);
    assert!(store.peer_by_ip(IpAddr::V4(v4(1, 1, 1, 1))).is_none());
    assert_eq!(store.peer_by_ip(IpAddr::V4(V4_LOCALHOST)).unwrap().id(), 2);
    assert_eq!(store.peer_by_ip(IpAddr::V6(V6_LOCALHOST)).unwrap().id(), 2);
    assert_eq!(store.peer_by_id(&5).unwrap().id(), 2);
}

#[test]
fn upsert_with_new_v6_drops_old_v6() {
    let mut store = PeerStore::<GatewayOnClient>::default();
    store.upsert(5, || dummy_peer(1, V4_LOCALHOST, 10));
    store.upsert(5, || dummy_peer(2, V4_LOCALHOST, 11));
    assert!(store.peer_by_ip(IpAddr::V6(10)).is_none());
    assert_eq!(store.peer_by_ip(IpAddr::V6(11)).unwrap().id(), 2);
    assert_eq!(store.peer_by_ip(IpAddr::V4(V4_LOCALHOST)).unwrap().id(), 2);
}

#[test]
fn remove_returns_peer_and_forgets_all_its_addresses() {
    let mut store = PeerStore::<GatewayOnClient>::default();
    store.upsert(5, || dummy_peer(5, v4(10, 0, 0, 5), 50));
    store.upsert(6, || dummy_peer(6, v4(10, 0, 0, 6), 60));
    assert_eq!(store.remove(&5).unwrap().id(), 5);
    assert!(store.remove(&5).is_none());
    assert!(store.peer_by_ip(IpAddr::V4(v4(10, 0, 0, 5))).is_none());
    assert!(store.peer_by_ip(IpAddr::V6(50)).is_none());
    assert_eq!(store.peer_by_ip(IpAddr::V6(60)).unwrap().id(), 6);
}

#[test]
fn extract_if_removes_matching_peers_only() {
    let mut store = PeerStore::<GatewayOnClient>::default();
    store.upsert(5, || dummy_peer(5, v4(10, 0, 0, 5), 50));
    store.upsert(6, || dummy_peer(6, v4(10, 0, 0, 6), 60));
    let removed = store.extract_if(|id, _| *id == 5);
    assert_eq!(removed.len(), 1);
    assert_eq!(removed[0].0, 5);
    assert_eq!(removed[0].1.id(), 5);
    assert!(store.peer_by_id(&5).is_none());
    assert!(store.peer_by_ip(IpAddr::V4(v4(10, 0, 0, 5))).is_none());
    assert!(store.peer_by_ip(IpAddr::V6(50)).is_none());
    assert_eq!(store.peer_by_id(&6).unwrap().id(), 6);
    assert_eq!(store.peer_by_ip(IpAddr::V4(v4(10, 0, 0, 6))).unwrap().id(), 6);
}

#[test]
fn extract_if_on_no_match_returns_nothing() {
    let mut store = PeerStore::<GatewayOnClient>::default();
    store.upsert(5, || dummy_peer(5, v4(10, 0, 0, 5), 50));
    let removed = store.extract_if(|_, p| p.id() == 99);
    assert!(removed.is_empty());
    assert_eq!(store.peer_by_ip(IpAddr::V6(50)).unwrap().id(), 5);
}

#[test]
fn lookups_on_empty_store_find_nothing() {
    let mut store = PeerStore::<GatewayOnClient>::default();
    assert!(store.peer_by_id(&1).is_none());
    assert!(store.peer_by_ip(IpAddr::V4(V4_LOCALHOST)).is_none());
    assert!(store.peer_by_id_mut(&1).is_none());
    assert!(store.peer_by_ip_mut(IpAddr::V6(V6_LOCALHOST)).is_none());
}

#[test]
fn mutable_lookups_change_stored_peer() {
    let mut store = PeerStore::<GatewayOnClient>::default();
    store.upsert(5, || dummy_peer(5, v4(10, 0, 0, 5), 50));
    store
        .peer_by_id_mut(&5)
        .unwrap()
        .allow_ip_for_resource(NetworkPrefix::new_v4(v4(10, 1, 0, 0), 16).unwrap(), 1);
    assert!(store.peer_by_id(&5).unwrap().ensure_allowed_src(IpAddr::V4(v4(10, 1, 2, 3))).is_ok());
    store.peer_by_ip_mut(IpAddr::V6(50)).unwrap().remove_resource(1);
    assert!(store.peer_by_ip(IpAddr::V4(v4(10, 0, 0, 5))).unwrap().no_allowed_resources());
}

#[test]
fn clear_empties_both_indices() {
    let mut store = PeerStore::<GatewayOnClient>::default();
    store.upsert(5, || dummy_peer(5, v4(10, 0, 0, 5), 50));
    store.clear();
    assert!(store.peer_by_id(&5).is_none());
    assert!(store.peer_by_ip(IpAddr::V6(50)).is_none());
}

#[test]
fn ids_lists_every_stored_peer_once() {
    let mut store = PeerStore::<GatewayOnClient>::default();
    store.upsert(5, || dummy_peer(5, v4(10, 0, 0, 5), 50));
    store.upsert(6, || dummy_peer(6, v4(10, 0, 0, 6), 60));
    store.upsert(5, || dummy_peer(5, v4(10, 0, 0, 7), 50));
    let mut ids = store.ids();
    ids.sort();
    assert_eq!(ids, vec![5, 6]);
}
