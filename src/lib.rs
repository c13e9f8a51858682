//! Routing and access-control tables of a mesh tunnel: which sources a remote
//! gateway may send from, and which peer owns which tunnel address.
pub mod addr;
pub mod allowed_ips;
pub mod gateway_on_client;
pub mod peer_store;
