//! IPv4 and IPv6 multicast: the addresses and socket set-up of multicast
//! groups, the reading of interface information, and the bookkeeping of
//! publishers and subscribers.
pub mod iface;
pub mod net;
pub mod publisher;
pub mod subscriber;
pub mod text;
