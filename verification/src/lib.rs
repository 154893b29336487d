//! Passive and active discovery of network endpoints over multicast DNS
//! service discovery: the query scheduler, the two-phase service enumeration,
//! the endpoint and service aggregation with its merge rules, and the
//! fingerprint matcher. Sockets, clocks and name lookups stay with the caller,
//! who hands this crate plain values.

pub mod agent;
pub mod catalog;
pub mod channel;
pub mod endpoint;
pub mod fingerprint;
pub mod properties;
pub mod question;
pub mod record;
pub mod text;
pub mod wire;
