//! Host reachability probing with ICMP Echo: the wire codec, the Internet
//! checksum it relies on, round-trip statistics, and the probe engine that
//! correlates replies with outstanding requests under a per-probe budget.
pub mod checksum;
pub mod engine;
pub mod icmp;
pub mod ip;
pub mod stats;
