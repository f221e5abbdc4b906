//! Devices that work on IPv4 packets.

pub mod ipv4_nat;
pub mod ether_adaptor;
pub mod hop;
pub mod router;
