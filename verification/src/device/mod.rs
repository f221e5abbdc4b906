//! The simulated devices.

pub mod ipv4;
pub mod ip_nat;
pub mod router_v4;
pub mod hop_v4;
pub mod machine;
pub mod ip_hub;
