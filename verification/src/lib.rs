//! `netsim`: building blocks for simulated networks.
//!
//! This crate holds the packet formats, address arithmetic, routing, NAT and interface
//! configuration logic of a network simulator. Every function here is verified: its contract
//! states what it computes, and Verus checks the body against it. The event loops, channels and
//! system calls that drive these pieces live outside this library.

mod addr;
mod random;
pub mod bytes;
pub mod checksum;
mod port_walk;
pub mod network;
pub mod cidr;
pub mod ipv4;
pub mod datagram;
pub mod mac;
pub mod arp;
pub mod icmpv6;
pub mod ipv6;
pub mod ip;
pub mod udp;
pub mod hops;
pub mod hub;
pub mod frame_buffer;
pub mod delay_queue;
pub mod gateway;
pub mod ethernet;
pub mod device;
pub mod iface;

pub use addr::{Ipv4Addr, Ipv6Addr, SocketAddrV4};
pub use network::{Ipv4Network, Ipv4Range, Ipv4Route};
