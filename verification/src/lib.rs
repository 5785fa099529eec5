//! A userspace IPv4/ICMP/TCP/UDP echo stack: parsing, reply logic and encoding of packets
//! exchanged over a TUN device, with the TCP connection state machine.

pub mod addr_pairs;
pub mod bytes;
pub mod checksum;
pub mod config;
pub mod display;
pub mod error;
pub mod handler;
pub mod icmp_echo;
pub mod ipv4;
pub mod logger;
pub mod protocol;
pub mod server;
pub mod tcp;
pub mod text;
pub mod try_ops;
pub mod tun;
pub mod udp;

use vstd::prelude::*;

verus! {

/// The Maximum Transmission Unit of standard Ethernet (frames up to 1500 bytes of IP packet data).
pub const ETHERNET_MTU: usize = 1500;

} // verus!
