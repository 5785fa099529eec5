//! The transport protocols carried over IPv4 that the stack understands, and the TCP/UDP
//! pseudo-header checksum.

use vstd::prelude::*;

use crate::addr_pairs::Ipv4AddrPair;
use crate::checksum::{calculate, internet_checksum};
use crate::error::Error;

verus! {

/// The IPv4 protocol numbers handled by the stack.
#[derive(Clone, Copy, Debug, PartialEq, Eq, Structural)]
pub enum Protocol {
    Icmp,
    Tcp,
    Udp,
}

impl Protocol {
    /// The IPv4 protocol number of `self`.
    pub open spec fn spec_number(self) -> u8 {
        match self {
            Protocol::Icmp => 1,
            Protocol::Tcp => 6,
            Protocol::Udp => 17,
        }
    }

    /// The protocol with IPv4 protocol number `value`, if it is one the stack handles.
    pub open spec fn spec_from_number(value: u8) -> Option<Protocol> {
        if value == 1 {
            Some(Protocol::Icmp)
        } else if value == 6 {
            Some(Protocol::Tcp)
        } else if value == 17 {
            Some(Protocol::Udp)
        } else {
            None
        }
    }

    /// The IPv4 protocol number of `self`.
    pub fn number(self) -> (n: u8)
        ensures
            n == self.spec_number(),
    {
        match self {
            Protocol::Icmp => 1,
            Protocol::Tcp => 6,
            Protocol::Udp => 17,
        }
    }

    /// Converts an IPv4 protocol number, failing for protocols the stack does not handle.
    pub fn try_from(value: u8) -> (r: Result<Protocol, Error>)
        ensures
            r == match Protocol::spec_from_number(value) {
                Some(p) => Ok::<Protocol, Error>(p),
                None => Err(Error::UnsupportedProtocol { number: value }),
            },
    {
        match value {
            1 => Ok(Protocol::Icmp),
            6 => Ok(Protocol::Tcp),
            17 => Ok(Protocol::Udp),
            other => Err(Error::UnsupportedProtocol { number: other }),
        }
    }

    /// The name of the protocol.
    pub fn name(self) -> (s: &'static str)
        ensures
            s@ == self.spec_name(),
    {
        match self {
            Protocol::Icmp => "ICMP",
            Protocol::Tcp => "TCP",
            Protocol::Udp => "UDP",
        }
    }

    /// The name of the protocol.
    pub open spec fn spec_name(self) -> Seq<char> {
        match self {
            Protocol::Icmp => "ICMP"@,
            Protocol::Tcp => "TCP"@,
            Protocol::Udp => "UDP"@,
        }
    }
}

/// Converting a protocol to its number and back gives the protocol.
pub proof fn law_protocol_number_roundtrip(p: Protocol)
    ensures
        Protocol::spec_from_number(p.spec_number()) == Some(p),
{
}

/// The number of bytes in a TCP/UDP pseudo-header.
pub const PSEUDO_HDR_LEN: usize = 12;

/// The TCP/UDP pseudo-header for `len` bytes of `protocol` data sent between `ip_pair`.
pub open spec fn pseudo_header(ip_pair: Ipv4AddrPair, protocol: Protocol, len: u16) -> Seq<u8> {
    ip_pair.src.spec_octets() + ip_pair.dst.spec_octets() + seq![0u8, protocol.spec_number()] + crate::bytes::be_u16_bytes(
        len,
    )
}

/// The TCP/UDP checksum over the pseudo-header and `data`.
pub open spec fn spec_pseudo_header_checksum(
    data: Seq<u8>,
    ip_pair: Ipv4AddrPair,
    protocol: Protocol,
) -> u16 {
    internet_checksum(pseudo_header(ip_pair, protocol, data.len() as u16) + data)
}

/// Calculates the TCP/UDP checksum of the pseudo-header + `data`. `data` should be the TCP/UDP
/// header and payload. Does not zero out the checksum field inside the header of `data` before
/// calculating. Fails if `data` is longer than the Ethernet MTU.
pub fn pseudo_header_checksum(data: &[u8], ip_pair: Ipv4AddrPair, protocol: Protocol) -> (r:
    Result<u16, Error>)
    ensures
        data@.len() <= crate::ETHERNET_MTU ==> r == Ok::<u16, Error>(
            spec_pseudo_header_checksum(data@, ip_pair, protocol),
        ),
        data@.len() > crate::ETHERNET_MTU ==> r == Err::<u16, Error>(
            if data@.len() > 0xFFFF {
                Error::IntConversion
            } else {
                Error::OutOfRange {
                    start: PSEUDO_HDR_LEN,
                    end: (PSEUDO_HDR_LEN + data@.len()) as usize,
                    len: (PSEUDO_HDR_LEN + crate::ETHERNET_MTU) as usize,
                }
            },
        ),
{
    let n = data.len();
    if n > 0xFFFF {
        return Err(Error::IntConversion);
    }
    if n > crate::ETHERNET_MTU {
        return Err(
            Error::OutOfRange {
                start: PSEUDO_HDR_LEN,
                end: PSEUDO_HDR_LEN + n,
                len: PSEUDO_HDR_LEN + crate::ETHERNET_MTU,
            },
        );
    }
    let proto_len = n as u16;
    let mut checksum_data: Vec<u8> = Vec::with_capacity(PSEUDO_HDR_LEN + n);
    checksum_data.push(ip_pair.src.a);
    checksum_data.push(ip_pair.src.b);
    checksum_data.push(ip_pair.src.c);
    checksum_data.push(ip_pair.src.d);
    checksum_data.push(ip_pair.dst.a);
    checksum_data.push(ip_pair.dst.b);
    checksum_data.push(ip_pair.dst.c);
    checksum_data.push(ip_pair.dst.d);
    // Byte 8 is reserved padding for alignment
    checksum_data.push(0);
    checksum_data.push(protocol.number());
    let len_bytes = crate::bytes::u16_to_be_bytes(proto_len);
    checksum_data.push(len_bytes[0]);
    checksum_data.push(len_bytes[1]);
    let ghost header = checksum_data@;
    assert(header =~= pseudo_header(ip_pair, protocol, proto_len));
    let mut i: usize = 0;
    while i < n
        invariant
            n == data@.len(),
            i <= n,
            checksum_data@ == header + data@.subrange(0, i as int),
        decreases n - i,
    {
        checksum_data.push(data[i]);
        i = i + 1;
        assert(checksum_data@ =~= header + data@.subrange(0, i as int));
    }
    assert(data@.subrange(0, n as int) =~= data@);
    Ok(calculate(checksum_data.as_slice()))
}

} // verus!
