//! IPv4 headers: parsing incoming packets and writing reply headers.

use vstd::prelude::*;

use crate::addr_pairs::{Ipv4Addr, Ipv4AddrPair};
use crate::bytes::{be_u16, be_u16_bytes, u16_from_be};
use crate::checksum::{calculate, internet_checksum};
use crate::error::{Error, HeaderKind};
use crate::protocol::Protocol;
use crate::text::{decimal, push_decimal, push_str};

verus! {

/// The number of bytes in an IPv4 header without options.
pub const IPV4_HDR_MIN_LEN: u16 = 20;

/// IPv4 packet header fields and replies.
#[derive(Clone, Copy, Debug, PartialEq, Eq, Structural)]
pub struct Ipv4Header {
    pub total_len: u16,
    pub protocol: Protocol,
    pub ip_pair: Ipv4AddrPair,
}

/// The source and destination addresses in an IPv4 header.
pub open spec fn spec_ip_pair(data: Seq<u8>) -> Ipv4AddrPair {
    Ipv4AddrPair {
        src: Ipv4Addr { a: data[12], b: data[13], c: data[14], d: data[15] },
        dst: Ipv4Addr { a: data[16], b: data[17], c: data[18], d: data[19] },
    }
}

/// The header length that an IPv4 header declares, in bytes.
pub open spec fn spec_ihl_bytes(data: Seq<u8>) -> int {
    (data[0] % 16) * 4
}

/// Parses an IPv4 header: the header and payload, or why the data is not an IPv4 packet the
/// stack handles.
pub open spec fn spec_ipv4_parse(data: Seq<u8>) -> Result<(Ipv4Header, Seq<u8>), Error> {
    if data.len() < 20 {
        Err(Error::TooShort { header: HeaderKind::Ipv4, len: data.len() as usize })
    } else if data[0] / 16 == 6 {
        Err(Error::Ipv6Packet)
    } else if data[0] / 16 != 4 {
        Err(Error::UnexpectedIpVersion { version: data[0] / 16 })
    } else {
        match Protocol::spec_from_number(data[9]) {
            None => Err(Error::UnsupportedProtocol { number: data[9] }),
            Some(protocol) => if spec_ihl_bytes(data) > data.len() {
                Err(Error::ShorterThanIhl)
            } else {
                Ok(
                    (
                        Ipv4Header {
                            total_len: be_u16(data[2], data[3]),
                            protocol,
                            ip_pair: spec_ip_pair(data),
                        },
                        data.skip(spec_ihl_bytes(data)),
                    ),
                )
            },
        }
    }
}

/// The 20 bytes of an IPv4 reply header (version 4, no options, don't fragment, TTL 64) with a
/// zero checksum field.
pub open spec fn spec_ipv4_raw(h: Ipv4Header) -> Seq<u8> {
    seq![0x45u8, 0u8] + be_u16_bytes(h.total_len) + seq![
        0u8,
        0u8,
        0x40u8,
        0u8,
        64u8,
        h.protocol.spec_number(),
        0u8,
        0u8,
    ] + h.ip_pair.src.spec_octets() + h.ip_pair.dst.spec_octets()
}

/// The 20 bytes of an IPv4 reply header, checksum included.
pub open spec fn spec_ipv4_encode(h: Ipv4Header) -> Seq<u8> {
    let raw = spec_ipv4_raw(h);
    let c = internet_checksum(raw);
    raw.update(10, (c / 256) as u8).update(11, (c % 256) as u8)
}

impl Ipv4Header {
    /// The length in bytes of an IPv4 header for a reply packet (no options).
    pub const REPLY_HEADER_LEN: usize = 20;

    /// Parses `data` as an IPv4 packet, returning the header fields and the payload that starts
    /// where the header length says.
    pub fn parse(data: &[u8]) -> (r: Result<(Ipv4Header, &[u8]), Error>)
        ensures
            match spec_ipv4_parse(data@) {
                Ok((h, payload)) => r matches Ok((h2, p2)) && h2 == h && p2@ == payload,
                Err(e) => r matches Err(e2) && e2 == e,
            },
    {
        let n = data.len();
        if n < 20 {
            return Err(Error::TooShort { header: HeaderKind::Ipv4, len: n });
        }
        // Must be IPv4
        let version = data[0] / 16;
        if version == 6 {
            return Err(Error::Ipv6Packet);
        } else if version != 4 {
            return Err(Error::UnexpectedIpVersion { version });
        }
        // Convert 32-bit words to bytes
        let ihl_bytes: usize = (data[0] % 16) as usize * 4;
        let protocol = match Protocol::try_from(data[9]) {
            Ok(p) => p,
            Err(e) => return Err(e),
        };
        if ihl_bytes > n {
            return Err(Error::ShorterThanIhl);
        }
        let header = Ipv4Header {
            total_len: u16_from_be(data[2], data[3]),
            protocol,
            ip_pair: Ipv4AddrPair {
                src: Ipv4Addr::new(data[12], data[13], data[14], data[15]),
                dst: Ipv4Addr::new(data[16], data[17], data[18], data[19]),
            },
        };
        Ok((header, vstd::slice::slice_subrange(data, ihl_bytes, n)))
    }

    /// The header of a packet of `protocol` carrying `proto_len` bytes between `ip_pair`. Fails
    /// if the total length does not fit in 16 bits.
    pub fn try_new(protocol: Protocol, ip_pair: Ipv4AddrPair, proto_len: u16) -> (r: Result<
        Ipv4Header,
        Error,
    >)
        ensures
            20 + proto_len > 0xFFFF ==> r == Err::<Ipv4Header, Error>(
                Error::OverflowU16 { lhs: 20, rhs: proto_len },
            ),
            20 + proto_len <= 0xFFFF ==> r == Ok::<Ipv4Header, Error>(
                Ipv4Header { total_len: (20 + proto_len) as u16, protocol, ip_pair },
            ),
    {
        if proto_len > 0xFFFF - 20 {
            Err(Error::OverflowU16 { lhs: 20, rhs: proto_len })
        } else {
            Ok(Ipv4Header { total_len: 20 + proto_len, protocol, ip_pair })
        }
    }

    /// Creates an IPv4 header for replying to `self`: the total length is the length of the IP
    /// header + `proto_len`, and source and destination addresses are swapped.
    pub fn create_reply(&self, proto_len: u16) -> (r: Result<Ipv4Header, Error>)
        ensures
            20 + proto_len > 0xFFFF ==> r == Err::<Ipv4Header, Error>(
                Error::OverflowU16 { lhs: 20, rhs: proto_len },
            ),
            20 + proto_len <= 0xFFFF ==> r == Ok::<Ipv4Header, Error>(
                Ipv4Header {
                    total_len: (20 + proto_len) as u16,
                    protocol: self.protocol,
                    ip_pair: self.ip_pair.swapped_spec(),
                },
            ),
    {
        Ipv4Header::try_new(self.protocol, self.ip_pair.swapped(), proto_len)
    }

    /// Writes the 20-byte IPv4 header of `self` at the start of `buf`, with its checksum.
    pub fn write_into(&self, buf: &mut [u8])
        requires
            old(buf)@.len() >= 20,
        ensures
            final(buf)@ == spec_ipv4_encode(*self) + old(buf)@.skip(20),
    {
        let len = crate::bytes::u16_to_be_bytes(self.total_len);
        let src = self.ip_pair.src.octets();
        let dst = self.ip_pair.dst.octets();
        let mut raw: Vec<u8> = Vec::new();
        // Version 4, IHL 5 (20 bytes); DSCP/ECN
        raw.push(0x45);
        raw.push(0);
        raw.push(len[0]);
        raw.push(len[1]);
        // Identification; flags and fragment offset (Don't Fragment)
        raw.push(0);
        raw.push(0);
        raw.push(0x40);
        raw.push(0);
        // TTL, protocol, checksum (filled in below)
        raw.push(64);
        raw.push(self.protocol.number());
        raw.push(0);
        raw.push(0);
        raw.push(src[0]);
        raw.push(src[1]);
        raw.push(src[2]);
        raw.push(src[3]);
        raw.push(dst[0]);
        raw.push(dst[1]);
        raw.push(dst[2]);
        raw.push(dst[3]);
        assert(raw@ =~= spec_ipv4_raw(*self));
        let cksum = calculate(raw.as_slice());
        let c = crate::bytes::u16_to_be_bytes(cksum);
        raw.set(10, c[0]);
        raw.set(11, c[1]);
        assert(raw@ =~= spec_ipv4_encode(*self));
        crate::tcp::segment::copy_into(buf, 0, raw.as_slice());
        assert(final(buf)@ =~= spec_ipv4_encode(*self) + old(buf)@.skip(20));
    }
}

impl Ipv4Header {
    /// The header as the log shows it.
    pub open spec fn spec_text(self) -> Seq<char> {
        "IPv4 | "@ + decimal(self.total_len as nat) + " bytes total | "@ + self.protocol.spec_name()
            + " | "@ + self.ip_pair.src.spec_text() + " -> "@ + self.ip_pair.dst.spec_text()
    }

    /// The header as the log shows it: total length, protocol and addresses.
    pub fn describe(&self) -> (s: String)
        ensures
            s@ == self.spec_text(),
    {
        let mut s = String::new();
        push_str(&mut s, "IPv4 | ");
        push_decimal(&mut s, self.total_len as u64);
        push_str(&mut s, " bytes total | ");
        push_str(&mut s, self.protocol.name());
        push_str(&mut s, " | ");
        self.ip_pair.src.push_text(&mut s);
        push_str(&mut s, " -> ");
        self.ip_pair.dst.push_text(&mut s);
        assert(s@ =~= self.spec_text());
        s
    }
}

/// Parsing a packet that starts with the bytes written for a reply header gives back that header
/// and what follows it as the payload.
pub proof fn law_ipv4_roundtrip(h: Ipv4Header, payload: Seq<u8>)
    ensures
        spec_ipv4_parse(spec_ipv4_encode(h) + payload) == Ok::<(Ipv4Header, Seq<u8>), Error>(
            (h, payload),
        ),
{
    let data = spec_ipv4_encode(h) + payload;
    crate::bytes::law_be_u16_roundtrip(h.total_len);
    crate::protocol::law_protocol_number_roundtrip(h.protocol);
    assert(data[0] == 0x45);
    assert(spec_ihl_bytes(data) == 20);
    assert(spec_ip_pair(data) == h.ip_pair);
    assert(data.skip(20) =~= payload);
}

} // verus!
