//! UDP datagram parsing, echo replies and encoding.

use vstd::prelude::*;

use crate::display::{PrettyPayload, PrettyProtocol};
use crate::text::push_str;

use crate::addr_pairs::{Ipv4AddrPair, PortPair};
use crate::bytes::{be_u16, be_u16_bytes, overlay, u16_from_be, write_overlay};
use crate::error::{Error, HeaderKind};
use crate::protocol::{pseudo_header_checksum, spec_pseudo_header_checksum, Protocol};

verus! {

/// The number of bytes in a UDP header.
pub const UDP_HDR_LEN: u16 = 8;

/// A UDP datagram: ports and payload, with the addresses of the packet that carries it.
#[derive(Clone, Copy, Debug, PartialEq, Eq)]
pub struct UdpHandler<'a> {
    /// Not a part of the UDP header, but required for checksum calculation.
    pub ip_pair: Ipv4AddrPair,
    pub ports: PortPair,
    pub payload: &'a [u8],
}

/// Why parsing `data` as a UDP datagram between `ip_pair` fails, if it does. A zero checksum
/// field means the sender chose not to compute one (RFC 768, RFC 1122, Section 4.1.3.4).
pub open spec fn spec_udp_parse_error(data: Seq<u8>, ip_pair: Ipv4AddrPair) -> Option<Error> {
    if data.len() < 8 {
        Some(Error::TooShort { header: HeaderKind::Udp, len: data.len() as usize })
    } else if be_u16(data[6], data[7]) == 0 {
        None
    } else if data.len() > crate::ETHERNET_MTU {
        Some(
            if data.len() > 0xFFFF {
                Error::IntConversion
            } else {
                Error::OutOfRange {
                    start: 12,
                    end: (12 + data.len()) as usize,
                    len: (12 + crate::ETHERNET_MTU) as usize,
                }
            },
        )
    } else if spec_pseudo_header_checksum(data, ip_pair, Protocol::Udp) != 0 {
        Some(Error::InvalidChecksum { protocol: Protocol::Udp })
    } else {
        None
    }
}

/// The header and payload of a datagram, with a zero checksum field.
pub open spec fn spec_udp_raw(ports: PortPair, payload: Seq<u8>) -> Seq<u8> {
    be_u16_bytes(ports.src) + be_u16_bytes(ports.dst) + be_u16_bytes((8 + payload.len()) as u16)
        + seq![0u8, 0u8] + payload
}

/// The checksum transmitted for a datagram: a computed checksum of 0 is sent as 0xFFFF, because a
/// zero field means that no checksum was computed.
pub open spec fn spec_udp_checksum(ip_pair: Ipv4AddrPair, ports: PortPair, payload: Seq<u8>) -> u16 {
    let c = spec_pseudo_header_checksum(spec_udp_raw(ports, payload), ip_pair, Protocol::Udp);
    if c == 0 {
        0xFFFF
    } else {
        c
    }
}

/// The bytes of a datagram, checksum included.
pub open spec fn spec_udp_encode(ip_pair: Ipv4AddrPair, ports: PortPair, payload: Seq<u8>) -> Seq<u8> {
    let c = spec_udp_checksum(ip_pair, ports, payload);
    spec_udp_raw(ports, payload).update(6, (c / 256) as u8).update(7, (c % 256) as u8)
}

/// Why writing a datagram with a payload of `p` bytes into a buffer of `len` bytes fails, if it
/// does.
pub open spec fn spec_udp_write_error(p: nat, len: usize) -> Option<Error> {
    if len < 2 {
        Some(Error::OutOfRange { start: 0, end: 2, len })
    } else if len < 4 {
        Some(Error::OutOfRange { start: 2, end: 4, len })
    } else if p > 0xFFFF {
        Some(Error::IntConversion)
    } else if 8 + p > 0xFFFF {
        Some(Error::OverflowU16 { lhs: 8, rhs: p as u16 })
    } else if len < 6 {
        Some(Error::OutOfRange { start: 4, end: 6, len })
    } else if 8 + p > len {
        Some(Error::OutOfRange { start: 8, end: (8 + p) as usize, len })
    } else if 8 + p > crate::ETHERNET_MTU {
        Some(Error::OutOfRange { start: 12, end: (20 + p) as usize, len: 1512 })
    } else {
        None
    }
}

/// How many leading bytes of a datagram a failed write into `buf` puts in place: the ports, then
/// the length field once the length is known to fit in 16 bits, then the payload and the zeroed
/// checksum field. Each is written whole or not at all, in that order, up to the first that fails.
pub open spec fn spec_udp_written(p: nat, len: nat) -> int {
    if len < 2 {
        0
    } else if len < 4 {
        2
    } else if p > 0xFFFF || 8 + p > 0xFFFF || len < 6 {
        4
    } else if 8 + p > len {
        6
    } else {
        (8 + p) as int
    }
}

/// What a failed write of a datagram with `ports` and `payload` leaves in `buf`.
pub open spec fn spec_udp_write_partial(ports: PortPair, payload: Seq<u8>, buf: Seq<u8>) -> Seq<u8> {
    overlay(spec_udp_raw(ports, payload), buf, spec_udp_written(payload.len(), buf.len()), 0, 0)
}

/// A datagram that fits in a buffer of `len` bytes encodes to its 8-byte header and payload.
pub proof fn lemma_udp_len(ip_pair: Ipv4AddrPair, ports: PortPair, payload: Seq<u8>, len: usize)
    requires
        spec_udp_write_error(payload.len(), len) is None,
    ensures
        spec_udp_encode(ip_pair, ports, payload).len() == 8 + payload.len(),
        8 + payload.len() <= len,
        8 + payload.len() <= crate::ETHERNET_MTU,
{
}

impl<'a> UdpHandler<'a> {
    /// Parses `data` as a UDP header and payload sent between `ip_pair`, verifying any checksum.
    pub fn parse(data: &'a [u8], ip_pair: Ipv4AddrPair) -> (r: Result<Self, Error>)
        ensures
            match spec_udp_parse_error(data@, ip_pair) {
                Some(e) => r == Err::<Self, Error>(e),
                None => r matches Ok(h) && h.ip_pair == ip_pair && h.ports == (PortPair {
                    src: be_u16(data@[0], data@[1]),
                    dst: be_u16(data@[2], data@[3]),
                }) && h.payload@ == data@.skip(8),
            },
    {
        let n = data.len();
        if n < 8 {
            return Err(Error::TooShort { header: HeaderKind::Udp, len: n });
        }
        if u16_from_be(data[6], data[7]) != 0 {
            match pseudo_header_checksum(data, ip_pair, Protocol::Udp) {
                Err(e) => return Err(e),
                Ok(0) => {},
                Ok(_) => return Err(Error::InvalidChecksum { protocol: Protocol::Udp }),
            }
        }
        Ok(
            UdpHandler {
                ip_pair,
                ports: PortPair::new(u16_from_be(data[0], data[1]), u16_from_be(data[2], data[3])),
                payload: vstd::slice::slice_subrange(data, 8, n),
            },
        )
    }

    /// Creates a UDP datagram echoing `self` back to its sender.
    pub fn create_reply(&self) -> (r: Self)
        ensures
            r.ip_pair == self.ip_pair.swapped_spec(),
            r.ports == self.ports.swapped_spec(),
            r.payload == self.payload,
    {
        UdpHandler {
            ip_pair: self.ip_pair.swapped(),
            ports: self.ports.swapped(),
            payload: self.payload,
        }
    }

    /// Copies the header and payload of `self` into `buf`, with its checksum, returning the UDP
    /// length. On failure, the fields written before it stay in `buf` (see
    /// `spec_udp_write_partial`).
    pub fn write_into(&self, buf: &mut [u8]) -> (r: Result<u16, Error>)
        ensures
            match spec_udp_write_error(self.payload@.len(), old(buf)@.len() as usize) {
                Some(e) => r == Err::<u16, Error>(e) && final(buf)@ == spec_udp_write_partial(
                    self.ports,
                    self.payload@,
                    old(buf)@,
                ),
                None => r == Ok::<u16, Error>((8 + self.payload@.len()) as u16) && final(buf)@
                    == spec_udp_encode(self.ip_pair, self.ports, self.payload@) + old(buf)@.skip(
                    (8 + self.payload@.len()) as int,
                ),
            },
    {
        let len = buf.len();
        let plen = self.payload.len();
        let src = crate::bytes::u16_to_be_bytes(self.ports.src);
        let dst = crate::bytes::u16_to_be_bytes(self.ports.dst);
        let mut raw: Vec<u8> = Vec::new();
        raw.push(src[0]);
        raw.push(src[1]);
        raw.push(dst[0]);
        raw.push(dst[1]);
        // The fields before the length depend on the ports alone.
        let ghost full = spec_udp_raw(self.ports, self.payload@);
        let ghost after_ports = overlay(full, old(buf)@, spec_udp_written(plen as nat, len as nat), 0, 0);
        if len < 4 || plen > 0xFFFF || 8 + plen > 0xFFFF || len < 6 {
            let written: usize = if len < 2 {
                0
            } else if len < 4 {
                2
            } else {
                4
            };
            write_overlay(buf, raw.as_slice(), written, 0, 0);
            proof {
                assert(buf@ =~= after_ports);
            }
            if len < 2 {
                return Err(Error::OutOfRange { start: 0, end: 2, len });
            } else if len < 4 {
                return Err(Error::OutOfRange { start: 2, end: 4, len });
            } else if plen > 0xFFFF {
                return Err(Error::IntConversion);
            } else if 8 + plen > 0xFFFF {
                return Err(Error::OverflowU16 { lhs: 8, rhs: plen as u16 });
            } else {
                return Err(Error::OutOfRange { start: 4, end: 6, len });
            }
        }
        let udp_len: u16 = 8 + plen as u16;
        let l = crate::bytes::u16_to_be_bytes(udp_len);
        raw.push(l[0]);
        raw.push(l[1]);
        raw.push(0);
        raw.push(0);
        let ghost header = raw@;
        let mut i: usize = 0;
        while i < plen
            invariant
                plen == self.payload@.len(),
                i <= plen,
                raw@ == header + self.payload@.subrange(0, i as int),
            decreases plen - i,
        {
            raw.push(self.payload[i]);
            i = i + 1;
            assert(raw@ =~= header + self.payload@.subrange(0, i as int));
        }
        proof {
            assert(self.payload@.subrange(0, plen as int) =~= self.payload@);
            assert(raw@ =~= spec_udp_raw(self.ports, self.payload@));
        }
        if 8 + plen > len {
            write_overlay(buf, raw.as_slice(), 6, 0, 0);
            return Err(Error::OutOfRange { start: 8, end: 8 + plen, len });
        } else if 8 + plen > crate::ETHERNET_MTU {
            // The payload and the zeroed checksum field are in place before the checksum fails.
            write_overlay(buf, raw.as_slice(), 8 + plen, 0, 0);
            return Err(Error::OutOfRange { start: 12, end: 20 + plen, len: 1512 });
        }
        let computed = match pseudo_header_checksum(raw.as_slice(), self.ip_pair, Protocol::Udp) {
            Ok(c) => c,
            Err(e) => return Err(e),
        };
        let cksum = if computed == 0 {
            0xFFFF
        } else {
            computed
        };
        let c = crate::bytes::u16_to_be_bytes(cksum);
        raw.set(6, c[0]);
        raw.set(7, c[1]);
        proof {
            assert(raw@ =~= spec_udp_encode(self.ip_pair, self.ports, self.payload@));
        }
        crate::tcp::segment::copy_into(buf, 0, raw.as_slice());
        proof {
            assert(final(buf)@ =~= spec_udp_encode(self.ip_pair, self.ports, self.payload@) + old(
                buf,
            )@.skip((8 + self.payload@.len()) as int));
        }
        Ok(udp_len)
    }
}

impl<'a> UdpHandler<'a> {
    /// The datagram as the log shows it.
    pub open spec fn spec_text(&self) -> Seq<char> {
        "UDP | "@ + self.ports.spec_text()
    }

    /// The datagram as the log shows it: its ports.
    pub fn describe(&self) -> (s: String)
        ensures
            s@ == self.spec_text(),
    {
        let mut s = String::new();
        push_str(&mut s, "UDP | ");
        self.ports.push_text(&mut s);
        assert(s@ =~= self.spec_text());
        s
    }
}

impl<'a> PrettyProtocol for UdpHandler<'a> {
    open spec fn payload_bytes(&self) -> Seq<u8> {
        self.payload@
    }

    fn pretty_payload(&self, include_content: bool) -> (p: PrettyPayload<'_>) {
        PrettyPayload { data: self.payload, include_content }
    }
}

/// Parsing the bytes that encoding writes for a datagram accepts them, checksum verified, and
/// reads back its ports and payload, provided the datagram fits in an Ethernet MTU.
pub proof fn law_udp_roundtrip(ip_pair: Ipv4AddrPair, ports: PortPair, payload: Seq<u8>)
    requires
        8 + payload.len() <= crate::ETHERNET_MTU,
    ensures
        spec_udp_parse_error(spec_udp_encode(ip_pair, ports, payload), ip_pair) is None,
        ({
            let data = spec_udp_encode(ip_pair, ports, payload);
            &&& be_u16(data[0], data[1]) == ports.src
            &&& be_u16(data[2], data[3]) == ports.dst
            &&& data.skip(8) == payload
        }),
{
    let raw = spec_udp_raw(ports, payload);
    let data = spec_udp_encode(ip_pair, ports, payload);
    assert(raw.len() == 8 + payload.len());
    let ph = crate::protocol::pseudo_header(ip_pair, Protocol::Udp, raw.len() as u16);
    assert(ph.len() == 12);
    let c = spec_pseudo_header_checksum(raw, ip_pair, Protocol::Udp);
    assert((ph + raw)[18] == 0 && (ph + raw)[19] == 0);
    let sent = spec_udp_checksum(ip_pair, ports, payload);
    assert(ph + data =~= (ph + raw).update(18, (sent / 256) as u8).update(19, (sent % 256) as u8));
    if c == 0 {
        crate::checksum::law_checksum_roundtrip_all_ones(ph + raw, 18);
    } else {
        crate::checksum::law_checksum_roundtrip(ph + raw, 18);
    }
    assert(spec_pseudo_header_checksum(data, ip_pair, Protocol::Udp) == 0);
    crate::bytes::law_be_u16_roundtrip(ports.src);
    crate::bytes::law_be_u16_roundtrip(ports.dst);
    assert(data.skip(8) =~= payload);
}

} // verus!
