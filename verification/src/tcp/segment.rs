//! TCP segments: decoding, encoding, and the replies of the connection state machine.

use vstd::prelude::*;

use crate::display::{PrettyPayload, PrettyProtocol};
use crate::text::{push_str, push_thousands_separated, thousands_separated};

use crate::addr_pairs::{Ipv4AddrPair, PortPair};
use crate::bytes::{
    be_u16, be_u16_bytes, be_u32, be_u32_bytes, overlay, u16_from_be, u32_from_be, write_overlay,
};
use crate::error::{Error, HeaderKind};
use crate::protocol::{pseudo_header_checksum, spec_pseudo_header_checksum, Protocol};
use crate::tcp::connections::{ConnKey, TcpConnections};
use crate::tcp::flags::{TcpFlags, FLAGS_MASK};
use crate::tcp::payload::{payload_len, payload_view, TcpPayload};
use crate::tcp::pending_segment::{spec_new_pending, PendingSegment};
use crate::tcp::send_info::{spec_pure_ack, spec_rst, SendInfo, SendInfoView};
use crate::tcp::seq_space::{seq_add, seq_precedes, seq_precedes_or_eq, SeqDist, SeqPoint};
use crate::tcp::state::{
    incoming_ack_update, spec_ack_update, spec_drain, spec_from_syn_ack, ConnState, ConnView,
    Established, TcpState, WindowState,
};

verus! {

/// The minimum number of bytes in a TCP header (no options).
pub const TCP_HDR_MIN_LEN: u8 = 20;

/// The receive window the stack always advertises: as an echo server it has no receive-side
/// buffer accumulating data for an application.
pub const RCV_WND: u16 = 0xFFFF;

/// A TCP header and payload, with the addresses of the IPv4 packet that carries it.
#[derive(Debug, PartialEq, Eq)]
pub struct TcpSegment {
    /// Not a part of the TCP header, but required for connection state and checksum calculation.
    pub ip_pair: Ipv4AddrPair,
    pub ports: PortPair,
    /// The sequence number of the first data octet in this segment (the ISN if SYN is set).
    pub seq_num: SeqPoint,
    /// The next sequence number the sender of the segment is expecting to receive.
    pub ack_num: SeqPoint,
    /// The header length, in bytes.
    pub offset_bytes: u8,
    pub flags: TcpFlags,
    /// The number of data octets the sender of this segment is willing to accept.
    pub window: u16,
    pub payload: Option<TcpPayload>,
}

/// The mathematical model of a `TcpSegment`.
pub struct SegmentView {
    pub ip_pair: Ipv4AddrPair,
    pub ports: PortPair,
    pub seq_num: u32,
    pub ack_num: u32,
    pub offset_bytes: u8,
    pub flags: TcpFlags,
    pub window: u16,
    pub payload: Option<Seq<u8>>,
}

impl View for TcpSegment {
    type V = SegmentView;

    open spec fn view(&self) -> SegmentView {
        SegmentView {
            ip_pair: self.ip_pair,
            ports: self.ports,
            seq_num: self.seq_num.value,
            ack_num: self.ack_num.value,
            offset_bytes: self.offset_bytes,
            flags: self.flags,
            window: self.window,
            payload: payload_view(self.payload),
        }
    }
}

// ---------------------------------------------------------------------------------------------
// Decoding

/// The payload of a segment whose header is `offset` bytes long.
pub open spec fn spec_rest(data: Seq<u8>, offset: int) -> Seq<u8> {
    if offset <= data.len() {
        data.skip(offset)
    } else {
        Seq::empty()
    }
}

/// Decodes the fields of a TCP header and its payload, without checking the checksum.
pub open spec fn spec_decode(data: Seq<u8>, ip_pair: Ipv4AddrPair) -> Result<SegmentView, Error> {
    if data.len() < 20 {
        Err(Error::TooShort { header: HeaderKind::Tcp, len: data.len() as usize })
    } else {
        let offset = (data[12] / 16 * 4) as u8;
        match TcpFlags::spec_from_masked(data[13] & FLAGS_MASK) {
            None => Err(Error::InvalidTcpFlags { bits: data[13] & FLAGS_MASK }),
            Some(flags) => {
                let rest = spec_rest(data, offset as int);
                if rest.len() > 0xFFFF {
                    Err(Error::PayloadTooLong)
                } else {
                    Ok(
                        SegmentView {
                            ip_pair,
                            ports: PortPair {
                                src: be_u16(data[0], data[1]),
                                dst: be_u16(data[2], data[3]),
                            },
                            seq_num: be_u32(data[4], data[5], data[6], data[7]),
                            ack_num: be_u32(data[8], data[9], data[10], data[11]),
                            offset_bytes: offset,
                            flags,
                            window: be_u16(data[14], data[15]),
                            payload: if rest.len() == 0 {
                                None
                            } else {
                                Some(rest)
                            },
                        },
                    )
                }
            },
        }
    }
}

/// Parses a TCP segment: the header must fit, the checksum over the pseudo-header must verify,
/// and the header must decode.
pub open spec fn spec_parse(data: Seq<u8>, ip_pair: Ipv4AddrPair) -> Result<SegmentView, Error> {
    if data.len() < 20 {
        Err(Error::TooShort { header: HeaderKind::Tcp, len: data.len() as usize })
    } else if data.len() > crate::ETHERNET_MTU {
        Err(
            if data.len() > 0xFFFF {
                Error::IntConversion
            } else {
                Error::OutOfRange {
                    start: 12,
                    end: (12 + data.len()) as usize,
                    len: (12 + crate::ETHERNET_MTU) as usize,
                }
            },
        )
    } else if spec_pseudo_header_checksum(data, ip_pair, Protocol::Tcp) != 0 {
        Err(Error::InvalidChecksum { protocol: Protocol::Tcp })
    } else {
        spec_decode(data, ip_pair)
    }
}

// ---------------------------------------------------------------------------------------------
// Encoding

/// The header and payload bytes of a segment, with a zero checksum field.
pub open spec fn spec_encode_unchecked(s: SegmentView) -> Seq<u8> {
    be_u16_bytes(s.ports.src) + be_u16_bytes(s.ports.dst) + be_u32_bytes(s.seq_num)
        + be_u32_bytes(s.ack_num) + seq![
        (s.offset_bytes / 4 * 16 % 256) as u8,
        s.flags.spec_bits(),
    ] + be_u16_bytes(s.window) + seq![0u8, 0u8, 0u8, 0u8] + match s.payload {
        Some(p) => p,
        None => Seq::empty(),
    }
}

/// The header and payload bytes of a segment, with its checksum filled in.
pub open spec fn spec_encode(s: SegmentView) -> Seq<u8> {
    let raw = spec_encode_unchecked(s);
    let c = spec_pseudo_header_checksum(raw, s.ip_pair, Protocol::Tcp);
    raw.update(16, (c / 256) as u8).update(17, (c % 256) as u8)
}

/// A segment that fits in a buffer of `len` bytes encodes to its 20-byte header and payload.
pub proof fn lemma_encode_len(s: SegmentView, len: usize)
    requires
        spec_write_error(s, len) is None,
    ensures
        spec_encode(s).len() == 20 + payload_len(s.payload),
        spec_encode(s).len() <= len,
        spec_encode(s).len() <= crate::ETHERNET_MTU,
{
}

/// Why writing a segment into a buffer of `len` bytes fails, if it does: the first of the
/// writes that does not fit, or a segment too long for a `u16` length or for the checksum.
pub open spec fn spec_write_error(s: SegmentView, len: usize) -> Option<Error> {
    let p = payload_len(s.payload);
    if len < 2 {
        Some(Error::OutOfRange { start: 0, end: 2, len })
    } else if len < 4 {
        Some(Error::OutOfRange { start: 2, end: 4, len })
    } else if len < 8 {
        Some(Error::OutOfRange { start: 4, end: 8, len })
    } else if len < 12 {
        Some(Error::OutOfRange { start: 8, end: 12, len })
    } else if len < 13 {
        Some(Error::IndexOutOfRange { index: 12, len })
    } else if len < 14 {
        Some(Error::IndexOutOfRange { index: 13, len })
    } else if len < 16 {
        Some(Error::OutOfRange { start: 14, end: 16, len })
    } else if len < 20 {
        Some(Error::OutOfRange { start: 18, end: 20, len })
    } else if p > 0 && 20 + p > len {
        Some(Error::OutOfRange { start: 20, end: (20 + p) as usize, len })
    } else if 20 + p > 0xFFFF {
        Some(Error::OverflowU16 { lhs: 20, rhs: p as u16 })
    } else if 20 + p > crate::ETHERNET_MTU {
        Some(Error::OutOfRange { start: 12, end: (32 + p) as usize, len: 1512 })
    } else {
        None
    }
}

/// How many leading bytes of a segment's header a write into a buffer of `len < 20` bytes puts
/// in place before it fails: the fields that fit whole, in order, up to the window. The urgent
/// pointer at 18..20 is the next field, and the checksum field at 16..18 is not written yet.
pub open spec fn header_fields_written(len: usize) -> int {
    if len < 2 {
        0
    } else if len < 4 {
        2
    } else if len < 8 {
        4
    } else if len < 12 {
        8
    } else if len < 13 {
        12
    } else if len < 14 {
        13
    } else if len < 16 {
        14
    } else {
        16
    }
}

/// What a failed write of `s` leaves in `buf`. The fields are written in order, each whole or
/// not at all, and the write stops at the first that does not fit: the header fields, then the
/// urgent pointer, then the payload. The checksum field is zeroed only once the length is known,
/// just before the checksum is computed.
pub open spec fn spec_write_partial(s: SegmentView, buf: Seq<u8>) -> Seq<u8> {
    let raw = spec_encode_unchecked(s);
    let len = buf.len();
    let p = payload_len(s.payload);
    if len < 20 {
        overlay(raw, buf, header_fields_written(len as usize), 0, 0)
    } else if p > 0 && 20 + p > len {
        overlay(raw, buf, 20, 16, 18)
    } else if 20 + p > 0xFFFF {
        overlay(raw, buf, (20 + p) as int, 16, 18)
    } else {
        overlay(raw, buf, (20 + p) as int, 0, 0)
    }
}

/// Copies `src` into `buf` starting at `start`.
pub fn copy_into(buf: &mut [u8], start: usize, src: &[u8])
    requires
        start + src@.len() <= old(buf)@.len(),
    ensures
        final(buf)@ == old(buf)@.subrange(0, start as int) + src@ + old(buf)@.subrange(
            start + src@.len(),
            old(buf)@.len() as int,
        ),
{
    let n = src.len();
    let blen = buf.len();
    let mut i: usize = 0;
    while i < n
        invariant
            n == src@.len(),
            blen == buf@.len(),
            i <= n,
            start + n <= buf@.len(),
            buf@.len() == old(buf)@.len(),
            buf@ == old(buf)@.subrange(0, start as int) + src@.subrange(0, i as int) + old(
                buf,
            )@.subrange(start + i, old(buf)@.len() as int),
        decreases n - i,
    {
        buf[start + i] = src[i];
        i = i + 1;
        assert(buf@ =~= old(buf)@.subrange(0, start as int) + src@.subrange(0, i as int) + old(
            buf,
        )@.subrange(start + i, old(buf)@.len() as int));
    }
    assert(src@.subrange(0, n as int) =~= src@);
}

impl TcpSegment {
    /// Decodes `data` as a TCP header and payload without checking the checksum.
    pub fn decode(data: &[u8], ip_pair: Ipv4AddrPair) -> (r: Result<TcpSegment, Error>)
        ensures
            match spec_decode(data@, ip_pair) {
                Ok(v) => r matches Ok(s) && s@ == v,
                Err(e) => r == Err::<TcpSegment, Error>(e),
            },
    {
        let n = data.len();
        if n < 20 {
            return Err(Error::TooShort { header: HeaderKind::Tcp, len: n });
        }
        // Convert the length in 32-bit words in the upper 4 bits to a length in bytes
        let offset_bytes: u8 = data[12] / 16 * 4;
        let flags = match TcpFlags::try_from(data[13]) {
            Ok(f) => f,
            Err(e) => return Err(e),
        };
        let start: usize = if (offset_bytes as usize) <= n {
            offset_bytes as usize
        } else {
            n
        };
        let payload = match TcpPayload::try_from_iter(vstd::slice::slice_subrange(data, start, n)) {
            Ok(p) => p,
            Err(e) => return Err(e),
        };
        proof {
            assert(data@.subrange(start as int, n as int) =~= spec_rest(data@, offset_bytes as int));
        }
        Ok(
            TcpSegment {
                ip_pair,
                ports: PortPair::new(u16_from_be(data[0], data[1]), u16_from_be(data[2], data[3])),
                seq_num: SeqPoint::new(u32_from_be(data[4], data[5], data[6], data[7])),
                ack_num: SeqPoint::new(u32_from_be(data[8], data[9], data[10], data[11])),
                offset_bytes,
                flags,
                window: u16_from_be(data[14], data[15]),
                payload,
            },
        )
    }

    /// Parses `data` as a TCP header and payload sent between `ip_pair`, verifying its
    /// checksum.
    pub fn parse(data: &[u8], ip_pair: Ipv4AddrPair) -> (r: Result<TcpSegment, Error>)
        ensures
            match spec_parse(data@, ip_pair) {
                Ok(v) => r matches Ok(s) && s@ == v,
                Err(e) => r == Err::<TcpSegment, Error>(e),
            },
    {
        if data.len() < 20 {
            return Err(Error::TooShort { header: HeaderKind::Tcp, len: data.len() });
        }
        match pseudo_header_checksum(data, ip_pair, Protocol::Tcp) {
            Err(e) => Err(e),
            Ok(0) => TcpSegment::decode(data, ip_pair),
            Ok(_) => Err(Error::InvalidChecksum { protocol: Protocol::Tcp }),
        }
    }

    /// Copies the header and payload of `self` into `buf`, with its checksum, returning the
    /// number of bytes written. On failure, the fields that were written before the one that did
    /// not fit stay in `buf` (see `spec_write_partial`).
    pub fn write_into(&self, buf: &mut [u8]) -> (r: Result<u16, Error>)
        ensures
            match spec_write_error(self@, old(buf)@.len() as usize) {
                Some(e) => r == Err::<u16, Error>(e) && final(buf)@ == spec_write_partial(
                    self@,
                    old(buf)@,
                ),
                None => r == Ok::<u16, Error>(spec_encode(self@).len() as u16) && final(buf)@
                    == spec_encode(self@) + old(buf)@.skip(spec_encode(self@).len() as int),
            },
    {
        let len = buf.len();
        let plen: usize = match &self.payload {
            Some(p) => p.len() as usize,
            None => 0,
        };
        let seg_len = 20 + plen;
        let ghost raw = spec_encode_unchecked(self@);
        let src = crate::bytes::u16_to_be_bytes(self.ports.src);
        let dst = crate::bytes::u16_to_be_bytes(self.ports.dst);
        let seq = self.seq_num.to_be_bytes();
        let ack = self.ack_num.to_be_bytes();
        let win = crate::bytes::u16_to_be_bytes(self.window);
        let off: u8 = ((self.offset_bytes / 4) as u32 * 16 % 256) as u8;
        let mut header: Vec<u8> = Vec::with_capacity(seg_len);
        header.push(src[0]);
        header.push(src[1]);
        header.push(dst[0]);
        header.push(dst[1]);
        header.push(seq[0]);
        header.push(seq[1]);
        header.push(seq[2]);
        header.push(seq[3]);
        header.push(ack[0]);
        header.push(ack[1]);
        header.push(ack[2]);
        header.push(ack[3]);
        header.push(off);
        header.push(self.flags.bits());
        header.push(win[0]);
        header.push(win[1]);
        header.push(0);
        header.push(0);
        header.push(0);
        header.push(0);
        match &self.payload {
            Some(p) => {
                let bytes = p.as_bytes();
                let mut i: usize = 0;
                while i < plen
                    invariant
                        plen == bytes@.len(),
                        i <= plen,
                        header@.len() == 20 + i,
                        header@ == raw.subrange(0, 20 + i as int),
                        raw == spec_encode_unchecked(self@),
                        self@.payload == Some(bytes@),
                    decreases plen - i,
                {
                    header.push(bytes[i]);
                    i = i + 1;
                    assert(header@ =~= raw.subrange(0, 20 + i as int));
                }
            },
            None => {},
        }
        proof {
            assert(raw.len() == seg_len);
            assert(header@ =~= raw);
        }
        // The first field that does not fit, how far the fields before it reach, and the
        // checksum field left out of them.
        let (failure, written, hole_start, hole_end): (Option<Error>, usize, usize, usize) = if len
            < 2 {
            (Some(Error::OutOfRange { start: 0, end: 2, len }), 0, 0, 0)
        } else if len < 4 {
            (Some(Error::OutOfRange { start: 2, end: 4, len }), 2, 0, 0)
        } else if len < 8 {
            (Some(Error::OutOfRange { start: 4, end: 8, len }), 4, 0, 0)
        } else if len < 12 {
            (Some(Error::OutOfRange { start: 8, end: 12, len }), 8, 0, 0)
        } else if len < 13 {
            (Some(Error::IndexOutOfRange { index: 12, len }), 12, 0, 0)
        } else if len < 14 {
            (Some(Error::IndexOutOfRange { index: 13, len }), 13, 0, 0)
        } else if len < 16 {
            (Some(Error::OutOfRange { start: 14, end: 16, len }), 14, 0, 0)
        } else if len < 20 {
            (Some(Error::OutOfRange { start: 18, end: 20, len }), 16, 0, 0)
        } else if plen > 0 && 20 + plen > len {
            (Some(Error::OutOfRange { start: 20, end: 20 + plen, len }), 20, 16, 18)
        } else if 20 + plen > 0xFFFF {
            (Some(Error::OverflowU16 { lhs: 20, rhs: plen as u16 }), seg_len, 16, 18)
        } else if 20 + plen > crate::ETHERNET_MTU {
            (Some(Error::OutOfRange { start: 12, end: 32 + plen, len: 1512 }), seg_len, 0, 0)
        } else {
            (None, 0, 0, 0)
        };
        if let Some(e) = failure {
            write_overlay(buf, header.as_slice(), written, hole_start, hole_end);
            return Err(e);
        }
        let cksum = match pseudo_header_checksum(header.as_slice(), self.ip_pair, Protocol::Tcp) {
            Ok(c) => c,
            Err(e) => return Err(e),
        };
        let c = crate::bytes::u16_to_be_bytes(cksum);
        header.set(16, c[0]);
        header.set(17, c[1]);
        proof {
            assert(header@ =~= spec_encode(self@));
        }
        copy_into(buf, 0, header.as_slice());
        proof {
            assert(final(buf)@ =~= spec_encode(self@) + old(buf)@.skip(seg_len as int));
        }
        Ok(seg_len as u16)
    }
}

/// A segment as the log shows it.
pub open spec fn spec_segment_text(v: SegmentView) -> Seq<char> {
    "TCP | "@ + v.ports.spec_text() + " | seq="@ + thousands_separated(v.seq_num as nat) + " ack="@
        + thousands_separated(v.ack_num as nat) + " win="@ + thousands_separated(v.window as nat)
        + " | "@ + v.flags.spec_name()
}

impl TcpSegment {
    /// The segment as the log shows it.
    pub open spec fn spec_text(&self) -> Seq<char> {
        spec_segment_text(self@)
    }

    /// The segment as the log shows it: ports, sequence and acknowledgment numbers, window and
    /// flags.
    pub fn describe(&self) -> (s: String)
        ensures
            s@ == self.spec_text(),
    {
        let mut s = String::new();
        push_str(&mut s, "TCP | ");
        self.ports.push_text(&mut s);
        push_str(&mut s, " | seq=");
        push_thousands_separated(&mut s, self.seq_num.value as u64);
        push_str(&mut s, " ack=");
        push_thousands_separated(&mut s, self.ack_num.value as u64);
        push_str(&mut s, " win=");
        push_thousands_separated(&mut s, self.window as u64);
        push_str(&mut s, " | ");
        push_str(&mut s, self.flags.name());
        assert(s@ =~= self.spec_text());
        s
    }
}

impl PrettyProtocol for TcpSegment {
    open spec fn payload_bytes(&self) -> Seq<u8> {
        match self.payload {
            Some(p) => p@,
            None => Seq::empty(),
        }
    }

    fn pretty_payload(&self, include_content: bool) -> (p: PrettyPayload<'_>) {
        let data: &[u8] = match &self.payload {
            Some(p) => p.as_bytes(),
            None => &[],
        };
        PrettyPayload { data, include_content }
    }
}

/// Parsing the bytes that encoding writes for a segment gives the segment back, provided it has a
/// 20-byte header, fits in an Ethernet MTU, and carries no empty payload: what a receiver reads
/// is what the sender wrote, checksum verified.
pub proof fn law_segment_roundtrip(s: SegmentView)
    requires
        s.offset_bytes == 20,
        20 + payload_len(s.payload) <= crate::ETHERNET_MTU,
        s.payload matches Some(p) ==> p.len() > 0,
    ensures
        spec_parse(spec_encode(s), s.ip_pair) == Ok::<SegmentView, Error>(s),
{
    let raw = spec_encode_unchecked(s);
    let data = spec_encode(s);
    let p = match s.payload {
        Some(p) => p,
        None => Seq::empty(),
    };
    assert(raw.len() == 20 + p.len());
    let ph = crate::protocol::pseudo_header(s.ip_pair, Protocol::Tcp, raw.len() as u16);
    assert(ph.len() == 12);
    let c = spec_pseudo_header_checksum(raw, s.ip_pair, Protocol::Tcp);
    assert((ph + raw)[28] == 0 && (ph + raw)[29] == 0);
    crate::checksum::law_checksum_roundtrip(ph + raw, 28);
    assert(ph + data =~= (ph + raw).update(28, (c / 256) as u8).update(29, (c % 256) as u8));
    assert(spec_pseudo_header_checksum(data, s.ip_pair, Protocol::Tcp) == 0);
    crate::tcp::flags::law_flags_roundtrip(s.flags);
    crate::bytes::law_be_u16_roundtrip(s.ports.src);
    crate::bytes::law_be_u16_roundtrip(s.ports.dst);
    crate::bytes::law_be_u16_roundtrip(s.window);
    crate::bytes::law_be_u32_roundtrip(s.seq_num);
    crate::bytes::law_be_u32_roundtrip(s.ack_num);
    assert(data[12] == 80);
    assert(data.skip(20) =~= p);
    let d = spec_decode(data, s.ip_pair);
    assert(d matches Ok(v) && v.ports == s.ports && v.seq_num == s.seq_num && v.ack_num == s.ack_num
        && v.window == s.window && v.flags == s.flags && v.offset_bytes == 20 && v.payload
        == s.payload);
}

/// The payload of a received segment is exactly what follows its header, whose length the
/// data-offset field gives in 32-bit words, options included: for a data offset of `k` words, the
/// bytes from position `4k` on, or none when nothing follows. The recorded header length is `4k`,
/// and a segment whose flags are a supported combination and whose payload fits in 16 bits always
/// decodes; checksum verification only decides whether parsing accepts it.
pub proof fn law_payload_follows_data_offset(data: Seq<u8>, ip_pair: Ipv4AddrPair)
    requires
        data.len() >= 20,
        (data[12] / 16) as int * 4 <= data.len(),
    ensures
        ({
            let header_len = (data[12] / 16) as int * 4;
            let payload = if data.len() > header_len {
                Some(data.subrange(header_len, data.len() as int))
            } else {
                None
            };
            &&& spec_decode(data, ip_pair) matches Ok(v) ==> v.offset_bytes == header_len
                && v.payload == payload
            &&& spec_parse(data, ip_pair) matches Ok(v) ==> v.offset_bytes == header_len
                && v.payload == payload
            &&& TcpFlags::spec_from_masked(data[13] & FLAGS_MASK) is Some && data.len() - header_len
                <= 0xFFFF ==> spec_decode(data, ip_pair) is Ok
        }),
        spec_decode(data, ip_pair) matches Ok(v) ==> {
            &&& v.ip_pair == ip_pair
            &&& v.ports.src == data[0] as int * 256 + data[1] as int
            &&& v.ports.dst == data[2] as int * 256 + data[3] as int
            &&& v.seq_num == ((data[4] as int * 256 + data[5] as int) * 256 + data[6] as int) * 256
                + data[7] as int
            &&& v.ack_num == ((data[8] as int * 256 + data[9] as int) * 256 + data[10] as int) * 256
                + data[11] as int
            &&& v.window == data[14] as int * 256 + data[15] as int
            &&& v.flags.spec_bits() == data[13] & FLAGS_MASK
        },
        spec_parse(data, ip_pair) matches Ok(v) ==> spec_decode(data, ip_pair) == Ok::<
            SegmentView,
            Error,
        >(v) && data.len() <= crate::ETHERNET_MTU && spec_pseudo_header_checksum(
            data,
            ip_pair,
            Protocol::Tcp,
        ) == 0,
{
    let header_len = (data[12] / 16) as int * 4;
    assert(data.skip(header_len) =~= data.subrange(header_len, data.len() as int));
}

} // verus!
