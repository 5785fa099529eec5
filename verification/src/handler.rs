//! Static dispatch over the protocol-specific handlers: parsing, replying and encoding.

use vstd::prelude::*;

use crate::display::{PrettyPayload, PrettyProtocol};

use crate::addr_pairs::{Ipv4AddrPair, PortPair};
use crate::bytes::{be_u16, len_usize, overwrite_prefix, seq_len_u16};
use crate::error::Error;
use crate::icmp_echo::{
    spec_echo_encode, spec_echo_text, spec_echo_len, spec_echo_write_error, spec_echo_write_partial,
    IcmpEchoHandler, TYPE_ECHO_REPLY,
};
use crate::protocol::Protocol;
use crate::tcp::connections::{ConnKey, TcpConnections};
use crate::tcp::reply::{segment_result_view, spec_create_reply};
use crate::tcp::segment::{
    spec_encode, spec_parse, spec_segment_text, spec_write_error, spec_write_partial, SegmentView,
    TcpSegment,
};
use crate::tcp::state::ConnView;
use crate::udp::{
    spec_udp_encode, spec_udp_parse_error, spec_udp_write_error, spec_udp_write_partial, UdpHandler,
};

verus! {

/// A parsed packet of one of the supported protocols, with the addresses of the IPv4 packet
/// that carries it.
#[derive(Debug, PartialEq, Eq)]
pub enum ProtocolHandler<'a> {
    Icmp { handler: IcmpEchoHandler<'a>, ip_pair: Ipv4AddrPair },
    Tcp(TcpSegment),
    Udp(UdpHandler<'a>),
}

/// The mathematical model of a `ProtocolHandler`: header fields and payload bytes.
pub enum HandlerView {
    Icmp {
        message_type: u8,
        identifier: u16,
        sequence: u16,
        payload: Seq<u8>,
        ip_pair: Ipv4AddrPair,
    },
    Tcp(SegmentView),
    Udp { ip_pair: Ipv4AddrPair, ports: PortPair, payload: Seq<u8> },
}

impl<'a> View for ProtocolHandler<'a> {
    type V = HandlerView;

    open spec fn view(&self) -> HandlerView {
        match *self {
            ProtocolHandler::Icmp { handler, ip_pair } => HandlerView::Icmp {
                message_type: handler.message_type,
                identifier: handler.identifier,
                sequence: handler.sequence,
                payload: handler.payload@,
                ip_pair,
            },
            ProtocolHandler::Tcp(seg) => HandlerView::Tcp(seg@),
            ProtocolHandler::Udp(u) => HandlerView::Udp {
                ip_pair: u.ip_pair,
                ports: u.ports,
                payload: u.payload@,
            },
        }
    }
}

/// Parses `data` as the header and payload of a packet of `protocol` sent between `ip_pair`.
pub open spec fn spec_handler_parse(data: Seq<u8>, protocol: Protocol, ip_pair: Ipv4AddrPair) -> Result<
    HandlerView,
    Error,
> {
    match protocol {
        Protocol::Icmp => match IcmpEchoHandler::spec_parse_result(data) {
            Ok(h) => Ok(
                HandlerView::Icmp {
                    message_type: h.0,
                    identifier: h.1,
                    sequence: h.2,
                    payload: h.3,
                    ip_pair,
                },
            ),
            Err(e) => Err(e),
        },
        Protocol::Tcp => match spec_parse(data, ip_pair) {
            Ok(v) => Ok(HandlerView::Tcp(v)),
            Err(e) => Err(e),
        },
        Protocol::Udp => match spec_udp_parse_error(data, ip_pair) {
            Some(e) => Err(e),
            None => Ok(
                HandlerView::Udp {
                    ip_pair,
                    ports: PortPair { src: be_u16(data[0], data[1]), dst: be_u16(data[2], data[3]) },
                    payload: data.skip(8),
                },
            ),
        },
    }
}

/// The connection table after `h` arrives, and the reply to it: ICMP and UDP echo their payload
/// back with swapped addresses; TCP goes through the connection state machine.
pub open spec fn spec_handler_reply(
    table: Map<ConnKey, ConnView>,
    h: HandlerView,
    isn: u32,
    now: u64,
) -> (Map<ConnKey, ConnView>, Result<Option<HandlerView>, Error>) {
    match h {
        HandlerView::Icmp { identifier, sequence, payload, ip_pair, .. } => (
            table,
            Ok(
                Some(
                    HandlerView::Icmp {
                        message_type: TYPE_ECHO_REPLY,
                        identifier,
                        sequence,
                        payload,
                        ip_pair: ip_pair.swapped_spec(),
                    },
                ),
            ),
        ),
        HandlerView::Tcp(seg) => {
            let (t, r) = spec_create_reply(table, seg, isn, now);
            (
                t,
                match r {
                    Err(e) => Err(e),
                    Ok(None) => Ok(None),
                    Ok(Some(s)) => Ok(Some(HandlerView::Tcp(s))),
                },
            )
        },
        HandlerView::Udp { ip_pair, ports, payload } => (
            table,
            Ok(
                Some(
                    HandlerView::Udp {
                        ip_pair: ip_pair.swapped_spec(),
                        ports: ports.swapped_spec(),
                        payload,
                    },
                ),
            ),
        ),
    }
}

/// Why writing `h` into a buffer of `len` bytes fails, if it does.
pub open spec fn spec_handler_write_error(h: HandlerView, len: usize) -> Option<Error> {
    match h {
        HandlerView::Icmp { payload, .. } => spec_echo_write_error(payload.len(), len),
        HandlerView::Tcp(seg) => spec_write_error(seg, len),
        HandlerView::Udp { payload, .. } => spec_udp_write_error(payload.len(), len),
    }
}

/// What a failed write of `h` leaves in `buf`: the fields written before the one that failed.
pub open spec fn spec_handler_write_partial(h: HandlerView, buf: Seq<u8>) -> Seq<u8> {
    match h {
        HandlerView::Icmp { message_type, identifier, sequence, payload, .. } =>
            spec_echo_write_partial(message_type, identifier, sequence, payload, buf),
        HandlerView::Tcp(seg) => spec_write_partial(seg, buf),
        HandlerView::Udp { ports, payload, .. } => spec_udp_write_partial(ports, payload, buf),
    }
}

/// The bytes written for `h`: its header and payload, checksum included.
pub open spec fn spec_handler_encode(h: HandlerView) -> Seq<u8> {
    match h {
        HandlerView::Icmp { message_type, identifier, sequence, payload, .. } => spec_echo_encode(
            message_type,
            identifier,
            sequence,
            payload,
        ),
        HandlerView::Tcp(seg) => spec_encode(seg),
        HandlerView::Udp { ip_pair, ports, payload } => spec_udp_encode(ip_pair, ports, payload),
    }
}

/// The length that writing `h` reports.
pub open spec fn spec_handler_len(h: HandlerView) -> u16 {
    match h {
        HandlerView::Icmp { payload, .. } => spec_echo_len(payload.len()),
        _ => seq_len_u16(spec_handler_encode(h)),
    }
}

/// The protocol of `h`.
pub open spec fn spec_proto(h: HandlerView) -> Protocol {
    match h {
        HandlerView::Icmp { .. } => Protocol::Icmp,
        HandlerView::Tcp(_) => Protocol::Tcp,
        HandlerView::Udp { .. } => Protocol::Udp,
    }
}

/// The addresses of the packet carrying `h`.
pub open spec fn spec_ip_pair(h: HandlerView) -> Ipv4AddrPair {
    match h {
        HandlerView::Icmp { ip_pair, .. } => ip_pair,
        HandlerView::Tcp(seg) => seg.ip_pair,
        HandlerView::Udp { ip_pair, .. } => ip_pair,
    }
}

impl<'a> ProtocolHandler<'a> {
    /// Parses `data` as the header and payload of a packet of protocol type `protocol` sent
    /// between `ip_pair`.
    pub fn parse(data: &'a [u8], protocol: Protocol, ip_pair: Ipv4AddrPair) -> (r: Result<Self, Error>)
        ensures
            match spec_handler_parse(data@, protocol, ip_pair) {
                Ok(v) => r matches Ok(h) && h@ == v,
                Err(e) => r == Err::<Self, Error>(e),
            },
    {
        match protocol {
            Protocol::Icmp => match IcmpEchoHandler::parse(data) {
                Ok(handler) => Ok(ProtocolHandler::Icmp { handler, ip_pair }),
                Err(e) => Err(e),
            },
            Protocol::Tcp => match TcpSegment::parse(data, ip_pair) {
                Ok(seg) => Ok(ProtocolHandler::Tcp(seg)),
                Err(e) => Err(e),
            },
            Protocol::Udp => match UdpHandler::parse(data, ip_pair) {
                Ok(u) => Ok(ProtocolHandler::Udp(u)),
                Err(e) => Err(e),
            },
        }
    }

    /// Creates the reply to `self`, or returns `Ok(None)` for no reply. ICMP and UDP always
    /// answer; TCP goes through the connection state machine, opening a connection with initial
    /// sequence number `isn` when it answers a SYN, at time `now` (in milliseconds).
    pub fn create_reply(&self, tcp_connections: &mut TcpConnections, isn: u32, now: u64) -> (r:
        Result<Option<ProtocolHandler<'a>>, Error>)
        ensures
            final(tcp_connections)@.table() == spec_handler_reply(
                old(tcp_connections)@.table(),
                self@,
                isn,
                now,
            ).0,
            match spec_handler_reply(old(tcp_connections)@.table(), self@, isn, now).1 {
                Err(e) => r == Err::<Option<ProtocolHandler<'a>>, Error>(e),
                Ok(None) => r matches Ok(None),
                Ok(Some(v)) => r matches Ok(Some(h)) && h@ == v,
            },
            final(tcp_connections)@.initial_rto == old(tcp_connections)@.initial_rto,
            final(tcp_connections)@.max_retries == old(tcp_connections)@.max_retries,
            !(self@ is Tcp) ==> final(tcp_connections)@ == old(tcp_connections)@,
    {
        match self {
            ProtocolHandler::Icmp { handler, ip_pair } => Ok(
                Some(ProtocolHandler::Icmp { handler: handler.create_reply(), ip_pair: ip_pair.swapped() }),
            ),
            ProtocolHandler::Tcp(seg) => match seg.create_reply(tcp_connections, isn, now) {
                Err(e) => Err(e),
                Ok(None) => Ok(None),
                Ok(Some(reply)) => Ok(Some(ProtocolHandler::Tcp(reply))),
            },
            ProtocolHandler::Udp(u) => Ok(Some(ProtocolHandler::Udp(u.create_reply()))),
        }
    }

    /// Copies the protocol header and payload of `self` into `buf`, returning the number of
    /// bytes written. On failure, the fields written before it stay in `buf`.
    pub fn write_into(&self, buf: &mut [u8]) -> (r: Result<u16, Error>)
        ensures
            match spec_handler_write_error(self@, len_usize(old(buf)@)) {
                Some(e) => r == Err::<u16, Error>(e) && final(buf)@ == spec_handler_write_partial(
                    self@,
                    old(buf)@,
                ),
                None => r == Ok::<u16, Error>(spec_handler_len(self@)) && final(buf)@
                    == overwrite_prefix(spec_handler_encode(self@), old(buf)@),
            },
    {
        match self {
            ProtocolHandler::Icmp { handler, .. } => handler.write_into(buf),
            ProtocolHandler::Tcp(seg) => seg.write_into(buf),
            ProtocolHandler::Udp(u) => u.write_into(buf),
        }
    }

    /// The protocol of `self`.
    pub fn proto(&self) -> (p: Protocol)
        ensures
            p == spec_proto(self@),
    {
        match self {
            ProtocolHandler::Icmp { .. } => Protocol::Icmp,
            ProtocolHandler::Tcp(_) => Protocol::Tcp,
            ProtocolHandler::Udp(_) => Protocol::Udp,
        }
    }

    /// The pair of IPv4 addresses of `self`.
    pub fn get_ip_pair(&self) -> (p: Ipv4AddrPair)
        ensures
            p == spec_ip_pair(self@),
    {
        match self {
            ProtocolHandler::Icmp { ip_pair, .. } => *ip_pair,
            ProtocolHandler::Tcp(seg) => seg.ip_pair,
            ProtocolHandler::Udp(u) => u.ip_pair,
        }
    }
}

/// A handler as the log shows it.
pub open spec fn spec_handler_text(h: HandlerView) -> Seq<char> {
    match h {
        HandlerView::Icmp { message_type, identifier, sequence, payload, .. } => spec_echo_text(
            message_type,
            identifier,
            sequence,
            payload,
        ),
        HandlerView::Tcp(seg) => spec_segment_text(seg),
        HandlerView::Udp { ports, .. } => "UDP | "@ + ports.spec_text(),
    }
}

/// The payload of a handler.
pub open spec fn spec_handler_payload(h: HandlerView) -> Seq<u8> {
    match h {
        HandlerView::Icmp { payload, .. } => payload,
        HandlerView::Tcp(seg) => match seg.payload {
            Some(p) => p,
            None => Seq::empty(),
        },
        HandlerView::Udp { payload, .. } => payload,
    }
}

impl<'a> ProtocolHandler<'a> {
    /// The handler as the log shows it.
    pub fn describe(&self) -> (s: String)
        ensures
            s@ == spec_handler_text(self@),
    {
        match self {
            ProtocolHandler::Icmp { handler, .. } => handler.describe(),
            ProtocolHandler::Tcp(seg) => seg.describe(),
            ProtocolHandler::Udp(u) => u.describe(),
        }
    }
}

impl<'a> PrettyProtocol for ProtocolHandler<'a> {
    open spec fn payload_bytes(&self) -> Seq<u8> {
        spec_handler_payload(self@)
    }

    fn pretty_payload(&self, include_content: bool) -> (p: PrettyPayload<'_>) {
        match self {
            ProtocolHandler::Icmp { handler, .. } => handler.pretty_payload(include_content),
            ProtocolHandler::Tcp(seg) => seg.pretty_payload(include_content),
            ProtocolHandler::Udp(u) => u.pretty_payload(include_content),
        }
    }
}

} // verus!
