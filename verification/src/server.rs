//! The decisions of the server loop: what to send and whether to stop, given what the device,
//! the clock and the signals report. Times are milliseconds on a monotonic clock.

use vstd::prelude::*;

use crate::error::Error;
use crate::handler::{
    spec_handler_encode, spec_handler_len, spec_handler_write_error, spec_ip_pair, spec_proto,
    HandlerView, ProtocolHandler,
};
use crate::icmp_echo::TYPE_ECHO_REQUEST;
use crate::ipv4::{spec_ipv4_encode, spec_ipv4_parse, Ipv4Header};
use crate::handler::{spec_handler_parse, spec_handler_reply};
use crate::tcp::connections::{segments_view, ConnKey, Entries, TcpConnections, TcpConnectionsView};
use crate::tcp::flags::TcpFlags;
use crate::tcp::reply::spec_key;
use crate::tcp::segment::{SegmentView, TcpSegment};
use crate::tcp::pending_segment::spec_time_due;
use crate::tcp::state::ConnView;
use crate::tcp::timers::{
    spec_close_entry, spec_fin_ack, spec_is_closing, spec_is_established, spec_retransmit_all,
    spec_server_segment,
};

verus! {

/// The number of bytes left for the protocol header and payload of a reply packet after its
/// IPv4 header.
pub const PROTO_BUF_LEN: usize = 1480;

/// The IPv4 header of the packet that carries `h`.
pub open spec fn spec_reply_header(h: HandlerView) -> Ipv4Header {
    Ipv4Header {
        total_len: (20 + spec_handler_len(h)) as u16,
        protocol: spec_proto(h),
        ip_pair: spec_ip_pair(h),
    }
}

/// The bytes of the IPv4 packet that carries `h`, or why it cannot be sent: the protocol header
/// and payload must fit after a 20-byte IPv4 header in an Ethernet MTU.
#[verifier::opaque]
pub open spec fn spec_packet(h: HandlerView) -> Result<Seq<u8>, Error> {
    match spec_handler_write_error(h, PROTO_BUF_LEN) {
        Some(e) => Err(e),
        None => if 20 + spec_handler_len(h) > 0xFFFF {
            Err(Error::OverflowU16 { lhs: 20, rhs: spec_handler_len(h) })
        } else {
            Ok(spec_ipv4_encode(spec_reply_header(h)) + spec_handler_encode(h))
        },
    }
}

/// A handler that fits in a buffer reports the number of bytes it writes.
proof fn lemma_written_len(h: HandlerView, len: usize)
    requires
        spec_handler_write_error(h, len) is None,
        len <= PROTO_BUF_LEN,
    ensures
        spec_handler_encode(h).len() == spec_handler_len(h),
        spec_handler_encode(h).len() <= len,
{
    match h {
        HandlerView::Icmp { message_type, identifier, sequence, payload, .. } => {
            crate::icmp_echo::lemma_echo_len(message_type, identifier, sequence, payload, len);
        },
        HandlerView::Tcp(seg) => {
            crate::tcp::segment::lemma_encode_len(seg, len);
        },
        HandlerView::Udp { ip_pair, ports, payload } => {
            crate::udp::lemma_udp_len(ip_pair, ports, payload, len);
        },
    }
}

/// Every packet that the server sends parses back: its IPv4 header is the one it was sent with,
/// its payload is the handler's encoding, and that encoding parses back to the handler. The last
/// holds for TCP segments with a 20-byte header and no empty payload (as every reply is), for
/// UDP datagrams, and for ICMP Echo Requests; an Echo Reply is not something the parser accepts.
pub proof fn law_sent_packet_parses_back(h: HandlerView)
    requires
        h matches HandlerView::Tcp(seg) ==> seg.offset_bytes == 20 && (seg.payload matches Some(p)
            ==> p.len() > 0),
    ensures
        match spec_packet(h) {
            Ok(b) => {
                &&& spec_ipv4_parse(b) == Ok::<(Ipv4Header, Seq<u8>), Error>(
                    (spec_reply_header(h), spec_handler_encode(h)),
                )
                &&& (h matches HandlerView::Icmp { message_type, .. } ==> message_type
                    == TYPE_ECHO_REQUEST) ==> spec_handler_parse(
                    spec_handler_encode(h),
                    spec_proto(h),
                    spec_ip_pair(h),
                ) == Ok::<HandlerView, Error>(h)
            },
            Err(_) => true,
        },
{
    reveal(spec_packet);
    if spec_packet(h) is Ok {
        let enc = spec_handler_encode(h);
        crate::ipv4::law_ipv4_roundtrip(spec_reply_header(h), enc);
        lemma_written_len(h, PROTO_BUF_LEN);
        match h {
            HandlerView::Icmp { message_type, identifier, sequence, payload, .. } => {
                crate::icmp_echo::law_echo_request_roundtrip(identifier, sequence, payload);
            },
            HandlerView::Tcp(seg) => {
                crate::tcp::segment::law_segment_roundtrip(seg);
            },
            HandlerView::Udp { ip_pair, ports, payload } => {
                crate::udp::law_udp_roundtrip(ip_pair, ports, payload);
            },
        }
    }
}

/// Encodes `handler` into an IPv4 packet: a 20-byte header (version 4, no options, TTL 64,
/// checksum included) followed by the protocol header and payload.
pub fn encode_packet(handler: &ProtocolHandler) -> (r: Result<Vec<u8>, Error>)
    ensures
        match spec_packet(handler@) {
            Ok(b) => r matches Ok(v) && v@ == b,
            Err(e) => r == Err::<Vec<u8>, Error>(e),
        },
{
    let mut proto_buf: Vec<u8> = vec![0u8; PROTO_BUF_LEN];
    let proto_len = match handler.write_into(proto_buf.as_mut_slice()) {
        Ok(n) => n,
        Err(e) => {
            proof {
                reveal(spec_packet);
            }
            return Err(e);
        },
    };
    proof {
        lemma_written_len(handler@, PROTO_BUF_LEN);
        reveal(spec_packet);
    }
    let header = match Ipv4Header::try_new(handler.proto(), handler.get_ip_pair(), proto_len) {
        Ok(h) => h,
        Err(e) => {
            return Err(e);
        },
    };
    let mut hdr_buf = [0u8; 20];
    header.write_into(&mut hdr_buf);
    let mut out: Vec<u8> = Vec::new();
    out.extend_from_slice(&hdr_buf);
    let n = crate::bytes::u16_to_usize(proto_len);
    out.extend_from_slice(vstd::slice::slice_subrange(proto_buf.as_slice(), 0, n));
    proof {
        let enc = spec_handler_encode(handler@);
        assert(proto_buf@.subrange(0, n as int) =~= enc);
        assert(hdr_buf@ =~= spec_ipv4_encode(header));
        assert(out@ =~= spec_ipv4_encode(header) + enc);
    }
    Ok(out)
}


/// The packets carrying `segs`, in order, or the first reason one of them cannot be sent.
pub open spec fn spec_encode_segments(segs: Seq<SegmentView>) -> Result<Seq<Seq<u8>>, Error>
    decreases segs.len(),
{
    if segs.len() == 0 {
        Ok(Seq::empty())
    } else {
        match spec_packet(HandlerView::Tcp(segs[0])) {
            Err(e) => Err(e),
            Ok(b) => match spec_encode_segments(segs.drop_first()) {
                Err(e) => Err(e),
                Ok(rest) => Ok(seq![b] + rest),
            },
        }
    }
}

/// `done` followed by the packets of `r`, or the error of `r`.
pub open spec fn prepend_packets(done: Seq<Seq<u8>>, r: Result<Seq<Seq<u8>>, Error>) -> Result<
    Seq<Seq<u8>>,
    Error,
> {
    match r {
        Err(e) => Err(e),
        Ok(rest) => Ok(done + rest),
    }
}

proof fn lemma_prepend_step(done: Seq<Seq<u8>>, b: Seq<u8>, r: Result<Seq<Seq<u8>>, Error>)
    ensures
        prepend_packets(done, match r {
            Err(e) => Err(e),
            Ok(rest) => Ok(seq![b] + rest),
        }) == prepend_packets(done.push(b), r),
{
    match r {
        Err(_) => {},
        Ok(rest) => {
            assert(done + (seq![b] + rest) =~= done.push(b) + rest);
        },
    }
}

/// Encodes each of `segs` into an IPv4 packet, in order.
pub fn encode_segments(segs: Vec<TcpSegment>) -> (r: Result<Vec<Vec<u8>>, Error>)
    ensures
        match spec_encode_segments(segments_view(segs@)) {
            Ok(ps) => r matches Ok(v) && v@.map_values(|b: Vec<u8>| b@) == ps,
            Err(e) => r == Err::<Vec<Vec<u8>>, Error>(e),
        },
{
    let ghost orig = segments_view(segs@);
    let mut remaining = segs;
    let mut out: Vec<Vec<u8>> = Vec::new();
    let ghost mut done: Seq<Seq<u8>> = Seq::empty();
    while remaining.len() > 0
        invariant
            orig == segments_view(segs@),
            out@.len() == done.len(),
            forall|i: int| 0 <= i < done.len() ==> (#[trigger] out@[i])@ == done[i],
            spec_encode_segments(orig) == prepend_packets(
                done,
                spec_encode_segments(segments_view(remaining@)),
            ),
        decreases remaining.len(),
    {
        let ghost before = segments_view(remaining@);
        let seg = remaining.remove(0);
        proof {
            assert(before[0] == seg@);
            assert(before.drop_first() =~= segments_view(remaining@));
        }
        let handler = ProtocolHandler::Tcp(seg);
        let b = match encode_packet(&handler) {
            Err(e) => {
                proof {
                    assert(spec_encode_segments(before) == Err::<Seq<Seq<u8>>, Error>(e));
                    assert(spec_encode_segments(orig) == Err::<Seq<Seq<u8>>, Error>(e));
                }
                return Err(e);
            },
            Ok(b) => b,
        };
        proof {
            lemma_prepend_step(done, b@, spec_encode_segments(segments_view(remaining@)));
            done = done.push(b@);
        }
        out.push(b);
    }
    proof {
        assert(segments_view(remaining@) =~= Seq::<SegmentView>::empty());
        assert(done + Seq::<Seq<u8>>::empty() =~= done);
        assert(out@.map_values(|b: Vec<u8>| b@) =~= done);
    }
    Ok(out)
}

/// The state of the server loop besides the device itself.
#[derive(Debug)]
pub struct Server {
    pub tcp_connections: TcpConnections,
    /// How long to wait for established TCP connections to finish closing after a shutdown
    /// signal before exiting unconditionally, in milliseconds.
    pub shutdown_grace_period: u64,
    /// Deadline that bounds how long to wait for established connections to finish closing before
    /// exiting unconditionally. Set once a shutdown signal starts active close.
    pub shutdown_deadline: Option<u64>,
}

/// The mathematical model of a `Server`.
pub struct ServerView {
    pub connections: TcpConnectionsView,
    pub grace_period: u64,
    pub deadline: Option<u64>,
}

impl View for Server {
    type V = ServerView;

    open spec fn view(&self) -> ServerView {
        ServerView {
            connections: self.tcp_connections@,
            grace_period: self.shutdown_grace_period,
            deadline: self.shutdown_deadline,
        }
    }
}

/// Whether some connection of `entries` is mid-close.
pub open spec fn any_closing(entries: Entries) -> bool {
    exists|i: int| 0 <= i < entries.len() && spec_is_closing(#[trigger] entries[i].1)
}

/// `a - b`, or 0 if `b` is later than `a`.
pub open spec fn saturating_sub(a: u64, b: u64) -> u64 {
    if a >= b {
        (a - b) as u64
    } else {
        0
    }
}

/// Whether `t` is a moment the server must wake up for: the shutdown deadline, or the time a
/// pending segment becomes due.
pub open spec fn is_wakeup(s: ServerView, now: u64, t: u64) -> bool {
    ||| s.deadline == Some(t)
    ||| exists|i: int, j: int|
        0 <= i < s.connections.entries.len() && 0 <= j < s.connections.entries[i].1.pending.len()
            && t == spec_time_due(
            #[trigger] s.connections.entries[i].1.pending[j],
            s.connections.initial_rto,
            now,
        )
}

/// What the server decides on a shutdown signal.
#[derive(Debug, PartialEq, Eq)]
pub enum ShutdownDecision {
    /// Already draining: nothing more to do than to report the time left until the deadline.
    AlreadyDraining { time_left: u64 },
    /// Active close has begun: the FIN-ACKs to send and the deadline for the connections to
    /// finish closing.
    BeganDraining { to_send: Vec<TcpSegment>, deadline: u64 },
    /// No connection needs closing: the server can stop at once.
    NoConnections,
}

impl Server {
    /// A server with `tcp_connections` that waits up to `shutdown_grace_period` milliseconds for
    /// connections to close after a shutdown signal.
    pub fn new(tcp_connections: TcpConnections, shutdown_grace_period: u64) -> (r: Server)
        ensures
            r.tcp_connections@ == tcp_connections@,
            r.shutdown_grace_period == shutdown_grace_period,
            r.shutdown_deadline is None,
    {
        Server { tcp_connections, shutdown_grace_period, shutdown_deadline: None }
    }

    /// How long to wait for the device at `now`: until the shutdown deadline or the next
    /// retransmission, whichever comes first, or `None` to block with no timeout.
    pub fn poll_timeout(&self, now: u64) -> (r: Option<u64>)
        ensures
            r is None <==> self.shutdown_deadline is None && forall|i: int|
                0 <= i < self@.connections.entries.len()
                    ==> (#[trigger] self@.connections.entries[i]).1.pending.len() == 0,
            r matches Some(d) ==> exists|t: u64| is_wakeup(self@, now, t) && d == saturating_sub(t, now)
                && forall|u: u64| is_wakeup(self@, now, u) ==> t <= u,
    {
        let retransmit = self.tcp_connections.next_retransmit_deadline(now);
        let earliest = match (self.shutdown_deadline, retransmit) {
            (None, None) => None,
            (Some(d), None) => Some(d),
            (None, Some(t)) => Some(t),
            (Some(d), Some(t)) => if d <= t {
                Some(d)
            } else {
                Some(t)
            },
        };
        match earliest {
            None => None,
            Some(t) => {
                proof {
                    assert(is_wakeup(self@, now, t));
                    assert forall|u: u64| is_wakeup(self@, now, u) implies t <= u by {
                        if self.shutdown_deadline != Some(u) {
                            let (i, j) = choose|i: int, j: int|
                                0 <= i < self@.connections.entries.len() && 0 <= j
                                    < self@.connections.entries[i].1.pending.len() && u
                                    == spec_time_due(
                                    #[trigger] self@.connections.entries[i].1.pending[j],
                                    self@.connections.initial_rto,
                                    now,
                                );
                            assert(retransmit is Some);
                        }
                    }
                    assert(is_wakeup(self@, now, t) && t.saturating_sub(now) == saturating_sub(t, now)
                        && forall|u: u64| is_wakeup(self@, now, u) ==> t <= u);
                }
                Some(t.saturating_sub(now))
            },
        }
    }

    /// Whether the shutdown deadline has passed at `now`. Always `false` before a shutdown signal.
    pub fn grace_period_elapsed(&self, now: u64) -> (b: bool)
        ensures
            b == (self.shutdown_deadline matches Some(d) && d <= now),
    {
        match self.shutdown_deadline {
            Some(d) => d <= now,
            None => false,
        }
    }

    /// Whether a shutdown is under way and no connection is still mid-close, so the server can
    /// stop.
    pub fn shutting_down_and_no_connections_closing(&self) -> (b: bool)
        ensures
            b == (self.shutdown_deadline is Some && !any_closing(self@.connections.entries)),
    {
        self.shutdown_deadline.is_some() && !self.tcp_connections.closing_in_progress()
    }

    /// Reacts to a shutdown signal at `now`. If already draining, reports the time left. If not,
    /// begins active close of every established connection, and sets the deadline for them to
    /// finish closing unless no connection is left mid-close. Fails if the deadline overflows the
    /// clock.
    pub fn decide_shutdown(&mut self, now: u64) -> (r: Result<ShutdownDecision, Error>)
        ensures
            final(self).shutdown_grace_period == old(self).shutdown_grace_period,
            final(self)@.connections.initial_rto == old(self)@.connections.initial_rto,
            final(self)@.connections.max_retries == old(self)@.connections.max_retries,
            match old(self).shutdown_deadline {
                Some(d) => {
                    &&& r matches Ok(ShutdownDecision::AlreadyDraining { time_left })
                    &&& time_left == saturating_sub(d, now)
                    &&& final(self)@ == old(self)@
                },
                None => {
                    &&& final(self)@.connections.entries == old(self)@.connections.entries.map_values(
                        |e: (ConnKey, ConnView)| (e.0, spec_close_entry(e.1, now)),
                    )
                    &&& if !any_closing(final(self)@.connections.entries) {
                        &&& r matches Ok(ShutdownDecision::NoConnections)
                        &&& final(self).shutdown_deadline is None
                    } else if now + old(self).shutdown_grace_period > u64::MAX {
                        &&& r == Err::<ShutdownDecision, Error>(
                            Error::DeadlineOverflow { millis: old(self).shutdown_grace_period },
                        )
                        &&& final(self).shutdown_deadline is None
                    } else {
                        &&& r matches Ok(ShutdownDecision::BeganDraining { to_send, deadline })
                        &&& deadline == now + old(self).shutdown_grace_period
                        &&& final(self).shutdown_deadline == Some(deadline)
                        &&& segments_view(to_send@) == old(self)@.connections.entries.filter(
                            |e: (ConnKey, ConnView)| spec_is_established(e),
                        ).map_values(
                            |e: (ConnKey, ConnView)| spec_server_segment(e.0, spec_fin_ack(e.1)),
                        )
                    }
                },
            },
    {
        match self.shutdown_deadline {
            Some(d) => Ok(ShutdownDecision::AlreadyDraining { time_left: d.saturating_sub(now) }),
            None => {
                let to_send = self.tcp_connections.close_established(now);
                if !self.tcp_connections.closing_in_progress() {
                    Ok(ShutdownDecision::NoConnections)
                } else {
                    match now.checked_add(self.shutdown_grace_period) {
                        None => Err(Error::DeadlineOverflow { millis: self.shutdown_grace_period }),
                        Some(deadline) => {
                            self.shutdown_deadline = Some(deadline);
                            Ok(ShutdownDecision::BeganDraining { to_send, deadline })
                        },
                    }
                }
            },
        }
    }
}


/// What the device and the signals report to the server loop.
pub enum Event<'a> {
    /// A signal interrupted the wait or the read, and it was the shutdown signal.
    ShutdownSignal,
    /// A signal unrelated to shutdown interrupted the wait or the read.
    OtherSignal,
    /// The wait for the device timed out.
    TimedOut,
    /// A packet was read from the device.
    Packet(&'a [u8]),
}

/// What a step of the server loop did.
#[derive(Clone, Copy, Debug, PartialEq, Eq, Structural)]
pub enum Outcome {
    /// Nothing to do.
    Idle,
    /// A shutdown signal arrived while already draining, with this much time left.
    Draining { time_left: u64 },
    /// A shutdown signal started active close, with this deadline.
    BeganDraining { deadline: u64 },
    /// Due segments were retransmitted.
    Retransmitted,
    /// The packet read could not be parsed, and was skipped.
    Skipped(Error),
    /// The packet was parsed but no reply could be created.
    ReplyFailed(Error),
    /// The packet needs no reply.
    NoReply,
    /// The packet was answered.
    Replied,
}

/// Why the server loop stops.
#[derive(Clone, Copy, Debug, PartialEq, Eq, Structural)]
pub enum Exit {
    /// A shutdown signal arrived with no connection to close.
    NoConnections,
    /// The grace period elapsed with this many connections left.
    GracePeriodElapsed { remaining: usize },
    /// Every connection finished closing within the grace period.
    AllClosed,
}

/// The result of a step of the server loop: what happened, the packets to write to the device,
/// in order, and whether to stop afterwards.
#[derive(Debug)]
pub struct Step {
    pub outcome: Outcome,
    pub packets: Vec<Vec<u8>>,
    pub exit: Option<Exit>,
}

/// The mathematical model of a `Step`.
pub struct StepView {
    pub outcome: Outcome,
    pub packets: Seq<Seq<u8>>,
    pub exit: Option<Exit>,
}

/// The model of the result of a step.
pub open spec fn step_view(r: Result<Step, Error>) -> Result<StepView, Error> {
    match r {
        Err(e) => Err(e),
        Ok(s) => Ok(
            StepView {
                outcome: s.outcome,
                packets: s.packets@.map_values(|b: Vec<u8>| b@),
                exit: s.exit,
            },
        ),
    }
}

/// A step that sends `packets` (or fails to encode them) with `outcome`.
pub open spec fn sending(outcome: Outcome, packets: Result<Seq<Seq<u8>>, Error>) -> Result<
    StepView,
    Error,
> {
    match packets {
        Err(e) => Err(e),
        Ok(ps) => Ok(StepView { outcome, packets: ps, exit: None }),
    }
}

/// A step that sends nothing.
pub open spec fn quiet(outcome: Outcome, exit: Option<Exit>) -> Result<StepView, Error> {
    Ok(StepView { outcome, packets: Seq::empty(), exit })
}

/// The FIN-ACKs that active close sends: one per established connection of `entries`, in order.
pub open spec fn spec_fin_acks(entries: Entries) -> Seq<SegmentView> {
    entries.filter(|e: (ConnKey, ConnView)| spec_is_established(e)).map_values(
        |e: (ConnKey, ConnView)| spec_server_segment(e.0, spec_fin_ack(e.1)),
    )
}

/// Whether the loop stops after handling a packet: a shutdown is under way and no connection is
/// still mid-close.
pub open spec fn spec_exit_after_packet(s: ServerView) -> Option<Exit> {
    if s.deadline is Some && !any_closing(s.connections.entries) {
        Some(Exit::AllClosed)
    } else {
        None
    }
}

/// Whether the parts of the server that no event changes are kept.
pub open spec fn same_settings(old: ServerView, new: ServerView) -> bool {
    &&& new.grace_period == old.grace_period
    &&& new.connections.initial_rto == old.connections.initial_rto
    &&& new.connections.max_retries == old.connections.max_retries
}

/// A shutdown signal at `now` takes the server from `old` to `new` with result `r`: reports the
/// time left when already draining; otherwise closes every established connection and either
/// stops (no connection left mid-close) or sends the FIN-ACKs and sets the deadline.
pub open spec fn shutdown_step(old: ServerView, new: ServerView, now: u64, r: Result<StepView, Error>) -> bool {
    &&& same_settings(old, new)
    &&& match old.deadline {
        Some(d) => new == old && r == quiet(Outcome::Draining { time_left: saturating_sub(d, now) }, None),
        None => {
            &&& new.connections.entries == old.connections.entries.map_values(
                |e: (ConnKey, ConnView)| (e.0, spec_close_entry(e.1, now)),
            )
            &&& if !any_closing(new.connections.entries) {
                new.deadline is None && r == quiet(Outcome::Idle, Some(Exit::NoConnections))
            } else if now + old.grace_period > u64::MAX {
                new.deadline is None && r == Err::<StepView, Error>(
                    Error::DeadlineOverflow { millis: old.grace_period },
                )
            } else {
                &&& new.deadline == Some((now + old.grace_period) as u64)
                &&& r == sending(
                    Outcome::BeganDraining { deadline: (now + old.grace_period) as u64 },
                    spec_encode_segments(spec_fin_acks(old.connections.entries)),
                )
            }
        },
    }
}

/// A timeout at `now` takes the server from `old` to `new` with result `r`: stops once the
/// grace period has elapsed, and otherwise retransmits every due segment.
pub open spec fn timeout_step(old: ServerView, new: ServerView, now: u64, r: Result<StepView, Error>) -> bool {
    let c = old.connections;
    let (entries, segs) = spec_retransmit_all(c.entries, c.initial_rto, c.max_retries, now);
    if old.deadline matches Some(d) && d <= now {
        new == old && r == quiet(
            Outcome::Idle,
            Some(Exit::GracePeriodElapsed { remaining: c.entries.len() as usize }),
        )
    } else {
        &&& same_settings(old, new)
        &&& new.deadline == old.deadline
        &&& new.connections.entries == entries
        &&& r == sending(Outcome::Retransmitted, spec_encode_segments(segs))
    }
}

/// Whether handling `h` opens a new TCP connection, which takes a fresh initial sequence number:
/// a SYN for which `table` holds no connection.
pub open spec fn spec_needs_isn(table: Map<ConnKey, ConnView>, h: HandlerView) -> bool {
    h matches HandlerView::Tcp(seg) && seg.flags == TcpFlags::Syn && !table.contains_key(
        spec_key(seg),
    )
}

/// The handler that the packet `data` carries, if it parses.
pub open spec fn spec_packet_handler(data: Seq<u8>) -> Option<HandlerView> {
    match spec_ipv4_parse(data) {
        Err(_) => None,
        Ok((hdr, payload)) => match spec_handler_parse(payload, hdr.protocol, hdr.ip_pair) {
            Err(_) => None,
            Ok(h) => Some(h),
        },
    }
}

/// The packet `data` read at `now` takes the server from `old` to `new` with result `r`:
/// a packet that does not parse is skipped; otherwise the handler's reply, if any, is sent.
/// `isn` is the initial sequence number for a connection that the packet opens; without one,
/// such a packet gets no reply and changes nothing.
pub open spec fn packet_step(
    old: ServerView,
    new: ServerView,
    data: Seq<u8>,
    now: u64,
    isn: Option<u32>,
    r: Result<StepView, Error>,
) -> bool {
    &&& same_settings(old, new)
    &&& new.deadline == old.deadline
    &&& match spec_ipv4_parse(data) {
        Err(e) => new == old && r == quiet(Outcome::Skipped(e), spec_exit_after_packet(old)),
        Ok((hdr, payload)) => match spec_handler_parse(payload, hdr.protocol, hdr.ip_pair) {
            Err(e) => new == old && r == quiet(Outcome::Skipped(e), spec_exit_after_packet(old)),
            Ok(h) => if spec_needs_isn(old.connections.table(), h) && isn is None {
                new == old && r == quiet(
                    Outcome::ReplyFailed(Error::RandomUnavailable),
                    spec_exit_after_packet(old),
                )
            } else {
                let isn = match isn {
                    Some(n) => n,
                    None => 0,
                };
                let (table, reply) = spec_handler_reply(old.connections.table(), h, isn, now);
                &&& new.connections.table() == table
                &&& !(h is Tcp) ==> new == old
                &&& match reply {
                    Err(e) => r == quiet(Outcome::ReplyFailed(e), spec_exit_after_packet(new)),
                    Ok(None) => r == quiet(Outcome::NoReply, spec_exit_after_packet(new)),
                    Ok(Some(v)) => match spec_packet(v) {
                        Err(e) => r == Err::<StepView, Error>(e),
                        Ok(b) => r == Ok::<StepView, Error>(
                            StepView {
                                outcome: Outcome::Replied,
                                packets: seq![b],
                                exit: spec_exit_after_packet(new),
                            },
                        ),
                    },
                }
            },
        },
    }
}

impl Step {
    /// A step that sends nothing.
    fn quiet(outcome: Outcome, exit: Option<Exit>) -> (r: Step)
        ensures
            step_view(Ok(r)) == quiet(outcome, exit),
    {
        let r = Step { outcome, packets: Vec::new(), exit };
        proof {
            assert(r.packets@.map_values(|b: Vec<u8>| b@) =~= Seq::<Seq<u8>>::empty());
        }
        r
    }
}

impl Server {
    /// Reacts to a shutdown signal at `now` (see `decide_shutdown`), encoding the FIN-ACKs of
    /// active close.
    pub fn on_shutdown_signal(&mut self, now: u64) -> (r: Result<Step, Error>)
        ensures
            shutdown_step(old(self)@, final(self)@, now, step_view(r)),
    {
        match self.decide_shutdown(now) {
            Err(e) => Err(e),
            Ok(ShutdownDecision::AlreadyDraining { time_left }) => Ok(
                Step::quiet(Outcome::Draining { time_left }, None),
            ),
            Ok(ShutdownDecision::NoConnections) => Ok(
                Step::quiet(Outcome::Idle, Some(Exit::NoConnections)),
            ),
            Ok(ShutdownDecision::BeganDraining { to_send, deadline }) => match encode_segments(
                to_send,
            ) {
                Err(e) => Err(e),
                Ok(packets) => Ok(
                    Step { outcome: Outcome::BeganDraining { deadline }, packets, exit: None },
                ),
            },
        }
    }

    /// Reacts to the wait for the device timing out at `now`: stops once the grace period has
    /// elapsed, and otherwise retransmits every due segment.
    pub fn on_timeout(&mut self, now: u64) -> (r: Result<Step, Error>)
        ensures
            timeout_step(old(self)@, final(self)@, now, step_view(r)),
    {
        if self.grace_period_elapsed(now) {
            let remaining = self.tcp_connections.len();
            return Ok(Step::quiet(Outcome::Idle, Some(Exit::GracePeriodElapsed { remaining })));
        }
        let segs = self.tcp_connections.make_retransmissions(now);
        match encode_segments(segs) {
            Err(e) => Err(e),
            Ok(packets) => Ok(Step { outcome: Outcome::Retransmitted, packets, exit: None }),
        }
    }

    /// Whether handling `handler` opens a new TCP connection, which takes a fresh initial
    /// sequence number.
    fn handler_needs_isn(&self, handler: &ProtocolHandler) -> (b: bool)
        ensures
            b == spec_needs_isn(self@.connections.table(), handler@),
    {
        match handler {
            ProtocolHandler::Tcp(seg) => {
                let key = ConnKey {
                    client_ip: seg.ip_pair.src,
                    client_port: seg.ports.src,
                    server_ip: seg.ip_pair.dst,
                    server_port: seg.ports.dst,
                };
                let is_syn = match seg.flags {
                    TcpFlags::Syn => true,
                    _ => false,
                };
                is_syn && self.tcp_connections.get(key).is_none()
            },
            _ => false,
        }
    }

    /// Whether handling the packet `data` would open a new TCP connection, so that it takes a
    /// fresh initial sequence number: it parses as a SYN for which no connection exists.
    pub fn needs_isn(&self, data: &[u8]) -> (b: bool)
        ensures
            b == (spec_packet_handler(data@) matches Some(h) && spec_needs_isn(
                self@.connections.table(),
                h,
            )),
    {
        match Ipv4Header::parse(data) {
            Err(_) => false,
            Ok((header, payload)) => match ProtocolHandler::parse(
                payload,
                header.protocol,
                header.ip_pair,
            ) {
                Err(_) => false,
                Ok(handler) => self.handler_needs_isn(&handler),
            },
        }
    }

    /// Handles the packet `data` read at `now`: parses it, creates the reply (opening a TCP
    /// connection with initial sequence number `isn` if it is a SYN) and encodes it. Then stops
    /// if a shutdown is under way and no connection is still mid-close.
    pub fn on_packet(&mut self, data: &[u8], now: u64, isn: Option<u32>) -> (r: Result<Step, Error>)
        ensures
            packet_step(old(self)@, final(self)@, data@, now, isn, step_view(r)),
    {
        let (outcome, packets) = match Ipv4Header::parse(data) {
            Err(e) => (Outcome::Skipped(e), Vec::new()),
            Ok((header, payload)) => match ProtocolHandler::parse(
                payload,
                header.protocol,
                header.ip_pair,
            ) {
                Err(e) => (Outcome::Skipped(e), Vec::new()),
                Ok(handler) => if isn.is_none() && self.handler_needs_isn(&handler) {
                    (Outcome::ReplyFailed(Error::RandomUnavailable), Vec::new())
                } else {
                    let isn: u32 = match isn {
                        Some(n) => n,
                        None => 0,
                    };
                    match handler.create_reply(&mut self.tcp_connections, isn, now) {
                    Err(e) => (Outcome::ReplyFailed(e), Vec::new()),
                    Ok(None) => (Outcome::NoReply, Vec::new()),
                    Ok(Some(reply)) => match encode_packet(&reply) {
                        Err(e) => {
                            return Err(e);
                        },
                        Ok(b) => {
                            let mut v: Vec<Vec<u8>> = Vec::new();
                            v.push(b);
                            (Outcome::Replied, v)
                        },
                    },
                    }
                },
            },
        };
        let exit = if self.shutting_down_and_no_connections_closing() {
            Some(Exit::AllClosed)
        } else {
            None
        };
        let r = Step { outcome, packets, exit };
        proof {
            match outcome {
                Outcome::Replied => {
                    assert(r.packets@.map_values(|b: Vec<u8>| b@) =~= seq![r.packets@[0]@]);
                },
                _ => {
                    assert(r.packets@.map_values(|b: Vec<u8>| b@) =~= Seq::<Seq<u8>>::empty());
                },
            }
        }
        Ok(r)
    }

    /// One step of the server loop: reacts to `event` at `now`. `isn` is the initial sequence
    /// number of a TCP connection that a packet opens, if one could be had (see `needs_isn`).
    pub fn step(&mut self, event: Event, now: u64, isn: Option<u32>) -> (r: Result<Step, Error>)
        ensures
            match event {
                Event::ShutdownSignal => shutdown_step(old(self)@, final(self)@, now, step_view(r)),
                Event::OtherSignal => final(self)@ == old(self)@ && step_view(r) == quiet(
                    Outcome::Idle,
                    None,
                ),
                Event::TimedOut => timeout_step(old(self)@, final(self)@, now, step_view(r)),
                Event::Packet(data) => packet_step(
                    old(self)@,
                    final(self)@,
                    data@,
                    now,
                    isn,
                    step_view(r),
                ),
            },
    {
        match event {
            Event::ShutdownSignal => self.on_shutdown_signal(now),
            Event::OtherSignal => Ok(Step::quiet(Outcome::Idle, None)),
            Event::TimedOut => self.on_timeout(now),
            Event::Packet(data) => self.on_packet(data, now, isn),
        }
    }
}

/// A connection in one of the states between a FIN and teardown (FIN-WAIT-1, FIN-WAIT-2, CLOSING
/// or LAST-ACK) counts as mid-close.
proof fn lemma_mid_close_is_closing(entries: Entries, i: int)
    requires
        0 <= i < entries.len(),
        entries[i].1.tcp_state is FinWait1 || entries[i].1.tcp_state is FinWait2
            || entries[i].1.tcp_state is Closing || entries[i].1.tcp_state is LastAck,
    ensures
        any_closing(entries),
{
    assert(spec_is_closing(entries[i].1));
}

/// The server does not stop while a connection is mid-close: when, after a packet, some
/// connection in the table is in FIN-WAIT-1, FIN-WAIT-2, CLOSING or LAST-ACK, the step does not
/// exit, whatever the packet was.
pub proof fn law_no_exit_after_packet_while_mid_close(
    old: ServerView,
    new: ServerView,
    data: Seq<u8>,
    now: u64,
    isn: Option<u32>,
    r: Result<StepView, Error>,
    i: int,
)
    requires
        packet_step(old, new, data, now, isn, r),
        0 <= i < new.connections.entries.len(),
        new.connections.entries[i].1.tcp_state is FinWait1
            || new.connections.entries[i].1.tcp_state is FinWait2
            || new.connections.entries[i].1.tcp_state is Closing
            || new.connections.entries[i].1.tcp_state is LastAck,
    ensures
        r matches Ok(s) ==> s.exit is None,
{
    lemma_mid_close_is_closing(new.connections.entries, i);
}

/// A shutdown signal never reports that there is nothing to close while the active close leaves
/// a connection in FIN-WAIT-1, FIN-WAIT-2, CLOSING or LAST-ACK: the server then waits for it.
pub proof fn law_no_exit_on_shutdown_while_mid_close(
    old: ServerView,
    new: ServerView,
    now: u64,
    r: Result<StepView, Error>,
    i: int,
)
    requires
        shutdown_step(old, new, now, r),
        0 <= i < new.connections.entries.len(),
        new.connections.entries[i].1.tcp_state is FinWait1
            || new.connections.entries[i].1.tcp_state is FinWait2
            || new.connections.entries[i].1.tcp_state is Closing
            || new.connections.entries[i].1.tcp_state is LastAck,
    ensures
        r matches Ok(s) ==> s.exit is None,
{
    lemma_mid_close_is_closing(new.connections.entries, i);
}

/// On a timeout the server stops only once the shutdown deadline has passed, and then reports how
/// many connections were left; before that it only retransmits.
pub proof fn law_timeout_exits_only_after_deadline(
    old: ServerView,
    new: ServerView,
    now: u64,
    r: Result<StepView, Error>,
)
    requires
        timeout_step(old, new, now, r),
    ensures
        r matches Ok(s) ==> (s.exit is Some ==> (old.deadline matches Some(d) && d <= now) && s.exit
            == Some(Exit::GracePeriodElapsed { remaining: old.connections.entries.len() as usize })),
        (old.deadline matches Some(d) && d <= now) ==> new == old,
{
}

} // verus!
