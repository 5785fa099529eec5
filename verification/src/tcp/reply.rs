//! The TCP connection state machine: the reply to an incoming segment and the change it makes
//! to the connection table (RFC 9293, Section 3.10.7).

use vstd::prelude::*;

use crate::addr_pairs::{Ipv4AddrPair, PortPair};
use crate::error::Error;
use crate::tcp::connections::{ConnKey, TcpConnections};
use crate::tcp::flags::TcpFlags;
use crate::tcp::payload::{len_or_default, payload_len, payload_view, TcpPayload};
use crate::tcp::pending_segment::{spec_new_pending, PendingSegment};
use crate::tcp::segment::{SegmentView, TcpSegment, RCV_WND, TCP_HDR_MIN_LEN};
use crate::tcp::send_info::{spec_pure_ack, spec_rst, SendInfo, SendInfoView};
use crate::tcp::seq_space::{
    seq_add, seq_modulus, seq_precedes, seq_precedes_or_eq, seq_sub, SeqDist, SeqPoint,
};
use crate::tcp::state::{
    incoming_ack_update, spec_ack_update, spec_drain, spec_from_syn_ack, ConnState, ConnView,
    Established, SynReceived, TcpState, WindowState,
};

verus! {

/// `x` advanced by `n` sequence numbers.
pub open spec fn advance(x: u32, n: nat) -> u32 {
    seq_add(x, n as u32)
}

/// The result of a step of the state machine on one connection: the connection afterwards
/// (`None` once it is removed from the table) and the segment to send, if any.
pub type ConnStep = (Option<ConnView>, Result<Option<SendInfoView>, Error>);

/// The segment that carries `info` from the local side of `ip_pair`/`ports`.
pub open spec fn spec_from_pairs_and_info(
    ip_pair: Ipv4AddrPair,
    ports: PortPair,
    info: SendInfoView,
) -> SegmentView {
    SegmentView {
        ip_pair,
        ports,
        seq_num: info.seq_num,
        ack_num: info.ack_num,
        offset_bytes: 20,
        flags: info.flags,
        window: RCV_WND,
        payload: info.payload,
    }
}

/// Sends the data `bytes` as the next segment of `c`, at `now`.
pub open spec fn spec_data_payload(c: ConnView, bytes: Seq<u8>, now: u64) -> (ConnView, SendInfoView) {
    let info = SendInfoView {
        seq_num: c.snd_nxt,
        ack_num: c.rcv_nxt,
        flags: TcpFlags::Ack,
        payload: Some(bytes),
    };
    (
        ConnView {
            snd_nxt: advance(c.snd_nxt, bytes.len()),
            pending: c.pending.push(spec_new_pending(info, now)),
            ..c
        },
        info,
    )
}

/// Echoes as much of the send buffer as the window `wnd` allows, or acknowledges with a bare ACK
/// (if `ack_if_nothing`) or nothing when nothing can be sent.
pub open spec fn spec_send_buffered(c: ConnView, wnd: u16, ack_if_nothing: bool, now: u64) -> (
    ConnView,
    Result<Option<SendInfoView>, Error>,
) {
    let (c1, d) = spec_drain(wnd, c);
    match d {
        Err(e) => (c1, Err(e)),
        Ok(None) => (
            c1,
            Ok(
                if ack_if_nothing {
                    Some(spec_pure_ack(c1.snd_nxt, c1.rcv_nxt))
                } else {
                    None
                },
            ),
        ),
        Ok(Some(bytes)) => {
            let (c2, info) = spec_data_payload(c1, bytes, now);
            (c2, Ok(Some(info)))
        },
    }
}

/// `c` after receiving the in-order data `payload`: RCV.NXT advances past it and it is queued
/// for echoing.
pub open spec fn spec_receive(c: ConnView, payload: Option<Seq<u8>>) -> ConnView {
    match payload {
        Some(p) => ConnView {
            rcv_nxt: advance(c.rcv_nxt, p.len()),
            send_buffer: c.send_buffer + p,
            ..c
        },
        None => c,
    }
}

/// Passive close without CLOSE-WAIT: takes in any trailing data and the peer's FIN, then sends
/// our FIN-ACK with as much buffered data as the window allows, entering LAST-ACK.
pub open spec fn spec_passive_close(c: ConnView, ws: WindowState, seg: SegmentView, now: u64) -> (
    ConnView,
    Result<SendInfoView, Error>,
) {
    let c1 = spec_receive(c, seg.payload);
    // The peer's FIN consumes one sequence number
    let c2 = ConnView { rcv_nxt: advance(c1.rcv_nxt, 1), ..c1 };
    let (c3, ws1) = spec_ack_update(ws, c2, seg.seq_num, seg.ack_num, seg.window);
    let (c4, d) = spec_drain(ws1.snd_wnd, c3);
    match d {
        Err(e) => (c4, Err(e)),
        Ok(to_send) => {
            let info = SendInfoView {
                seq_num: c4.snd_nxt,
                ack_num: c4.rcv_nxt,
                flags: TcpFlags::FinAck,
                payload: to_send,
            };
            (
                ConnView {
                    tcp_state: TcpState::LastAck(crate::tcp::state::LastAck(ws1)),
                    // Our FIN consumes one sequence number after the data
                    snd_nxt: advance(advance(c4.snd_nxt, payload_len(to_send)), 1),
                    pending: c4.pending.push(spec_new_pending(info, now)),
                    ..c4
                },
                Ok(info),
            )
        },
    }
}

/// Whether `seg` acceptably completes the handshake of `c`: in order, and acknowledging our SYN
/// without acknowledging anything not yet sent.
pub open spec fn spec_handshake_acceptable(c: ConnView, seg: SegmentView) -> bool {
    seg.seq_num == c.rcv_nxt && seq_precedes(c.snd_una, seg.ack_num) && seq_precedes_or_eq(
        seg.ack_num,
        c.snd_nxt,
    )
}

/// `c` once the handshake completes with `seg`: ESTABLISHED, with the segment's window as the
/// first window update, and nothing pending (only the SYN-ACK could have been).
pub open spec fn spec_complete_handshake(c: ConnView, seg: SegmentView) -> ConnView {
    ConnView {
        tcp_state: TcpState::Established(
            Established(
                WindowState {
                    snd_wnd: seg.window,
                    snd_wl1: SeqPoint { value: seg.seq_num },
                    snd_wl2: SeqPoint { value: seg.ack_num },
                },
            ),
        ),
        rcv_nxt: seg.seq_num,
        snd_una: seg.ack_num,
        pending: Seq::empty(),
        ..c
    }
}

/// A segment arriving in SYN-RECEIVED.
pub open spec fn spec_handle_syn_rcv(c: ConnView, seg: SegmentView, now: u64) -> (
    ConnView,
    Result<Option<SendInfoView>, Error>,
) {
    if seg.flags == TcpFlags::Syn {
        // Duplicate SYN: resend the same SYN-ACK from the stored ISN
        let info = SendInfoView {
            seq_num: c.snd_una,
            ack_num: advance(seg.seq_num, 1),
            flags: TcpFlags::SynAck,
            payload: None,
        };
        (ConnView { pending: c.pending.push(spec_new_pending(info, now)), ..c }, Ok(Some(info)))
    } else if (seg.flags == TcpFlags::Ack || seg.flags == TcpFlags::FinAck) && seg.seq_num
        != c.rcv_nxt {
        // Unacceptable sequence number: reply with the current state
        (c, Ok(Some(spec_pure_ack(c.snd_nxt, c.rcv_nxt))))
    } else if seg.flags == TcpFlags::Ack && seg.payload is None && spec_handshake_acceptable(c, seg) {
        // The handshake-completing ACK; data arriving before the handshake completes gets a RST
        (spec_complete_handshake(c, seg), Ok(None))
    } else if seg.flags == TcpFlags::FinAck && spec_handshake_acceptable(c, seg) {
        let c1 = spec_complete_handshake(c, seg);
        let ws = WindowState {
            snd_wnd: seg.window,
            snd_wl1: SeqPoint { value: seg.seq_num },
            snd_wl2: SeqPoint { value: seg.ack_num },
        };
        let (c2, r) = spec_passive_close(c1, ws, seg, now);
        (
            c2,
            match r {
                Ok(info) => Ok(Some(info)),
                Err(e) => Err(e),
            },
        )
    } else {
        (c, Ok(Some(spec_rst(seg.ack_num))))
    }
}

/// A segment arriving in ESTABLISHED with window state `ws`.
pub open spec fn spec_handle_established(
    c: ConnView,
    ws: WindowState,
    seg: SegmentView,
    now: u64,
) -> (ConnView, Result<Option<SendInfoView>, Error>) {
    if seg.flags == TcpFlags::Ack && seq_precedes(c.snd_nxt, seg.ack_num) {
        // Acknowledges data not yet sent: drop it, reply with the current state
        (c, Ok(Some(spec_pure_ack(c.snd_nxt, c.rcv_nxt))))
    } else if seg.flags == TcpFlags::Ack && seg.payload is None {
        let (c1, ws1) = spec_ack_update(ws, c, seg.seq_num, seg.ack_num, seg.window);
        let c2 = ConnView { tcp_state: TcpState::Established(Established(ws1)), ..c1 };
        spec_send_buffered(c2, ws1.snd_wnd, false, now)
    } else if seg.flags == TcpFlags::Ack && seg.payload is Some && seg.seq_num == c.rcv_nxt {
        let (c1, ws1) = spec_ack_update(ws, c, seg.seq_num, seg.ack_num, seg.window);
        let c2 = spec_receive(
            ConnView { tcp_state: TcpState::Established(Established(ws1)), ..c1 },
            seg.payload,
        );
        spec_send_buffered(c2, ws1.snd_wnd, true, now)
    } else if (seg.flags == TcpFlags::Ack || seg.flags == TcpFlags::FinAck) && seg.seq_num
        != c.rcv_nxt {
        // Out of order: duplicate ACK
        let (c1, ws1) = spec_ack_update(ws, c, seg.seq_num, seg.ack_num, seg.window);
        (
            ConnView { tcp_state: TcpState::Established(Established(ws1)), ..c1 },
            Ok(Some(spec_pure_ack(c1.snd_nxt, c1.rcv_nxt))),
        )
    } else if seg.flags == TcpFlags::FinAck && seg.seq_num == c.rcv_nxt {
        let (c1, r) = spec_passive_close(c, ws, seg, now);
        (
            c1,
            match r {
                Ok(info) => Ok(Some(info)),
                Err(e) => Err(e),
            },
        )
    } else {
        (c, Ok(Some(spec_rst(seg.ack_num))))
    }
}

/// Whether `seq` lies in the receive window `[rcv_nxt, rcv_nxt + RCV.WND)`.
pub open spec fn spec_in_rcv_window(rcv_nxt: u32, seq: u32) -> bool {
    seq_precedes_or_eq(rcv_nxt, seq) && seq_precedes(seq, advance(rcv_nxt, RCV_WND as nat))
}

/// A segment arriving on a known connection.
pub open spec fn spec_conn_step(c: ConnView, seg: SegmentView, now: u64) -> ConnStep {
    let no_payload = seg.payload is None;
    if seg.flags == TcpFlags::Rst || seg.flags == TcpFlags::RstAck {
        // RFC 9293, Section 3.10.7.4 (blind reset protection, RFC 5961, Section 3)
        if seg.seq_num == c.rcv_nxt {
            (None, Ok(None))
        } else if spec_in_rcv_window(c.rcv_nxt, seg.seq_num) {
            (Some(c), Ok(Some(spec_pure_ack(c.snd_nxt, c.rcv_nxt))))
        } else {
            (Some(c), Ok(None))
        }
    } else if (seg.flags == TcpFlags::Syn || seg.flags == TcpFlags::SynAck) && !(
    c.tcp_state is SynReceived) {
        // Stray SYN on a synchronized connection: challenge ACK
        (Some(c), Ok(Some(spec_pure_ack(c.snd_nxt, c.rcv_nxt))))
    } else {
        match c.tcp_state {
            TcpState::SynReceived(_) => {
                let (c1, r) = spec_handle_syn_rcv(c, seg, now);
                (Some(c1), r)
            },
            TcpState::Established(Established(ws)) => {
                let (c1, r) = spec_handle_established(c, ws, seg, now);
                (Some(c1), r)
            },
            TcpState::LastAck(crate::tcp::state::LastAck(ws)) => if seg.flags == TcpFlags::Ack
                && no_payload && seg.ack_num != c.snd_nxt {
                // Partial ACK, not yet covering our FIN
                let (c1, ws1) = spec_ack_update(ws, c, seg.seq_num, seg.ack_num, seg.window);
                (
                    Some(
                        ConnView {
                            tcp_state: TcpState::LastAck(crate::tcp::state::LastAck(ws1)),
                            ..c1
                        },
                    ),
                    Ok(None),
                )
            } else if seg.flags == TcpFlags::Ack && no_payload {
                // Final ACK completing passive close
                (None, Ok(None))
            } else {
                (Some(c), Ok(Some(spec_rst(seg.ack_num))))
            },
            TcpState::FinWait1(crate::tcp::state::FinWait1(ws)) => if seg.flags == TcpFlags::Ack
                && !no_payload && seg.seq_num == c.rcv_nxt {
                // Data after our FIN: acknowledge it without echoing
                let c1 = ConnView {
                    rcv_nxt: advance(c.rcv_nxt, payload_len(seg.payload)),
                    ..c
                };
                let (c2, ws1) = spec_ack_update(ws, c1, seg.seq_num, seg.ack_num, seg.window);
                (
                    Some(
                        ConnView {
                            tcp_state: TcpState::FinWait1(crate::tcp::state::FinWait1(ws1)),
                            ..c2
                        },
                    ),
                    Ok(Some(spec_pure_ack(c1.snd_nxt, c1.rcv_nxt))),
                )
            } else if seg.flags == TcpFlags::Ack && no_payload && seg.ack_num == c.snd_nxt {
                // Our FIN is acknowledged
                let (c1, ws1) = spec_ack_update(ws, c, seg.seq_num, seg.ack_num, seg.window);
                (
                    Some(
                        ConnView {
                            tcp_state: TcpState::FinWait2(crate::tcp::state::FinWait2(ws1)),
                            ..c1
                        },
                    ),
                    Ok(None),
                )
            } else if seg.flags == TcpFlags::FinAck && seg.seq_num == c.rcv_nxt {
                // Simultaneous close
                let c1 = ConnView {
                    rcv_nxt: advance(advance(c.rcv_nxt, payload_len(seg.payload)), 1),
                    ..c
                };
                let reply = Ok(Some(spec_pure_ack(c1.snd_nxt, c1.rcv_nxt)));
                if seg.ack_num == c1.snd_nxt {
                    (None, reply)
                } else {
                    let (c2, ws1) = spec_ack_update(ws, c1, seg.seq_num, seg.ack_num, seg.window);
                    (
                        Some(
                            ConnView {
                                tcp_state: TcpState::Closing(crate::tcp::state::Closing(ws1)),
                                ..c2
                            },
                        ),
                        reply,
                    )
                }
            } else {
                (Some(c), Ok(Some(spec_rst(seg.ack_num))))
            },
            TcpState::FinWait2(crate::tcp::state::FinWait2(ws)) => if seg.flags == TcpFlags::Ack
                && !no_payload && seg.seq_num == c.rcv_nxt {
                let c1 = ConnView {
                    rcv_nxt: advance(c.rcv_nxt, payload_len(seg.payload)),
                    ..c
                };
                let (c2, ws1) = spec_ack_update(ws, c1, seg.seq_num, seg.ack_num, seg.window);
                (
                    Some(
                        ConnView {
                            tcp_state: TcpState::FinWait2(crate::tcp::state::FinWait2(ws1)),
                            ..c2
                        },
                    ),
                    Ok(Some(spec_pure_ack(c1.snd_nxt, c1.rcv_nxt))),
                )
            } else if seg.flags == TcpFlags::FinAck && seg.seq_num == c.rcv_nxt {
                // The peer's FIN completes our active close
                (
                    None,
                    Ok(
                        Some(
                            spec_pure_ack(
                                c.snd_nxt,
                                advance(advance(c.rcv_nxt, payload_len(seg.payload)), 1),
                            ),
                        ),
                    ),
                )
            } else {
                (Some(c), Ok(Some(spec_rst(seg.ack_num))))
            },
            TcpState::Closing(_) => if seg.flags == TcpFlags::Ack && no_payload && seg.ack_num
                == c.snd_nxt {
                (None, Ok(None))
            } else {
                (Some(c), Ok(Some(spec_rst(seg.ack_num))))
            },
        }
    }
}

/// A segment for which the table holds no connection. A SYN opens one in SYN-RECEIVED with the
/// initial sequence number `isn`; a RST is dropped; anything else is answered with a RST.
pub open spec fn spec_unknown_step(seg: SegmentView, isn: u32, now: u64) -> (
    Option<ConnView>,
    Option<SendInfoView>,
) {
    if seg.flags == TcpFlags::Rst || seg.flags == TcpFlags::RstAck {
        (None, None)
    } else if seg.flags == TcpFlags::Syn {
        let info = SendInfoView {
            seq_num: isn,
            ack_num: advance(seg.seq_num, 1),
            flags: TcpFlags::SynAck,
            payload: None,
        };
        (spec_from_syn_ack(info, now), Some(info))
    } else {
        (None, Some(spec_rst(seg.ack_num)))
    }
}

/// The key of the connection that an incoming segment belongs to.
pub open spec fn spec_key(seg: SegmentView) -> ConnKey {
    ConnKey {
        client_ip: seg.ip_pair.src,
        client_port: seg.ports.src,
        server_ip: seg.ip_pair.dst,
        server_port: seg.ports.dst,
    }
}

/// The reply segment that carries `r` back to the sender of `seg`.
pub open spec fn spec_reply_segment(seg: SegmentView, r: Result<Option<SendInfoView>, Error>) -> Result<
    Option<SegmentView>,
    Error,
> {
    match r {
        Err(e) => Err(e),
        Ok(None) => Ok(None),
        Ok(Some(info)) => Ok(
            Some(
                spec_from_pairs_and_info(seg.ip_pair.swapped_spec(), seg.ports.swapped_spec(), info),
            ),
        ),
    }
}


/// The model of a step's outcome.
pub open spec fn result_view(r: Result<Option<SendInfo>, Error>) -> Result<Option<SendInfoView>, Error> {
    match r {
        Err(e) => Err(e),
        Ok(None) => Ok(None),
        Ok(Some(info)) => Ok(Some(info@)),
    }
}

/// The model of a reply.
pub open spec fn segment_result_view(r: Result<Option<TcpSegment>, Error>) -> Result<
    Option<SegmentView>,
    Error,
> {
    match r {
        Err(e) => Err(e),
        Ok(None) => Ok(None),
        Ok(Some(s)) => Ok(Some(s@)),
    }
}

/// The connection table after `seg` arrives, and the reply to it. `isn` is the initial sequence
/// number to use if the segment opens a connection; `now` is the current time.
pub open spec fn spec_create_reply(
    table: Map<ConnKey, ConnView>,
    seg: SegmentView,
    isn: u32,
    now: u64,
) -> (Map<ConnKey, ConnView>, Result<Option<SegmentView>, Error>) {
    let key = spec_key(seg);
    if table.contains_key(key) {
        let (c, r) = spec_conn_step(table[key], seg, now);
        (
            match c {
                Some(c) => table.insert(key, c),
                None => table.remove(key),
            },
            spec_reply_segment(seg, r),
        )
    } else {
        let (c, info) = spec_unknown_step(seg, isn, now);
        (
            match c {
                Some(c) => table.insert(key, c),
                None => table,
            },
            spec_reply_segment(seg, Ok(info)),
        )
    }
}

/// Appends `bytes` to `v`.
fn extend_bytes(v: &mut Vec<u8>, bytes: &[u8])
    ensures
        final(v)@ == old(v)@ + bytes@,
{
    let n = bytes.len();
    let mut i: usize = 0;
    while i < n
        invariant
            n == bytes@.len(),
            i <= n,
            v@ == old(v)@ + bytes@.subrange(0, i as int),
        decreases n - i,
    {
        v.push(bytes[i]);
        i = i + 1;
        assert(v@ =~= old(v)@ + bytes@.subrange(0, i as int));
    }
    assert(bytes@.subrange(0, n as int) =~= bytes@);
}

/// Records `info`, sent at `now`, as pending until acknowledged.
fn push_pending(conn: &mut ConnState, info: SendInfo, now: u64)
    ensures
        final(conn)@ == (ConnView {
            pending: old(conn)@.pending.push(spec_new_pending(info@, now)),
            ..old(conn)@
        }),
{
    let ghost old_pending = conn.pending@;
    conn.pending.push(PendingSegment::new(info, now));
    assert(crate::tcp::state::pending_views(conn.pending@) =~= crate::tcp::state::pending_views(
        old_pending,
    ).push(spec_new_pending(info@, now)));
}

impl TcpSegment {
    /// Sends `to_send` as the next segment of `conn`, at `now`.
    fn data_payload(conn: &mut ConnState, to_send: TcpPayload, now: u64) -> (r: SendInfo)
        ensures
            (final(conn)@, r@) == spec_data_payload(old(conn)@, to_send@, now),
    {
        let send_len = to_send.len();
        let info = SendInfo {
            seq_num: conn.snd_nxt,
            ack_num: conn.rcv_nxt,
            flags: TcpFlags::Ack,
            payload: Some(to_send),
        };
        conn.snd_nxt.add_assign(SeqDist::new(send_len as u32));
        push_pending(conn, info.duplicate(), now);
        info
    }

    /// Echoes as much buffered data as the window `wnd` allows.
    fn send_buffered(conn: &mut ConnState, wnd: u16, ack_if_nothing: bool, now: u64) -> (r: Result<
        Option<SendInfo>,
        Error,
    >)
        ensures
            (final(conn)@, result_view(r)) == spec_send_buffered(
                old(conn)@,
                wnd,
                ack_if_nothing,
                now,
            ),
    {
        match conn.drain_transmittable(wnd) {
            Err(e) => Err(e),
            Ok(None) => if ack_if_nothing {
                Ok(Some(SendInfo::pure_ack(conn.snd_nxt, conn.rcv_nxt)))
            } else {
                Ok(None)
            },
            Ok(Some(to_send)) => Ok(Some(TcpSegment::data_payload(conn, to_send, now))),
        }
    }

    /// Takes in the in-order data of `self`.
    fn receive(&self, conn: &mut ConnState)
        ensures
            final(conn)@ == spec_receive(old(conn)@, self@.payload),
    {
        match &self.payload {
            Some(p) => {
                let len = p.len();
                conn.rcv_nxt.add_assign(SeqDist::new(len as u32));
                extend_bytes(&mut conn.send_buffer, p.as_bytes());
            },
            None => {},
        }
    }

    /// Transitions from ESTABLISHED straight to LAST-ACK, skipping over CLOSE-WAIT, updating
    /// `conn` accordingly and returning a FIN-ACK with as much data as the window allows.
    fn begin_passive_close_without_close_wait(
        &self,
        conn: &mut ConnState,
        old_established: WindowState,
        now: u64,
    ) -> (r: Result<SendInfo, Error>)
        ensures
            (final(conn)@, match r {
                Ok(info) => Ok::<SendInfoView, Error>(info@),
                Err(e) => Err(e),
            }) == spec_passive_close(old(conn)@, old_established, self@, now),
    {
        self.receive(conn);
        // The peer's FIN consumes one sequence number
        conn.rcv_nxt.add_assign(SeqDist::new(1));
        let ws = incoming_ack_update(old_established, conn, self.seq_num, self.ack_num, self.window);
        let to_send = match conn.drain_transmittable(ws.snd_wnd) {
            Ok(t) => t,
            Err(e) => return Err(e),
        };
        let send_len = len_or_default(&to_send);
        conn.tcp_state = TcpState::LastAck(Established(ws).skip_close_wait());
        let info = SendInfo {
            seq_num: conn.snd_nxt,
            ack_num: conn.rcv_nxt,
            flags: TcpFlags::FinAck,
            payload: to_send,
        };
        conn.snd_nxt.add_assign(SeqDist::new(send_len as u32));
        // Our FIN consumes one sequence number
        conn.snd_nxt.add_assign(SeqDist::new(1));
        push_pending(conn, info.duplicate(), now);
        Ok(info)
    }

    /// Completes the initial three-way handshake, updating `conn` and returning the new window.
    fn complete_handshake(&self, conn: &mut ConnState, syn_received: SynReceived) -> (r: WindowState)
        ensures
            final(conn)@ == spec_complete_handshake(old(conn)@, self@),
            r == (WindowState {
                snd_wnd: self.window,
                snd_wl1: self.seq_num,
                snd_wl2: self.ack_num,
            }),
    {
        let established = syn_received.establish(self.window, self.seq_num, self.ack_num);
        conn.tcp_state = TcpState::Established(established);
        conn.rcv_nxt = self.seq_num;
        conn.snd_una = self.ack_num;
        // Only the SYN-ACK just acknowledged could have been pending
        conn.pending = Vec::new();
        assert(crate::tcp::state::pending_views(conn.pending@) =~= Seq::empty());
        established.0
    }

    /// Handles a segment arriving in SYN-RECEIVED.
    fn handle_syn_rcv(&self, conn: &mut ConnState, syn_received: SynReceived, now: u64) -> (r:
        Result<Option<SendInfo>, Error>)
        ensures
            (final(conn)@, result_view(r)) == spec_handle_syn_rcv(old(conn)@, self@, now),
    {
        let acceptable = self.seq_num == conn.rcv_nxt && conn.snd_una.precedes(self.ack_num)
            && self.ack_num.precedes_or_eq(conn.snd_nxt);
        let is_syn = match self.flags {
            TcpFlags::Syn => true,
            _ => false,
        };
        let is_ack = match self.flags {
            TcpFlags::Ack => true,
            _ => false,
        };
        let is_fin_ack = match self.flags {
            TcpFlags::FinAck => true,
            _ => false,
        };
        if is_syn {
            // Duplicate SYN: resend the same SYN-ACK using the stored ISN
            let info = SendInfo {
                seq_num: conn.snd_una,
                ack_num: self.seq_num.add(SeqDist::new(1)),
                flags: TcpFlags::SynAck,
                payload: None,
            };
            push_pending(conn, info.duplicate(), now);
            Ok(Some(info))
        } else if (is_ack || is_fin_ack) && self.seq_num != conn.rcv_nxt {
            Ok(Some(SendInfo::pure_ack(conn.snd_nxt, conn.rcv_nxt)))
        } else if is_ack && self.payload.is_none() && acceptable {
            self.complete_handshake(conn, syn_received);
            Ok(None)
        } else if is_fin_ack && acceptable {
            let ws = self.complete_handshake(conn, syn_received);
            match self.begin_passive_close_without_close_wait(conn, ws, now) {
                Ok(info) => Ok(Some(info)),
                Err(e) => Err(e),
            }
        } else {
            Ok(Some(SendInfo::rst(self.ack_num)))
        }
    }

    /// Handles a segment arriving in ESTABLISHED with window state `ws`.
    fn handle_established(&self, conn: &mut ConnState, ws: WindowState, now: u64) -> (r: Result<
        Option<SendInfo>,
        Error,
    >)
        ensures
            (final(conn)@, result_view(r)) == spec_handle_established(old(conn)@, ws, self@, now),
    {
        let is_ack = match self.flags {
            TcpFlags::Ack => true,
            _ => false,
        };
        let is_fin_ack = match self.flags {
            TcpFlags::FinAck => true,
            _ => false,
        };
        if is_ack && conn.snd_nxt.precedes(self.ack_num) {
            // Acknowledges data not yet sent: drop it, reply with the current state
            Ok(Some(SendInfo::pure_ack(conn.snd_nxt, conn.rcv_nxt)))
        } else if is_ack && self.payload.is_none() {
            // Pure ACK: advance SND.UNA, then send what the window allows
            let ws1 = incoming_ack_update(ws, conn, self.seq_num, self.ack_num, self.window);
            conn.tcp_state = TcpState::Established(Established(ws1));
            TcpSegment::send_buffered(conn, ws1.snd_wnd, false, now)
        } else if is_ack && self.payload.is_some() && self.seq_num == conn.rcv_nxt {
            // In-order data: acknowledge it and echo as much as the window allows
            let ws1 = incoming_ack_update(ws, conn, self.seq_num, self.ack_num, self.window);
            conn.tcp_state = TcpState::Established(Established(ws1));
            self.receive(conn);
            TcpSegment::send_buffered(conn, ws1.snd_wnd, true, now)
        } else if (is_ack || is_fin_ack) && self.seq_num != conn.rcv_nxt {
            // Out-of-order data or FIN-ACK: duplicate ACK
            let ws1 = incoming_ack_update(ws, conn, self.seq_num, self.ack_num, self.window);
            conn.tcp_state = TcpState::Established(Established(ws1));
            Ok(Some(SendInfo::pure_ack(conn.snd_nxt, conn.rcv_nxt)))
        } else if is_fin_ack && self.seq_num == conn.rcv_nxt {
            // In-order FIN-ACK: echo trailing data and close
            match self.begin_passive_close_without_close_wait(conn, ws, now) {
                Ok(info) => Ok(Some(info)),
                Err(e) => Err(e),
            }
        } else {
            Ok(Some(SendInfo::rst(self.ack_num)))
        }
    }

    /// Handles a segment arriving on a known connection, returning whether the connection stays
    /// in the table and what to send.
    fn conn_step(&self, conn: &mut ConnState, now: u64) -> (r: (bool, Result<Option<SendInfo>, Error>))
        ensures
            r.0 == spec_conn_step(old(conn)@, self@, now).0 is Some,
            r.0 ==> final(conn)@ == spec_conn_step(old(conn)@, self@, now).0.unwrap(),
            result_view(r.1) == spec_conn_step(old(conn)@, self@, now).1,
    {
        let is_ack = match self.flags {
            TcpFlags::Ack => true,
            _ => false,
        };
        let is_fin_ack = match self.flags {
            TcpFlags::FinAck => true,
            _ => false,
        };
        let no_payload = self.payload.is_none();
        match self.flags {
            TcpFlags::Rst | TcpFlags::RstAck => {
                if self.seq_num == conn.rcv_nxt {
                    return (false, Ok(None));
                } else if conn.rcv_nxt.precedes_or_eq(self.seq_num) && self.seq_num.precedes(
                    conn.rcv_nxt.add(SeqDist::new(RCV_WND as u32)),
                ) {
                    return (true, Ok(Some(SendInfo::pure_ack(conn.snd_nxt, conn.rcv_nxt))));
                } else {
                    return (true, Ok(None));
                }
            },
            TcpFlags::Syn | TcpFlags::SynAck => {
                if let TcpState::SynReceived(_) = conn.tcp_state {
                } else {
                    return (true, Ok(Some(SendInfo::pure_ack(conn.snd_nxt, conn.rcv_nxt))));
                }
            },
            _ => {},
        }
        match conn.tcp_state {
            TcpState::SynReceived(syn_received) => (
                true,
                self.handle_syn_rcv(conn, syn_received, now),
            ),
            TcpState::Established(Established(ws)) => (
                true,
                self.handle_established(conn, ws, now),
            ),
            TcpState::LastAck(crate::tcp::state::LastAck(ws)) => {
                if is_ack && no_payload && self.ack_num != conn.snd_nxt {
                    // Partial ACK, not yet covering our FIN
                    let ws1 = incoming_ack_update(ws, conn, self.seq_num, self.ack_num, self.window);
                    conn.tcp_state = TcpState::LastAck(crate::tcp::state::LastAck(ws1));
                    (true, Ok(None))
                } else if is_ack && no_payload {
                    // Final ACK completing passive close
                    (false, Ok(None))
                } else {
                    (true, Ok(Some(SendInfo::rst(self.ack_num))))
                }
            },
            TcpState::FinWait1(fin_wait_1) => {
                let ws = fin_wait_1.0;
                if is_ack && !no_payload && self.seq_num == conn.rcv_nxt {
                    // Data after our FIN: acknowledge it without echoing
                    self.receive_without_echo(conn);
                    let info = SendInfo::pure_ack(conn.snd_nxt, conn.rcv_nxt);
                    let ws1 = incoming_ack_update(ws, conn, self.seq_num, self.ack_num, self.window);
                    conn.tcp_state = TcpState::FinWait1(crate::tcp::state::FinWait1(ws1));
                    (true, Ok(Some(info)))
                } else if is_ack && no_payload && self.ack_num == conn.snd_nxt {
                    // Our FIN has been acknowledged
                    let ws1 = incoming_ack_update(ws, conn, self.seq_num, self.ack_num, self.window);
                    conn.tcp_state = TcpState::FinWait2(
                        crate::tcp::state::FinWait1(ws1).rcv_ack_of_fin(),
                    );
                    (true, Ok(None))
                } else if is_fin_ack && self.seq_num == conn.rcv_nxt {
                    // Simultaneous close
                    let len = len_or_default(&self.payload);
                    conn.rcv_nxt.add_assign(SeqDist::new(len as u32));
                    conn.rcv_nxt.add_assign(SeqDist::new(1));
                    let info = SendInfo::pure_ack(conn.snd_nxt, conn.rcv_nxt);
                    if self.ack_num == conn.snd_nxt {
                        (false, Ok(Some(info)))
                    } else {
                        let ws1 = incoming_ack_update(
                            ws,
                            conn,
                            self.seq_num,
                            self.ack_num,
                            self.window,
                        );
                        conn.tcp_state = TcpState::Closing(
                            crate::tcp::state::FinWait1(ws1).wait_for_simultaneous_close_ack(),
                        );
                        (true, Ok(Some(info)))
                    }
                } else {
                    (true, Ok(Some(SendInfo::rst(self.ack_num))))
                }
            },
            TcpState::FinWait2(crate::tcp::state::FinWait2(ws)) => {
                if is_ack && !no_payload && self.seq_num == conn.rcv_nxt {
                    self.receive_without_echo(conn);
                    let info = SendInfo::pure_ack(conn.snd_nxt, conn.rcv_nxt);
                    let ws1 = incoming_ack_update(ws, conn, self.seq_num, self.ack_num, self.window);
                    conn.tcp_state = TcpState::FinWait2(crate::tcp::state::FinWait2(ws1));
                    (true, Ok(Some(info)))
                } else if is_fin_ack && self.seq_num == conn.rcv_nxt {
                    // The peer's FIN completes our active close
                    let len = len_or_default(&self.payload);
                    let ack = conn.rcv_nxt.add(SeqDist::new(len as u32)).add(SeqDist::new(1));
                    (false, Ok(Some(SendInfo::pure_ack(conn.snd_nxt, ack))))
                } else {
                    (true, Ok(Some(SendInfo::rst(self.ack_num))))
                }
            },
            TcpState::Closing(_) => {
                if is_ack && no_payload && self.ack_num == conn.snd_nxt {
                    (false, Ok(None))
                } else {
                    (true, Ok(Some(SendInfo::rst(self.ack_num))))
                }
            },
        }
    }

    /// Advances RCV.NXT past the data of `self` without queueing it for echoing.
    fn receive_without_echo(&self, conn: &mut ConnState)
        ensures
            final(conn)@ == (ConnView {
                rcv_nxt: advance(old(conn)@.rcv_nxt, payload_len(self@.payload)),
                ..old(conn)@
            }),
    {
        let len = len_or_default(&self.payload);
        conn.rcv_nxt.add_assign(SeqDist::new(len as u32));
    }

    /// The segment that carries `info` from the local side of `ip_pair`/`ports`.
    pub fn from_pairs_and_info(ip_pair: Ipv4AddrPair, ports: PortPair, info: SendInfo) -> (r:
        TcpSegment)
        ensures
            r@ == spec_from_pairs_and_info(ip_pair, ports, info@),
    {
        TcpSegment {
            ip_pair,
            ports,
            seq_num: info.seq_num,
            ack_num: info.ack_num,
            offset_bytes: TCP_HDR_MIN_LEN,
            flags: info.flags,
            window: RCV_WND,
            payload: info.payload,
        }
    }

    /// Creates a TCP segment for replying to `self`, or returns `Ok(None)` for no reply, updating
    /// the connection table. A SYN for an unknown connection opens it with the initial sequence
    /// number `isn`; `now` is the current time in milliseconds.
    pub fn create_reply(&self, connections: &mut TcpConnections, isn: u32, now: u64) -> (r: Result<
        Option<TcpSegment>,
        Error,
    >)
        ensures
            final(connections)@.table() == spec_create_reply(
                old(connections)@.table(),
                self@,
                isn,
                now,
            ).0,
            segment_result_view(r) == spec_create_reply(
                old(connections)@.table(),
                self@,
                isn,
                now,
            ).1,
            final(connections)@.initial_rto == old(connections)@.initial_rto,
            final(connections)@.max_retries == old(connections)@.max_retries,
    {
        let key = ConnKey {
            client_ip: self.ip_pair.src,
            client_port: self.ports.src,
            server_ip: self.ip_pair.dst,
            server_port: self.ports.dst,
        };
        let reply: Result<Option<SendInfo>, Error> = match connections.find(key) {
            Some(i) => {
                connections.keys_are_distinct();
                proof {
                    crate::tcp::connections::lemma_table_index(connections@.entries, i as int);
                }
                let mut conn = connections.take(i);
                let (keep, r) = self.conn_step(&mut conn, now);
                if keep {
                    connections.restore(i, key, conn);
                }
                r
            },
            None => {
                match self.flags {
                    TcpFlags::Rst | TcpFlags::RstAck => Ok(None),
                    TcpFlags::Syn => {
                        let info = SendInfo {
                            seq_num: SeqPoint::new(isn),
                            ack_num: self.seq_num.add(SeqDist::new(1)),
                            flags: TcpFlags::SynAck,
                            payload: None,
                        };
                        let conn = match ConnState::from_syn_ack(info.duplicate(), now) {
                            Ok(c) => c,
                            Err(e) => return Err(e),
                        };
                        match connections.insert_syn_rcv(key, conn) {
                            Ok(()) => {},
                            Err(e) => return Err(e),
                        }
                        Ok(Some(info))
                    },
                    _ => Ok(Some(SendInfo::rst(self.ack_num))),
                }
            },
        };
        match reply {
            Err(e) => Err(e),
            Ok(None) => Ok(None),
            Ok(Some(info)) => Ok(
                Some(
                    TcpSegment::from_pairs_and_info(
                        self.ip_pair.swapped(),
                        self.ports.swapped(),
                        info,
                    ),
                ),
            ),
        }
    }
}

/// A segment changes at most the connection it belongs to: every other connection of the table
/// is kept as it was, and none is added.
pub proof fn law_create_reply_frame(
    table: Map<ConnKey, ConnView>,
    seg: SegmentView,
    isn: u32,
    now: u64,
    k: ConnKey,
)
    requires
        k != spec_key(seg),
    ensures
        spec_create_reply(table, seg, isn, now).0.contains_key(k) == table.contains_key(k),
        table.contains_key(k) ==> spec_create_reply(table, seg, isn, now).0[k] == table[k],
{
}

/// Every reply goes back to the sender of the segment: addresses and ports swapped, with a
/// 20-byte header and the full receive window.
pub proof fn law_reply_goes_to_sender(table: Map<ConnKey, ConnView>, seg: SegmentView, isn: u32, now: u64)
    ensures
        spec_create_reply(table, seg, isn, now).1 matches Ok(Some(r)) ==> {
            &&& r.ip_pair == seg.ip_pair.swapped_spec()
            &&& r.ports == seg.ports.swapped_spec()
            &&& r.offset_bytes == 20
            &&& r.window == RCV_WND
        },
{
}

/// A RST is never answered with a RST (RFC 9293, Section 3.10.7): it gets no reply, or a bare
/// ACK when it must be challenged.
pub proof fn law_reset_never_answered_with_reset(
    table: Map<ConnKey, ConnView>,
    seg: SegmentView,
    isn: u32,
    now: u64,
)
    requires
        seg.flags == TcpFlags::Rst || seg.flags == TcpFlags::RstAck,
    ensures
        spec_create_reply(table, seg, isn, now).1 matches Ok(reply) && (reply matches Some(r)
            ==> r.flags == TcpFlags::Ack && r.payload is None),
{
}

/// A RST whose sequence number is exactly the next one expected tears its connection down
/// without reply (RFC 5961, Section 3.2).
pub proof fn law_exact_reset_closes(table: Map<ConnKey, ConnView>, seg: SegmentView, isn: u32, now: u64)
    requires
        seg.flags == TcpFlags::Rst || seg.flags == TcpFlags::RstAck,
        table.contains_key(spec_key(seg)),
        seg.seq_num == table[spec_key(seg)].rcv_nxt,
    ensures
        !spec_create_reply(table, seg, isn, now).0.contains_key(spec_key(seg)),
        spec_create_reply(table, seg, isn, now).1 == Ok::<Option<SegmentView>, Error>(None),
{
}

/// A SYN for an unknown connection opens it in SYN-RECEIVED with the initial sequence number
/// `isn` and is answered with a SYN-ACK from `isn` that acknowledges the SYN; the SYN-ACK waits
/// for its acknowledgment as the connection's only pending segment.
pub proof fn law_syn_opens_connection(table: Map<ConnKey, ConnView>, seg: SegmentView, isn: u32, now: u64)
    requires
        seg.flags == TcpFlags::Syn,
        !table.contains_key(spec_key(seg)),
    ensures
        ({
            let (t, r) = spec_create_reply(table, seg, isn, now);
            &&& t.contains_key(spec_key(seg))
            &&& t[spec_key(seg)].tcp_state is SynReceived
            &&& t[spec_key(seg)].snd_una == isn
            &&& t[spec_key(seg)].snd_nxt == seq_add(isn, 1)
            &&& t[spec_key(seg)].rcv_nxt == advance(seg.seq_num, 1)
            &&& t[spec_key(seg)].pending.len() == 1
            &&& r matches Ok(Some(reply)) && reply.flags == TcpFlags::SynAck && reply.seq_num
                == isn && reply.ack_num == advance(seg.seq_num, 1) && reply.payload is None
        }),
{
}

/// Anything but a SYN or a RST for an unknown connection is answered with a RST at the
/// acknowledgment number it carries, and opens nothing.
pub proof fn law_unknown_connection_gets_reset(
    table: Map<ConnKey, ConnView>,
    seg: SegmentView,
    isn: u32,
    now: u64,
)
    requires
        seg.flags != TcpFlags::Syn,
        seg.flags != TcpFlags::Rst,
        seg.flags != TcpFlags::RstAck,
        !table.contains_key(spec_key(seg)),
    ensures
        spec_create_reply(table, seg, isn, now).0 == table,
        spec_create_reply(table, seg, isn, now).1 matches Ok(Some(r)) && r.flags == TcpFlags::Rst
            && r.seq_num == seg.ack_num && r.ack_num == 0,
{
}

/// Sending from the send buffer takes bytes from its front, in order, and never more than the
/// peer's window `wnd` leaves room for: no byte is lost, reordered or invented, and afterwards
/// the data in flight fits in the window (RFC 9293, Section 3.8.6).
pub proof fn law_send_within_window(c: ConnView, wnd: u16, ack_if_nothing: bool, now: u64)
    requires
        seq_precedes_or_eq(c.snd_una, c.snd_nxt),
    ensures
        ({
            let (c2, r) = spec_send_buffered(c, wnd, ack_if_nothing, now);
            &&& c2.snd_una == c.snd_una
            &&& c2.rcv_nxt == c.rcv_nxt
            &&& r is Ok
            &&& match r {
                Ok(Some(info)) => match info.payload {
                    Some(p) => {
                        &&& p + c2.send_buffer == c.send_buffer
                        &&& info.seq_num == c.snd_nxt
                        &&& c2.snd_nxt == advance(c.snd_nxt, p.len())
                        &&& seq_sub(c2.snd_nxt, c2.snd_una) <= wnd
                    },
                    None => c2.send_buffer == c.send_buffer && c2.snd_nxt == c.snd_nxt,
                },
                _ => c2.send_buffer == c.send_buffer && c2.snd_nxt == c.snd_nxt,
            }
        }),
{
    let (c1, d) = spec_drain(wnd, c);
    let inflight = seq_sub(c.snd_nxt, c.snd_una);
    assert(0 <= inflight < seq_modulus());
    if let Ok(Some(bytes)) = d {
        assert(bytes + c1.send_buffer =~= c.send_buffer);
        assert(inflight + bytes.len() <= wnd);
    } else {
        assert(c1.send_buffer =~= c.send_buffer);
    }
}

/// The echo server's promise: on an established connection with nothing in flight and nothing
/// waiting to be sent, in-order data that the peer's window has room for is echoed back whole,
/// in a reply that acknowledges it and starts at the next sequence number to send.
pub proof fn law_in_order_data_is_echoed(
    table: Map<ConnKey, ConnView>,
    seg: SegmentView,
    isn: u32,
    now: u64,
    ws: WindowState,
)
    requires
        table.contains_key(spec_key(seg)),
        table[spec_key(seg)].tcp_state == TcpState::Established(Established(ws)),
        table[spec_key(seg)].snd_una == table[spec_key(seg)].snd_nxt,
        table[spec_key(seg)].send_buffer.len() == 0,
        seg.flags == TcpFlags::Ack,
        seg.seq_num == table[spec_key(seg)].rcv_nxt,
        seg.ack_num == table[spec_key(seg)].snd_nxt,
        seg.payload matches Some(p) && 0 < p.len() <= seg.window && p.len() <= ws.snd_wnd,
    ensures
        ({
            let c = table[spec_key(seg)];
            let p = seg.payload->0;
            let (t, r) = spec_create_reply(table, seg, isn, now);
            &&& r matches Ok(Some(reply)) && reply.payload == Some(p) && reply.flags
                == TcpFlags::Ack && reply.seq_num == c.snd_nxt && reply.ack_num == advance(
                seg.seq_num,
                p.len(),
            ) && reply.ip_pair == seg.ip_pair.swapped_spec() && reply.ports
                == seg.ports.swapped_spec()
            &&& t.contains_key(spec_key(seg))
            &&& t[spec_key(seg)].rcv_nxt == advance(c.rcv_nxt, p.len())
            &&& t[spec_key(seg)].snd_nxt == advance(c.snd_nxt, p.len())
            &&& t[spec_key(seg)].send_buffer.len() == 0
        }),
{
    let c = table[spec_key(seg)];
    let p = seg.payload->0;
    let (c1, ws1) = spec_ack_update(ws, c, seg.seq_num, seg.ack_num, seg.window);
    assert(c1 == c);
    assert(ws1.snd_wnd >= p.len());
    let c2 = spec_receive(ConnView { tcp_state: TcpState::Established(Established(ws1)), ..c1 }, seg.payload);
    assert(c2.send_buffer =~= p);
    assert(seq_sub(c2.snd_nxt, c2.snd_una) == 0);
    assert(c2.send_buffer.take(p.len() as int) =~= p);
    assert(c2.send_buffer.skip(p.len() as int) =~= Seq::<u8>::empty());
}

/// The third step of the handshake: a SYN-RECEIVED connection that gets an in-order ACK of its
/// SYN (and of nothing not yet sent), carrying no data, becomes ESTABLISHED without reply, takes
/// the segment's window as its first send window, and stops waiting for the SYN-ACK's
/// acknowledgment.
pub proof fn law_handshake_ack_establishes(
    table: Map<ConnKey, ConnView>,
    seg: SegmentView,
    isn: u32,
    now: u64,
)
    requires
        table.contains_key(spec_key(seg)),
        table[spec_key(seg)].tcp_state is SynReceived,
        seg.flags == TcpFlags::Ack,
        seg.payload is None,
        spec_handshake_acceptable(table[spec_key(seg)], seg),
    ensures
        ({
            let (t, r) = spec_create_reply(table, seg, isn, now);
            &&& r == Ok::<Option<SegmentView>, Error>(None)
            &&& t.contains_key(spec_key(seg))
            &&& t[spec_key(seg)].tcp_state == TcpState::Established(
                Established(
                    WindowState {
                        snd_wnd: seg.window,
                        snd_wl1: SeqPoint { value: seg.seq_num },
                        snd_wl2: SeqPoint { value: seg.ack_num },
                    },
                ),
            )
            &&& t[spec_key(seg)].snd_una == seg.ack_num
            &&& t[spec_key(seg)].pending.len() == 0
        }),
{
}

/// Passive close with trailing data: when an ESTABLISHED connection with nothing in flight or
/// queued gets an in-order FIN-ACK that carries the data `p` and acknowledges everything sent, and
/// both the connection's send window and the segment's window have room for `p`, the reply is a
/// FIN-ACK from SND.NXT that echoes `p` and acknowledges `p` and the peer's FIN
/// (RCV.NXT + |p| + 1). The connection enters LAST-ACK with RCV.NXT past `p` and the FIN, and
/// SND.NXT past the echo and our FIN.
pub proof fn law_fin_with_data_is_echoed_and_acknowledged(
    c: ConnView,
    ws: WindowState,
    seg: SegmentView,
    p: Seq<u8>,
    now: u64,
)
    requires
        c.tcp_state == TcpState::Established(Established(ws)),
        c.snd_una == c.snd_nxt,
        c.send_buffer.len() == 0,
        seg.flags == TcpFlags::FinAck,
        seg.seq_num == c.rcv_nxt,
        seg.ack_num == c.snd_nxt,
        seg.payload == Some(p),
        0 < p.len() <= ws.snd_wnd,
        p.len() <= seg.window,
    ensures
        ({
            let (c1, r) = spec_conn_step(c, seg, now);
            &&& r == Ok::<Option<SendInfoView>, Error>(
                Some(
                    SendInfoView {
                        seq_num: c.snd_nxt,
                        ack_num: seq_add(c.rcv_nxt, (p.len() + 1) as u32),
                        flags: TcpFlags::FinAck,
                        payload: Some(p),
                    },
                ),
            )
            &&& c1 matches Some(c2) && c2.tcp_state is LastAck && c2.rcv_nxt == seq_add(
                c.rcv_nxt,
                (p.len() + 1) as u32,
            ) && c2.snd_nxt == seq_add(c.snd_nxt, (p.len() + 1) as u32)
        }),
{
    let c1 = spec_receive(c, seg.payload);
    assert(c1.send_buffer =~= p);
    assert(p.take(p.len() as int) =~= p);
    assert(p.skip(p.len() as int) =~= Seq::<u8>::empty());
}

/// In LAST-ACK the connection waits for the acknowledgment of our FIN: it leaves the table only on
/// a bare ACK of SND.NXT or on a reset whose sequence number is exactly RCV.NXT, and a bare ACK of
/// anything short of SND.NXT keeps it in LAST-ACK.
pub proof fn law_last_ack_waits_for_ack_of_fin(c: ConnView, seg: SegmentView, now: u64)
    requires
        c.tcp_state is LastAck,
    ensures
        ({
            let (c1, r) = spec_conn_step(c, seg, now);
            &&& c1 is None ==> ((seg.flags == TcpFlags::Rst || seg.flags == TcpFlags::RstAck)
                && seg.seq_num == c.rcv_nxt) || (seg.flags == TcpFlags::Ack && seg.payload is None
                && seg.ack_num == c.snd_nxt)
            &&& seg.flags == TcpFlags::Ack && seg.payload is None && seg.ack_num != c.snd_nxt
                ==> (c1 matches Some(c2) && c2.tcp_state is LastAck)
        }),
{
}

/// Active close, after our FIN: in FIN-WAIT-1 a bare ACK of SND.NXT (our FIN) moves to FIN-WAIT-2
/// without reply; in FIN-WAIT-1 or FIN-WAIT-2 an in-order FIN-ACK carrying `n` bytes is answered by
/// a bare ACK from SND.NXT of RCV.NXT + n + 1, and ends the connection when it acknowledges our
/// FIN, or otherwise (in FIN-WAIT-1) moves to CLOSING; in CLOSING a bare ACK of SND.NXT ends it.
pub proof fn law_active_close_steps(c: ConnView, seg: SegmentView, now: u64)
    requires
        seg.flags != TcpFlags::Rst && seg.flags != TcpFlags::RstAck,
    ensures
        ({
            let (c1, r) = spec_conn_step(c, seg, now);
            let n = payload_len(seg.payload);
            let fin_ack_reply = Ok::<Option<SendInfoView>, Error>(
                Some(
                    SendInfoView {
                        seq_num: c.snd_nxt,
                        ack_num: seq_add(c.rcv_nxt, (n + 1) as u32),
                        flags: TcpFlags::Ack,
                        payload: None,
                    },
                ),
            );
            &&& c.tcp_state is FinWait1 && seg.flags == TcpFlags::Ack && seg.payload is None
                && seg.ack_num == c.snd_nxt ==> r == Ok::<Option<SendInfoView>, Error>(None) && (
            c1 matches Some(c2) && c2.tcp_state is FinWait2)
            &&& (c.tcp_state is FinWait1 || c.tcp_state is FinWait2) && seg.flags
                == TcpFlags::FinAck && seg.seq_num == c.rcv_nxt && n < 0xFFFF ==> r == fin_ack_reply
            &&& (c.tcp_state is FinWait1 || c.tcp_state is FinWait2) && seg.flags
                == TcpFlags::FinAck && seg.seq_num == c.rcv_nxt && seg.ack_num == c.snd_nxt
                ==> c1 is None
            &&& c.tcp_state is FinWait1 && seg.flags == TcpFlags::FinAck && seg.seq_num == c.rcv_nxt
                && seg.ack_num != c.snd_nxt ==> (c1 matches Some(c2) && c2.tcp_state is Closing)
            &&& c.tcp_state is Closing && seg.flags == TcpFlags::Ack && seg.payload is None
                && seg.ack_num == c.snd_nxt ==> c1 is None && r == Ok::<
                Option<SendInfoView>,
                Error,
            >(None)
        }),
{
    let n = payload_len(seg.payload);
    if n < 0xFFFF {
        assert(n as u32 == n);
        assert((n + 1) as u32 == n + 1);
    }
}

} // verus!
