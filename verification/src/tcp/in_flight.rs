//! How far SND.NXT runs ahead of SND.UNA: the data and control flags sent but not yet
//! acknowledged, and why that never exceeds a window (and one FIN).

use vstd::prelude::*;

use crate::tcp::connections::ConnKey;
use crate::tcp::reply::{
    advance, spec_complete_handshake, spec_conn_step, spec_create_reply, spec_key, spec_handshake_acceptable, spec_passive_close,
    spec_receive, spec_send_buffered,
};
use crate::tcp::send_info::SendInfoView;
use crate::tcp::payload::payload_len;
use crate::tcp::timers::{spec_close_entry, spec_retransmit_entry};
use crate::tcp::segment::SegmentView;
use crate::tcp::seq_space::{seq_add, seq_precedes, seq_precedes_or_eq, seq_sub};
use crate::tcp::state::{
    spec_ack_update, spec_drain, spec_from_syn_ack, ConnView, Established, TcpState, WindowState,
};

verus! {

/// The number of sequence numbers sent on `c` but not yet acknowledged: SND.NXT - SND.UNA.
pub open spec fn spec_in_flight(c: ConnView) -> int {
    seq_sub(c.snd_nxt, c.snd_una)
}

/// Whether SND.UNA is at most a full window behind SND.NXT, and one more once our FIN is sent
/// (in any state past ESTABLISHED). Either way SND.UNA precedes or equals SND.NXT.
pub open spec fn spec_una_bounded(c: ConnView) -> bool {
    match c.tcp_state {
        TcpState::SynReceived(_) | TcpState::Established(_) => spec_in_flight(c) <= 0xFFFF,
        _ => spec_in_flight(c) <= 0x1_0000,
    }
}

/// Whether `ack` acknowledges the sequence number exactly opposite SND.UNA when nothing is in
/// flight: sequence arithmetic takes it as both ahead of and behind SND.NXT.
pub open spec fn spec_antipodal_ack(c: ConnView, ack: u32) -> bool {
    c.snd_una == c.snd_nxt && ack == seq_add(c.snd_una, 0x8000_0000)
}

/// A bounded amount in flight means SND.UNA precedes or equals SND.NXT.
proof fn lemma_bounded_precedes(c: ConnView)
    requires
        spec_in_flight(c) <= 0x1_0000,
    ensures
        seq_precedes_or_eq(c.snd_una, c.snd_nxt),
{
}

/// An acknowledgment only shrinks what is in flight, and changes nothing but SND.UNA, the
/// retransmission queue and the window.
proof fn lemma_ack_update_in_flight(ws: WindowState, c: ConnView, seq: u32, ack: u32, wnd: u16)
    requires
        spec_in_flight(c) <= 0x1_0000,
        !spec_antipodal_ack(c, ack),
    ensures
        ({
            let (c1, _) = spec_ack_update(ws, c, seq, ack, wnd);
            &&& c1.snd_nxt == c.snd_nxt
            &&& c1.rcv_nxt == c.rcv_nxt
            &&& c1.tcp_state == c.tcp_state
            &&& c1.send_buffer == c.send_buffer
            &&& spec_in_flight(c1) <= spec_in_flight(c)
        }),
{
}

/// Sending buffered data within the window keeps what is in flight within a window.
proof fn lemma_send_buffered_in_flight(c: ConnView, wnd: u16, ack_if_nothing: bool, now: u64)
    requires
        spec_in_flight(c) <= 0xFFFF,
    ensures
        ({
            let (c1, r) = spec_send_buffered(c, wnd, ack_if_nothing, now);
            &&& r is Ok
            &&& c1.tcp_state == c.tcp_state
            &&& spec_in_flight(c1) <= 0xFFFF
        }),
{
    let (c1, d) = spec_drain(wnd, c);
    assert(d is Ok);
}

/// Passive close sends at most a window of data and our FIN, entering LAST-ACK.
proof fn lemma_passive_close_in_flight(c: ConnView, ws: WindowState, seg: SegmentView, now: u64)
    requires
        spec_in_flight(c) <= 0xFFFF,
        !spec_antipodal_ack(c, seg.ack_num),
    ensures
        ({
            let (c1, r) = spec_passive_close(c, ws, seg, now);
            &&& r is Ok
            &&& c1.tcp_state is LastAck
            &&& spec_in_flight(c1) <= 0x1_0000
        }),
{
    let c1 = crate::tcp::reply::spec_receive(c, seg.payload);
    let c2 = ConnView { rcv_nxt: crate::tcp::reply::advance(c1.rcv_nxt, 1), ..c1 };
    lemma_ack_update_in_flight(ws, c2, seg.seq_num, seg.ack_num, seg.window);
    let (c3, ws1) = spec_ack_update(ws, c2, seg.seq_num, seg.ack_num, seg.window);
    let (c4, d) = spec_drain(ws1.snd_wnd, c3);
    assert(d is Ok);
}

/// Completing the handshake acknowledges our SYN and everything sent with it.
proof fn lemma_complete_handshake_in_flight(c: ConnView, seg: SegmentView)
    requires
        spec_in_flight(c) <= 0xFFFF,
        !spec_antipodal_ack(c, seg.ack_num),
        spec_handshake_acceptable(c, seg),
    ensures
        spec_in_flight(spec_complete_handshake(c, seg)) <= spec_in_flight(c),
        !spec_antipodal_ack(spec_complete_handshake(c, seg), seg.ack_num),
{
}

/// SND.UNA never passes SND.NXT: a segment arriving on a connection whose SND.UNA is at most a
/// window behind SND.NXT (one more once our FIN is sent) is handled without the "SND.UNA after
/// SND.NXT" failure, and leaves the connection, if it stays in the table, within the same bound.
/// The one exception is an acknowledgment of the number exactly opposite SND.UNA while nothing
/// is in flight, which sequence arithmetic takes as both ahead of and behind SND.NXT.
pub proof fn law_una_never_passes_nxt(c: ConnView, seg: SegmentView, now: u64)
    requires
        spec_una_bounded(c),
        !spec_antipodal_ack(c, seg.ack_num),
    ensures
        ({
            let (c1, r) = spec_conn_step(c, seg, now);
            &&& r is Ok
            &&& c1 matches Some(c1) ==> spec_una_bounded(c1) && seq_precedes_or_eq(
                c1.snd_una,
                c1.snd_nxt,
            )
        }),
{
    let ack = seg.ack_num;
    match c.tcp_state {
        TcpState::SynReceived(_) => {
            if spec_handshake_acceptable(c, seg) {
                let c1 = spec_complete_handshake(c, seg);
                lemma_complete_handshake_in_flight(c, seg);
                let ws = WindowState {
                    snd_wnd: seg.window,
                    snd_wl1: crate::tcp::seq_space::SeqPoint { value: seg.seq_num },
                    snd_wl2: crate::tcp::seq_space::SeqPoint { value: seg.ack_num },
                };
                lemma_passive_close_in_flight(c1, ws, seg, now);
                lemma_bounded_precedes(spec_passive_close(c1, ws, seg, now).0);
                lemma_bounded_precedes(c1);
            }
            lemma_bounded_precedes(c);
        },
        TcpState::Established(Established(ws)) => {
            lemma_ack_update_in_flight(ws, c, seg.seq_num, ack, seg.window);
            let (c1, ws1) = spec_ack_update(ws, c, seg.seq_num, ack, seg.window);
            let c2 = ConnView { tcp_state: TcpState::Established(Established(ws1)), ..c1 };
            lemma_send_buffered_in_flight(c2, ws1.snd_wnd, false, now);
            lemma_send_buffered_in_flight(spec_receive(c2, seg.payload), ws1.snd_wnd, true, now);
            lemma_passive_close_in_flight(c, ws, seg, now);
            lemma_bounded_precedes(c);
            lemma_bounded_precedes(c2);
            lemma_bounded_precedes(spec_send_buffered(c2, ws1.snd_wnd, false, now).0);
            lemma_bounded_precedes(
                spec_send_buffered(spec_receive(c2, seg.payload), ws1.snd_wnd, true, now).0,
            );
            lemma_bounded_precedes(spec_passive_close(c, ws, seg, now).0);
        },
        TcpState::FinWait1(crate::tcp::state::FinWait1(ws)) => {
            let c1 = ConnView { rcv_nxt: advance(c.rcv_nxt, payload_len(seg.payload)), ..c };
            let c3 = ConnView { rcv_nxt: advance(advance(c.rcv_nxt, payload_len(seg.payload)), 1), ..c };
            lemma_ack_update_in_flight(ws, c, seg.seq_num, ack, seg.window);
            lemma_ack_update_in_flight(ws, c1, seg.seq_num, ack, seg.window);
            lemma_ack_update_in_flight(ws, c3, seg.seq_num, ack, seg.window);
            lemma_bounded_precedes(c);
            lemma_bounded_precedes(spec_ack_update(ws, c, seg.seq_num, ack, seg.window).0);
            lemma_bounded_precedes(spec_ack_update(ws, c1, seg.seq_num, ack, seg.window).0);
            lemma_bounded_precedes(spec_ack_update(ws, c3, seg.seq_num, ack, seg.window).0);
        },
        TcpState::FinWait2(crate::tcp::state::FinWait2(ws)) => {
            let c1 = ConnView { rcv_nxt: advance(c.rcv_nxt, payload_len(seg.payload)), ..c };
            lemma_ack_update_in_flight(ws, c1, seg.seq_num, ack, seg.window);
            lemma_bounded_precedes(c);
            lemma_bounded_precedes(spec_ack_update(ws, c1, seg.seq_num, ack, seg.window).0);
        },
        TcpState::LastAck(crate::tcp::state::LastAck(ws)) => {
            lemma_ack_update_in_flight(ws, c, seg.seq_num, ack, seg.window);
            lemma_bounded_precedes(c);
            lemma_bounded_precedes(spec_ack_update(ws, c, seg.seq_num, ack, seg.window).0);
        },
        TcpState::Closing(_) => {
            lemma_bounded_precedes(c);
        },
    }
}

/// A new connection has only its SYN in flight.
pub proof fn law_new_connection_una_bounded(info: SendInfoView, now: u64)
    ensures
        spec_from_syn_ack(info, now) matches Some(c) ==> spec_una_bounded(c),
{
}

/// Active close adds our FIN to at most a window in flight.
pub proof fn law_active_close_keeps_una_bounded(c: ConnView, now: u64)
    requires
        spec_una_bounded(c),
    ensures
        spec_una_bounded(spec_close_entry(c, now)),
{
}

/// Retransmission sends again what is in flight and changes neither SND.UNA nor SND.NXT.
pub proof fn law_retransmission_keeps_una_bounded(
    k: ConnKey,
    c: ConnView,
    initial_rto: u64,
    max_retries: u8,
    now: u64,
)
    requires
        spec_una_bounded(c),
    ensures
        spec_retransmit_entry(k, c, initial_rto, max_retries, now).0 matches Some(c1)
            ==> spec_una_bounded(c1),
{
}

/// Every connection in the table keeps SND.UNA at most a window (and a FIN) behind SND.NXT
/// across the arrival of a segment, barring the antipodal acknowledgment described at
/// `law_una_never_passes_nxt`.
pub proof fn law_create_reply_keeps_una_bounded(
    table: Map<ConnKey, ConnView>,
    seg: SegmentView,
    isn: u32,
    now: u64,
)
    requires
        forall|k: ConnKey| #[trigger] table.contains_key(k) ==> spec_una_bounded(table[k]),
        table.contains_key(spec_key(seg)) ==> !spec_antipodal_ack(table[spec_key(seg)], seg.ack_num),
    ensures
        ({
            let t = spec_create_reply(table, seg, isn, now).0;
            forall|k: ConnKey| #[trigger] t.contains_key(k) ==> spec_una_bounded(t[k])
        }),
{
    let key = spec_key(seg);
    if table.contains_key(key) {
        law_una_never_passes_nxt(table[key], seg, now);
    } else {
        let info = SendInfoView {
            seq_num: isn,
            ack_num: advance(seg.seq_num, 1),
            flags: crate::tcp::flags::TcpFlags::SynAck,
            payload: None,
        };
        law_new_connection_una_bounded(info, now);
    }
}

} // verus!
