//! The per-connection state: the TCP state machine's current state with its send window, the
//! sequence variables, the retransmission queue and the data queued for echoing.

use vstd::prelude::*;

use crate::error::Error;
use crate::tcp::flags::TcpFlags;
use crate::tcp::payload::{copy_range, TcpPayload};
use crate::tcp::pending_segment::{spec_is_covered_by, spec_new_pending, PendingSegment, PendingView};
use crate::tcp::send_info::SendInfo;
use crate::tcp::seq_space::{seq_add, seq_precedes, seq_precedes_or_eq, seq_sub, SeqDist, SeqPoint};

verus! {

/// The SND.WND, SND.WL1, and SND.WL2 values of a connection (RFC 9293, Section 3.3.1).
#[derive(Clone, Copy, Debug, PartialEq, Eq, Structural)]
pub struct WindowState {
    /// SND.WND: how many bytes the remote endpoint is willing to receive.
    pub snd_wnd: u16,
    /// SND.WL1: segment sequence number used for last window update.
    pub snd_wl1: SeqPoint,
    /// SND.WL2: segment acknowledgment number used for last window update.
    pub snd_wl2: SeqPoint,
}

/// SYN-RECEIVED: waiting for the acknowledgment of our SYN after both sending and receiving one.
#[derive(Clone, Copy, Debug, PartialEq, Eq, Structural)]
pub struct SynReceived;

/// ESTABLISHED: an open connection, the normal state for data transfer.
#[derive(Clone, Copy, Debug, PartialEq, Eq, Structural)]
pub struct Established(pub WindowState);

/// FIN-WAIT-1: entered when this server actively closes; waiting for the peer's FIN or the
/// acknowledgment of ours.
#[derive(Clone, Copy, Debug, PartialEq, Eq, Structural)]
pub struct FinWait1(pub WindowState);

/// FIN-WAIT-2: our FIN has been acknowledged; waiting for the peer's FIN.
#[derive(Clone, Copy, Debug, PartialEq, Eq, Structural)]
pub struct FinWait2(pub WindowState);

/// CLOSING: simultaneous close, the peer's FIN arrived before our FIN was acknowledged.
#[derive(Clone, Copy, Debug, PartialEq, Eq, Structural)]
pub struct Closing(pub WindowState);

/// LAST-ACK: passive close, waiting for the acknowledgment of the FIN we sent in answer.
#[derive(Clone, Copy, Debug, PartialEq, Eq, Structural)]
pub struct LastAck(pub WindowState);

/// The states of a TCP connection that the stack keeps in its table (RFC 9293, Section 3.3.2).
#[derive(Clone, Copy, Debug, PartialEq, Eq, Structural)]
pub enum TcpState {
    SynReceived(SynReceived),
    Established(Established),
    FinWait1(FinWait1),
    FinWait2(FinWait2),
    Closing(Closing),
    LastAck(LastAck),
}

/// Per RFC 9293, Section 3.10.7.4, "Fifth, check the ACK field": the new SND.UNA, retransmission
/// queue and window after an incoming segment with sequence number `seq`, acknowledgment number
/// `ack` and window `wnd`.
///
/// An acknowledgment of new data (SND.UNA < SEG.ACK <= SND.NXT) advances SND.UNA and drops the
/// pending segments that it fully covers. The window is then adopted when SND.UNA <= SEG.ACK <=
/// SND.NXT and the segment is not older than the last window update (SND.WL1 < SEG.SEQ, or
/// SND.WL1 == SEG.SEQ and SND.WL2 <= SEG.ACK).
pub open spec fn spec_ack_update(ws: WindowState, c: ConnView, seq: u32, ack: u32, wnd: u16) -> (
    ConnView,
    WindowState,
) {
    let c1 = if seq_precedes(c.snd_una, ack) && seq_precedes_or_eq(ack, c.snd_nxt) {
        ConnView {
            snd_una: ack,
            pending: c.pending.filter(uncovered_by(ack)),
            ..c
        }
    } else {
        c
    };
    let ws1 = if seq_precedes_or_eq(c1.snd_una, ack) && seq_precedes_or_eq(ack, c1.snd_nxt) && (
    seq_precedes(ws.snd_wl1.value, seq) || (ws.snd_wl1.value == seq && seq_precedes_or_eq(
        ws.snd_wl2.value,
        ack,
    ))) {
        WindowState { snd_wnd: wnd, snd_wl1: SeqPoint { value: seq }, snd_wl2: SeqPoint { value: ack } }
    } else {
        ws
    };
    (c1, ws1)
}

/// Applies an incoming acknowledgment to `conn` and returns the updated window, as
/// `spec_ack_update` describes.
pub fn incoming_ack_update(
    ws: WindowState,
    conn: &mut ConnState,
    seq: SeqPoint,
    ack: SeqPoint,
    wnd: u16,
) -> (r: WindowState)
    ensures
        (final(conn)@, r) == spec_ack_update(ws, old(conn)@, seq.value, ack.value, wnd),
{
    // Exclude duplicate ACKs: SND.UNA < SEG.ACK <= SND.NXT
    if conn.snd_una.precedes(ack) && ack.precedes_or_eq(conn.snd_nxt) {
        conn.snd_una = ack;
        // ACKs are cumulative, so only keep pending segments not fully covered by SEG.ACK
        retain_uncovered(&mut conn.pending, ack);
    }
    // Include duplicate ACKs, and guard against an old/reordered segment clobbering the window
    if conn.snd_una.precedes_or_eq(ack) && ack.precedes_or_eq(conn.snd_nxt) && (
    ws.snd_wl1.precedes(seq) || (ws.snd_wl1 == seq && ws.snd_wl2.precedes_or_eq(ack))) {
        WindowState { snd_wnd: wnd, snd_wl1: seq, snd_wl2: ack }
    } else {
        ws
    }
}

/// Whether a pending segment is still not fully acknowledged by `ack`.
pub open spec fn uncovered_by(ack: u32) -> spec_fn(PendingView) -> bool {
    |p: PendingView| !spec_is_covered_by(p, ack)
}

/// The models of a sequence of pending segments.
pub open spec fn pending_views(v: Seq<PendingSegment>) -> Seq<PendingView> {
    v.map_values(|p: PendingSegment| p@)
}

/// Removes from `pending` every segment fully covered by `ack`, keeping the others in order.
fn retain_uncovered(pending: &mut Vec<PendingSegment>, ack: SeqPoint)
    ensures
        pending_views(final(pending)@) == pending_views(old(pending)@).filter(
            uncovered_by(ack.value),
        ),
{
    let ghost pred = uncovered_by(ack.value);
    let mut old_pending: Vec<PendingSegment> = Vec::new();
    std::mem::swap(&mut old_pending, pending);
    let ghost orig = pending_views(old_pending@).filter(pred);
    let mut kept: Vec<PendingSegment> = Vec::new();
    assert(orig =~= pending_views(kept@) + pending_views(old_pending@).filter(pred));
    while old_pending.len() > 0
        invariant
            pred == uncovered_by(ack.value),
            orig == pending_views(kept@) + pending_views(old_pending@).filter(pred),
        decreases old_pending.len(),
    {
        let ghost before = old_pending@;
        let seg = old_pending.remove(0);
        proof {
            assert(before =~= seq![seg] + old_pending@);
            lemma_filter_cons(pending_views(before), pred);
            assert(pending_views(before)[0] == seg@);
            assert(pending_views(before).drop_first() =~= pending_views(old_pending@));
        }
        let keep = !seg.is_covered_by(ack);
        assert(keep == pred(seg@));
        if keep {
            kept.push(seg);
            proof {
                assert(pending_views(kept@) =~= pending_views(kept@.drop_last()).push(seg@));
            }
        }
        proof {
            assert(orig =~= pending_views(kept@) + pending_views(old_pending@).filter(pred));
        }
    }
    *pending = kept;
    proof {
        assert(pending_views(old_pending@) =~= Seq::<PendingView>::empty());
        reveal_with_fuel(Seq::<_>::filter, 1);
        assert(pending_views(old_pending@).filter(pred) =~= Seq::<PendingView>::empty());
        assert(orig =~= pending_views(kept@));
    }
}

/// Filtering a sequence whose first element is `s[0]` keeps it exactly when it passes.
proof fn lemma_filter_cons<A>(s: Seq<A>, pred: spec_fn(A) -> bool)
    requires
        s.len() > 0,
    ensures
        s.filter(pred) == if pred(s[0]) {
            seq![s[0]] + s.drop_first().filter(pred)
        } else {
            s.drop_first().filter(pred)
        },
    decreases s.len(),
{
    reveal_with_fuel(Seq::<_>::filter, 2);
    if s.len() == 1 {
        assert(s.drop_first() =~= Seq::<A>::empty());
        assert(s.drop_last() =~= Seq::<A>::empty());
    } else {
        lemma_filter_cons(s.drop_last(), pred);
        assert(s.drop_last().drop_first() =~= s.drop_first().drop_last());
        assert(s.drop_last()[0] == s[0]);
        assert(s.drop_first().last() == s.last());
    }
}

/// The state of a connection in the table, including its TCP state, buffered data, and other
/// locally stored information.
#[derive(Debug)]
pub struct ConnState {
    pub tcp_state: TcpState,
    /// SND.NXT: the next sequence number to be sent.
    pub snd_nxt: SeqPoint,
    /// RCV.NXT: the next sequence number expected on an incoming segment.
    pub rcv_nxt: SeqPoint,
    /// SND.UNA: the oldest unacknowledged sequence number.
    pub snd_una: SeqPoint,
    /// Unacked segments sent by the server, kept for retransmission purposes.
    pub pending: Vec<PendingSegment>,
    /// Bytes received from the peer that are queued to be echoed once SND.WND has room for them.
    pub send_buffer: Vec<u8>,
}

/// The mathematical model of a `ConnState`.
pub struct ConnView {
    pub tcp_state: TcpState,
    pub snd_nxt: u32,
    pub rcv_nxt: u32,
    pub snd_una: u32,
    pub pending: Seq<PendingView>,
    pub send_buffer: Seq<u8>,
}

impl View for ConnState {
    type V = ConnView;

    open spec fn view(&self) -> ConnView {
        ConnView {
            tcp_state: self.tcp_state,
            snd_nxt: self.snd_nxt.value,
            rcv_nxt: self.rcv_nxt.value,
            snd_una: self.snd_una.value,
            pending: pending_views(self.pending@),
            send_buffer: self.send_buffer@,
        }
    }
}

/// The connection created by sending the SYN-ACK `info` at `now` in answer to a SYN, or `None`
/// when `info` is not a SYN-ACK.
pub open spec fn spec_from_syn_ack(info: crate::tcp::send_info::SendInfoView, now: u64) -> Option<
    ConnView,
> {
    if info.flags == TcpFlags::SynAck {
        Some(
            ConnView {
                tcp_state: TcpState::SynReceived(SynReceived),
                snd_nxt: seq_add(info.seq_num, 1),
                rcv_nxt: info.ack_num,
                snd_una: info.seq_num,
                pending: seq![spec_new_pending(info, now)],
                send_buffer: Seq::empty(),
            },
        )
    } else {
        None
    }
}

/// Removes up to as many bytes as the window `wnd` leaves room for from the front of the send
/// buffer, returning them (`None` when nothing can be sent), or fails when SND.UNA does not
/// precede or equal SND.NXT.
pub open spec fn spec_drain(wnd: u16, c: ConnView) -> (ConnView, Result<Option<Seq<u8>>, Error>) {
    if !seq_precedes_or_eq(c.snd_una, c.snd_nxt) {
        (c, Err(Error::UnaAfterNxt))
    } else {
        let sent_but_not_acked = seq_sub(c.snd_nxt, c.snd_una);
        let space = if wnd >= sent_but_not_acked {
            wnd - sent_but_not_acked
        } else {
            0
        };
        let n = if space <= c.send_buffer.len() {
            space
        } else {
            c.send_buffer.len() as int
        };
        (
            ConnView { send_buffer: c.send_buffer.skip(n), ..c },
            Ok(
                if n == 0 {
                    None
                } else {
                    Some(c.send_buffer.take(n))
                },
            ),
        )
    }
}

impl ConnState {
    /// Creates a new `Self` in the state right after receiving a SYN and sending the SYN-ACK
    /// `send_info` at `now`. Fails if `send_info` is not a SYN-ACK.
    pub fn from_syn_ack(send_info: SendInfo, now: u64) -> (r: Result<Self, Error>)
        ensures
            match spec_from_syn_ack(send_info@, now) {
                Some(c) => r matches Ok(s) && s@ == c,
                None => r matches Err(Error::NotSynAck),
            },
    {
        if let TcpFlags::SynAck = send_info.flags {
            let snd_nxt = send_info.seq_num.add(SeqDist::new(1));
            let rcv_nxt = send_info.ack_num;
            let snd_una = send_info.seq_num;
            let mut pending = Vec::new();
            pending.push(PendingSegment::new(send_info, now));
            let r = ConnState {
                tcp_state: TcpState::SynReceived(SynReceived),
                snd_nxt,
                rcv_nxt,
                snd_una,
                pending,
                send_buffer: Vec::new(),
            };
            assert(r@.pending =~= seq![spec_new_pending(send_info@, now)]);
            Ok(r)
        } else {
            Err(Error::NotSynAck)
        }
    }

    /// Removes and returns as many bytes as the peer's currently advertised window `wnd` allows
    /// from the front of the send buffer, or returns `Ok(None)` if nothing can be sent right now
    /// because the buffer is empty or the window is full. Does not mutate any other state.
    pub fn drain_transmittable(&mut self, wnd: u16) -> (r: Result<Option<TcpPayload>, Error>)
        ensures
            final(self)@ == spec_drain(wnd, old(self)@).0,
            match spec_drain(wnd, old(self)@).1 {
                Ok(None) => r matches Ok(None),
                Ok(Some(bytes)) => r matches Ok(Some(p)) && p@ == bytes,
                Err(e) => r == Err::<Option<TcpPayload>, Error>(e),
            },
    {
        let sent_but_not_acked = match self.snd_nxt.distance_since(self.snd_una) {
            Some(d) => d,
            None => return Err(Error::UnaAfterNxt),
        };
        let space_in_window = SeqDist::new(wnd as u32).saturating_sub(sent_but_not_acked);
        let len = self.send_buffer.len();
        let bytes_to_send: usize = if (space_in_window.value as usize) <= len {
            space_in_window.value as usize
        } else {
            len
        };
        let front = copy_range(self.send_buffer.as_slice(), 0, bytes_to_send);
        let rest = copy_range(self.send_buffer.as_slice(), bytes_to_send, len);
        self.send_buffer = rest;
        proof {
            assert(front@ =~= old(self)@.send_buffer.take(bytes_to_send as int));
            assert(self.send_buffer@ =~= old(self)@.send_buffer.skip(bytes_to_send as int));
        }
        TcpPayload::try_from_iter(front.as_slice())
    }

    /// The send window of the connection, if it has left SYN-RECEIVED.
    pub fn snd_wnd(&self) -> (w: Option<u16>)
        ensures
            w == spec_snd_wnd(self.tcp_state),
    {
        match self.tcp_state {
            TcpState::SynReceived(_) => None,
            TcpState::Established(s) => Some(s.0.snd_wnd),
            TcpState::FinWait1(s) => Some(s.0.snd_wnd),
            TcpState::FinWait2(s) => Some(s.0.snd_wnd),
            TcpState::Closing(s) => Some(s.0.snd_wnd),
            TcpState::LastAck(s) => Some(s.0.snd_wnd),
        }
    }
}

/// The send window of a state, if it has left SYN-RECEIVED.
pub open spec fn spec_snd_wnd(s: TcpState) -> Option<u16> {
    match s {
        TcpState::SynReceived(_) => None,
        TcpState::Established(s) => Some(s.0.snd_wnd),
        TcpState::FinWait1(s) => Some(s.0.snd_wnd),
        TcpState::FinWait2(s) => Some(s.0.snd_wnd),
        TcpState::Closing(s) => Some(s.0.snd_wnd),
        TcpState::LastAck(s) => Some(s.0.snd_wnd),
    }
}

impl SynReceived {
    /// Completes the handshake with the acknowledging segment's window, sequence number and
    /// acknowledgment number, which become the first window update.
    pub fn establish(self, wnd: u16, seq: SeqPoint, ack: SeqPoint) -> (r: Established)
        ensures
            r == Established(WindowState { snd_wnd: wnd, snd_wl1: seq, snd_wl2: ack }),
    {
        Established(WindowState { snd_wnd: wnd, snd_wl1: seq, snd_wl2: ack })
    }
}

impl Established {
    /// Active close: our FIN is sent.
    pub fn close(self) -> (r: FinWait1)
        ensures
            r == FinWait1(self.0),
    {
        FinWait1(self.0)
    }

    /// Passive close that answers the peer's FIN with ours right away (no CLOSE-WAIT).
    pub fn skip_close_wait(self) -> (r: LastAck)
        ensures
            r == LastAck(self.0),
    {
        LastAck(self.0)
    }
}

impl FinWait1 {
    /// Our FIN has been acknowledged.
    pub fn rcv_ack_of_fin(self) -> (r: FinWait2)
        ensures
            r == FinWait2(self.0),
    {
        FinWait2(self.0)
    }

    /// The peer's FIN arrived before the acknowledgment of ours.
    pub fn wait_for_simultaneous_close_ack(self) -> (r: Closing)
        ensures
            r == Closing(self.0),
    {
        Closing(self.0)
    }
}

} // verus!
