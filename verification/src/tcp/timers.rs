//! The parts of the state machine driven by the clock and by shutdown: retransmission of
//! unacknowledged segments, and active close of every established connection.

use vstd::prelude::*;

use crate::addr_pairs::{Ipv4AddrPair, PortPair};
use crate::tcp::connections::{ConnKey, Entries};
use crate::tcp::flags::TcpFlags;
use crate::tcp::pending_segment::{spec_new_pending, spec_time_due, PendingView};
use crate::tcp::reply::{advance, spec_from_pairs_and_info};
use crate::tcp::segment::SegmentView;
use crate::tcp::send_info::SendInfoView;
use crate::tcp::state::{ConnView, TcpState};

verus! {

/// Whether a pending segment is due for retransmission at `now`.
pub open spec fn spec_is_due(p: PendingView, initial_rto: u64, now: u64) -> bool {
    spec_time_due(p, initial_rto, now) <= now
}

/// A pending segment once retransmitted at `now`.
pub open spec fn spec_retransmitted(p: PendingView, now: u64) -> PendingView {
    PendingView {
        last_sent_at: now,
        retries: if p.retries == u8::MAX {
            u8::MAX
        } else {
            (p.retries + 1) as u8
        },
        ..p
    }
}

/// A pending segment after the retransmission round at `now`.
pub open spec fn spec_refresh(p: PendingView, initial_rto: u64, now: u64) -> PendingView {
    if spec_is_due(p, initial_rto, now) {
        spec_retransmitted(p, now)
    } else {
        p
    }
}

/// The segment that carries `info` from the server side of the connection `k`.
pub open spec fn spec_server_segment(k: ConnKey, info: SendInfoView) -> SegmentView {
    spec_from_pairs_and_info(
        Ipv4AddrPair { src: k.server_ip, dst: k.client_ip },
        PortPair { src: k.server_port, dst: k.client_port },
        info,
    )
}

/// Whether some pending segment of `c` is due at `now`.
pub open spec fn spec_has_due(c: ConnView, initial_rto: u64, now: u64) -> bool {
    exists|j: int| 0 <= j < c.pending.len() && spec_is_due(#[trigger] c.pending[j], initial_rto, now)
}

/// Whether some pending segment of `c` is due at `now` after `max_retries` retransmissions.
pub open spec fn spec_gives_up(c: ConnView, initial_rto: u64, max_retries: u8, now: u64) -> bool {
    exists|j: int|
        0 <= j < c.pending.len() && spec_is_due(#[trigger] c.pending[j], initial_rto, now)
            && c.pending[j].retries >= max_retries
}

/// The retransmission round at `now` for the connection `k` in state `c`: unchanged if nothing
/// is due; dropped (`None`) if a due segment has already been retransmitted `max_retries` times;
/// otherwise every due segment is sent again, in order, and recorded as retransmitted.
pub open spec fn spec_retransmit_entry(
    k: ConnKey,
    c: ConnView,
    initial_rto: u64,
    max_retries: u8,
    now: u64,
) -> (Option<ConnView>, Seq<SegmentView>) {
    if !spec_has_due(c, initial_rto, now) {
        (Some(c), Seq::empty())
    } else if spec_gives_up(c, initial_rto, max_retries, now) {
        (None, Seq::empty())
    } else {
        (
            Some(
                ConnView {
                    pending: c.pending.map_values(|p: PendingView| spec_refresh(p, initial_rto, now)),
                    ..c
                },
            ),
            c.pending.filter(|p: PendingView| spec_is_due(p, initial_rto, now)).map_values(
                |p: PendingView| spec_server_segment(k, p.send_info),
            ),
        )
    }
}

/// The retransmission round at `now` over the entries of a table, walked in order: the entries
/// afterwards and the segments to send.
pub open spec fn spec_retransmit_all(entries: Entries, initial_rto: u64, max_retries: u8, now: u64) -> (
    Entries,
    Seq<SegmentView>,
)
    decreases entries.len(),
{
    if entries.len() == 0 {
        (Seq::empty(), Seq::empty())
    } else {
        let (c, segs) = spec_retransmit_entry(
            entries[0].0,
            entries[0].1,
            initial_rto,
            max_retries,
            now,
        );
        let (rest, rest_segs) = spec_retransmit_all(
            entries.drop_first(),
            initial_rto,
            max_retries,
            now,
        );
        (
            match c {
                Some(c) => seq![(entries[0].0, c)] + rest,
                None => rest,
            },
            segs + rest_segs,
        )
    }
}

/// Active close of the connection `c`, at `now`: an ESTABLISHED connection sends a FIN-ACK and
/// enters FIN-WAIT-1; any other is left alone.
pub open spec fn spec_close_entry(c: ConnView, now: u64) -> ConnView {
    match c.tcp_state {
        TcpState::Established(est) => {
            let info = spec_fin_ack(c);
            ConnView {
                tcp_state: TcpState::FinWait1(crate::tcp::state::FinWait1(est.0)),
                // Our FIN consumes one sequence number
                snd_nxt: advance(c.snd_nxt, 1),
                pending: c.pending.push(spec_new_pending(info, now)),
                ..c
            }
        },
        _ => c,
    }
}

/// The FIN-ACK that actively closes `c`.
pub open spec fn spec_fin_ack(c: ConnView) -> SendInfoView {
    SendInfoView { seq_num: c.snd_nxt, ack_num: c.rcv_nxt, flags: TcpFlags::FinAck, payload: None }
}

/// Whether the entry is an ESTABLISHED connection.
pub open spec fn spec_is_established(e: (ConnKey, ConnView)) -> bool {
    e.1.tcp_state is Established
}

/// Whether a connection is mid-close: it has sent or received a FIN but not yet completed
/// teardown.
pub open spec fn spec_is_closing(c: ConnView) -> bool {
    c.tcp_state is FinWait1 || c.tcp_state is FinWait2 || c.tcp_state is Closing
        || c.tcp_state is LastAck
}

/// Every element of a filtered sequence is an element of the sequence.
proof fn lemma_filter_subset<A>(s: Seq<A>, pred: spec_fn(A) -> bool)
    ensures
        forall|i: int| 0 <= i < s.filter(pred).len() ==> s.contains(#[trigger] s.filter(pred)[i]),
    decreases s.len(),
{
    reveal(Seq::filter);
    if s.len() > 0 {
        lemma_filter_subset(s.drop_last(), pred);
        let f = s.filter(pred);
        let g = s.drop_last().filter(pred);
        assert forall|i: int| 0 <= i < f.len() implies s.contains(#[trigger] f[i]) by {
            if pred(s.last()) && i == f.len() - 1 {
                assert(s[s.len() - 1] == f[i]);
            } else {
                assert(f[i] == g[i]);
                assert(s.drop_last().contains(g[i]));
                let j = choose|j: int| 0 <= j < s.drop_last().len() && s.drop_last()[j] == g[i];
                assert(s[j] == f[i]);
            }
        }
    }
}

/// A retransmission round at `now` resends only what is due: every segment it sends carries a
/// pending segment of the connection whose due time (last send plus the backed-off timeout) is at
/// most `now`, and every pending segment that is not yet due is kept exactly as it was, neither
/// resent nor counted as retried.
pub proof fn law_retransmit_only_due(
    k: ConnKey,
    c: ConnView,
    initial_rto: u64,
    max_retries: u8,
    now: u64,
)
    ensures
        ({
            let (c1, segs) = spec_retransmit_entry(k, c, initial_rto, max_retries, now);
            &&& forall|i: int|
                0 <= i < segs.len() ==> exists|j: int|
                    0 <= j < c.pending.len() && spec_time_due(c.pending[j], initial_rto, now) <= now
                        && #[trigger] segs[i] == spec_server_segment(k, c.pending[j].send_info)
            &&& c1 matches Some(c2) ==> c2.pending.len() == c.pending.len() && forall|j: int|
                0 <= j < c.pending.len() && spec_time_due(#[trigger] c.pending[j], initial_rto, now)
                    > now ==> c2.pending[j] == c.pending[j]
            &&& c1 matches Some(c2) ==> c2.tcp_state == c.tcp_state && c2.snd_una == c.snd_una
                && c2.snd_nxt == c.snd_nxt && c2.rcv_nxt == c.rcv_nxt && c2.send_buffer
                == c.send_buffer
        }),
        // Each due segment is resent once the round keeps the connection, and is recorded as sent
        // at `now` with one more retry
        ({
            let (c1, segs) = spec_retransmit_entry(k, c, initial_rto, max_retries, now);
            forall|j: int|
                0 <= j < c.pending.len() && spec_time_due(#[trigger] c.pending[j], initial_rto, now)
                    <= now && c1 is Some ==> {
                    &&& segs.contains(spec_server_segment(k, c.pending[j].send_info))
                    &&& c1->0.pending[j].last_sent_at == now
                    &&& c1->0.pending[j].retries == if c.pending[j].retries == u8::MAX {
                        u8::MAX
                    } else {
                        (c.pending[j].retries + 1) as u8
                    }
                    &&& c1->0.pending[j].send_info == c.pending[j].send_info
                }
        }),
        // The connection is dropped only when a due segment has used up its retries
        spec_retransmit_entry(k, c, initial_rto, max_retries, now).0 is None ==> exists|j: int|
            0 <= j < c.pending.len() && spec_time_due(#[trigger] c.pending[j], initial_rto, now)
                <= now && c.pending[j].retries >= max_retries,
{
    let pred = |p: PendingView| spec_is_due(p, initial_rto, now);
    let due = c.pending.filter(pred);
    lemma_filter_subset(c.pending, pred);
    let (c1, segs) = spec_retransmit_entry(k, c, initial_rto, max_retries, now);
    assert forall|i: int| 0 <= i < segs.len() implies exists|j: int|
        0 <= j < c.pending.len() && spec_time_due(c.pending[j], initial_rto, now) <= now
            && #[trigger] segs[i] == spec_server_segment(k, c.pending[j].send_info) by {
        assert(segs[i] == spec_server_segment(k, due[i].send_info));
        assert(c.pending.contains(due[i]));
        c.pending.lemma_filter_pred(pred, i);
        assert(pred(due[i]));
        let j = choose|j: int| 0 <= j < c.pending.len() && c.pending[j] == due[i];
        assert(c.pending[j] == due[i]);
    }
    assert forall|j: int|
        0 <= j < c.pending.len() && spec_time_due(#[trigger] c.pending[j], initial_rto, now) <= now
            && c1 is Some implies segs.contains(spec_server_segment(k, c.pending[j].send_info)) by {
        assert(pred(c.pending[j]));
        assert(spec_has_due(c, initial_rto, now));
        c.pending.lemma_filter_contains(pred, j);
        assert(due.contains(c.pending[j]));
        let i = choose|i: int| 0 <= i < due.len() && due[i] == c.pending[j];
        assert(segs[i] == spec_server_segment(k, c.pending[j].send_info));
    }
}

} // verus!
