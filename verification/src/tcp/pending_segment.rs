//! Sent segments awaiting acknowledgment, with their retransmission timers.

use vstd::prelude::*;

use crate::tcp::flags::TcpFlags;
use crate::tcp::payload::{len_or_default, payload_len};
use crate::tcp::send_info::{SendInfo, SendInfoView};
use crate::tcp::seq_space::{seq_add, seq_precedes_or_eq, SeqDist, SeqPoint};

verus! {

/// A sent segment that consumed sequence numbers and hasn't yet been acknowledged. Times are
/// milliseconds on the caller's monotonic clock.
#[derive(Debug)]
pub struct PendingSegment {
    /// The values and data the segment was sent with, frozen at send time.
    pub send_info: SendInfo,
    /// The sequence number one past the last byte/flag consumed by the segment.
    pub end_seq: SeqPoint,
    /// The last time at which the segment was sent.
    pub last_sent_at: u64,
    /// The number of times the segment has been retransmitted.
    pub retries: u8,
}

/// The mathematical model of a `PendingSegment`.
pub struct PendingView {
    pub send_info: SendInfoView,
    pub end_seq: u32,
    pub last_sent_at: u64,
    pub retries: u8,
}

impl View for PendingSegment {
    type V = PendingView;

    open spec fn view(&self) -> PendingView {
        PendingView {
            send_info: self.send_info@,
            end_seq: self.end_seq.value,
            last_sent_at: self.last_sent_at,
            retries: self.retries,
        }
    }
}

/// The sequence number one past everything that a segment with `info` consumes: one phantom
/// byte for SYN or FIN, plus the payload.
pub open spec fn spec_end_seq(info: SendInfoView) -> u32 {
    seq_add(
        seq_add(info.seq_num, if info.flags.spec_consumes_seq() { 1 } else { 0 }),
        payload_len(info.payload) as u32,
    )
}

/// A pending segment for `info`, sent at `sent_at` and never retransmitted.
pub open spec fn spec_new_pending(info: SendInfoView, sent_at: u64) -> PendingView {
    PendingView { send_info: info, end_seq: spec_end_seq(info), last_sent_at: sent_at, retries: 0 }
}

/// `2^retries`, saturating at `u32::MAX`.
pub open spec fn pow2_saturating(retries: nat) -> u32
    decreases retries,
{
    if retries == 0 {
        1
    } else if pow2_saturating((retries - 1) as nat) >= 0x8000_0000 {
        u32::MAX
    } else {
        (2 * pow2_saturating((retries - 1) as nat)) as u32
    }
}

/// Below 2^31, the saturating power of two is the power of two.
proof fn lemma_pow2_saturating_exact(r: nat)
    requires
        r <= 31,
    ensures
        pow2_saturating(r) == vstd::arithmetic::power2::pow2(r),
    decreases r,
{
    vstd::arithmetic::power2::lemma2_to64();
    if r > 0 {
        lemma_pow2_saturating_exact((r - 1) as nat);
        vstd::arithmetic::power2::lemma_pow2_unfold(r);
        vstd::arithmetic::power2::lemma_pow2_strictly_increases((r - 1) as nat, 31);
    }
}

/// Binary exponential backoff: each retransmission doubles the timeout, as long as the timeout
/// stays representable (RFC 6298, Section 5.5).
pub proof fn law_backoff_doubles(initial_rto: u64, retries: u8)
    requires
        retries < 31,
        initial_rto * vstd::arithmetic::power2::pow2((retries + 1) as nat) <= u64::MAX,
    ensures
        spec_rto(initial_rto, (retries + 1) as u8) == 2 * spec_rto(initial_rto, retries),
{
    let p = vstd::arithmetic::power2::pow2(retries as nat);
    lemma_pow2_saturating_exact(retries as nat);
    lemma_pow2_saturating_exact((retries + 1) as nat);
    vstd::arithmetic::power2::lemma_pow2_unfold((retries + 1) as nat);
    assert(initial_rto * (2 * p) == 2 * (initial_rto * p)) by (nonlinear_arith);
    assert(initial_rto * p <= initial_rto * (2 * p)) by (nonlinear_arith);
}

/// The retransmission timeout after `retries` retransmissions: `initial_rto * 2^retries`,
/// saturating at `u64::MAX`.
pub open spec fn spec_rto(initial_rto: u64, retries: u8) -> u64 {
    if initial_rto * pow2_saturating(retries as nat) > u64::MAX {
        u64::MAX
    } else {
        (initial_rto * pow2_saturating(retries as nat)) as u64
    }
}

/// When a pending segment is due for retransmission, or `now` if that time is not representable.
pub open spec fn spec_time_due(p: PendingView, initial_rto: u64, now: u64) -> u64 {
    if p.last_sent_at + spec_rto(initial_rto, p.retries) > u64::MAX {
        now
    } else {
        (p.last_sent_at + spec_rto(initial_rto, p.retries)) as u64
    }
}

/// Whether a pending segment is fully acknowledged by `ack_num`.
pub open spec fn spec_is_covered_by(p: PendingView, ack_num: u32) -> bool {
    seq_precedes_or_eq(p.end_seq, ack_num)
}

impl PendingSegment {
    /// Creates a new unacked segment eligible for retransmission, covering the sequence numbers
    /// consumed by the segment.
    pub fn new(send_info: SendInfo, sent_at: u64) -> (r: Self)
        ensures
            r@ == spec_new_pending(send_info@, sent_at),
    {
        // Any SYN/FIN consumes a single phantom byte
        let phantom: u32 = match send_info.flags {
            TcpFlags::Syn | TcpFlags::SynAck | TcpFlags::FinAck => 1,
            _ => 0,
        };
        // A payload consumes the number of bytes in the payload
        let payload_bytes = len_or_default(&send_info.payload) as u32;
        let end_seq = send_info.seq_num.add(SeqDist::new(phantom)).add(SeqDist::new(payload_bytes));
        Self { send_info, end_seq, last_sent_at: sent_at, retries: 0 }
    }

    /// Returns the time at which the segment is due for retransmission using exponential
    /// backoff, or `now` if that time is not representable.
    pub fn time_due(&self, initial_rto: u64, now: u64) -> (t: u64)
        ensures
            t == spec_time_due(self@, initial_rto, now),
    {
        let mut factor: u32 = 1;
        let mut i: u8 = 0;
        while i < self.retries
            invariant
                i <= self.retries,
                factor == pow2_saturating(i as nat),
            decreases self.retries - i,
        {
            factor = if factor >= 0x8000_0000 {
                u32::MAX
            } else {
                factor * 2
            };
            i = i + 1;
        }
        let rto = match initial_rto.checked_mul(factor as u64) {
            Some(rto) => rto,
            None => u64::MAX,
        };
        match self.last_sent_at.checked_add(rto) {
            Some(due) => due,
            None => now,
        }
    }

    /// Returns whether the segment is fully covered by `ack_num`.
    pub fn is_covered_by(&self, ack_num: SeqPoint) -> (b: bool)
        ensures
            b == spec_is_covered_by(self@, ack_num.value),
    {
        self.end_seq.precedes_or_eq(ack_num)
    }

    /// Returns whether the segment has been retried at least `max_retries` times.
    pub fn exhausted_retries(&self, max_retries: u8) -> (b: bool)
        ensures
            b == (self.retries >= max_retries),
    {
        self.retries >= max_retries
    }

    /// Copies the segment's `SendInfo` for retransmission and records that it is being
    /// retransmitted `now`.
    pub fn retransmit_info(&mut self, now: u64) -> (info: SendInfo)
        ensures
            info@ == old(self)@.send_info,
            final(self)@ == (PendingView {
                last_sent_at: now,
                retries: if old(self).retries == u8::MAX {
                    u8::MAX
                } else {
                    (old(self).retries + 1) as u8
                },
                ..old(self)@
            }),
    {
        self.retries = self.retries.saturating_add(1);
        self.last_sent_at = now;
        self.send_info.duplicate()
    }

    /// The segment's `SendInfo`, without recording a retransmission.
    pub fn peek_info(&self) -> (info: &SendInfo)
        ensures
            info@ == self@.send_info,
    {
        &self.send_info
    }
}

} // verus!
