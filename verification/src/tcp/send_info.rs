//! The fields that differ between the segments that the stack sends.

use vstd::prelude::*;

use crate::tcp::flags::TcpFlags;
use crate::tcp::payload::{duplicate_payload, payload_view, TcpPayload};
use crate::tcp::seq_space::SeqPoint;

verus! {

/// Fields that differ when determining a segment to send.
#[derive(Debug, PartialEq, Eq)]
pub struct SendInfo {
    pub seq_num: SeqPoint,
    pub ack_num: SeqPoint,
    pub flags: TcpFlags,
    pub payload: Option<TcpPayload>,
}

/// The mathematical model of a `SendInfo`.
pub struct SendInfoView {
    pub seq_num: u32,
    pub ack_num: u32,
    pub flags: TcpFlags,
    pub payload: Option<Seq<u8>>,
}

impl View for SendInfo {
    type V = SendInfoView;

    open spec fn view(&self) -> SendInfoView {
        SendInfoView {
            seq_num: self.seq_num.value,
            ack_num: self.ack_num.value,
            flags: self.flags,
            payload: payload_view(self.payload),
        }
    }
}

/// A bare ACK acknowledging `ack_num`, sent at `seq_num`.
pub open spec fn spec_pure_ack(seq_num: u32, ack_num: u32) -> SendInfoView {
    SendInfoView { seq_num, ack_num, flags: TcpFlags::Ack, payload: None }
}

/// A bare RST sent at `seq_num`, with no acknowledgment.
pub open spec fn spec_rst(seq_num: u32) -> SendInfoView {
    SendInfoView { seq_num, ack_num: 0, flags: TcpFlags::Rst, payload: None }
}

impl SendInfo {
    /// A bare ACK acknowledging `ack_num`, sent at `seq_num`.
    pub fn pure_ack(seq_num: SeqPoint, ack_num: SeqPoint) -> (r: Self)
        ensures
            r@ == spec_pure_ack(seq_num.value, ack_num.value),
    {
        Self { seq_num, ack_num, flags: TcpFlags::Ack, payload: None }
    }

    /// A bare RST sent at `seq_num`. The acknowledgment number is 0 because sending a bare RST
    /// with no ACK flag leaves it undefined.
    pub fn rst(seq_num: SeqPoint) -> (r: Self)
        ensures
            r@ == spec_rst(seq_num.value),
    {
        Self { seq_num, ack_num: SeqPoint::new(0), flags: TcpFlags::Rst, payload: None }
    }

    /// A copy of `self`.
    pub fn duplicate(&self) -> (r: Self)
        ensures
            r@ == self@,
    {
        Self {
            seq_num: self.seq_num,
            ack_num: self.ack_num,
            flags: self.flags,
            payload: duplicate_payload(&self.payload),
        }
    }
}

} // verus!
