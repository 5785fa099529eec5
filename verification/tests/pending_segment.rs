use typenet::tcp::flags::TcpFlags;
use typenet::tcp::payload::TcpPayload;
use typenet::tcp::pending_segment::PendingSegment;
use typenet::tcp::send_info::SendInfo;
use typenet::tcp::seq_space::SeqPoint;

fn hello_info() -> SendInfo {
    SendInfo {
        seq_num: SeqPoint::new(42),
        ack_num: SeqPoint::new(24),
        flags: TcpFlags::Ack,
        payload: TcpPayload::try_from_iter(b"Hello").unwrap(),
    }
}

#[test]
fn reports_due_now_on_overflow() {
    let now = 1_000;
    assert!(PendingSegment::new(hello_info(), now).time_due(u64::MAX, now) <= now);
}

#[test]
fn due_time_backs_off_exponentially() {
    let mut p = PendingSegment::new(hello_info(), 100);
    assert_eq!(p.time_due(500, 100), 600);
    p.retransmit_info(600);
    assert_eq!(p.time_due(500, 600), 1_600);
    p.retransmit_info(1_600);
    assert_eq!(p.time_due(500, 1_600), 3_600);
    assert_eq!(p.retries, 2);
}

#[test]
fn covers_data_and_is_covered_by_its_end() {
    let p = PendingSegment::new(hello_info(), 0);
    // 5 bytes of payload from 42: the segment ends at 47
    assert_eq!(p.end_seq, SeqPoint::new(47));
    assert!(p.is_covered_by(SeqPoint::new(47)));
    assert!(!p.is_covered_by(SeqPoint::new(46)));
}

#[test]
fn syn_ack_consumes_one_sequence_number() {
    let info = SendInfo {
        seq_num: SeqPoint::new(u32::MAX),
        ack_num: SeqPoint::new(1),
        flags: TcpFlags::SynAck,
        payload: None,
    };
    assert_eq!(PendingSegment::new(info, 0).end_seq, SeqPoint::new(0));
}

#[test]
fn retries_are_exhausted_at_the_limit() {
    let mut p = PendingSegment::new(hello_info(), 0);
    assert!(!p.exhausted_retries(1));
    let info = p.retransmit_info(10);
    assert_eq!(info, hello_info());
    assert!(p.exhausted_retries(1));
    assert_eq!(p.last_sent_at, 10);
}
