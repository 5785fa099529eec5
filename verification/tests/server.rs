use typenet::addr_pairs::{Ipv4Addr, Ipv4AddrPair, PortPair};
use typenet::error::Error;
use typenet::handler::ProtocolHandler;
use typenet::ipv4::Ipv4Header;
use typenet::server::{encode_packet, Event, Exit, Outcome, Server, ShutdownDecision};
use typenet::tcp::connections::{ConnKey, TcpConnections};
use typenet::tcp::flags::TcpFlags;
use typenet::tcp::segment::TcpSegment;
use typenet::tcp::seq_space::SeqPoint;
use typenet::tcp::state::{ConnState, Established, TcpState, WindowState};

const CLIENT_ISN: u32 = 100;
const SERVER_ISN: u32 = 400;
const NOW: u64 = 1_000_000;
const ONE_YEAR: u64 = 365 * 24 * 60 * 60 * 1000;

fn client() -> Ipv4Addr {
    Ipv4Addr::new(10, 0, 0, 2)
}

fn server_addr() -> Ipv4Addr {
    Ipv4Addr::new(10, 0, 0, 1)
}

fn key() -> ConnKey {
    ConnKey { client_ip: client(), client_port: 1234, server_ip: server_addr(), server_port: 80 }
}

/// A segment from the client to the server.
fn client_segment(seq: u32, ack: u32, flags: TcpFlags) -> TcpSegment {
    TcpSegment {
        ip_pair: Ipv4AddrPair { src: client(), dst: server_addr() },
        ports: PortPair { src: 1234, dst: 80 },
        seq_num: SeqPoint::new(seq),
        ack_num: SeqPoint::new(ack),
        offset_bytes: 20,
        flags,
        window: u16::MAX,
        payload: None,
    }
}

/// A table with one connection as if the three-way handshake had just completed.
fn after_handshake() -> TcpConnections {
    let mut conns = TcpConnections::new(500, 5);
    conns.insert(
        key(),
        ConnState {
            tcp_state: TcpState::Established(Established(WindowState {
                snd_wnd: u16::MAX,
                snd_wl1: SeqPoint::new(CLIENT_ISN + 1),
                snd_wl2: SeqPoint::new(SERVER_ISN + 1),
            })),
            snd_nxt: SeqPoint::new(SERVER_ISN + 1),
            rcv_nxt: SeqPoint::new(CLIENT_ISN + 1),
            snd_una: SeqPoint::new(SERVER_ISN + 1),
            pending: Vec::new(),
            send_buffer: Vec::new(),
        },
    );
    conns
}

/// A table with one connection in SYN-RECEIVED, and the SYN-ACK it sent at `NOW`.
fn with_syn_rcv(rto: u64, max_retries: u8) -> (TcpConnections, TcpSegment) {
    let mut conns = TcpConnections::new(rto, max_retries);
    let syn = client_segment(CLIENT_ISN, 0, TcpFlags::Syn);
    let syn_ack = syn.create_reply(&mut conns, SERVER_ISN, NOW).unwrap().unwrap();
    (conns, syn_ack)
}

fn decision_test_server() -> Server {
    Server::new(TcpConnections::new(500, 5), 5_000)
}

fn decode_tcp(packet: &[u8]) -> TcpSegment {
    let (header, payload) = Ipv4Header::parse(packet).unwrap();
    match ProtocolHandler::parse(payload, header.protocol, header.ip_pair).unwrap() {
        ProtocolHandler::Tcp(seg) => seg,
        other => panic!("expected a TCP packet, got {other:?}"),
    }
}

#[test]
fn grace_period_not_elapsed_with_no_deadline() {
    let server = decision_test_server();
    assert!(!server.grace_period_elapsed(NOW));
}

#[test]
fn grace_period_not_elapsed_before_deadline() {
    let server = Server { shutdown_deadline: Some(NOW + 10_000), ..decision_test_server() };
    assert!(!server.grace_period_elapsed(NOW));
}

#[test]
fn grace_period_elapsed_past_deadline() {
    let server = Server { shutdown_deadline: Some(NOW - 10_000), ..decision_test_server() };
    assert!(server.grace_period_elapsed(NOW));
}

#[test]
fn grace_period_elapsed_at_deadline() {
    let server = Server { shutdown_deadline: Some(NOW), ..decision_test_server() };
    assert!(server.grace_period_elapsed(NOW));
}

#[test]
fn already_draining_reports_time_left() {
    let mut server = Server { shutdown_deadline: Some(NOW + 10_000), ..decision_test_server() };
    assert_eq!(
        server.decide_shutdown(NOW).unwrap(),
        ShutdownDecision::AlreadyDraining { time_left: 10_000 }
    );
}

#[test]
fn established_connection_begins_draining_with_fin_ack_and_deadline() {
    let mut server = Server {
        tcp_connections: after_handshake(),
        shutdown_grace_period: 10_000,
        ..decision_test_server()
    };

    match server.decide_shutdown(NOW).unwrap() {
        ShutdownDecision::BeganDraining { to_send, deadline } => {
            assert_eq!(to_send.len(), 1);
            assert_eq!(deadline, NOW + 10_000);
            assert_eq!(to_send[0].flags, TcpFlags::FinAck);
        }
        other => panic!("unexpected decision {other:?}"),
    }
}

#[test]
fn no_established_connections_reports_no_connections() {
    let mut server = decision_test_server();
    assert_eq!(server.decide_shutdown(NOW).unwrap(), ShutdownDecision::NoConnections);
}

#[test]
fn overflowing_deadline_errors_instead_of_panicking() {
    let mut server = Server {
        tcp_connections: after_handshake(),
        shutdown_grace_period: u64::MAX,
        ..decision_test_server()
    };

    let e = server.decide_shutdown(NOW).unwrap_err();
    assert_eq!(e, Error::DeadlineOverflow { millis: u64::MAX });
    assert!(e.message().contains("Overflowed"));
}

#[test]
fn first_interrupt_with_established_connection_sends_fin_ack_and_continues() {
    let mut server = Server::new(after_handshake(), 0);

    let step = server.step(Event::ShutdownSignal, NOW, None).unwrap();
    assert_eq!(step.packets.len(), 1, "Exactly one FIN-ACK should be written");
    assert_eq!(decode_tcp(&step.packets[0]).flags, TcpFlags::FinAck);
    assert_eq!(step.exit, None);

    // The grace period has already elapsed at the next timeout
    let step = server.step(Event::TimedOut, NOW + 1, None).unwrap();
    assert!(step.packets.is_empty());
    assert_eq!(step.exit, Some(Exit::GracePeriodElapsed { remaining: 1 }));
}

#[test]
fn interrupt_with_no_established_connections_exits_immediately() {
    let mut server = Server::new(TcpConnections::new(500, 5), 0);
    let step = server.step(Event::ShutdownSignal, NOW, None).unwrap();
    assert_eq!(step.exit, Some(Exit::NoConnections));
    assert!(step.packets.is_empty(), "No connections to close, nothing should be written");
}

#[test]
fn interrupt_unrelated_to_shutdown_is_ignored() {
    let mut server = Server::new(TcpConnections::new(500, 5), 0);

    let step = server.step(Event::OtherSignal, NOW, None).unwrap();
    assert_eq!(step.outcome, Outcome::Idle);
    assert_eq!(step.exit, None, "The first interrupt should not have ended the loop early");

    let step = server.step(Event::ShutdownSignal, NOW, None).unwrap();
    assert_eq!(step.exit, Some(Exit::NoConnections));
}

#[test]
fn read_interrupt_reaches_the_same_shutdown_handling_as_poll_interrupt() {
    // Whether the signal interrupted the wait or the read, the loop hands the same event over
    let mut server = Server::new(TcpConnections::new(500, 5), 0);
    let step = server.step(Event::ShutdownSignal, NOW, None).unwrap();
    assert!(step.packets.is_empty(), "No connections to close, nothing should be written");
    assert_eq!(step.exit, Some(Exit::NoConnections));
}

#[test]
fn malformed_packet_is_skipped_without_propagating_or_writing() {
    let mut server = Server::new(TcpConnections::new(500, 5), 0);
    let step = server.step(Event::Packet(&[0u8; 5]), NOW, None).unwrap();
    assert!(matches!(step.outcome, Outcome::Skipped(Error::TooShort { .. })));
    assert!(step.packets.is_empty(), "A malformed packet should not produce a reply");
    assert_eq!(step.exit, None);
}

#[test]
fn due_retransmission_is_sent_as_real_io() {
    let (conns, syn_ack) = with_syn_rcv(0, 5);
    let mut server = Server::new(conns, ONE_YEAR);

    let step = server.step(Event::TimedOut, NOW, None).unwrap();
    assert_eq!(step.outcome, Outcome::Retransmitted);
    assert_eq!(step.packets.len(), 1);
    assert_eq!(decode_tcp(&step.packets[0]), syn_ack);

    // A SYN-RECEIVED connection is not mid-close: a shutdown signal exits at once
    let step = server.step(Event::ShutdownSignal, NOW, None).unwrap();
    assert!(step.packets.is_empty());
    assert_eq!(step.exit, Some(Exit::NoConnections));
}

#[test]
fn retransmission_does_not_drop_the_connection() {
    let (conns, syn_ack) = with_syn_rcv(0, 5);
    let mut server = Server::new(conns, ONE_YEAR);

    for now in [NOW, NOW + 1] {
        let step = server.step(Event::TimedOut, now, None).unwrap();
        assert_eq!(step.packets.len(), 1);
        assert_eq!(
            decode_tcp(&step.packets[0]),
            syn_ack,
            "Every retransmission should resend the same unacked SYN-ACK unchanged"
        );
    }
    assert_eq!(server.tcp_connections.len(), 1);
}

#[test]
fn gives_up_and_drops_connection_after_max_retries() {
    let (conns, syn_ack) = with_syn_rcv(0, 2);
    let mut server = Server::new(conns, ONE_YEAR);

    for now in [NOW, NOW + 1] {
        let step = server.step(Event::TimedOut, now, None).unwrap();
        assert_eq!(step.packets.len(), 1);
        assert_eq!(decode_tcp(&step.packets[0]), syn_ack);
    }

    let step = server.step(Event::TimedOut, NOW + 2, None).unwrap();
    assert!(step.packets.is_empty(), "Only 2 retransmissions should be written before giving up");
    assert_eq!(server.tcp_connections.len(), 0);

    let step = server.step(Event::ShutdownSignal, NOW + 3, None).unwrap();
    assert_eq!(step.exit, Some(Exit::NoConnections));
}

#[test]
fn no_deadline_no_closing() {
    let server = decision_test_server();
    assert!(server.shutdown_deadline.is_none());
    assert!(!server.tcp_connections.closing_in_progress());
    assert!(!server.shutting_down_and_no_connections_closing());
}

#[test]
fn no_deadline_some_closing() {
    let mut tcp_connections = after_handshake();
    tcp_connections.close_established(NOW);
    let server = Server { tcp_connections, ..decision_test_server() };

    assert!(server.shutdown_deadline.is_none());
    assert!(server.tcp_connections.closing_in_progress());
    assert!(!server.shutting_down_and_no_connections_closing());
}

#[test]
fn some_deadline_some_closing() {
    let mut tcp_connections = after_handshake();
    tcp_connections.close_established(NOW);
    let server =
        Server { tcp_connections, shutdown_deadline: Some(NOW), ..decision_test_server() };

    assert!(server.shutdown_deadline.is_some());
    assert!(server.tcp_connections.closing_in_progress());
    assert!(!server.shutting_down_and_no_connections_closing());
}

#[test]
fn some_deadline_no_closing() {
    let server = Server { shutdown_deadline: Some(NOW), ..decision_test_server() };

    assert!(server.shutdown_deadline.is_some());
    assert!(!server.tcp_connections.closing_in_progress());
    assert!(server.shutting_down_and_no_connections_closing());
}

#[test]
fn exits_once_connections_finish_closing() {
    let mut server = Server::new(after_handshake(), ONE_YEAR);

    // The shutdown signal begins active close: FIN-ACK sent, FIN-WAIT-1
    let step = server.step(Event::ShutdownSignal, NOW, None).unwrap();
    assert_eq!(step.packets.len(), 1);
    assert_eq!(step.exit, None);

    // The client's FIN-ACK acknowledges ours and completes the close
    let fin_ack = client_segment(CLIENT_ISN + 1, SERVER_ISN + 2, TcpFlags::FinAck);
    let packet = encode_packet(&ProtocolHandler::Tcp(fin_ack)).unwrap();
    let step = server.step(Event::Packet(&packet), NOW + 10, None).unwrap();
    assert_eq!(step.outcome, Outcome::Replied);
    assert_eq!(step.packets.len(), 1, "The final ACK completing the close should be written");
    assert_eq!(decode_tcp(&step.packets[0]).flags, TcpFlags::Ack);
    assert_eq!(step.exit, Some(Exit::AllClosed));
    assert_eq!(server.tcp_connections.len(), 0);
}

#[test]
fn poll_timeout_reflects_shutdown_deadline() {
    let mut server = Server::new(after_handshake(), 0);
    assert_eq!(server.poll_timeout(NOW), None, "No timeout before the interrupt");

    server.step(Event::ShutdownSignal, NOW, None).unwrap();
    assert!(server.poll_timeout(NOW).is_some(), "Some timeout once draining begins");
}

#[test]
fn poll_timeout_is_the_time_until_the_earliest_wakeup() {
    let (conns, _) = with_syn_rcv(500, 5);
    let server = Server { shutdown_deadline: Some(NOW + 2_000), ..Server::new(conns, 0) };
    // The SYN-ACK is due at NOW + 500, before the deadline
    assert_eq!(server.poll_timeout(NOW + 100), Some(400));
    // A deadline already passed gives a zero timeout
    let server = Server { shutdown_deadline: Some(NOW), ..decision_test_server() };
    assert_eq!(server.poll_timeout(NOW + 5), Some(0));
}

#[test]
fn draining_again_reports_time_left_and_sends_nothing() {
    let mut server = Server::new(after_handshake(), 10_000);
    server.step(Event::ShutdownSignal, NOW, None).unwrap();
    let step = server.step(Event::ShutdownSignal, NOW + 4_000, None).unwrap();
    assert_eq!(step.outcome, Outcome::Draining { time_left: 6_000 });
    assert!(step.packets.is_empty());
    assert_eq!(step.exit, None);
}

#[test]
fn a_syn_for_a_new_connection_needs_an_isn_and_other_packets_do_not() {
    let mut server = Server::new(TcpConnections::new(500, 5), 0);
    let syn = encode_packet(&ProtocolHandler::Tcp(client_segment(CLIENT_ISN, 0, TcpFlags::Syn))).unwrap();
    let ack = encode_packet(&ProtocolHandler::Tcp(client_segment(CLIENT_ISN + 1, 1, TcpFlags::Ack)))
        .unwrap();
    assert!(server.needs_isn(&syn));
    assert!(!server.needs_isn(&ack));
    assert!(!server.needs_isn(&[0u8; 5]));

    // Once the connection exists, a duplicate SYN reuses its ISN
    let step = server.step(Event::Packet(&syn), NOW, Some(SERVER_ISN)).unwrap();
    assert_eq!(step.outcome, Outcome::Replied);
    assert!(!server.needs_isn(&syn));
}

#[test]
fn a_syn_without_an_isn_gets_no_reply_and_opens_nothing() {
    let mut server = Server::new(TcpConnections::new(500, 5), 0);
    let syn = encode_packet(&ProtocolHandler::Tcp(client_segment(CLIENT_ISN, 0, TcpFlags::Syn))).unwrap();
    let step = server.step(Event::Packet(&syn), NOW, None).unwrap();
    assert_eq!(step.outcome, Outcome::ReplyFailed(Error::RandomUnavailable));
    assert!(step.packets.is_empty());
    assert_eq!(server.tcp_connections.len(), 0);
}
