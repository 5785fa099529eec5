use typenet::addr_pairs::{Ipv4Addr, Ipv4AddrPair, PortPair};
use typenet::checksum::calculate;
use typenet::protocol::Protocol;
use typenet::tcp::connections::{ConnKey, TcpConnections};
use typenet::tcp::flags::TcpFlags;
use typenet::tcp::payload::TcpPayload;
use typenet::tcp::segment::TcpSegment;
use typenet::tcp::seq_space::SeqPoint;
use typenet::tcp::state::{ConnState, Established, TcpState, WindowState};
use typenet::ETHERNET_MTU;

const CLIENT_ISN: u32 = 100;
const SERVER_ISN: u32 = 400;
const SYN_BYTE: u32 = 1;
const FIN_BYTE: u32 = 1;
const HELLO_LEN: u32 = 5;
const HI_LEN: u32 = 2;
const HEY_LEN: u32 = 3;
const NOW: u64 = 0;

fn client_ip() -> Ipv4Addr {
    Ipv4Addr::new(10, 0, 0, 2)
}

fn server_ip() -> Ipv4Addr {
    Ipv4Addr::new(10, 0, 0, 1)
}

fn ip_pair() -> Ipv4AddrPair {
    Ipv4AddrPair { src: client_ip(), dst: server_ip() }
}

fn key() -> ConnKey {
    ConnKey { client_ip: client_ip(), client_port: 1234, server_ip: server_ip(), server_port: 80 }
}

fn payload(bytes: &[u8]) -> Option<TcpPayload> {
    TcpPayload::try_from_iter(bytes).unwrap()
}

/// A segment from the client (port 1234) to the server (port 80) advertising `window`.
fn client_packet_with_window(seq: u32, ack: u32, flags: TcpFlags, window: u16, data: &[u8]) -> TcpSegment {
    TcpSegment {
        ip_pair: ip_pair(),
        ports: PortPair { src: 1234, dst: 80 },
        seq_num: SeqPoint::new(seq),
        ack_num: SeqPoint::new(ack),
        offset_bytes: 20,
        flags,
        window,
        payload: payload(data),
    }
}

fn client_packet(seq: u32, ack: u32, flags: TcpFlags, data: &[u8]) -> TcpSegment {
    client_packet_with_window(seq, ack, flags, u16::MAX, data)
}

/// A segment from the server (port 80) to the client (port 1234).
fn server_reply(seq: u32, ack: u32, flags: TcpFlags, data: &[u8]) -> TcpSegment {
    TcpSegment {
        ip_pair: ip_pair().swapped(),
        ports: PortPair { src: 80, dst: 1234 },
        seq_num: SeqPoint::new(seq),
        ack_num: SeqPoint::new(ack),
        offset_bytes: 20,
        flags,
        window: u16::MAX,
        payload: payload(data),
    }
}

fn established_with(snd_nxt: u32, rcv_nxt: u32, snd_una: u32, snd_wnd: u16) -> ConnState {
    ConnState {
        tcp_state: TcpState::Established(Established(WindowState {
            snd_wnd,
            snd_wl1: SeqPoint::new(CLIENT_ISN + SYN_BYTE),
            snd_wl2: SeqPoint::new(SERVER_ISN + SYN_BYTE),
        })),
        snd_nxt: SeqPoint::new(snd_nxt),
        rcv_nxt: SeqPoint::new(rcv_nxt),
        snd_una: SeqPoint::new(snd_una),
        pending: Vec::new(),
        send_buffer: Vec::new(),
    }
}

/// A table with one connection as if the three-way handshake had just completed.
fn after_handshake_with(rto: u64, max_retries: u8, snd_wnd: u16) -> TcpConnections {
    let mut c = TcpConnections::new(rto, max_retries);
    c.insert(
        key(),
        established_with(SERVER_ISN + SYN_BYTE, CLIENT_ISN + SYN_BYTE, SERVER_ISN + SYN_BYTE, snd_wnd),
    );
    c
}

fn after_handshake() -> TcpConnections {
    after_handshake_with(500, 5, u16::MAX)
}

/// A table with one connection that has sent its SYN-ACK with ISN `SERVER_ISN`.
fn with_syn_recv(rto: u64, max_retries: u8) -> TcpConnections {
    let mut c = TcpConnections::new(rto, max_retries);
    client_packet(CLIENT_ISN, 0, TcpFlags::Syn, &[]).create_reply(&mut c, SERVER_ISN, NOW).unwrap();
    c
}

fn reply(seg: &TcpSegment, c: &mut TcpConnections) -> Option<TcpSegment> {
    seg.create_reply(c, SERVER_ISN, NOW).unwrap()
}

/// The name of a TCP state.
fn kind(s: &TcpState) -> &'static str {
    match s {
        TcpState::SynReceived(_) => "SYN-RECEIVED",
        TcpState::Established(_) => "ESTABLISHED",
        TcpState::FinWait1(_) => "FIN-WAIT-1",
        TcpState::FinWait2(_) => "FIN-WAIT-2",
        TcpState::Closing(_) => "CLOSING",
        TcpState::LastAck(_) => "LAST-ACK",
    }
}

/// The window state of a TCP state, if it has one.
fn window_of(s: &TcpState) -> Option<WindowState> {
    match s {
        TcpState::SynReceived(_) => None,
        TcpState::Established(Established(ws)) => Some(*ws),
        TcpState::FinWait1(w) => Some(w.0),
        TcpState::FinWait2(w) => Some(w.0),
        TcpState::Closing(w) => Some(w.0),
        TcpState::LastAck(w) => Some(w.0),
    }
}

/// The observable state of the test connection.
#[derive(Clone, Debug, PartialEq)]
struct Snapshot {
    state: &'static str,
    snd_nxt: u32,
    rcv_nxt: u32,
    snd_una: u32,
    send_buffer: Vec<u8>,
}

fn snapshot(c: &TcpConnections) -> Option<Snapshot> {
    c.get(key()).map(|s| Snapshot {
        state: kind(&s.tcp_state),
        snd_nxt: s.snd_nxt.value,
        rcv_nxt: s.rcv_nxt.value,
        snd_una: s.snd_una.value,
        send_buffer: s.send_buffer.clone(),
    })
}

fn window(c: &TcpConnections) -> Option<WindowState> {
    c.get(key()).and_then(|s| window_of(&s.tcp_state))
}

fn ws(snd_wnd: u16, wl1: u32, wl2: u32) -> Option<WindowState> {
    Some(WindowState { snd_wnd, snd_wl1: SeqPoint::new(wl1), snd_wl2: SeqPoint::new(wl2) })
}

/// The TCP checksum of `len` bytes at offset 20 of `buf`, over the pseudo-header of `ip_pair`.
fn tcp_checksum(buf: &[u8], len: u16, pair: Ipv4AddrPair) -> u16 {
    let mut data = Vec::new();
    data.extend_from_slice(&pair.src.octets());
    data.extend_from_slice(&pair.dst.octets());
    data.push(0);
    data.push(Protocol::Tcp.number());
    data.extend_from_slice(&len.to_be_bytes());
    data.extend_from_slice(&buf[20..20 + usize::from(len)]);
    calculate(&data)
}

// ---------------------------------------------------------------------------------------------
// Handshake

#[test]
fn reply_reply_creates_valid_syn_ack() {
    let mut c = TcpConnections::new(500, 5);
    let r = reply(&client_packet(CLIENT_ISN, 0, TcpFlags::Syn, &[]), &mut c);
    // seq_num is the ISN that was stored in the connection table
    let stored_isn = snapshot(&c).unwrap().snd_una;
    assert_eq!(stored_isn, SERVER_ISN);
    assert_eq!(r, Some(server_reply(stored_isn, CLIENT_ISN + SYN_BYTE, TcpFlags::SynAck, &[])));
}

#[test]
fn creates_valid_syn_ack() {
    let mut c = TcpConnections::new(500, 5);
    let r = reply(&client_packet(CLIENT_ISN, 0, TcpFlags::Syn, &[]), &mut c);
    let stored_isn = snapshot(&c).unwrap().snd_una;
    assert_eq!(r, Some(server_reply(stored_isn, CLIENT_ISN + SYN_BYTE, TcpFlags::SynAck, &[])));
    assert_eq!(snapshot(&c).unwrap().state, "SYN-RECEIVED");
}

#[test]
fn tests_reply_creates_valid_syn_ack() {
    const SYN_PACKET: [u8; 20] = [
        0x04, 0xd2, // Source port: 1234
        0x00, 0x50, // Dest port: 80
        0x00, 0x00, 0x10, 0x00, // Sequence number: 4096
        0x00, 0x00, 0x00, 0x00, // Ack number: 0
        0x50, 0x02, // Data offset: 5, Flags: SYN
        0xff, 0xff, // Window size
        0x00, 0x00, // Checksum
        0x00, 0x00, // Urgent pointer
    ];

    let handler = TcpSegment::decode(&SYN_PACKET, ip_pair()).unwrap();
    let mut connections = TcpConnections::new(500, 5);
    let mut buf = [0u8; ETHERNET_MTU];

    let tcp_len = handler
        .create_reply(&mut connections, SERVER_ISN, NOW)
        .unwrap()
        .unwrap()
        .write_into(&mut buf[20..])
        .unwrap();

    assert_eq!(&buf[20..22], &[0x00, 0x50]); // Source port: 80 (swapped)
    assert_eq!(&buf[22..24], &[0x04, 0xd2]); // Dest port: 1234 (swapped)

    // Seq: the ISN that was stored in the connection table
    let stored_isn = connections.get(key()).unwrap().snd_una.value;
    assert_eq!(u32::from_be_bytes(buf[24..28].try_into().unwrap()), stored_isn);

    assert_eq!(&buf[28..32], &[0x00, 0x00, 0x10, 0x01]); // Ack: 4097 (client seq + 1)
    assert_eq!(buf[33], 0x12); // Flags: SYN|ACK
    assert_eq!(tcp_len, 20); // No payload for a SYN-ACK
    assert_eq!(tcp_checksum(&buf, tcp_len, ip_pair()), 0x0000);
}

#[test]
fn reply_duplicate_syn_during_syn_received_resends_same_syn_ack() {
    let mut c = with_syn_recv(500, 5);
    let initial = snapshot(&c);
    let r = reply(&client_packet(CLIENT_ISN, 0, TcpFlags::Syn, &[]), &mut c);
    assert_eq!(
        r,
        Some(server_reply(SERVER_ISN, CLIENT_ISN + SYN_BYTE, TcpFlags::SynAck, &[])),
        "Retransmitted SYN should get the same SYN-ACK resent, not a RST"
    );
    assert_eq!(snapshot(&c), initial, "State should remain SYN-RECEIVED, not reset or advance");
}

#[test]
fn establish_duplicate_syn_during_syn_received_resends_same_syn_ack() {
    let mut c = with_syn_recv(500, 5);
    let initial = snapshot(&c);
    // A new ISN offered for this SYN must not be used
    let r = client_packet(CLIENT_ISN, 0, TcpFlags::Syn, &[]).create_reply(&mut c, 9_999, NOW).unwrap();
    assert_eq!(r, Some(server_reply(SERVER_ISN, CLIENT_ISN + SYN_BYTE, TcpFlags::SynAck, &[])));
    assert_eq!(snapshot(&c), initial);
}

#[test]
fn reply_data_packet_before_complete_handshake_gets_rst() {
    let mut c = with_syn_recv(500, 5);
    let r = reply(
        &client_packet(CLIENT_ISN + SYN_BYTE, SERVER_ISN + SYN_BYTE, TcpFlags::Ack, b"Hello"),
        &mut c,
    );
    assert_eq!(r, Some(server_reply(SERVER_ISN + SYN_BYTE, 0, TcpFlags::Rst, &[])));
}

#[test]
fn establish_data_packet_before_complete_handshake_gets_rst() {
    let mut c = with_syn_recv(500, 5);
    let r = reply(
        &client_packet(CLIENT_ISN + SYN_BYTE, SERVER_ISN + SYN_BYTE, TcpFlags::Ack, b"Hello"),
        &mut c,
    );
    assert_eq!(r, Some(server_reply(SERVER_ISN + SYN_BYTE, 0, TcpFlags::Rst, &[])));
    assert_eq!(snapshot(&c).unwrap().state, "SYN-RECEIVED");
}

#[test]
fn reply_handshake_ack_establishes_connection_and_returns_none() {
    let mut c = with_syn_recv(500, 5);
    let mut expected = snapshot(&c).unwrap();

    let handshake_ack = client_packet(CLIENT_ISN + SYN_BYTE, SERVER_ISN + SYN_BYTE, TcpFlags::Ack, &[]);
    assert_eq!(reply(&handshake_ack, &mut c), None);

    expected.state = "ESTABLISHED";
    expected.rcv_nxt = CLIENT_ISN + SYN_BYTE;
    expected.snd_una += SYN_BYTE;
    assert_eq!(snapshot(&c), Some(expected));
}

#[test]
fn establish_handshake_ack_establishes_connection_and_returns_none() {
    let mut c = with_syn_recv(500, 5);
    let mut expected = snapshot(&c).unwrap();

    let handshake_ack = client_packet(CLIENT_ISN + SYN_BYTE, SERVER_ISN + SYN_BYTE, TcpFlags::Ack, &[]);
    assert_eq!(reply(&handshake_ack, &mut c), None);

    expected.state = "ESTABLISHED";
    expected.rcv_nxt = CLIENT_ISN + SYN_BYTE;
    expected.snd_una += SYN_BYTE;
    assert_eq!(snapshot(&c), Some(expected));
    assert_eq!(
        window(&c),
        ws(u16::MAX, handshake_ack.seq_num.value, handshake_ack.ack_num.value)
    );
    assert!(c.get(key()).unwrap().pending.is_empty());
}

#[test]
fn handshake_ack_with_wrong_seq_num_does_not_establish() {
    let mut c = with_syn_recv(500, 5);
    let initial = snapshot(&c);

    // Correct ack_num, but seq_num doesn't match RCV.NXT = CLIENT_ISN + SYN_BYTE
    let r = reply(&client_packet(CLIENT_ISN + SYN_BYTE + 1, SERVER_ISN + SYN_BYTE, TcpFlags::Ack, &[]), &mut c);

    assert_eq!(
        r,
        Some(server_reply(SERVER_ISN + SYN_BYTE, CLIENT_ISN + SYN_BYTE, TcpFlags::Ack, &[])),
        "Wrong SEG.SEQ must get a plain ACK reflecting current state, not complete the handshake"
    );
    assert_eq!(snapshot(&c), initial, "Connection must remain SYN-RECEIVED");
}

// ---------------------------------------------------------------------------------------------
// Stray SYN and RST

#[test]
fn stray_syn_out_of_window_on_established_gets_challenge_ack() {
    let mut c = after_handshake();
    let initial = snapshot(&c);
    let r = reply(&client_packet(CLIENT_ISN - 20, 0, TcpFlags::Syn, &[]), &mut c);
    assert_eq!(
        r,
        Some(server_reply(SERVER_ISN + SYN_BYTE, CLIENT_ISN + SYN_BYTE, TcpFlags::Ack, &[])),
        "Out-of-window stray SYN must produce a challenge ACK, not a RST"
    );
    assert_eq!(snapshot(&c), initial, "Out-of-window stray SYN must not destroy the connection");
}

#[test]
fn stray_syn_in_window_on_established_gets_challenge_ack() {
    let mut c = after_handshake();
    let initial = snapshot(&c);
    let r = reply(&client_packet(CLIENT_ISN + SYN_BYTE, 0, TcpFlags::Syn, &[]), &mut c);
    assert_eq!(
        r,
        Some(server_reply(SERVER_ISN + SYN_BYTE, CLIENT_ISN + SYN_BYTE, TcpFlags::Ack, &[])),
        "In-window stray SYN must produce a challenge ACK, not a RST"
    );
    assert_eq!(snapshot(&c), initial, "In-window stray SYN must not destroy the connection");
}

#[test]
fn stray_syn_in_window_on_fin_wait_1_gets_challenge_ack() {
    let mut c = after_handshake();
    c.close_established(NOW);
    let initial = snapshot(&c);
    assert_eq!(initial.as_ref().unwrap().state, "FIN-WAIT-1");

    let r = reply(&client_packet(CLIENT_ISN + SYN_BYTE, 0, TcpFlags::Syn, &[]), &mut c);
    assert_eq!(
        r,
        Some(server_reply(SERVER_ISN + SYN_BYTE + FIN_BYTE, CLIENT_ISN + SYN_BYTE, TcpFlags::Ack, &[])),
        "Stray SYN in FIN-WAIT-1 must produce a challenge ACK using snd_nxt=SERVER_ISN+2"
    );
    assert_eq!(snapshot(&c), initial, "In-window stray SYN must not destroy the connection");
}

#[test]
fn rst_exactly_at_rcv_nxt_cleans_up_connection_and_returns_none() {
    let mut c = after_handshake();
    assert_eq!(reply(&client_packet(CLIENT_ISN + SYN_BYTE, SERVER_ISN + SYN_BYTE, TcpFlags::Rst, &[]), &mut c), None);
    assert_eq!(snapshot(&c), None, "Connection should be removed after RST");
}

#[test]
fn rst_within_window_but_not_at_rcv_nxt_gets_challenge_ack() {
    let mut c = after_handshake();
    let initial = snapshot(&c);
    let r = reply(&client_packet(CLIENT_ISN + 4, SERVER_ISN + SYN_BYTE, TcpFlags::Rst, &[]), &mut c);
    assert_eq!(
        r,
        Some(server_reply(SERVER_ISN + SYN_BYTE, CLIENT_ISN + SYN_BYTE, TcpFlags::Ack, &[])),
        "In-window non-exact RST should get a challenge ACK, not a silent drop or reset"
    );
    assert_eq!(snapshot(&c), initial, "Connection must not be torn down by a non-exact RST");
}

#[test]
fn rst_with_out_of_window_seq_is_silently_dropped() {
    let mut c = after_handshake();
    let initial = snapshot(&c);
    let r = reply(&client_packet(CLIENT_ISN - 10, SERVER_ISN + SYN_BYTE, TcpFlags::Rst, &[]), &mut c);
    assert_eq!(r, None, "Out-of-window RST should be silently dropped");
    assert_eq!(snapshot(&c), initial, "Connection must not be torn down by an out-of-window RST");
}

#[test]
fn rst_for_unknown_connection_gets_no_reply() {
    let mut c = TcpConnections::new(500, 5);
    assert_eq!(reply(&client_packet(CLIENT_ISN, 0, TcpFlags::Rst, &[]), &mut c), None);
    assert_eq!(c.len(), 0);
}

// ---------------------------------------------------------------------------------------------
// Data echo

#[test]
fn creates_valid_data_echo() {
    let mut c = after_handshake();
    let r = reply(&client_packet(CLIENT_ISN + SYN_BYTE, SERVER_ISN + SYN_BYTE, TcpFlags::Ack, b"Hello"), &mut c);
    assert_eq!(
        r,
        Some(server_reply(SERVER_ISN + SYN_BYTE, CLIENT_ISN + SYN_BYTE + HELLO_LEN, TcpFlags::Ack, b"Hello"))
    );
}

#[test]
fn reply_reply_creates_valid_data_echo() {
    let mut c = after_handshake();
    let r = reply(&client_packet(CLIENT_ISN + SYN_BYTE, SERVER_ISN + SYN_BYTE, TcpFlags::Ack, b"Hello"), &mut c);
    assert_eq!(
        r,
        Some(server_reply(SERVER_ISN + SYN_BYTE, CLIENT_ISN + SYN_BYTE + HELLO_LEN, TcpFlags::Ack, b"Hello"))
    );
}

#[test]
fn tests_reply_creates_valid_data_echo() {
    const DATA_PACKET: [u8; 25] = [
        0x04, 0xd2, // Source port: 1234
        0x00, 0x50, // Dest port: 80
        0x00, 0x00, 0x10, 0x01, // Sequence number: 4097
        0x00, 0x00, 0x00, 0x01, // Ack number: 1
        0x50, 0x10, // Data offset: 5, Flags: ACK
        0xff, 0xff, // Window size
        0x00, 0x00, // Checksum
        0x00, 0x00, // Urgent pointer
        0x48, 0x65, 0x6c, 0x6c, 0x6f, // Payload: "Hello"
    ];

    let handler = TcpSegment::decode(&DATA_PACKET, ip_pair()).unwrap();

    // A completed handshake with ISN 0, so the client's ack_num of 1 is consistent
    let mut connections = TcpConnections::new(500, 5);
    let mut state = established_with(1, 4097, 1, u16::MAX);
    state.tcp_state = TcpState::Established(Established(WindowState {
        snd_wnd: u16::MAX,
        snd_wl1: SeqPoint::new(4097),
        snd_wl2: SeqPoint::new(1),
    }));
    connections.insert(key(), state);

    let mut buf = [0u8; ETHERNET_MTU];
    let tcp_len = handler
        .create_reply(&mut connections, SERVER_ISN, NOW)
        .unwrap()
        .unwrap()
        .write_into(&mut buf[20..])
        .unwrap();

    assert_eq!(&buf[20..22], &[0x00, 0x50]); // Source port: 80
    assert_eq!(&buf[22..24], &[0x04, 0xd2]); // Dest port: 1234
    assert_eq!(&buf[24..28], &[0x00, 0x00, 0x00, 0x01]); // Seq: 1
    assert_eq!(&buf[28..32], &[0x00, 0x00, 0x10, 0x06]); // Ack: 4102 (seq + 5)
    assert_eq!(buf[33], 0x10); // Flags: ACK only
    assert_eq!(&buf[40..45], b"Hello"); // Payload echoed
    assert_eq!(tcp_len, 20 + 5);
    assert_eq!(tcp_checksum(&buf, tcp_len, ip_pair()), 0x0000);
}

fn pure_ack_on_established_connection_returns_none_body() {
    let mut c = after_handshake();
    let mut expected = snapshot(&c).unwrap();

    reply(&client_packet(CLIENT_ISN + SYN_BYTE, SERVER_ISN + SYN_BYTE, TcpFlags::Ack, b"Hello"), &mut c);
    expected.snd_nxt += HELLO_LEN;
    expected.rcv_nxt += HELLO_LEN;

    // ack=SERVER_ISN + 5 bytes echoed + 1
    assert_eq!(
        reply(&client_packet(CLIENT_ISN + SYN_BYTE + HELLO_LEN, SERVER_ISN + SYN_BYTE + HELLO_LEN, TcpFlags::Ack, &[]), &mut c),
        None
    );

    expected.snd_una += HELLO_LEN;
    assert_eq!(snapshot(&c), Some(expected), "Connection should remain open after pure ACK");
    assert!(c.get(key()).unwrap().pending.is_empty(), "The acknowledged echo is no longer pending");
}

#[test]
fn reply_pure_ack_on_established_connection_returns_none() {
    pure_ack_on_established_connection_returns_none_body();
}

#[test]
fn echo_pure_ack_on_established_connection_returns_none() {
    pure_ack_on_established_connection_returns_none_body();
}

fn consecutive_replies_use_snd_nxt_for_seq_num_body() {
    let mut c = after_handshake();
    let mut expected = snapshot(&c).unwrap();

    let reply1 = reply(&client_packet(CLIENT_ISN + SYN_BYTE, SERVER_ISN + SYN_BYTE, TcpFlags::Ack, b"Hello"), &mut c);
    assert_eq!(
        reply1,
        Some(server_reply(SERVER_ISN + SYN_BYTE, CLIENT_ISN + SYN_BYTE + HELLO_LEN, TcpFlags::Ack, b"Hello")),
        "Standard reply to the first data packet"
    );

    expected.snd_nxt += HELLO_LEN;
    expected.rcv_nxt += HELLO_LEN;
    assert_eq!(snapshot(&c), Some(expected), "Stored snd_nxt should be SERVER_ISN + 1 + 5");

    // Second data packet with a stale ack=SERVER_ISN+1
    let reply2 = reply(&client_packet(CLIENT_ISN + SYN_BYTE + HELLO_LEN, SERVER_ISN + SYN_BYTE, TcpFlags::Ack, b"Hi"), &mut c);
    assert_eq!(
        reply2,
        Some(server_reply(SERVER_ISN + SYN_BYTE + HELLO_LEN, CLIENT_ISN + SYN_BYTE + HELLO_LEN + HI_LEN, TcpFlags::Ack, b"Hi")),
        "Server's seq_num should be snd_nxt=SERVER_ISN+6, not the client's stale ack_num"
    );
}

#[test]
fn reply_consecutive_replies_use_snd_nxt_for_seq_num() {
    consecutive_replies_use_snd_nxt_for_seq_num_body();
}

#[test]
fn echo_consecutive_replies_use_snd_nxt_for_seq_num() {
    consecutive_replies_use_snd_nxt_for_seq_num_body();
}

fn old_ack_num_does_not_regress_snd_una_body() {
    let mut c = after_handshake();
    let mut expected = snapshot(&c).unwrap();
    assert_eq!(expected.snd_una, SERVER_ISN + SYN_BYTE);

    let reply1 = reply(&client_packet(CLIENT_ISN + SYN_BYTE, SERVER_ISN + SYN_BYTE, TcpFlags::Ack, b"Hello"), &mut c);
    assert_eq!(
        reply1,
        Some(server_reply(SERVER_ISN + SYN_BYTE, CLIENT_ISN + SYN_BYTE + HELLO_LEN, TcpFlags::Ack, b"Hello"))
    );
    expected.snd_nxt += HELLO_LEN;
    expected.rcv_nxt += HELLO_LEN;
    assert_eq!(snapshot(&c), Some(expected.clone()));

    let reply2 = reply(
        &client_packet(CLIENT_ISN + SYN_BYTE + HELLO_LEN, SERVER_ISN + SYN_BYTE + HELLO_LEN, TcpFlags::Ack, b"Hi"),
        &mut c,
    );
    assert_eq!(
        reply2,
        Some(server_reply(SERVER_ISN + SYN_BYTE + HELLO_LEN, CLIENT_ISN + SYN_BYTE + HELLO_LEN + HI_LEN, TcpFlags::Ack, b"Hi"))
    );
    expected.snd_nxt += HI_LEN;
    expected.rcv_nxt += HI_LEN;
    expected.snd_una += HELLO_LEN;
    assert_eq!(snapshot(&c), Some(expected.clone()), "SND.UNA should be SERVER_ISN+6");

    // Third packet with a stale ack=SERVER_ISN+1, older than SND.UNA
    let reply3 = reply(
        &client_packet(CLIENT_ISN + SYN_BYTE + HELLO_LEN + HI_LEN, SERVER_ISN + SYN_BYTE, TcpFlags::Ack, b"Hey"),
        &mut c,
    );
    assert_eq!(
        reply3,
        Some(server_reply(
            SERVER_ISN + SYN_BYTE + HELLO_LEN + HI_LEN,
            CLIENT_ISN + SYN_BYTE + HELLO_LEN + HI_LEN + HEY_LEN,
            TcpFlags::Ack,
            b"Hey"
        )),
        "Stale ack_num shouldn't prevent normal processing"
    );
    expected.snd_nxt += HEY_LEN;
    expected.rcv_nxt += HEY_LEN;
    assert_eq!(snapshot(&c), Some(expected), "A stale ack_num must not move SND.UNA backward");
}

#[test]
fn reply_old_ack_num_does_not_regress_snd_una() {
    old_ack_num_does_not_regress_snd_una_body();
}

#[test]
fn echo_old_ack_num_does_not_regress_snd_una() {
    old_ack_num_does_not_regress_snd_una_body();
}

fn duplicate_data_packet_gets_duplicate_ack_without_echo_body() {
    let mut c = after_handshake();
    let hello = client_packet(CLIENT_ISN + SYN_BYTE, SERVER_ISN + SYN_BYTE, TcpFlags::Ack, b"Hello");
    let hi = client_packet(CLIENT_ISN + SYN_BYTE + HELLO_LEN, SERVER_ISN + SYN_BYTE + HELLO_LEN, TcpFlags::Ack, b"Hi");

    assert_eq!(
        reply(&hello, &mut c),
        Some(server_reply(SERVER_ISN + SYN_BYTE, CLIENT_ISN + SYN_BYTE + HELLO_LEN, TcpFlags::Ack, b"Hello"))
    );
    assert_eq!(
        reply(&hi, &mut c),
        Some(server_reply(SERVER_ISN + SYN_BYTE + HELLO_LEN, CLIENT_ISN + SYN_BYTE + HELLO_LEN + HI_LEN, TcpFlags::Ack, b"Hi"))
    );

    // Retransmit of "Hello": seq=CLIENT_ISN+1, but rcv_nxt is now CLIENT_ISN+8
    assert_eq!(
        reply(&hello, &mut c),
        Some(server_reply(SERVER_ISN + SYN_BYTE + HELLO_LEN + HI_LEN, CLIENT_ISN + SYN_BYTE + HELLO_LEN + HI_LEN, TcpFlags::Ack, &[])),
        "Duplicate ACK should ack rcv_nxt=CLIENT_ISN+8 with no payload"
    );
}

#[test]
fn reply_duplicate_data_packet_gets_duplicate_ack_without_echo() {
    duplicate_data_packet_gets_duplicate_ack_without_echo_body();
}

#[test]
fn echo_duplicate_data_packet_gets_duplicate_ack_without_echo() {
    duplicate_data_packet_gets_duplicate_ack_without_echo_body();
}

fn ack_for_unsent_data_is_dropped_and_gets_current_state_reply_body() {
    let mut c = after_handshake();
    let initial = snapshot(&c);
    let r = reply(&client_packet(CLIENT_ISN + SYN_BYTE, SERVER_ISN + 20, TcpFlags::Ack, b"Hello"), &mut c);
    assert_eq!(r, Some(server_reply(SERVER_ISN + SYN_BYTE, CLIENT_ISN + SYN_BYTE, TcpFlags::Ack, &[])));
    assert_eq!(snapshot(&c), initial, "State must be untouched");
}

#[test]
fn reply_ack_for_unsent_data_is_dropped_and_gets_current_state_reply() {
    ack_for_unsent_data_is_dropped_and_gets_current_state_reply_body();
}

#[test]
fn echo_ack_for_unsent_data_is_dropped_and_gets_current_state_reply() {
    ack_for_unsent_data_is_dropped_and_gets_current_state_reply_body();
}

fn wraparound_ack_for_unsent_data_is_still_rejected_body() {
    let mut c = TcpConnections::new(500, 5);
    c.insert(key(), established_with(u32::MAX, CLIENT_ISN + SYN_BYTE, u32::MAX, u16::MAX));
    let initial = snapshot(&c);

    // ack=0 wraps 1 past SND.NXT=u32::MAX
    let r = reply(&client_packet(CLIENT_ISN + SYN_BYTE, 0, TcpFlags::Ack, &[]), &mut c);
    assert_eq!(r, Some(server_reply(u32::MAX, CLIENT_ISN + SYN_BYTE, TcpFlags::Ack, &[])));
    assert_eq!(snapshot(&c), initial, "State must be untouched");
}

#[test]
fn reply_wraparound_ack_for_unsent_data_is_still_rejected() {
    wraparound_ack_for_unsent_data_is_still_rejected_body();
}

#[test]
fn echo_wraparound_ack_for_unsent_data_is_still_rejected() {
    wraparound_ack_for_unsent_data_is_still_rejected_body();
}

#[test]
fn data_packet_for_unknown_connection_gets_rst() {
    let mut c = TcpConnections::new(500, 5);
    let r = reply(&client_packet(CLIENT_ISN + SYN_BYTE, SERVER_ISN + SYN_BYTE, TcpFlags::Ack, b"Hello"), &mut c);
    assert_eq!(r, Some(server_reply(SERVER_ISN + SYN_BYTE, 0, TcpFlags::Rst, &[])));
}

#[test]
fn unrecognized_packet_for_unknown_connection_gets_rst() {
    let mut c = TcpConnections::new(500, 5);
    let r = reply(&client_packet(CLIENT_ISN + SYN_BYTE, SERVER_ISN + SYN_BYTE, TcpFlags::Ack, b"Hello"), &mut c);
    assert_eq!(r, Some(server_reply(SERVER_ISN + SYN_BYTE, 0, TcpFlags::Rst, &[])));
    assert_eq!(c.len(), 0);
}

// ---------------------------------------------------------------------------------------------
// Passive close

fn creates_valid_fin_ack_body() {
    let mut c = after_handshake();
    let mut expected = snapshot(&c).unwrap();

    let r = reply(&client_packet(CLIENT_ISN + SYN_BYTE, SERVER_ISN + SYN_BYTE, TcpFlags::FinAck, &[]), &mut c);
    assert_eq!(
        r,
        Some(server_reply(SERVER_ISN + SYN_BYTE, CLIENT_ISN + SYN_BYTE + FIN_BYTE, TcpFlags::FinAck, &[]))
    );

    // LAST-ACK, waiting for the client's final ACK, not yet removed
    expected.state = "LAST-ACK";
    expected.snd_nxt += FIN_BYTE;
    expected.rcv_nxt += FIN_BYTE;
    assert_eq!(snapshot(&c), Some(expected));
}

#[test]
fn creates_valid_fin_ack() {
    creates_valid_fin_ack_body();
}

#[test]
fn reply_reply_creates_valid_fin_ack() {
    creates_valid_fin_ack_body();
}

#[test]
fn fin_ack_acks_prior_data_and_advances_snd_una() {
    let mut c = after_handshake();
    let mut expected = snapshot(&c).unwrap();

    reply(&client_packet(CLIENT_ISN + SYN_BYTE, SERVER_ISN + SYN_BYTE, TcpFlags::Ack, b"Hello"), &mut c);
    expected.snd_nxt += HELLO_LEN;
    expected.rcv_nxt += HELLO_LEN;

    {
        let pending = &c.get(key()).unwrap().pending;
        assert_eq!(pending.len(), 1);
        assert_eq!(
            pending[0].peek_info().payload.as_ref().map(|p| p.as_bytes()),
            Some(&b"Hello"[..]),
            "Intermediate `pending` should consist of the unacked \"Hello\" echo"
        );
    }

    let client_fin_ack =
        client_packet(CLIENT_ISN + SYN_BYTE + HELLO_LEN, SERVER_ISN + SYN_BYTE + HELLO_LEN, TcpFlags::FinAck, &[]);
    reply(&client_fin_ack, &mut c);

    expected.state = "LAST-ACK";
    expected.snd_nxt += FIN_BYTE;
    expected.rcv_nxt += FIN_BYTE;
    expected.snd_una += HELLO_LEN;
    assert_eq!(snapshot(&c), Some(expected), "SEG.ACK from FIN-ACK should advance SND.UNA");
    assert_eq!(window(&c), ws(u16::MAX, client_fin_ack.seq_num.value, client_fin_ack.ack_num.value));

    let pending = &c.get(key()).unwrap().pending;
    assert_eq!(pending.len(), 1);
    assert_eq!(
        pending[0].peek_info().flags,
        TcpFlags::FinAck,
        "The fully acked \"Hello\" echo should be pruned, leaving only the FIN-ACK"
    );
}

fn out_of_order_fin_ack_gets_duplicate_ack_without_closing_body() {
    let mut c = after_handshake();
    let initial = snapshot(&c);
    let r = reply(&client_packet(CLIENT_ISN + SYN_BYTE + HELLO_LEN, SERVER_ISN + SYN_BYTE, TcpFlags::FinAck, &[]), &mut c);
    assert_eq!(
        r,
        Some(server_reply(SERVER_ISN + SYN_BYTE, CLIENT_ISN + SYN_BYTE, TcpFlags::Ack, &[])),
        "Out-of-order FIN-ACK should get a duplicate ACK reflecting rcv_nxt=CLIENT_ISN+1"
    );
    assert_eq!(snapshot(&c), initial, "Connection must remain established");
}

#[test]
fn reply_out_of_order_fin_ack_gets_duplicate_ack_without_closing() {
    out_of_order_fin_ack_gets_duplicate_ack_without_closing_body();
}

#[test]
fn terminate_out_of_order_fin_ack_gets_duplicate_ack_without_closing() {
    out_of_order_fin_ack_gets_duplicate_ack_without_closing_body();
}

fn final_ack_after_fin_ack_removes_connection_and_returns_none_body() {
    let mut c = after_handshake();
    // The client closes: our FIN-ACK puts the connection in LAST-ACK
    reply(&client_packet(CLIENT_ISN + SYN_BYTE, SERVER_ISN + SYN_BYTE, TcpFlags::FinAck, &[]), &mut c);
    assert_eq!(snapshot(&c).unwrap().state, "LAST-ACK");

    // ack=SERVER_ISN+2 (our FIN-ACK seq + 1)
    assert_eq!(
        reply(&client_packet(CLIENT_ISN + SYN_BYTE + FIN_BYTE, SERVER_ISN + SYN_BYTE + FIN_BYTE, TcpFlags::Ack, &[]), &mut c),
        None
    );
    assert_eq!(snapshot(&c), None, "Connection should be removed after final ACK");
}

#[test]
fn reply_final_ack_after_fin_ack_removes_connection_and_returns_none() {
    final_ack_after_fin_ack_removes_connection_and_returns_none_body();
}

#[test]
fn terminate_final_ack_after_fin_ack_removes_connection_and_returns_none() {
    final_ack_after_fin_ack_removes_connection_and_returns_none_body();
}

// ---------------------------------------------------------------------------------------------
// Active close

fn close_established_sends_fin_ack_and_transitions_to_fin_wait_1_body() {
    let mut c = after_handshake();
    let mut expected = snapshot(&c).unwrap();

    let mut replies = c.close_established(NOW);
    let r = replies.pop().unwrap();
    assert!(replies.is_empty(), "Expected exactly one reply");
    assert_eq!(r, server_reply(SERVER_ISN + SYN_BYTE, CLIENT_ISN + SYN_BYTE, TcpFlags::FinAck, &[]));
    assert_eq!(r.ip_pair, ip_pair().swapped());

    expected.state = "FIN-WAIT-1";
    expected.snd_nxt += FIN_BYTE;
    assert_eq!(snapshot(&c), Some(expected), "FIN consumes one sequence number");
}

#[test]
fn reply_close_established_sends_fin_ack_and_transitions_to_fin_wait_1() {
    close_established_sends_fin_ack_and_transitions_to_fin_wait_1_body();
}

#[test]
fn terminate_close_established_sends_fin_ack_and_transitions_to_fin_wait_1() {
    close_established_sends_fin_ack_and_transitions_to_fin_wait_1_body();
}

fn fin_wait_1_to_fin_wait_2_on_ack_of_our_fin_body() {
    let mut c = after_handshake();
    c.close_established(NOW);
    let mut expected = snapshot(&c).unwrap();

    assert_eq!(
        reply(&client_packet(CLIENT_ISN + SYN_BYTE, SERVER_ISN + SYN_BYTE + FIN_BYTE, TcpFlags::Ack, &[]), &mut c),
        None
    );
    expected.state = "FIN-WAIT-2";
    expected.snd_una += FIN_BYTE;
    assert_eq!(snapshot(&c), Some(expected));
}

#[test]
fn reply_fin_wait_1_to_fin_wait_2_on_ack_of_our_fin() {
    fin_wait_1_to_fin_wait_2_on_ack_of_our_fin_body();
}

#[test]
fn terminate_fin_wait_1_to_fin_wait_2_on_ack_of_our_fin() {
    fin_wait_1_to_fin_wait_2_on_ack_of_our_fin_body();
}

fn fin_wait_2_closes_on_fin_ack_from_peer_body() {
    let mut c = after_handshake();
    c.close_established(NOW);
    let mut expected = snapshot(&c).unwrap();

    let ack_reply = reply(&client_packet(CLIENT_ISN + SYN_BYTE, SERVER_ISN + SYN_BYTE + FIN_BYTE, TcpFlags::Ack, &[]), &mut c);
    assert_eq!(ack_reply, None);
    expected.state = "FIN-WAIT-2";
    expected.snd_una += FIN_BYTE;
    assert_eq!(snapshot(&c), Some(expected));

    let fin_reply = reply(&client_packet(CLIENT_ISN + SYN_BYTE, SERVER_ISN + SYN_BYTE + FIN_BYTE, TcpFlags::FinAck, &[]), &mut c);
    assert_eq!(
        fin_reply,
        Some(server_reply(SERVER_ISN + SYN_BYTE + FIN_BYTE, CLIENT_ISN + SYN_BYTE + FIN_BYTE, TcpFlags::Ack, &[]))
    );
    assert_eq!(snapshot(&c), None, "Connection should be removed");
}

#[test]
fn reply_fin_wait_2_closes_on_fin_ack_from_peer() {
    fin_wait_2_closes_on_fin_ack_from_peer_body();
}

#[test]
fn terminate_fin_wait_2_closes_on_fin_ack_from_peer() {
    fin_wait_2_closes_on_fin_ack_from_peer_body();
}

fn fin_wait_1_closes_immediately_if_peers_fin_also_acks_ours_body() {
    let mut c = after_handshake();
    c.close_established(NOW);

    let r = reply(&client_packet(CLIENT_ISN + SYN_BYTE, SERVER_ISN + SYN_BYTE + FIN_BYTE, TcpFlags::FinAck, &[]), &mut c);
    assert_eq!(
        r,
        Some(server_reply(SERVER_ISN + SYN_BYTE + FIN_BYTE, CLIENT_ISN + SYN_BYTE + FIN_BYTE, TcpFlags::Ack, &[]))
    );
    assert_eq!(snapshot(&c), None, "Connection should be removed");
}

#[test]
fn reply_fin_wait_1_closes_immediately_if_peers_fin_also_acks_ours() {
    fin_wait_1_closes_immediately_if_peers_fin_also_acks_ours_body();
}

#[test]
fn terminate_fin_wait_1_closes_immediately_if_peers_fin_also_acks_ours() {
    fin_wait_1_closes_immediately_if_peers_fin_also_acks_ours_body();
}

fn data_after_our_fin_in_fin_wait_1_is_acked_without_echo_body() {
    let mut c = after_handshake();
    c.close_established(NOW);
    let mut expected = snapshot(&c).unwrap();

    let r = reply(&client_packet(CLIENT_ISN + SYN_BYTE, SERVER_ISN + SYN_BYTE, TcpFlags::Ack, b"Hello"), &mut c);
    assert_eq!(
        r,
        Some(server_reply(SERVER_ISN + SYN_BYTE + FIN_BYTE, CLIENT_ISN + SYN_BYTE + HELLO_LEN, TcpFlags::Ack, &[])),
        "Data arriving after our FIN should be ACKed without being echoed, not RST"
    );
    expected.rcv_nxt += HELLO_LEN;
    assert_eq!(snapshot(&c), Some(expected), "State should remain FIN-WAIT-1");
}

#[test]
fn reply_data_after_our_fin_in_fin_wait_1_is_acked_without_echo() {
    data_after_our_fin_in_fin_wait_1_is_acked_without_echo_body();
}

#[test]
fn terminate_data_after_our_fin_in_fin_wait_1_is_acked_without_echo() {
    data_after_our_fin_in_fin_wait_1_is_acked_without_echo_body();
}

fn data_after_our_fin_in_fin_wait_2_is_acked_without_echo_body() {
    let mut c = after_handshake();
    c.close_established(NOW);
    let mut expected = snapshot(&c).unwrap();

    reply(&client_packet(CLIENT_ISN + SYN_BYTE, SERVER_ISN + SYN_BYTE + FIN_BYTE, TcpFlags::Ack, &[]), &mut c);
    expected.state = "FIN-WAIT-2";
    expected.snd_una += FIN_BYTE;
    assert_eq!(snapshot(&c), Some(expected.clone()));

    let r = reply(&client_packet(CLIENT_ISN + SYN_BYTE, SERVER_ISN + SYN_BYTE + FIN_BYTE, TcpFlags::Ack, b"Hello"), &mut c);
    assert_eq!(
        r,
        Some(server_reply(SERVER_ISN + SYN_BYTE + FIN_BYTE, CLIENT_ISN + SYN_BYTE + HELLO_LEN, TcpFlags::Ack, &[])),
        "Data arriving after our FIN should be ACKed without being echoed, not RST"
    );
    expected.rcv_nxt += HELLO_LEN;
    assert_eq!(snapshot(&c), Some(expected), "State should remain FIN-WAIT-2");
}

#[test]
fn reply_data_after_our_fin_in_fin_wait_2_is_acked_without_echo() {
    data_after_our_fin_in_fin_wait_2_is_acked_without_echo_body();
}

#[test]
fn terminate_data_after_our_fin_in_fin_wait_2_is_acked_without_echo() {
    data_after_our_fin_in_fin_wait_2_is_acked_without_echo_body();
}

fn simultaneous_close_transitions_through_closing_to_closed_body() {
    let mut c = after_handshake();
    c.close_established(NOW);
    let mut expected = snapshot(&c).unwrap();

    // The client's FIN arrives in order without acknowledging ours -> CLOSING
    let r = reply(&client_packet(CLIENT_ISN + SYN_BYTE, SERVER_ISN + SYN_BYTE, TcpFlags::FinAck, &[]), &mut c);
    assert_eq!(
        r,
        Some(server_reply(SERVER_ISN + SYN_BYTE + FIN_BYTE, CLIENT_ISN + SYN_BYTE + FIN_BYTE, TcpFlags::Ack, &[]))
    );
    expected.state = "CLOSING";
    expected.rcv_nxt += FIN_BYTE;
    assert_eq!(snapshot(&c), Some(expected));

    // The client's ACK of our FIN finally arrives -> fully closed
    assert_eq!(
        reply(&client_packet(CLIENT_ISN + SYN_BYTE + FIN_BYTE, SERVER_ISN + SYN_BYTE + FIN_BYTE, TcpFlags::Ack, &[]), &mut c),
        None
    );
    assert_eq!(snapshot(&c), None, "Connection should be removed");
}

#[test]
fn reply_simultaneous_close_transitions_through_closing_to_closed() {
    simultaneous_close_transitions_through_closing_to_closed_body();
}

#[test]
fn terminate_simultaneous_close_transitions_through_closing_to_closed() {
    simultaneous_close_transitions_through_closing_to_closed_body();
}

// ---------------------------------------------------------------------------------------------
// Send window

#[test]
fn new_ack_adopts_window_from_segment() {
    const NEW_WND: u16 = 12_345;

    let mut c = after_handshake();
    let mut expected = snapshot(&c).unwrap();
    assert_ne!(window(&c).map(|w| w.snd_wnd), Some(NEW_WND));

    reply(&client_packet(CLIENT_ISN + SYN_BYTE, SERVER_ISN + SYN_BYTE, TcpFlags::Ack, b"Hello"), &mut c);
    expected.snd_nxt += HELLO_LEN;
    expected.rcv_nxt += HELLO_LEN;
    assert_eq!(snapshot(&c), Some(expected.clone()), "State confirmation before window update");

    let window_update =
        client_packet_with_window(CLIENT_ISN + SYN_BYTE + HELLO_LEN, SERVER_ISN + SYN_BYTE + HELLO_LEN, TcpFlags::Ack, NEW_WND, &[]);
    assert_eq!(reply(&window_update, &mut c), None);

    expected.snd_una += HELLO_LEN;
    assert_eq!(snapshot(&c), Some(expected));
    assert_eq!(
        window(&c),
        ws(NEW_WND, window_update.seq_num.value, window_update.ack_num.value),
        "SND.WND should adopt the new segment's advertised window"
    );
}

#[test]
fn stale_segment_does_not_clobber_send_window() {
    let mut c = after_handshake();
    let mut expected = snapshot(&c).unwrap();

    reply(&client_packet(CLIENT_ISN + SYN_BYTE, SERVER_ISN + SYN_BYTE, TcpFlags::Ack, b"Hello"), &mut c);
    expected.snd_nxt += HELLO_LEN;
    expected.rcv_nxt += HELLO_LEN;
    assert_eq!(snapshot(&c), Some(expected.clone()));

    let fresh = client_packet_with_window(CLIENT_ISN + SYN_BYTE + HELLO_LEN, SERVER_ISN + SYN_BYTE, TcpFlags::Ack, 1000, &[]);
    assert_eq!(reply(&fresh, &mut c), None);
    assert_eq!(window(&c), ws(1000, fresh.seq_num.value, fresh.ack_num.value), "First window update should be adopted");
    assert_eq!(snapshot(&c), Some(expected.clone()));

    // Stale SEG.SEQ, but SEG.ACK is exactly SND.NXT, with a different window
    assert_eq!(
        reply(
            &client_packet_with_window(CLIENT_ISN + SYN_BYTE, SERVER_ISN + SYN_BYTE + HELLO_LEN, TcpFlags::Ack, 65_000, &[]),
            &mut c
        ),
        None
    );
    expected.snd_una += HELLO_LEN;
    assert_eq!(snapshot(&c), Some(expected));
    assert_eq!(
        window(&c),
        ws(1000, fresh.seq_num.value, fresh.ack_num.value),
        "SND.WND must not adopt the stale segment's window despite SEG.ACK being new"
    );
}

#[test]
fn same_seq_but_fresher_ack_updates_window() {
    let mut c = after_handshake();
    let mut expected = snapshot(&c).unwrap();

    reply(&client_packet(CLIENT_ISN + SYN_BYTE, SERVER_ISN + SYN_BYTE, TcpFlags::Ack, b"Hello"), &mut c);
    expected.snd_nxt += HELLO_LEN;
    expected.rcv_nxt += HELLO_LEN;
    assert_eq!(snapshot(&c), Some(expected.clone()));

    let hi_packet = client_packet(CLIENT_ISN + SYN_BYTE + HELLO_LEN, SERVER_ISN + SYN_BYTE, TcpFlags::Ack, b"Hi");
    reply(&hi_packet, &mut c);
    expected.snd_nxt += HI_LEN;
    expected.rcv_nxt += HI_LEN;
    assert_eq!(snapshot(&c), Some(expected.clone()));
    assert_eq!(window(&c), ws(u16::MAX, hi_packet.seq_num.value, hi_packet.ack_num.value));

    let update_1 = client_packet_with_window(
        CLIENT_ISN + SYN_BYTE + HELLO_LEN + HI_LEN,
        SERVER_ISN + SYN_BYTE + HELLO_LEN,
        TcpFlags::Ack,
        1000,
        &[],
    );
    assert_eq!(reply(&update_1, &mut c), None);
    expected.snd_una += HELLO_LEN;
    assert_eq!(snapshot(&c), Some(expected.clone()));
    assert_eq!(window(&c), ws(1000, update_1.seq_num.value, update_1.ack_num.value), "First window update should be adopted");

    let update_2 = client_packet_with_window(
        CLIENT_ISN + SYN_BYTE + HELLO_LEN + HI_LEN,
        SERVER_ISN + SYN_BYTE + HELLO_LEN + HI_LEN,
        TcpFlags::Ack,
        2000,
        &[],
    );
    assert_eq!(reply(&update_2, &mut c), None);
    expected.snd_una += HI_LEN;
    assert_eq!(snapshot(&c), Some(expected));
    assert_eq!(
        window(&c),
        ws(2000, update_2.seq_num.value, update_2.ack_num.value),
        "SND.WND should still update when SEQ repeats but ACK is fresher"
    );
}

#[test]
fn duplicate_ack_updates_window() {
    const NEW_WND: u16 = 777;

    let mut c = after_handshake();
    let mut expected = snapshot(&c).unwrap();
    assert_ne!(window(&c).map(|w| w.snd_wnd), Some(NEW_WND));

    reply(&client_packet(CLIENT_ISN + SYN_BYTE, SERVER_ISN + SYN_BYTE, TcpFlags::Ack, b"Hello"), &mut c);
    expected.snd_nxt += HELLO_LEN;
    expected.rcv_nxt += HELLO_LEN;
    assert_eq!(snapshot(&c), Some(expected.clone()));

    let dup_ack_fresh_seq =
        client_packet_with_window(CLIENT_ISN + SYN_BYTE + HELLO_LEN, SERVER_ISN + SYN_BYTE, TcpFlags::Ack, NEW_WND, &[]);
    assert_eq!(reply(&dup_ack_fresh_seq, &mut c), None);
    assert_eq!(snapshot(&c), Some(expected));
    assert_eq!(
        window(&c),
        ws(NEW_WND, dup_ack_fresh_seq.seq_num.value, dup_ack_fresh_seq.ack_num.value),
        "SND.WND should update on a duplicate ack as long as SND.WL1 and SND.WL2 allow it"
    );
}

// ---------------------------------------------------------------------------------------------
// Flow control

#[test]
fn small_window_truncates_echoed_payload_and_buffers_the_rest() {
    let mut c = after_handshake_with(500, 5, 3);
    let mut expected = snapshot(&c).unwrap();

    let r = reply(&client_packet_with_window(CLIENT_ISN + SYN_BYTE, SERVER_ISN + SYN_BYTE, TcpFlags::Ack, 3, b"Hello"), &mut c);
    assert_eq!(
        r,
        Some(server_reply(SERVER_ISN + SYN_BYTE, CLIENT_ISN + SYN_BYTE + HELLO_LEN, TcpFlags::Ack, b"Hel")),
        "Only the first 3 bytes fit in the advertised window of 3"
    );

    expected.snd_nxt += 3;
    expected.rcv_nxt += HELLO_LEN;
    expected.send_buffer.extend(b"lo");
    assert_eq!(snapshot(&c), Some(expected), "SND.NXT should advance only by what was sent");
}

#[test]
fn window_opening_via_ack_drains_buffered_remainder() {
    const HEL_LEN: u32 = 3;

    let mut c = after_handshake_with(500, 5, 3);
    let mut expected = snapshot(&c).unwrap();

    reply(&client_packet_with_window(CLIENT_ISN + SYN_BYTE, SERVER_ISN + SYN_BYTE, TcpFlags::Ack, 3, b"Hello"), &mut c);
    expected.snd_nxt += HEL_LEN;
    expected.rcv_nxt += HELLO_LEN;
    expected.send_buffer.extend(b"lo");
    assert_eq!(snapshot(&c), Some(expected.clone()), "State confirmation before window update");

    // The client acks the 3 sent bytes and advertises a bigger window
    let window_update =
        client_packet_with_window(CLIENT_ISN + SYN_BYTE + HELLO_LEN, SERVER_ISN + SYN_BYTE + HEL_LEN, TcpFlags::Ack, 10, &[]);
    let r = reply(&window_update, &mut c);
    assert_eq!(
        r,
        Some(server_reply(SERVER_ISN + SYN_BYTE + HEL_LEN, CLIENT_ISN + SYN_BYTE + HELLO_LEN, TcpFlags::Ack, b"lo")),
        "The buffered remainder should drain once the window opens"
    );

    expected.snd_una += HEL_LEN;
    expected.snd_nxt += HELLO_LEN - HEL_LEN;
    expected.send_buffer.clear();
    assert_eq!(snapshot(&c), Some(expected), "All bytes should have fully drained from the buffer");
    assert_eq!(window(&c), ws(10, window_update.seq_num.value, window_update.ack_num.value));
}

#[test]
fn zero_window_buffers_entire_payload_and_gets_bare_ack() {
    let mut c = after_handshake_with(500, 5, 0);
    let mut expected = snapshot(&c).unwrap();

    let r = reply(&client_packet_with_window(CLIENT_ISN + SYN_BYTE, SERVER_ISN + SYN_BYTE, TcpFlags::Ack, 0, b"Hello"), &mut c);
    assert_eq!(
        r,
        Some(server_reply(SERVER_ISN + SYN_BYTE, CLIENT_ISN + SYN_BYTE + HELLO_LEN, TcpFlags::Ack, &[])),
        "A closed window still gets a bare ACK for the receipt, just no echoed payload"
    );

    expected.rcv_nxt += HELLO_LEN;
    expected.send_buffer.extend(b"Hello");
    assert_eq!(snapshot(&c), Some(expected), "Nothing sent: SND.NXT stays, the payload is buffered");
}

// ---------------------------------------------------------------------------------------------
// Retransmission

#[test]
fn syn_ack_is_resent_while_due() {
    let mut c = with_syn_recv(0, 5);
    let isn = snapshot(&c).unwrap().snd_una;

    let mut resent = c.make_retransmissions(NOW);
    let r = resent.pop().unwrap();
    assert!(resent.is_empty(), "Expected exactly one retransmitted segment");
    assert_eq!(r, server_reply(isn, CLIENT_ISN + SYN_BYTE, TcpFlags::SynAck, &[]));
    assert_eq!(r.ip_pair, ip_pair().swapped());
}

#[test]
fn pending_segment_is_cleared_once_acked() {
    let mut c = with_syn_recv(0, 5);
    let isn = snapshot(&c).unwrap().snd_una;

    reply(&client_packet(CLIENT_ISN + SYN_BYTE, isn.wrapping_add(SYN_BYTE), TcpFlags::Ack, &[]), &mut c);
    assert!(c.make_retransmissions(NOW).is_empty(), "Acked segment should not be retransmitted");
}

#[test]
fn data_echo_is_resent_unchanged() {
    let mut c = after_handshake_with(0, 5, u16::MAX);
    reply(&client_packet(CLIENT_ISN + SYN_BYTE, SERVER_ISN + SYN_BYTE, TcpFlags::Ack, b"Hello"), &mut c);

    let mut resent = c.make_retransmissions(NOW);
    let r = resent.pop().unwrap();
    assert!(resent.is_empty(), "Expected exactly one retransmitted segment");
    assert_eq!(r, server_reply(SERVER_ISN + SYN_BYTE, CLIENT_ISN + SYN_BYTE + HELLO_LEN, TcpFlags::Ack, b"Hello"));
}

#[test]
fn fin_ack_is_resent_unchanged() {
    let mut c = after_handshake_with(0, 5, u16::MAX);
    c.close_established(NOW);

    let mut resent = c.make_retransmissions(NOW);
    let r = resent.pop().unwrap();
    assert!(resent.is_empty(), "Expected exactly one retransmitted segment");
    assert_eq!(r, server_reply(SERVER_ISN + SYN_BYTE, CLIENT_ISN + SYN_BYTE, TcpFlags::FinAck, &[]));
}

#[test]
fn multiple_unacked_segments_are_all_retransmitted() {
    let mut c = after_handshake_with(0, 5, u16::MAX);
    reply(&client_packet(CLIENT_ISN + SYN_BYTE, SERVER_ISN + SYN_BYTE, TcpFlags::Ack, b"Hello"), &mut c);
    reply(&client_packet(CLIENT_ISN + SYN_BYTE + HELLO_LEN, SERVER_ISN + SYN_BYTE, TcpFlags::Ack, b"Hi"), &mut c);

    let resent = c.make_retransmissions(NOW);
    assert_eq!(resent.len(), 2, "Expected exactly two retransmitted segments");
    assert_eq!(
        resent[0],
        server_reply(SERVER_ISN + SYN_BYTE, CLIENT_ISN + SYN_BYTE + HELLO_LEN, TcpFlags::Ack, b"Hello")
    );
    assert_eq!(
        resent[1],
        server_reply(SERVER_ISN + SYN_BYTE + HELLO_LEN, CLIENT_ISN + SYN_BYTE + HELLO_LEN + HI_LEN, TcpFlags::Ack, b"Hi")
    );
}

#[test]
fn gives_up_after_max_retransmits() {
    const MAX_RETRIES: u8 = 3;
    let mut c = with_syn_recv(0, MAX_RETRIES);

    for _ in 0..MAX_RETRIES {
        let resent = c.make_retransmissions(NOW);
        assert_eq!(resent.len(), 1, "Should still be retried");
        assert_eq!(snapshot(&c).unwrap().state, "SYN-RECEIVED");
    }

    let resent = c.make_retransmissions(NOW);
    assert!(resent.is_empty(), "Should give up instead of retransmitting again");
    assert_eq!(snapshot(&c), None, "Connection should be removed");
}

#[test]
fn segments_not_yet_due_are_not_retransmitted() {
    let mut c = with_syn_recv(500, 5);
    assert!(c.make_retransmissions(NOW + 499).is_empty());
    assert_eq!(c.next_retransmit_deadline(NOW), Some(NOW + 500));
    assert_eq!(c.make_retransmissions(NOW + 500).len(), 1);
    // Backed off: due again after twice the timeout
    assert_eq!(c.next_retransmit_deadline(NOW + 500), Some(NOW + 1_500));
}

// ---------------------------------------------------------------------------------------------
// Writing

#[test]
fn write_into_produces_correct_bytes_with_no_payload() {
    let seg = TcpSegment {
        ip_pair: ip_pair(),
        ports: PortPair { src: 80, dst: 1234 },
        seq_num: SeqPoint::new(0x1000_0000),
        ack_num: SeqPoint::new(0x0000_1001),
        offset_bytes: 20,
        flags: TcpFlags::SynAck,
        window: u16::MAX,
        payload: None,
    };

    let mut buf = [0u8; ETHERNET_MTU];
    let tcp_len = seg.write_into(&mut buf[20..]).unwrap();

    assert_eq!(tcp_len, 20, "no payload, so length is just the header");
    assert_eq!(&buf[20..22], &[0x00, 0x50]); // Source port: 80
    assert_eq!(&buf[22..24], &[0x04, 0xD2]); // Dest port: 1234
    assert_eq!(&buf[24..28], &[0x10, 0x00, 0x00, 0x00]); // Seq num
    assert_eq!(&buf[28..32], &[0x00, 0x00, 0x10, 0x01]); // Ack num
    assert_eq!(buf[32], 0x50); // Data offset: 5 (20 bytes), reserved bits: 0
    assert_eq!(buf[33], 0x12); // Flags: SYN|ACK
    assert_eq!(&buf[34..36], &[0xFF, 0xFF]); // Window size
    assert_eq!(&buf[38..40], &[0x00, 0x00]); // Urgent pointer
    assert_eq!(tcp_checksum(&buf, tcp_len, ip_pair()), 0x0000);
}

#[test]
fn write_into_produces_correct_bytes_with_payload() {
    let seg = TcpSegment {
        ip_pair: ip_pair(),
        ports: PortPair { src: 80, dst: 1234 },
        seq_num: SeqPoint::new(1),
        ack_num: SeqPoint::new(4102),
        offset_bytes: 20,
        flags: TcpFlags::Ack,
        window: u16::MAX,
        payload: payload(b"Hello"),
    };

    let mut buf = [0u8; ETHERNET_MTU];
    let tcp_len = seg.write_into(&mut buf[20..]).unwrap();

    assert_eq!(tcp_len, 25, "header (20 bytes) + payload (5 bytes)");
    assert_eq!(&buf[40..45], b"Hello");
    assert_eq!(tcp_checksum(&buf, tcp_len, ip_pair()), 0x0000);
}

#[test]
fn write_into_too_small_for_payload_keeps_the_header_written_before_failing() {
    let seg = server_reply(1, 2, TcpFlags::Ack, b"Hello");
    let mut buf = [9u8; 22];
    assert!(seg.write_into(&mut buf).is_err());
    // Ports, sequence and acknowledgment numbers, offset, flags and window are in place
    assert_eq!(&buf[..4], &[0x00, 0x50, 0x04, 0xd2]);
    assert_eq!(&buf[4..12], &[0, 0, 0, 1, 0, 0, 0, 2]);
    assert_eq!(buf[12], 0x50);
    assert_eq!(&buf[14..16], &[0xFF, 0xFF]);
    // The checksum field is not touched yet, the urgent pointer is zeroed
    assert_eq!(&buf[16..18], &[9, 9]);
    assert_eq!(&buf[18..20], &[0, 0]);
    // The payload did not fit, so none of it is written
    assert_eq!(&buf[20..22], &[9, 9]);
}

#[test]
fn write_into_three_byte_buffer_writes_only_the_source_port() {
    let seg = server_reply(1, 2, TcpFlags::Ack, b"");
    let mut buf = [9u8; 3];
    assert!(seg.write_into(&mut buf).is_err());
    assert_eq!(buf, [0x00, 0x50, 9]);
}

#[test]
fn in_flight_stays_within_the_window_and_one_fin() {
    let mut conns = after_handshake_with(500, 5, 3);
    let s = SERVER_ISN + SYN_BYTE;
    let c = CLIENT_ISN + SYN_BYTE;

    // Five bytes arrive, but the peer's window leaves room to echo only three
    let echo = reply(&client_packet_with_window(c, s, TcpFlags::Ack, 3, b"Hello"), &mut conns).unwrap();
    assert_eq!(echo.payload.map(|p| p.as_bytes().to_vec()), Some(b"Hel".to_vec()));
    let snap = snapshot(&conns).unwrap();
    assert_eq!(snap.snd_nxt.wrapping_sub(snap.snd_una), 3);

    // The peer closes without acknowledging: our FIN goes out with no more data
    let fin = reply(&client_packet_with_window(c + 5, s, TcpFlags::FinAck, 3, &[]), &mut conns).unwrap();
    assert_eq!(fin.flags, TcpFlags::FinAck);
    let snap = snapshot(&conns).unwrap();
    assert_eq!(snap.state, "LAST-ACK");
    assert_eq!(snap.snd_nxt.wrapping_sub(snap.snd_una), 4, "a full window of data and our FIN");
    assert!(SeqPoint::new(snap.snd_una).precedes_or_eq(SeqPoint::new(snap.snd_nxt)));
}
