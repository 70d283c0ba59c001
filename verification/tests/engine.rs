use toytcp::packet::TcpPacket;
use toytcp::socket::{ReceiveSequenceVariables, SendSequenceVariables, TcpState};
use toytcp::tcp::{TcpError, TcpEvent, TcpEventSlot, TcpStream};
use toytcp::tcp_flags;

const LOCAL: u32 = 0x0A00_0001; // 10.0.0.1, the engine's fixed local address
const PEER: u32 = 0xC000_0202; // 192.0.2.2
const PEER2: u32 = 0xC000_0205; // 192.0.2.5

/// Build an inbound segment the way a remote harness would: source fields
/// of the peer, destination fields of the engine, checksum signed with the
/// pseudo-header for the pair of addresses it travels between.
fn inbound_segment(
    src_port: u16,
    dst_port: u16,
    seq: u32,
    ack: u32,
    flags: u8,
    window: u16,
    local_address: u32,
    remote_address: u32,
) -> TcpPacket {
    let mut p = TcpPacket::new(0);
    p.set_source_port(src_port);
    p.set_destination_port(dst_port);
    p.set_sequence_number(seq);
    p.set_acknowledgment_number(ack);
    p.set_data_offset(5);
    p.set_flags(flags);
    p.set_window_size(window);
    p.fill_checksum(local_address, remote_address);
    p
}

#[test]
fn sequence_variables_initial_values() {
    let snd = SendSequenceVariables::with_window_size(4380);
    assert_eq!(snd.una, 0);
    assert_eq!(snd.nxt, 0);
    assert_eq!(snd.wnd, 4380);
    assert_eq!(snd.up, 0);
    assert_eq!(snd.wl1, 0);
    assert_eq!(snd.wl2, 0);
    assert_eq!(snd.iss, 0);

    let rcv = ReceiveSequenceVariables::with_window_size(123);
    assert_eq!(rcv.nxt, 0);
    assert_eq!(rcv.wnd, 123);
    assert_eq!(rcv.up, 0);
    assert_eq!(rcv.irs, 0);
}

#[test]
fn event_slot_rendezvous() {
    let mut slot = TcpEventSlot::new();
    let listener_event = TcpEvent::ConnectionEstablished(toytcp::socket::TcpSocketId {
        local_address: LOCAL,
        local_port: 8080,
        remote_address: 0,
        remote_port: 0,
    });
    let other_event = TcpEvent::ConnectionEstablished(toytcp::socket::TcpSocketId {
        local_address: LOCAL,
        local_port: 9090,
        remote_address: 0,
        remote_port: 0,
    });
    // Nothing posted yet: the waiter does not wake.
    assert!(!slot.try_take(listener_event));
    slot.notify_event(listener_event);
    // A waiter for another event leaves the slot alone.
    assert!(!slot.try_take(other_event));
    // The right waiter wakes and clears the slot.
    assert!(slot.try_take(listener_event));
    assert!(!slot.try_take(listener_event));
}

#[test]
fn listen_registers_wildcard_socket() {
    let mut engine = TcpStream::new();
    let id = engine.listen(LOCAL, 8080);
    assert_eq!(id.local_address, LOCAL);
    assert_eq!(id.local_port, 8080);
    assert_eq!(id.remote_address, 0);
    assert_eq!(id.remote_port, 0);
    let s = engine.get_socket(id).expect("listener is in the table");
    assert_eq!(s.state, TcpState::Listen);
    assert!(s.connected_socket_queue.is_empty());
}

#[test]
fn connect_allocates_distinct_ephemeral_ports() {
    let mut engine = TcpStream::new();
    let mut ports = Vec::new();
    for _ in 0..32 {
        let (id, syn) = engine.connect(PEER, 80).expect("ports are plentiful");
        assert!((49152..65535).contains(&id.local_port));
        assert!(!ports.contains(&id.local_port), "port handed out twice");
        ports.push(id.local_port);
        assert_eq!(syn.flags(), tcp_flags::SYN);
        assert_eq!(syn.acknowledgment_number(), 0);
        let s = engine.get_socket(id).expect("socket is in the table");
        assert_eq!(s.state, TcpState::SynSent);
        assert_eq!(syn.sequence_number(), s.snd.iss);
        assert!(s.snd.iss < 0x8000_0000);
        assert_eq!(s.snd.una, s.snd.iss);
        assert_eq!(s.snd.nxt, s.snd.iss.wrapping_add(1));
    }
}

#[test]
fn active_open_basic() {
    let mut engine = TcpStream::new();
    let (id, syn) = engine.connect(PEER, 80).expect("connect");
    let iss = syn.sequence_number();
    assert_eq!(syn.destination_port(), 80);
    assert_eq!(syn.source_port(), id.local_port);

    // The harness answers SYN|ACK acknowledging our SYN.
    let syn_ack = inbound_segment(
        80,
        id.local_port,
        1000,
        iss + 1,
        tcp_flags::SYN | tcp_flags::ACK,
        4380,
        LOCAL,
        PEER,
    );
    let outcome = engine.handle_segment(&syn_ack, LOCAL, PEER).expect("handled");

    let ack = outcome.emission.expect("the engine acknowledges");
    assert_eq!(ack.flags(), tcp_flags::ACK);
    assert_eq!(ack.sequence_number(), iss + 1);
    assert_eq!(ack.acknowledgment_number(), 1001);
    assert!(ack.verify_packet(LOCAL, PEER));
    assert_eq!(outcome.event, Some(TcpEvent::ConnectionEstablished(id)));

    let s = engine.get_socket(id).expect("socket is in the table");
    assert_eq!(s.state, TcpState::Established);
    assert_eq!(s.snd.una, iss + 1);
    assert_eq!(s.rcv.nxt, 1001);
    assert_eq!(s.rcv.irs, 1000);
    assert_eq!(s.snd.wnd, 4380);
}

#[test]
fn active_open_simultaneous() {
    let mut engine = TcpStream::new();
    let (id, syn) = engine.connect(PEER, 80).expect("connect");
    let iss = syn.sequence_number();

    // The harness answers with an acknowledgment that does not cover our
    // SYN: a crossing SYN.
    let syn_ack = inbound_segment(
        80,
        id.local_port,
        3000,
        iss,
        tcp_flags::SYN | tcp_flags::ACK,
        4380,
        LOCAL,
        PEER,
    );
    let outcome = engine.handle_segment(&syn_ack, LOCAL, PEER).expect("handled");

    let ack = outcome.emission.expect("the engine acknowledges theirs");
    assert_eq!(ack.flags(), tcp_flags::ACK);
    assert_eq!(ack.sequence_number(), iss);
    assert_eq!(ack.acknowledgment_number(), 3001);
    assert_eq!(outcome.event, None);

    let s = engine.get_socket(id).expect("socket is in the table");
    assert_eq!(s.state, TcpState::SynReceived);
    assert_eq!(s.rcv.nxt, 3001);
    assert_eq!(s.rcv.irs, 3000);
}

#[test]
fn simultaneous_open_completion() {
    let mut engine = TcpStream::new();
    let (id, syn) = engine.connect(PEER, 80).expect("connect");
    let iss = syn.sequence_number();

    // Crossing SYNs: the socket falls back to SynReceived.
    let crossing = inbound_segment(
        80,
        id.local_port,
        3000,
        iss,
        tcp_flags::SYN | tcp_flags::ACK,
        4380,
        LOCAL,
        PEER,
    );
    engine.handle_segment(&crossing, LOCAL, PEER).expect("handled");

    // The peer now acknowledges our SYN; the connection is established, and
    // with no listener to notify, nothing is signalled.
    let ack = inbound_segment(
        80,
        id.local_port,
        3001,
        iss + 1,
        tcp_flags::ACK,
        4380,
        LOCAL,
        PEER,
    );
    let outcome = engine.handle_segment(&ack, LOCAL, PEER).expect("handled");
    assert!(outcome.emission.is_none());
    assert!(outcome.event.is_none());
    let s = engine.get_socket(id).expect("socket is in the table");
    assert_eq!(s.state, TcpState::Established);
    assert_eq!(s.snd.una, iss + 1);
    assert_eq!(s.rcv.nxt, 3002);
}

#[test]
fn passive_open() {
    let mut engine = TcpStream::new();
    let listener = engine.listen(LOCAL, 8080);

    // First step: a SYN from the peer spawns a child and draws SYN|ACK.
    let syn = inbound_segment(40000, 8080, 5000, 0, tcp_flags::SYN, 2000, LOCAL, PEER2);
    let outcome = engine.handle_segment(&syn, LOCAL, PEER2).expect("handled");
    let syn_ack = outcome.emission.expect("the engine answers SYN|ACK");
    assert_eq!(syn_ack.flags(), tcp_flags::SYN | tcp_flags::ACK);
    assert_eq!(syn_ack.acknowledgment_number(), 5001);
    assert_eq!(syn_ack.source_port(), 8080);
    assert_eq!(syn_ack.destination_port(), 40000);
    assert!(syn_ack.verify_packet(LOCAL, PEER2));
    assert_eq!(outcome.event, None);
    let child_iss = syn_ack.sequence_number();
    assert!(child_iss < 0x8000_0000);

    let child_id = toytcp::socket::TcpSocketId {
        local_address: LOCAL,
        local_port: 8080,
        remote_address: PEER2,
        remote_port: 40000,
    };
    let child = engine.get_socket(child_id).expect("child is in the table");
    assert_eq!(child.state, TcpState::SynReceived);
    assert_eq!(child.rcv.irs, 5000);
    assert_eq!(child.rcv.nxt, 5001);
    assert_eq!(child.snd.wnd, 2000);
    assert_eq!(child.listening_socket, Some(listener));

    // Final step: the peer acknowledges our SYN.
    let ack = inbound_segment(
        40000,
        8080,
        5001,
        child_iss + 1,
        tcp_flags::ACK,
        2000,
        LOCAL,
        PEER2,
    );
    let outcome = engine.handle_segment(&ack, LOCAL, PEER2).expect("handled");
    assert!(outcome.emission.is_none());
    assert_eq!(outcome.event, Some(TcpEvent::ConnectionEstablished(listener)));

    // The woken accept dequeues the child.
    let accepted = engine.accept(listener).expect("a child is queued");
    assert_eq!(accepted, child_id);
    let child = engine.get_socket(child_id).expect("child is in the table");
    assert_eq!(child.state, TcpState::Established);
    assert_eq!(child.rcv.nxt, 5002);
    assert_eq!(child.snd.una, child_iss + 1);

    // The queue holds each child once.
    assert_eq!(engine.accept(listener), Err(TcpError::QueueEmpty));
}

#[test]
fn demux_miss_drops_segment() {
    let mut engine = TcpStream::new();
    engine.listen(LOCAL, 8080);
    // Wrong destination port: no exact and no listening match.
    let stray = inbound_segment(40000, 9999, 1, 0, tcp_flags::SYN, 100, LOCAL, PEER);
    let outcome = engine.handle_segment(&stray, LOCAL, PEER).expect("handled");
    assert!(outcome.emission.is_none());
    assert!(outcome.event.is_none());
}

#[test]
fn bad_checksum_drops_segment() {
    let mut engine = TcpStream::new();
    let listener = engine.listen(LOCAL, 8080);
    let mut syn = inbound_segment(40000, 8080, 5000, 0, tcp_flags::SYN, 2000, LOCAL, PEER2);
    let stored = syn.checksum();
    syn.set_checksum(stored ^ 0x0001);
    let outcome = engine.handle_segment(&syn, LOCAL, PEER2).expect("handled");
    assert!(outcome.emission.is_none());
    assert!(outcome.event.is_none());
    // No child was spawned, the listener is untouched.
    let child_id = toytcp::socket::TcpSocketId {
        local_address: LOCAL,
        local_port: 8080,
        remote_address: PEER2,
        remote_port: 40000,
    };
    assert!(engine.get_socket(child_id).is_none());
    let l = engine.get_socket(listener).expect("listener is in the table");
    assert_eq!(l.state, TcpState::Listen);
    assert!(l.connected_socket_queue.is_empty());
}

#[test]
fn demux_prefers_exact_tuple() {
    let mut engine = TcpStream::new();
    let listener = engine.listen(LOCAL, 8080);

    // Run a full passive handshake so an exact-tuple socket coexists with
    // the listener.
    let syn = inbound_segment(40000, 8080, 5000, 0, tcp_flags::SYN, 2000, LOCAL, PEER2);
    let child_iss = engine
        .handle_segment(&syn, LOCAL, PEER2)
        .expect("handled")
        .emission
        .expect("SYN|ACK")
        .sequence_number();
    let ack = inbound_segment(
        40000,
        8080,
        5001,
        child_iss + 1,
        tcp_flags::ACK,
        2000,
        LOCAL,
        PEER2,
    );
    engine.handle_segment(&ack, LOCAL, PEER2).expect("handled");

    // A new SYN on the same four-tuple must reach the established exact
    // socket, whose state is outside the handshake table, not the listener,
    // which would have answered SYN|ACK.
    let again = inbound_segment(40000, 8080, 6000, 0, tcp_flags::SYN, 2000, LOCAL, PEER2);
    match engine.handle_segment(&again, LOCAL, PEER2) {
        Err(e) => assert_eq!(e, TcpError::Unimplemented),
        Ok(_) => panic!("the segment reached the listener instead of the exact socket"),
    }

    // The same SYN from another source port still reaches the listener.
    let fresh = inbound_segment(40001, 8080, 6000, 0, tcp_flags::SYN, 2000, LOCAL, PEER2);
    let outcome = engine.handle_segment(&fresh, LOCAL, PEER2).expect("handled");
    assert!(outcome.emission.is_some());
}

#[test]
fn established_signalled_once_per_handshake() {
    let mut engine = TcpStream::new();
    let (id, syn) = engine.connect(PEER, 80).expect("connect");
    let iss = syn.sequence_number();
    let syn_ack = inbound_segment(
        80,
        id.local_port,
        1000,
        iss + 1,
        tcp_flags::SYN | tcp_flags::ACK,
        4380,
        LOCAL,
        PEER,
    );
    let outcome = engine.handle_segment(&syn_ack, LOCAL, PEER).expect("handled");
    assert_eq!(outcome.event, Some(TcpEvent::ConnectionEstablished(id)));

    // A retransmitted SYN|ACK reaches a socket that is already established:
    // the engine refuses it and signals nothing further.
    let replay = inbound_segment(
        80,
        id.local_port,
        1000,
        iss + 1,
        tcp_flags::SYN | tcp_flags::ACK,
        4380,
        LOCAL,
        PEER,
    );
    match engine.handle_segment(&replay, LOCAL, PEER) {
        Err(e) => assert_eq!(e, TcpError::Unimplemented),
        Ok(o) => {
            assert!(o.event.is_none(), "a second event was signalled");
            panic!("the established socket was touched again");
        },
    }
}

#[test]
fn listen_state_drops_plain_ack() {
    let mut engine = TcpStream::new();
    let listener = engine.listen(LOCAL, 8080);
    let ack = inbound_segment(40000, 8080, 1, 1, tcp_flags::ACK, 100, LOCAL, PEER);
    let outcome = engine.handle_segment(&ack, LOCAL, PEER).expect("handled");
    assert!(outcome.emission.is_none());
    assert!(outcome.event.is_none());
    let l = engine.get_socket(listener).expect("listener is in the table");
    assert_eq!(l.state, TcpState::Listen);
}

#[test]
fn syn_sent_drops_out_of_window_ack() {
    let mut engine = TcpStream::new();
    let (id, syn) = engine.connect(PEER, 80).expect("connect");
    let iss = syn.sequence_number();
    // Acknowledgment beyond snd.nxt: not a response to anything we sent.
    let bogus = inbound_segment(
        80,
        id.local_port,
        1000,
        iss.wrapping_add(2),
        tcp_flags::SYN | tcp_flags::ACK,
        4380,
        LOCAL,
        PEER,
    );
    let outcome = engine.handle_segment(&bogus, LOCAL, PEER).expect("handled");
    assert!(outcome.emission.is_none());
    assert!(outcome.event.is_none());
    let s = engine.get_socket(id).expect("socket is in the table");
    assert_eq!(s.state, TcpState::SynSent);
}

#[test]
fn accept_on_unknown_socket() {
    let mut engine = TcpStream::new();
    let ghost_id = toytcp::socket::TcpSocketId {
        local_address: LOCAL,
        local_port: 1234,
        remote_address: 0,
        remote_port: 0,
    };
    assert_eq!(engine.accept(ghost_id), Err(TcpError::NoSuchSocket));
}

#[test]
fn accept_with_nothing_queued() {
    let mut engine = TcpStream::new();
    let listener = engine.listen(LOCAL, 8080);
    assert_eq!(engine.accept(listener), Err(TcpError::QueueEmpty));
}

#[test]
fn port_exhaustion() {
    let mut engine = TcpStream::new();
    // Occupy every port of the ephemeral range.
    for port in 49152..65535u16 {
        engine.listen(LOCAL, port);
    }
    match engine.connect(PEER, 80) {
        Err(e) => assert_eq!(e, TcpError::NoFreePort),
        Ok(_) => panic!("a port was handed out of a full table"),
    }
}

#[test]
fn wrapping_increment_wraps() {
    assert_eq!(toytcp::tcp::wrapping_increment(0), 1);
    assert_eq!(toytcp::tcp::wrapping_increment(0xFFFF_FFFE), 0xFFFF_FFFF);
    assert_eq!(toytcp::tcp::wrapping_increment(0xFFFF_FFFF), 0);
}
