use toytcp::packet::TcpPacket;
use toytcp::socket::TcpSocket;
use toytcp::tcp_flags;

const LOCAL: u32 = 0x0A00_0001; // 10.0.0.1
const REMOTE: u32 = 0xC000_0202; // 192.0.2.2

#[test]
fn round_trip_header_fields() {
    let mut p = TcpPacket::new(0);
    p.set_source_port(49321);
    p.set_destination_port(80);
    p.set_sequence_number(0x1234_5678);
    p.set_acknowledgment_number(0xFEDC_BA98);
    p.set_data_offset(5);
    p.set_flags(tcp_flags::SYN | tcp_flags::ACK);
    p.set_window_size(4380);
    p.set_checksum(0xBEEF);
    p.set_urgent_pointer(7);

    assert_eq!(p.source_port(), 49321);
    assert_eq!(p.destination_port(), 80);
    assert_eq!(p.sequence_number(), 0x1234_5678);
    assert_eq!(p.acknowledgment_number(), 0xFEDC_BA98);
    assert_eq!(p.data_offset(), 5);
    assert_eq!(p.flags(), tcp_flags::SYN | tcp_flags::ACK);
    assert_eq!(p.window_size(), 4380);
    assert_eq!(p.checksum(), 0xBEEF);
    assert_eq!(p.urgent_pointer(), 7);
}

#[test]
fn round_trip_built_segment() {
    let socket = TcpSocket::new(LOCAL, 49200, REMOTE, 80);
    let payload = [1u8, 2, 3, 4, 5];
    let p = socket.build_tcp_packet(1000, 2000, tcp_flags::PSH | tcp_flags::ACK, &payload);

    assert_eq!(p.source_port(), 49200);
    assert_eq!(p.destination_port(), 80);
    assert_eq!(p.sequence_number(), 1000);
    assert_eq!(p.acknowledgment_number(), 2000);
    assert_eq!(p.data_offset(), 5);
    assert_eq!(p.flags(), tcp_flags::PSH | tcp_flags::ACK);
    assert_eq!(p.window_size(), 4380);
    assert_eq!(p.urgent_pointer(), 0);
    assert_eq!(p.packet().len(), 25);
    assert_eq!(&p.packet()[20..], &payload);
}

#[test]
fn round_trip_from_bytes() {
    let socket = TcpSocket::new(LOCAL, 50000, REMOTE, 443);
    let p = socket.build_tcp_packet(7, 9, tcp_flags::ACK, &[0xAA, 0xBB]);
    let copy = TcpPacket::from_bytes(p.packet().to_vec());
    assert_eq!(copy.source_port(), p.source_port());
    assert_eq!(copy.destination_port(), p.destination_port());
    assert_eq!(copy.sequence_number(), p.sequence_number());
    assert_eq!(copy.acknowledgment_number(), p.acknowledgment_number());
    assert_eq!(copy.flags(), p.flags());
    assert_eq!(copy.window_size(), p.window_size());
    assert_eq!(copy.checksum(), p.checksum());
    assert_eq!(copy.packet(), p.packet());
}

#[test]
fn checksum_verifies_on_emission() {
    let socket = TcpSocket::new(LOCAL, 49500, REMOTE, 8080);
    let p = socket.build_tcp_packet(42, 0, tcp_flags::SYN, &[]);
    assert!(p.verify_packet(LOCAL, REMOTE));

    let q = socket.build_tcp_packet(0xFFFF_FFFF, 0x8000_0000, tcp_flags::ACK, &[9, 8, 7]);
    assert!(q.verify_packet(LOCAL, REMOTE));
}

#[test]
fn checksum_fails_after_any_single_byte_flip() {
    let socket = TcpSocket::new(LOCAL, 49500, REMOTE, 8080);
    let p = socket.build_tcp_packet(4242, 17, tcp_flags::SYN, &[0x10, 0x20, 0x30]);
    let bytes = p.packet().to_vec();
    for i in 0..bytes.len() {
        let mut corrupted = bytes.clone();
        corrupted[i] ^= 0x40;
        let c = TcpPacket::from_bytes(corrupted);
        assert!(
            !c.verify_packet(LOCAL, REMOTE),
            "flip of byte {} went undetected",
            i
        );
    }
}

#[test]
fn checksum_depends_on_pseudo_header() {
    let socket = TcpSocket::new(LOCAL, 49500, REMOTE, 8080);
    let p = socket.build_tcp_packet(1, 2, tcp_flags::ACK, &[]);
    assert!(p.verify_packet(LOCAL, REMOTE));
    // The same segment between other hosts must not verify.
    assert!(!p.verify_packet(LOCAL, 0xC000_0203));
    assert!(!p.verify_packet(0x0A00_0002, REMOTE));
}

#[test]
fn fill_checksum_matches_verify() {
    let mut p = TcpPacket::new(2);
    p.set_source_port(40000);
    p.set_destination_port(8080);
    p.set_sequence_number(5000);
    p.set_data_offset(5);
    p.set_flags(tcp_flags::SYN);
    p.set_window_size(1000);
    p.set_payload(&[0xDE, 0xAD]);
    p.fill_checksum(REMOTE, LOCAL);
    assert!(p.verify_packet(REMOTE, LOCAL));
    assert!(!p.verify_packet(REMOTE, 0x0A00_0003));
}
