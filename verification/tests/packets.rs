use usque::tunnel::masque::{
    ConnectEvent, ConnectProgress, MasqueControlState, MasqueTunnel, PreparedDatagram,
    CONNECT_REQUEST_ID,
};
use usque::tunnel::packet::{
    calculate_icmp_checksum, calculate_icmpv6_checksum, calculate_ipv4_checksum,
    compose_icmp_packet_too_big, process_outgoing_ip_packet,
};
use usque::tunnel::varint::{encode_varint, varint_len};
use usque::tunnel::h3::{frame_datagram, recv_datagram, send_datagram, H3Connect, H3Event};

fn ipv4_packet(len: usize) -> Vec<u8> {
    let mut packet = vec![0u8; len];
    packet[..20].copy_from_slice(&[
        0x45, 0x00, 0x00, 0x73, 0x00, 0x00, 0x40, 0x00, 0x40, 0x11, 0xb8, 0x61, 0xc0, 0xa8, 0x00,
        0x01, 0xc0, 0xa8, 0x00, 0xc7,
    ]);
    packet
}

fn ipv6_packet(len: usize, hops: u8) -> Vec<u8> {
    let mut packet = vec![0u8; len];
    packet[0] = 0x60;
    packet[7] = hops;
    packet[23] = 1;
    packet[39] = 2;
    packet
}

#[test]
fn the_checksum_of_a_known_header() {
    assert_eq!(calculate_ipv4_checksum(&ipv4_packet(20)), 0xb861);
}

#[test]
fn a_forwarded_ipv4_packet_loses_one_hop_and_stays_valid() {
    let mut packet = ipv4_packet(40);
    assert!(process_outgoing_ip_packet(&mut packet).unwrap());
    assert_eq!(packet[8], 0x3f);
    let sum = u16::from_be_bytes([packet[10], packet[11]]);
    assert_eq!(sum, calculate_ipv4_checksum(&packet[..20]));
    assert_eq!(sum, 0xb961);
}

#[test]
fn packets_that_cannot_travel_are_dropped() {
    let mut last_hop = ipv4_packet(20);
    last_hop[8] = 1;
    assert!(!process_outgoing_ip_packet(&mut last_hop).unwrap());
    assert!(!process_outgoing_ip_packet(&mut vec![]).unwrap());
    assert!(!process_outgoing_ip_packet(&mut vec![0x45; 19]).unwrap());
    assert!(!process_outgoing_ip_packet(&mut vec![0x75; 60]).unwrap());
    assert!(!process_outgoing_ip_packet(&mut ipv6_packet(40, 1)).unwrap());
    let mut v6 = ipv6_packet(40, 64);
    assert!(process_outgoing_ip_packet(&mut v6).unwrap());
    assert_eq!(v6[7], 63);
}

#[test]
fn a_packet_that_is_too_big_is_answered() {
    let answer = compose_icmp_packet_too_big(&ipv4_packet(2000), 1280).unwrap();
    assert_eq!(answer[9], 1);
    assert_eq!(&answer[12..16], &[0xc0, 0xa8, 0x00, 0xc7]);
    assert_eq!(&answer[16..20], &[0xc0, 0xa8, 0x00, 0x01]);
    assert_eq!((answer[20], answer[21]), (3, 4));
    assert_eq!(u16::from_be_bytes([answer[26], answer[27]]), 1280);
    assert_eq!(
        u16::from_be_bytes([answer[22], answer[23]]),
        calculate_icmp_checksum(&answer[20..])
    );
    let v6 = compose_icmp_packet_too_big(&ipv6_packet(2000, 64), 1280).unwrap();
    assert_eq!(v6.len(), 1280);
    assert_eq!((v6[6], v6[7]), (58, 64));
    assert_eq!((v6[40], v6[41]), (2, 0));
    assert_eq!(
        u16::from_be_bytes([v6[42], v6[43]]),
        calculate_icmpv6_checksum(&v6[8..24], &v6[24..40], &v6[40..])
    );
    assert!(compose_icmp_packet_too_big(&[0x45; 10], 1280).is_none());
}

fn tunnel(max: Option<usize>) -> MasqueTunnel {
    MasqueTunnel {
        connect_stream_id: 0,
        flow_id: 0,
        max_h3_dgram_len: max,
        control_state: MasqueControlState::new(),
    }
}

#[test]
fn a_datagram_carries_the_packet() {
    let open = tunnel(None);
    match open.prepare_datagram(&ipv4_packet(40)) {
        PreparedDatagram::Ready(dgram) => {
            assert_eq!(dgram[0], 0);
            assert_eq!(dgram.len(), 41);
            let mut buf = vec![0u8; 100];
            assert_eq!(open.decode_datagram(&dgram, &mut buf).unwrap(), 40);
            assert_eq!(&buf[..40], &dgram[1..]);
            let mut small = vec![0u8; 10];
            assert_eq!(
                open.decode_datagram(&dgram, &mut small).unwrap_err().text(),
                "connection error: Buffer too small"
            );
        }
        _ => panic!("the packet fits"),
    }
    assert!(matches!(
        tunnel(Some(30)).prepare_datagram(&ipv4_packet(40)),
        PreparedDatagram::PacketTooBig(_)
    ));
    assert!(matches!(open.prepare_datagram(&vec![]), PreparedDatagram::Dropped));
    let mut buf = vec![0u8; 10];
    assert_eq!(open.decode_datagram(&[1, 2, 3], &mut buf).unwrap(), 0);
}

#[test]
fn varints_have_the_shortest_form() {
    for (value, expected) in [
        (37u64, vec![0x25u8]),
        (15293, vec![0x7b, 0xbd]),
        (494878333, vec![0x9d, 0x7f, 0x3e, 0x7d]),
        (151288809941952652, vec![0xc2, 0x19, 0x7c, 0x5e, 0xff, 0x14, 0xe8, 0x8c]),
    ] {
        let len = varint_len(value);
        assert_eq!(len, expected.len());
        let mut buf = vec![0u8; len];
        assert_eq!(encode_varint(value, &mut buf), len);
        assert_eq!(buf, expected);
    }
}

#[test]
fn a_framed_packet_is_read_back() {
    let packet = vec![1u8, 2, 3];
    let dgram = frame_datagram(400, &packet);
    assert_eq!(dgram, vec![0x40, 100, 0, 1, 2, 3]);
    assert_eq!(recv_datagram(&dgram, 10).unwrap(), packet);
    assert_eq!(recv_datagram(&dgram, 2).unwrap_err().text(), "connection error: Buffer too small");
    assert_eq!(recv_datagram(&[0, 1, 9], 10).unwrap(), Vec::<u8>::new());
    assert_eq!(recv_datagram(&[], 10).unwrap_err().text(), "connection error: Empty buffer");
    assert_eq!(
        send_datagram(None, &packet).unwrap_err().text(),
        "connection error: No connect stream"
    );
    assert!(send_datagram(Some(0), &packet).unwrap().is_none());
    let sent = send_datagram(Some(0), &ipv4_packet(20)).unwrap().unwrap();
    assert_eq!(&sent[..3], &[0, 0, 0x45]);
    assert_eq!(sent[2 + 8], 0x3f);
}

fn status(value: &[u8]) -> H3Event {
    H3Event::Headers(vec![(b":status".to_vec(), value.to_vec())])
}

#[test]
fn the_tunnel_opens_with_status_200() {
    let mut connect = H3Connect::new(0, 1000);
    connect.on_event(4, status(b"200")).unwrap();
    assert!(!connect.established);
    connect.on_request_sent(4);
    connect.on_event(8, status(b"404")).unwrap();
    connect.on_event(4, H3Event::Data).unwrap();
    connect.on_event(4, status(b"200")).unwrap();
    assert!(connect.established);
    assert_eq!(
        connect.on_event(4, status(b"403")).unwrap_err().text(),
        "connect-ip failed: status: 403"
    );
    assert_eq!(
        connect.on_event(4, H3Event::GoAway).unwrap_err().text(),
        "connection error: received GOAWAY"
    );
    assert!(connect.check_time(1_000_000_000).is_ok());
    assert_eq!(connect.check_time(1_000_000_001).unwrap_err().text(), "timeout");
    assert!(H3Connect::check_open(None, false).is_ok());
    assert_eq!(
        H3Connect::check_open(None, true).unwrap_err().text(),
        "connection error: connection closed"
    );
    assert_eq!(
        H3Connect::check_open(Some(("42".to_string(), "bye".to_string())), true)
            .unwrap_err()
            .text(),
        "connection error: peer closed: 42 - bye"
    );
}

#[test]
fn an_opening_waits_for_stream_flow_and_response() {
    let mut progress = ConnectProgress::new();
    progress
        .on_event(ConnectEvent::RequestOpened { stream_id: 0, request_id: CONNECT_REQUEST_ID })
        .unwrap();
    assert!(!progress.is_complete());
    progress.on_event(ConnectEvent::NewFlow { flow_id: 0 }).unwrap();
    progress
        .on_event(ConnectEvent::Headers {
            stream_id: 0,
            headers: vec![(b":status".to_vec(), b"200".to_vec())],
        })
        .unwrap();
    assert!(progress.is_complete());
    let mut refused = ConnectProgress::new();
    refused
        .on_event(ConnectEvent::RequestOpened { stream_id: 0, request_id: CONNECT_REQUEST_ID })
        .unwrap();
    assert_eq!(
        refused
            .on_event(ConnectEvent::Headers {
                stream_id: 0,
                headers: vec![(b":status".to_vec(), b"\xff".to_vec())],
            })
            .unwrap_err()
            .text(),
        "connect-ip failed: status: unknown"
    );
    assert_eq!(
        ConnectProgress::new().on_event(ConnectEvent::TimedOut).unwrap_err().text(),
        "timeout"
    );
}
