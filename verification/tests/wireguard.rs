use usque::manager::perf::PerfCounters;
use usque::manager::transport::{drain_to_wg, handle_wg_datagram};
use usque::tunnel::stack::{BufferPool, StackTunables, VirtualDevice};
use usque::tunnel::wireguard::{
    due_packets, index_of_bytes, mark_packet, strip_reserved, tunnel_index, HandshakeStep, TunnOutcome,
    WgHandshake, WgSendQueue, WgTunnel, WgTunnelError,
};

fn public_of(secret: [u8; 32]) -> [u8; 32] {
    let secret = gotatun::x25519::StaticSecret::from(secret);
    gotatun::x25519::PublicKey::from(&secret).to_bytes()
}

fn device() -> VirtualDevice {
    VirtualDevice::new(1500, BufferPool::filled(0, 0), &StackTunables::default(), 0)
}

fn ip_packet() -> Vec<u8> {
    let mut packet = vec![0u8; 24];
    packet[0] = 0x45;
    packet[3] = 24;
    packet[8] = 64;
    packet
}

#[test]
fn reserved_bytes_name_the_device() {
    let mut packet = vec![4, 0, 0, 0, 9];
    mark_packet(&mut packet, [1, 2, 3]);
    assert_eq!(packet, vec![4, 1, 2, 3, 9]);
    strip_reserved(&mut packet);
    assert_eq!(packet, vec![4, 0, 0, 0, 9]);
    let mut short = vec![4, 7, 7];
    mark_packet(&mut short, [1, 2, 3]);
    strip_reserved(&mut short);
    assert_eq!(short, vec![4, 7, 7]);
}

#[test]
fn tunnels_have_numbers() {
    assert_eq!(index_of_bytes(Some([1, 2, 3, 4])), 0x04030201);
    assert_eq!(index_of_bytes(None), 1);
    let a = tunnel_index();
    let b = tunnel_index();
    let c = tunnel_index();
    assert!(a != b || b != c);
}

#[test]
fn answers_wait_in_the_queue() {
    let mut queue = WgSendQueue::new([1, 2, 3]);
    assert!(queue.on_incoming(TunnOutcome::Done).is_none());
    assert!(queue.on_incoming(TunnOutcome::Failed).is_none());
    assert!(queue.on_incoming(TunnOutcome::WriteToTunnel(vec![])).is_none());
    assert_eq!(queue.on_incoming(TunnOutcome::WriteToTunnel(vec![5])), Some(vec![5]));
    assert!(queue.on_incoming(TunnOutcome::WriteToNetwork(vec![2, 0, 0, 0])).is_none());
    assert_eq!(queue.take_all(), vec![vec![2, 1, 2, 3]]);
    assert!(queue.take_all().is_empty());
}

#[test]
fn a_tick_sends_what_is_due_and_what_was_held() {
    let held = vec![vec![4, 0, 0, 0, 1], vec![4, 0, 0, 0, 2]];
    assert_eq!(
        due_packets(Ok(Some(vec![1, 0, 0, 0, 9])), held.clone(), [5, 6, 7]).unwrap(),
        vec![vec![1, 5, 6, 7, 9], vec![4, 5, 6, 7, 1], vec![4, 5, 6, 7, 2]]
    );
    assert!(due_packets(Ok(None), held, [5, 6, 7]).unwrap().is_empty());
    assert_eq!(
        due_packets(Err("ConnectionExpired".to_string()), vec![], [5, 6, 7]).unwrap_err().text(),
        "WireGuard error: ConnectionExpired"
    );
}

#[test]
fn a_handshake_may_take_its_time() {
    let (mut handshake, first) =
        WgHandshake::start(Some(vec![1, 0, 0, 0]), [7, 8, 9], 1000, 30_000).unwrap();
    assert_eq!(first, vec![1, 7, 8, 9]);
    match handshake.next(1000) {
        HandshakeStep::Wait(at) => assert_eq!(at, 250_001_000),
        _ => panic!("the handshake has time"),
    }
    assert!(matches!(handshake.on_packet(true, 2000), HandshakeStep::Complete));
    assert!(matches!(handshake.on_packet(false, 2000), HandshakeStep::Wait(_)));
    match handshake.on_tick(Ok(()), 2000) {
        HandshakeStep::Wait(at) => assert_eq!(at, 250_002_000),
        _ => panic!("the handshake has time"),
    }
    match handshake.on_tick(Err("ConnectionExpired".to_string()), 2000) {
        HandshakeStep::Failed(e) => assert_eq!(e.text(), "WireGuard error: ConnectionExpired"),
        _ => panic!("the timers failed"),
    }
    match handshake.next(30_000_001_001) {
        HandshakeStep::Failed(e) => assert_eq!(e.text(), "handshake timeout"),
        _ => panic!("the handshake took too long"),
    }
    assert!(matches!(
        WgHandshake::start(None, [0; 3], 0, 0),
        Err(WgTunnelError::HandshakeInitFailed)
    ));
}

fn exchange(client: &mut WgTunnel, server: &mut WgTunnel, first: Vec<u8>) {
    assert_eq!(&first[1..4], &[1, 2, 3]);
    assert!(server.decrypt_incoming(first).is_none());
    for packet in server.take_send_queue() {
        assert_eq!(&packet[1..4], &[4, 5, 6]);
        assert!(client.decrypt_incoming(packet).is_none());
    }
}

#[test]
fn packets_go_through_the_tunnel() {
    let (a, b) = ([1u8; 32], [2u8; 32]);
    let mut client = WgTunnel::new(a, public_of(b), [1, 2, 3], Some(25));
    let mut server = WgTunnel::new(b, public_of(a), [4, 5, 6], None);
    assert!(!client.is_established());
    assert!(client.tick_timers().unwrap().is_empty());
    let (_, first) = client.start_handshake(0, 30_000).unwrap();
    exchange(&mut client, &mut server, first);
    assert!(client.is_established());
    assert!(!client.is_expired());
    client.encrypt_ip_packet(&ip_packet());
    assert!(client.pending_send_packets() > 0);
    let mut came = Vec::new();
    for packet in client.take_send_queue() {
        if let Some(ip) = server.decrypt_incoming(packet) {
            came.push(ip);
        }
    }
    assert_eq!(came, vec![ip_packet()]);
    assert!(client.decrypt_incoming(vec![9, 9, 9]).is_none());
    assert!(client.tick_timers().is_ok());
}

#[test]
fn packets_are_held_until_there_is_a_session() {
    let (a, b) = ([5u8; 32], [6u8; 32]);
    let mut client = WgTunnel::new(a, public_of(b), [1, 2, 3], None);
    let mut server = WgTunnel::new(b, public_of(a), [4, 5, 6], None);
    let other = {
        let mut packet = ip_packet();
        packet.push(7);
        packet
    };
    client.encrypt_ip_packet(&ip_packet());
    client.encrypt_ip_packet(&other);
    let mut first = client.take_send_queue();
    assert_eq!(first.len(), 1);
    assert_eq!((first[0].len(), first[0][0]), (148, 1));
    assert!(!client.is_established());
    exchange(&mut client, &mut server, first.remove(0));
    assert!(client.is_established());
    let sent = client.take_send_queue();
    let came: Vec<_> = sent.into_iter().filter_map(|p| server.decrypt_incoming(p)).collect();
    assert_eq!(came, vec![other, ip_packet()]);
    assert!(client.take_send_queue().is_empty());
}

#[test]
fn data_with_the_highest_numbers_is_dropped() {
    let (a, b) = ([7u8; 32], [8u8; 32]);
    let mut client = WgTunnel::new(a, public_of(b), [1, 2, 3], None);
    let mut server = WgTunnel::new(b, public_of(a), [4, 5, 6], None);
    let (_, first) = client.start_handshake(0, 30_000).unwrap();
    exchange(&mut client, &mut server, first);
    client.take_send_queue();
    client.encrypt_ip_packet(&ip_packet());
    let packet = client.take_send_queue().remove(0);
    let mut high = packet.clone();
    high[8..16].copy_from_slice(&(u64::MAX - 1023).to_le_bytes());
    assert!(server.decrypt_incoming(high.clone()).is_none());
    high[8..16].copy_from_slice(&(u64::MAX - 1024).to_le_bytes());
    assert!(server.decrypt_incoming(high).is_none());
    assert_eq!(server.decrypt_incoming(packet.clone()), Some(ip_packet()));
    assert!(server.decrypt_incoming(packet).is_none());
}

#[test]
fn the_stack_talks_through_the_tunnel() {
    let (a, b) = ([3u8; 32], [4u8; 32]);
    let mut client = WgTunnel::new(a, public_of(b), [1, 2, 3], None);
    let mut server = WgTunnel::new(b, public_of(a), [4, 5, 6], None);
    let (_, first) = client.start_handshake(0, 30_000).unwrap();
    exchange(&mut client, &mut server, first);
    let mut perf = PerfCounters::new(true, 5, 0);
    let mut out = device();
    out.tx_queue.push_back(ip_packet());
    out.tx_queue.push_back(ip_packet());
    out.tx_queue.push_back(ip_packet());
    client.take_send_queue();
    assert_eq!(drain_to_wg(&mut out, &mut client, &mut perf, 2), 2);
    assert_eq!(out.queue_lengths(), (0, 1));
    assert_eq!(perf.counts.tx_packets, 2);
    let mut inward = device();
    for packet in client.take_send_queue() {
        let handling = handle_wg_datagram(&mut inward, &mut server, &mut perf, packet, 0);
        assert!(handling.stack_ingress);
        assert!(handling.needs_transport_flush);
    }
    assert_eq!(inward.queue_lengths(), (2, 0));
    assert_eq!(inward.receive().unwrap(), ip_packet());
    let handling = handle_wg_datagram(&mut inward, &mut server, &mut perf, vec![0; 40], 0);
    assert!(!handling.stack_ingress);
}

#[test]
fn a_handshake_is_answered_on_its_way_in() {
    let (a, b) = ([5u8; 32], [6u8; 32]);
    let mut client = WgTunnel::new(a, public_of(b), [1, 2, 3], None);
    let mut server = WgTunnel::new(b, public_of(a), [4, 5, 6], None);
    let (_, first) = client.start_handshake(0, 30_000).unwrap();
    let mut perf = PerfCounters::new(true, 5, 0);
    let mut inward = device();
    let handling = handle_wg_datagram(&mut inward, &mut server, &mut perf, first, 0);
    assert!(!handling.stack_ingress);
    assert!(handling.needs_transport_flush);
    assert_eq!(handling.warning, None);
    let answers = server.take_send_queue();
    assert_eq!(answers.len(), 1);
    assert_eq!(answers[0][..4], [2, 4, 5, 6]);
    assert_eq!(answers[0].len(), 92);
    assert!(!client.is_established());
    handle_wg_datagram(&mut inward, &mut client, &mut perf, answers[0].clone(), 0);
    assert!(client.is_established());
    assert_eq!(inward.queue_lengths(), (0, 0));
    handle_wg_datagram(&mut inward, &mut server, &mut perf, vec![9; 40], 0);
    assert_eq!(server.pending_send_packets(), 0);
}

#[test]
fn sent_packets_leave_their_buffers() {
    let (a, b) = ([7u8; 32], [8u8; 32]);
    let mut client = WgTunnel::new(a, public_of(b), [1, 2, 3], None);
    let mut perf = PerfCounters::new(true, 5, 0);
    let tunables = StackTunables { buffer_pool_size: 2, ..StackTunables::default() };
    let mut out = VirtualDevice::new(1500, BufferPool::filled(0, 0), &tunables, 0);
    for _ in 0..3 {
        out.tx_queue.push_back(ip_packet());
    }
    assert_eq!(drain_to_wg(&mut out, &mut client, &mut perf, 1), 1);
    assert_eq!(out.buffer_pool.buffers.len(), 1);
    assert_eq!(drain_to_wg(&mut out, &mut client, &mut perf, 5), 2);
    assert_eq!(out.buffer_pool.buffers.len(), 2);
}
