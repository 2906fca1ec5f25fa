use usque::manager::masque_io::TransportIoEvent;
use usque::manager::perf::PerfCounters;
use usque::manager::transport::{
    handle_incoming_datagram, handle_transport_io_event, IncomingHandling, IncomingPacket,
};
use usque::tunnel::stack::{BufferPool, LocalAddresses, StackTunables, VirtualDevice};
use usque::addr::IpAddress;

fn test_device(tunables: &StackTunables) -> VirtualDevice {
    VirtualDevice::new(1500, BufferPool::filled(0, 0), tunables, 0)
}

#[test]
fn receive_preserves_rx_packet_when_tx_queue_is_full() {
    let tunables = StackTunables::default();
    let mut device = test_device(&tunables);
    device.inject_packet(&[1, 2, 3, 4], 0);

    for _ in 0..tunables.device_queue_capacity {
        device.tx_queue.push_back(b"x".to_vec());
    }

    let received = device.receive();
    assert!(received.is_none(), "receive must defer when tx queue is full");
    assert_eq!(device.rx_queue.len(), 1, "rx packet must stay queued");

    device.tx_queue.pop_front();

    let received = device.receive();
    assert!(received.is_some(), "receive must resume after tx queue drains");
    assert!(device.rx_queue.is_empty(), "rx packet should be consumed once accepted");
}

#[test]
fn transmit_returns_none_when_tx_queue_is_full() {
    let tunables = StackTunables::default();
    let mut device = test_device(&tunables);
    for _ in 0..tunables.device_queue_capacity {
        device.tx_queue.push_back(b"x".to_vec());
    }

    assert!(
        device.transmit().is_none(),
        "transmit must apply backpressure instead of dropping packets"
    );
}

#[test]
fn requeue_packet_front_restores_packet_order() {
    let tunables = StackTunables::default();
    let mut device = test_device(&tunables);
    device.tx_queue.push_back(b"b".to_vec());
    device.requeue_packet_front(b"a".to_vec());

    let first = device.take_packet().expect("first packet");
    let second = device.take_packet().expect("second packet");

    assert_eq!(&first[..], b"a");
    assert_eq!(&second[..], b"b");
}

#[test]
fn a_full_device_drops_its_oldest_packet() {
    let tunables = StackTunables { device_queue_capacity: 2, ..StackTunables::default() };
    let mut device = test_device(&tunables);
    device.inject_packet(&[1], 0);
    device.inject_packet(&[2], 0);
    device.inject_packet(&[3], 0);
    assert_eq!(device.queue_lengths(), (2, 0));
    assert_eq!(device.receive().unwrap(), vec![2]);
    assert_eq!(device.receive().unwrap(), vec![3]);
    assert!(device.receive().is_none());
}

#[test]
fn an_unreadable_address_is_replaced() {
    let local = LocalAddresses::new(Some("nonsense"), None);
    assert_eq!(local.local_addr_default().unwrap(), IpAddress::V4([10, 0, 0, 1]));
    let both = LocalAddresses::new(Some("172.16.0.2"), Some("::1"));
    assert_eq!(
        both.local_addr_for_remote(IpAddress::V4([1, 1, 1, 1])).unwrap(),
        IpAddress::V4([172, 16, 0, 2])
    );
    let v6 = LocalAddresses::new(None, Some("::1"));
    assert_eq!(
        v6.local_addr_for_remote(IpAddress::V4([1, 1, 1, 1])).unwrap_err().text(),
        "socket error: No IPv4 address configured"
    );
}

#[test]
fn a_device_without_places_sends_nothing() {
    let mut tunables = StackTunables::default();
    tunables.device_queue_capacity = 0;
    let mut device = test_device(&tunables);
    assert!(device.transmit().is_none());
    assert!(device.receive().is_none());
    assert_eq!(device.push_transmitted(vec![1], 0), None);
    assert_eq!(device.queue_lengths(), (0, 0));
    assert_eq!(device.take_drop_counts(), (0, 1));
}

#[test]
fn a_dropped_packet_lends_its_buffer_to_the_next() {
    let tunables = StackTunables {
        device_queue_capacity: 1,
        buffer_pool_size: 2,
        ..StackTunables::default()
    };
    let mut device = test_device(&tunables);
    device.inject_packet(&[1], 0);
    assert_eq!(device.buffer_pool.buffers.len(), 0);
    device.inject_packet(&[2], 0);
    assert_eq!(device.buffer_pool.buffers.len(), 0);
    device.inject_packet_owned(vec![3], 0);
    assert_eq!(device.buffer_pool.buffers.len(), 1);
    device.inject_packet_owned(vec![4], 0);
    device.inject_packet_owned(vec![5], 0);
    assert_eq!(device.buffer_pool.buffers.len(), 2);
    let buf = device.transmit().unwrap();
    assert_eq!(device.buffer_pool.buffers.len(), 1);
    assert_eq!(device.push_transmitted(buf, 0), None);
    assert_eq!(device.buffer_pool.buffers.len(), 1);
    assert_eq!(device.push_transmitted(vec![6], 0), None);
    assert_eq!(device.buffer_pool.buffers.len(), 2);
    assert!(device.take_packet().is_some());
    assert_eq!(device.receive().unwrap(), vec![5]);
}

#[test]
fn drops_are_warned_of_once_a_second() {
    let tunables = StackTunables { device_queue_capacity: 1, ..StackTunables::default() };
    let mut device = test_device(&tunables);
    let mut perf = PerfCounters::new(true, 5, 0);
    let quiet =
        IncomingHandling { stack_ingress: true, needs_transport_flush: false, warning: None };
    let second = 1_000_000_000;
    for byte in 0..3 {
        let packet = IncomingPacket::Masque(vec![byte]);
        assert_eq!(handle_incoming_datagram(&mut device, &mut perf, packet, second - 1), quiet);
    }
    let event = TransportIoEvent::Incoming(vec![3]);
    let loud = handle_transport_io_event(&mut device, &mut perf, event, second);
    assert_eq!(loud, IncomingHandling { warning: Some(3), ..quiet });
    let packet = IncomingPacket::Wireguard(32, Some(vec![4]));
    let handling = handle_incoming_datagram(&mut device, &mut perf, packet, 2 * second);
    assert_eq!(
        handling,
        IncomingHandling { needs_transport_flush: true, warning: Some(1), ..quiet }
    );
    let event = TransportIoEvent::MasqueBlocked;
    assert_eq!(handle_transport_io_event(&mut device, &mut perf, event, 9 * second).warning, None);
    assert_eq!(device.take_drop_counts(), (4, 0));
}
