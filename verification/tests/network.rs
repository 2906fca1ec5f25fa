use smoltcp::iface::{Config, Interface};
use smoltcp::phy::{Loopback, Medium};
use smoltcp::socket::tcp;
use smoltcp::time::Instant;
use smoltcp::wire::{HardwareAddress, IpAddress as SmolAddress, IpCidr};
use usque::addr::{IpAddress, SocketAddress};
use usque::manager::commands::RuntimeState;
use usque::manager::dns_ops::{DnsCounters, DnsReply};
use usque::manager::sockets::TcpSocketState;
use usque::manager::stack_ops::{
    ensure_dns_socket, open_connection, open_udp_session, send_dns_query, send_udp_data,
};
use usque::manager::stream::{ReadPoll, SocketStreamHandle, WritePoll};
use usque::manager::sweep::{
    fill_recv_buffer, flush_pending_to_stack, ready_waiters, receive_dns, receive_udp, remove_gone,
    service_socket, DnsReceive,
};
use usque::manager::tunables::ManagerTunables;
use usque::manager::udp::UdpSend;
use usque::manager::ManagerError;
use usque::tunnel::dns::DnsRecordType;
use usque::tunnel::net::NetSockets;
use usque::tunnel::stack::{LocalAddresses, StackTunables};

fn home() -> IpAddress {
    IpAddress::V4([127, 0, 0, 1])
}

fn at(port: u16) -> SocketAddress {
    SocketAddress { ip: home(), port }
}

struct World {
    device: Loopback,
    iface: Interface,
    net: NetSockets,
    clock: i64,
}

impl World {
    fn new() -> World {
        let mut device = Loopback::new(Medium::Ip);
        let config = Config::new(HardwareAddress::Ip);
        let mut iface = Interface::new(config, &mut device, Instant::from_millis(0));
        iface.update_ip_addrs(|addrs| {
            addrs.push(IpCidr::new(SmolAddress::v4(127, 0, 0, 1), 8)).unwrap();
        });
        World { device, iface, net: NetSockets::new(), clock: 0 }
    }

    fn run(&mut self) {
        for _ in 0..20 {
            self.clock += 20;
            let now = Instant::from_millis(self.clock);
            self.iface.poll(now, &mut self.device, self.net.sockets_mut());
        }
    }

    fn listen(&mut self, port: u16) -> smoltcp::iface::SocketHandle {
        let buffer = || tcp::SocketBuffer::new(vec![0u8; 4096]);
        let mut socket = tcp::Socket::new(buffer(), buffer());
        socket.listen(port).unwrap();
        self.net.sockets_mut().add(socket)
    }
}

fn state() -> RuntimeState {
    RuntimeState::new(ManagerTunables::default(), false, 5, 0)
}

#[test]
fn sockets_have_numbers() {
    let mut world = World::new();
    let tunables = StackTunables::default();
    let a = world.net.create_tcp_socket_with_buffer(1024, &tunables);
    let b = world.net.bind_udp_socket(at(5000), &tunables).unwrap();
    assert_ne!(a, b);
    assert_eq!(
        world.net.bind_udp_socket(at(0), &tunables).unwrap_err().text(),
        "socket error: Unaddressable"
    );
    assert!(!world.net.tcp_is_active(a));
    assert!(world.net.tcp_is_past_handshake(a));
    assert_eq!(world.net.tcp_send(a, b"x").unwrap_err().text(), "socket error: InvalidState");
    assert_eq!(
        world.net.tcp_recv(a, 10).unwrap_err().text(),
        "socket error: InvalidState"
    );
    assert_eq!(
        world.net.tcp_send(99, b"x").unwrap_err().text(),
        "socket error: invalid socket handle"
    );
    world.net.remove_socket(a);
    assert!(!world.net.tcp_may_send(a));
    assert_eq!(world.net.create_tcp_socket_with_buffer(1024, &tunables), a);
    assert_eq!(
        world.net.connect_tcp(&mut world.iface, a, at(0), 49152).unwrap_err().text(),
        "socket error: Unaddressable"
    );
    assert!(world.net.connect_tcp(&mut world.iface, a, at(80), 49152).is_ok());
    assert!(world.net.tcp_is_active(a));
    assert!(!world.net.tcp_is_past_handshake(a));
    assert_eq!(
        world.net.connect_tcp(&mut world.iface, a, at(80), 49152).unwrap_err().text(),
        "socket error: InvalidState"
    );
}

#[test]
fn bytes_go_both_ways_in_order() {
    let mut world = World::new();
    let tunables = StackTunables::default();
    let server = world.listen(80);
    let id = world.net.create_tcp_socket_with_buffer(1024, &tunables);
    world.net.connect_tcp(&mut world.iface, id, at(80), 49152).unwrap();
    world.run();
    assert!(world.net.tcp_may_send(id) && world.net.tcp_may_recv(id));
    let mut stream = SocketStreamHandle::new(id, 64, 64);
    assert!(matches!(stream.poll_write(b"hello world"), WritePoll::Ready(11, _)));
    assert!(flush_pending_to_stack(&mut world.net, id, &mut stream, 4));
    assert!(!flush_pending_to_stack(&mut world.net, id, &mut stream, 4));
    world.run();
    let mut buf = [0u8; 64];
    let peer = world.net.sockets_mut().get_mut::<tcp::Socket>(server);
    let n = peer.recv_slice(&mut buf).unwrap();
    assert_eq!(&buf[..n], b"hello world");
    peer.send_slice(b"good bye").unwrap();
    world.run();
    assert!(!fill_recv_buffer(&mut world.net, id, &mut stream, true, 3));
    assert!(fill_recv_buffer(&mut world.net, id, &mut stream, false, 3));
    match stream.poll_read(&mut buf) {
        ReadPoll::Ready(n, _) => assert_eq!(&buf[..n], b"good bye"),
        _ => panic!("there is data"),
    }
}

#[test]
fn a_full_socket_takes_what_fits() {
    let mut world = World::new();
    let tunables = StackTunables::default();
    world.listen(80);
    let id = world.net.create_tcp_socket_with_buffer(8, &tunables);
    world.net.connect_tcp(&mut world.iface, id, at(80), 49152).unwrap();
    world.run();
    assert_eq!(world.net.tcp_send(id, b"0123456789").unwrap(), 8);
    assert_eq!(world.net.tcp_send(id, b"89").unwrap(), 0);
    world.run();
    assert_eq!(world.net.tcp_send(id, b"89").unwrap(), 2);
    world.net.tcp_close(id);
    assert!(!world.net.tcp_may_send(id));
    assert!(world.net.tcp_may_recv(id));
}

#[test]
fn a_connection_lives_and_ends() {
    let mut world = World::new();
    let mut state = state();
    let tunables = StackTunables::default();
    let server = world.listen(80);
    let id = open_connection(
        &mut state,
        &mut world.net,
        &mut world.iface,
        at(80),
        49152,
        1024,
        &tunables,
    )
    .unwrap();
    state.tcp.wait_socket_ready(id, 77, true, false, false);
    assert!(ready_waiters(&world.net, &mut state.tcp, id).is_none());
    world.run();
    let (waiters, told) = ready_waiters(&world.net, &mut state.tcp, id).unwrap();
    assert_eq!(waiters, vec![77]);
    assert_eq!(told, TcpSocketState::Established);

    let mut stream = SocketStreamHandle::new(id, 64, 64);
    stream.poll_write(b"last words");
    stream.on_drop();
    let outcome = service_socket(&mut world.net, &mut state.tcp, id, &mut stream, 16);
    assert!(outcome.wake_writer && !outcome.gone);
    assert!(!world.net.tcp_may_send(id));
    world.run();
    let mut buf = [0u8; 64];
    let peer = world.net.sockets_mut().get_mut::<tcp::Socket>(server);
    let n = peer.recv_slice(&mut buf).unwrap();
    assert_eq!(&buf[..n], b"last words");
    peer.close();
    world.run();
    let outcome = service_socket(&mut world.net, &mut state.tcp, id, &mut stream, 16);
    assert!(outcome.gone);
    assert!(remove_gone(&mut world.net, &mut state.tcp, &vec![id]).is_empty());
    assert!(!world.net.tcp_is_active(id));
}

#[test]
fn a_refused_connection_leaves_nothing() {
    let mut world = World::new();
    let mut state = state();
    let tunables = StackTunables::default();
    let e = open_connection(
        &mut state,
        &mut world.net,
        &mut world.iface,
        at(0),
        49152,
        1024,
        &tunables,
    )
    .unwrap_err();
    assert_eq!(e.text(), "stack error: socket error: Unaddressable");
    let id = world.net.create_tcp_socket_with_buffer(16, &tunables);
    assert_eq!(id, 0);
}

#[test]
fn packets_of_a_session_are_relayed() {
    let mut world = World::new();
    let mut state = state();
    let tunables = StackTunables::default();
    let local = LocalAddresses::new(Some("127.0.0.1"), None);
    open_udp_session(&mut state, &mut world.net, &local, 6000, &tunables, 0).unwrap();
    open_udp_session(&mut state, &mut world.net, &local, 6001, &tunables, 0).unwrap();
    assert!(matches!(
        open_udp_session(&mut state, &mut world.net, &local, 0, &tunables, 0),
        Err(ManagerError::Stack(_))
    ));
    let send = UdpSend {
        remote_ip: home(),
        remote_port: 6001,
        local_port: 6000,
        data: b"ping".to_vec(),
    };
    assert!(send_udp_data(&mut state, &mut world.net, &send, 1));
    let stray = UdpSend { remote_ip: home(), remote_port: 1, local_port: 9, data: vec![] };
    assert!(!send_udp_data(&mut state, &mut world.net, &stray, 1));
    assert!(receive_udp(&mut world.net, &mut state.udp, 6001, 2, 1500).is_none());
    world.run();
    let (remote, data) = receive_udp(&mut world.net, &mut state.udp, 6001, 2, 1500).unwrap();
    assert_eq!(remote, at(6000));
    assert_eq!(data, b"ping".to_vec());
    assert!(receive_udp(&mut world.net, &mut state.udp, 6001, 2, 1500).is_none());
    let id = state.udp.handle_of(6000).unwrap();
    assert_eq!(
        world.net.udp_send(id, at(0), b"x").unwrap_err().text(),
        "socket error: Unaddressable"
    );
    assert_eq!(world.net.udp_recv(id, 10).unwrap_err().text(), "socket error: Exhausted");
}

#[test]
fn a_connection_needs_an_address_of_the_interface() {
    let mut world = World::new();
    let tunables = StackTunables::default();
    world.iface.update_ip_addrs(|addrs| addrs.clear());
    let id = world.net.create_tcp_socket_with_buffer(1024, &tunables);
    assert_eq!(
        world.net.connect_tcp(&mut world.iface, id, at(80), 49152).unwrap_err().text(),
        "socket error: Unaddressable"
    );
    let mut far = [0u8; 16];
    far[0] = 0x20;
    far[15] = 1;
    let remote = SocketAddress { ip: IpAddress::V6(far), port: 80 };
    assert!(world.net.connect_tcp(&mut world.iface, id, remote, 49152).is_ok());
}

#[test]
fn a_new_socket_takes_packets_that_fit() {
    let mut world = World::new();
    let mut tunables = StackTunables::default();
    tunables.udp_socket_metadata_capacity = 2;
    tunables.udp_socket_buffer_size = 8;
    let id = world.net.bind_udp_socket(at(6000), &tunables).unwrap();
    assert!(world.net.has(id) && !world.net.is_tcp(id));
    assert_eq!(
        world.net.udp_send(id, at(6001), b"123456789").unwrap_err().text(),
        "socket error: BufferFull"
    );
    assert!(world.net.udp_send(id, at(6001), b"12345678").is_ok());
    assert_eq!(
        world.net.udp_send(id, at(6001), b"1").unwrap_err().text(),
        "socket error: BufferFull"
    );
    let tcp = world.net.create_tcp_socket_with_buffer(16, &tunables);
    assert!(world.net.is_tcp(tcp) && !world.net.has(tcp + 1));
}

#[test]
fn long_packets_are_lost() {
    let mut world = World::new();
    let tunables = StackTunables::default();
    let a = world.net.bind_udp_socket(at(6000), &tunables).unwrap();
    let b = world.net.bind_udp_socket(at(6001), &tunables).unwrap();
    world.net.udp_send(a, at(6001), b"too long").unwrap();
    world.net.udp_send(a, at(6001), b"fits").unwrap();
    world.run();
    assert!(world.net.udp_can_recv(b));
    assert_eq!(world.net.udp_recv(b, 4).unwrap_err().text(), "socket error: Truncated");
    assert_eq!(world.net.udp_recv(b, 4).unwrap().1, b"fits".to_vec());
    assert!(!world.net.udp_can_recv(b));
}

#[test]
fn names_are_asked_for_through_the_stack() {
    let mut world = World::new();
    let mut state = state();
    let tunables = StackTunables::default();
    let local = LocalAddresses::new(Some("127.0.0.1"), None);
    let mut counters = DnsCounters::new();
    let server = world.net.bind_udp_socket(at(53), &tunables).unwrap();
    let start = state.dns.start_dns_query(
        &mut counters,
        &"example.com".to_string(),
        false,
        5,
        &vec![home()],
        0,
    );
    assert_eq!(start.server, home());
    let id = ensure_dns_socket(
        &mut state.dns_sockets,
        &mut counters,
        &mut world.net,
        &local,
        start.server,
        &tunables,
    )
    .unwrap();
    assert_eq!(state.dns_sockets.handles(), vec![id]);
    for query_type in [DnsRecordType::A, DnsRecordType::AAAA] {
        let replies = send_dns_query(
            &mut state.dns,
            &mut counters,
            &mut world.net,
            id,
            start.server,
            start.group_id,
            "example.com",
            query_type,
            false,
            0,
        );
        assert!(replies.is_empty());
    }
    world.run();
    let (client, query) = world.net.udp_recv(server, 512).unwrap();
    let mut response = query.clone();
    response[2] = 0x81;
    response[3] = 0x80;
    response[7] = 1;
    response.extend_from_slice(&[0xc0, 12, 0, 1, 0, 1, 0, 0, 0, 60, 0, 4, 93, 184, 216, 34]);
    world.net.udp_send(server, client, &response).unwrap();
    world.run();
    match receive_dns(&mut world.net, &mut state.dns, id, 1) {
        DnsReceive::Replies(replies) => match &replies[..] {
            [DnsReply::One { responder, address }] => {
                assert_eq!(*responder, 5);
                assert_eq!(*address.as_ref().unwrap(), IpAddress::V4([93, 184, 216, 34]));
            }
            _ => panic!("one is answered"),
        },
        DnsReceive::Nothing => panic!("a response came"),
    }
    assert!(matches!(
        receive_dns(&mut world.net, &mut state.dns, id, 1),
        DnsReceive::Nothing
    ));
    assert_eq!(state.dns.cached("example.com", false, 2), None);
    let (client, query) = world.net.udp_recv(server, 512).unwrap();
    let mut response = query.clone();
    response[2] = 0x81;
    response[3] = 0x80;
    world.net.udp_send(server, client, &response).unwrap();
    world.run();
    match receive_dns(&mut world.net, &mut state.dns, id, 1) {
        DnsReceive::Replies(replies) => assert!(replies.is_empty()),
        DnsReceive::Nothing => panic!("a response came"),
    }
    assert_eq!(
        state.dns.cached("example.com", false, 2),
        Some(IpAddress::V4([93, 184, 216, 34]))
    );
    let v6 = ensure_dns_socket(
        &mut state.dns_sockets,
        &mut counters,
        &mut world.net,
        &local,
        IpAddress::V6([0; 16]),
        &tunables,
    );
    assert_eq!(
        v6.unwrap_err().text(),
        "socket error: socket error: No IPv6 address configured"
    );
}
