use smoltcp::iface::{Config, Interface};
use smoltcp::phy::{Loopback, Medium};
use smoltcp::socket::tcp;
use smoltcp::time::Instant;
use smoltcp::wire::{HardwareAddress, IpAddress as SmolAddress, IpCidr};
use usque::addr::{IpAddress, SocketAddress};
use usque::manager::commands::{ManagerCommand, RuntimeState};
use usque::manager::dns_ops::{DnsCounters, DnsReply};
use usque::manager::requests::{run_command, CommandOutcome};
use usque::manager::rounds::{poll_stack_common, PollOutcome};
use usque::manager::sockets::TcpSocketState;
use usque::manager::stack_ops::send_udp_data;
use usque::manager::stream::{ReadPoll, SocketEvent, SocketEventKind, SocketStreamHandle, WritePoll};
use usque::manager::tunables::ManagerTunables;
use usque::manager::udp::UdpSend;
use usque::table::Table;
use usque::tunnel::net::NetSockets;
use usque::tunnel::stack::{LocalAddresses, StackTunables};

const SECOND: u64 = 1_000_000_000;

fn home() -> IpAddress {
    IpAddress::V4([127, 0, 0, 1])
}

struct Manager {
    device: Loopback,
    iface: Interface,
    net: NetSockets,
    clock: i64,
    state: RuntimeState,
    counters: DnsCounters,
    streams: Table<SocketStreamHandle>,
    tunables: StackTunables,
    local: LocalAddresses,
}

impl Manager {
    fn new() -> Manager {
        let mut device = Loopback::new(Medium::Ip);
        let config = Config::new(HardwareAddress::Ip);
        let mut iface = Interface::new(config, &mut device, Instant::from_millis(0));
        iface.update_ip_addrs(|addrs| {
            addrs.push(IpCidr::new(SmolAddress::v4(127, 0, 0, 1), 8)).unwrap();
        });
        Manager {
            device,
            iface,
            net: NetSockets::new(),
            clock: 0,
            state: RuntimeState::new(ManagerTunables::default(), true, 5, 0),
            counters: DnsCounters::new(),
            streams: Table::new(),
            tunables: StackTunables::default(),
            local: LocalAddresses::new(Some("127.0.0.1"), None),
        }
    }

    fn run(&mut self) {
        for _ in 0..20 {
            self.clock += 20;
            let now = Instant::from_millis(self.clock);
            self.iface.poll(now, &mut self.device, self.net.sockets_mut());
        }
    }

    fn listen(&mut self, port: u16) -> smoltcp::iface::SocketHandle {
        let buffer = || tcp::SocketBuffer::new(vec![0u8; 4096]);
        let mut socket = tcp::Socket::new(buffer(), buffer());
        socket.listen(port).unwrap();
        self.net.sockets_mut().add(socket)
    }

    fn ask(&mut self, cmd: ManagerCommand, now: u64) -> CommandOutcome {
        run_command(
            &mut self.state,
            &mut self.counters,
            &mut self.net,
            &mut self.iface,
            &self.local,
            &self.tunables,
            &vec![home()],
            1024,
            cmd,
            now,
        )
    }

    fn connect(&mut self, remote_port: u16, local_port: u16) -> Result<u64, String> {
        let cmd = ManagerCommand::Connect {
            remote_ip: home(),
            remote_port,
            local_port,
            reserved_slot: false,
            response: 3,
        };
        match self.ask(cmd, 0) {
            CommandOutcome::Opened { response, opened } => {
                assert_eq!(response, 3);
                let handle = opened.map_err(|e| e.text())?;
                self.streams.insert(handle, SocketStreamHandle::new(handle, 64, 64));
                Ok(handle)
            }
            other => panic!("unexpected {:?}", other),
        }
    }

    fn state_of(&mut self, handle: u64) -> TcpSocketState {
        match self.ask(ManagerCommand::GetSocketState { handle, response: 8 }, 0) {
            CommandOutcome::State { response: 8, state } => state,
            other => panic!("unexpected {:?}", other),
        }
    }

    fn poll(&mut self, full_sweep: bool, now: u64) -> PollOutcome {
        poll_stack_common(&mut self.state, &mut self.net, &mut self.streams, full_sweep, now)
    }

    fn with_stream<R>(&mut self, handle: u64, f: impl FnOnce(&mut SocketStreamHandle) -> R) -> R {
        let mut stream = self.streams.remove(handle).unwrap();
        let res = f(&mut stream);
        self.streams.insert(handle, stream);
        res
    }
}

#[test]
fn connections_are_polled_from_start_to_end() {
    let mut m = Manager::new();
    let server = m.listen(80);
    assert_eq!(m.connect(0, 49152).unwrap_err(), "stack error: socket error: Unaddressable");
    let id = m.connect(80, 49152).unwrap();
    assert_eq!(m.state_of(id), TcpSocketState::Connecting);
    assert_eq!(m.state_of(id + 1), TcpSocketState::Closed);
    let wait = ManagerCommand::WaitSocketReady { handle: id, response: 11 };
    assert!(matches!(m.ask(wait, 0), CommandOutcome::Waiting));
    let outcome = m.poll(true, 0);
    assert!(outcome.notices.is_empty() && outcome.sweep.gone.is_empty());

    m.run();
    let outcome = m.poll(true, 0);
    assert_eq!(outcome.notices.len(), 1);
    assert_eq!(outcome.notices[0].waiters, vec![11]);
    assert_eq!(outcome.notices[0].state, TcpSocketState::Established);
    assert!(m.poll(true, 0).notices.is_empty());
    let wait = ManagerCommand::WaitSocketReady { handle: id, response: 12 };
    assert!(matches!(
        m.ask(wait, 0),
        CommandOutcome::State { response: 12, state: TcpSocketState::Established }
    ));

    let written = m.with_stream(id, |stream| stream.poll_write(b"first words"));
    assert!(matches!(written, WritePoll::Ready(11, Some(_))));
    assert!(m.poll(false, 0).sweep.writers.is_empty());
    m.state.tcp.handle_socket_event(SocketEvent { handle: id, kind: SocketEventKind::WriteReady });
    assert_eq!(m.poll(false, 0).sweep.writers, vec![id]);
    m.run();
    let mut buf = [0u8; 64];
    let peer = m.net.sockets_mut().get_mut::<tcp::Socket>(server);
    let n = peer.recv_slice(&mut buf).unwrap();
    assert_eq!(&buf[..n], b"first words");
    peer.send_slice(b"and an answer").unwrap();
    m.run();
    assert_eq!(m.poll(true, 0).sweep.readers, vec![id]);
    match m.with_stream(id, |stream| stream.poll_read(&mut buf)) {
        ReadPoll::Ready(n, _) => assert_eq!(&buf[..n], b"and an answer"),
        _ => panic!("there is data"),
    }

    let closed = m.ask(ManagerCommand::Close { handle: id }, 0);
    assert!(matches!(closed, CommandOutcome::Closed(waiters) if waiters.is_empty()));
    assert_eq!(m.state_of(id), TcpSocketState::Closed);
    assert!(m.poll(true, 0).sweep.gone.is_empty());
    assert!(!m.net.tcp_may_send(id));
    m.run();
    m.net.sockets_mut().get_mut::<tcp::Socket>(server).close();
    m.run();
    m.clock += 60_000;
    m.run();
    let outcome = m.poll(true, 0);
    assert_eq!(outcome.sweep.gone, vec![id]);
    assert!(m.with_stream(id, |stream| stream.socket_closed && stream.write_closed));
    assert!(!m.state.tcp.contains(id));
    assert!(m.poll(true, 0).sweep.gone.is_empty());
    assert!(matches!(
        m.ask(ManagerCommand::Close { handle: id }, 0),
        CommandOutcome::Closed(waiters) if waiters.is_empty()
    ));
    assert_eq!(m.connect(80, 49153).unwrap(), id);
    assert_eq!(m.state.perf.counts.poll_count, 9);
    assert_eq!(m.state.perf.counts.full_tcp_sweeps, 7);
    assert_eq!(m.state.perf.counts.targeted_tcp_sweeps, 2);
}

#[test]
fn those_who_wait_for_a_refused_connection_are_told() {
    let mut m = Manager::new();
    let id = m.connect(81, 49152).unwrap();
    let wait = ManagerCommand::WaitSocketReady { handle: id, response: 11 };
    assert!(matches!(m.ask(wait, 0), CommandOutcome::Waiting));
    let closed = m.ask(ManagerCommand::Close { handle: id }, 0);
    assert!(matches!(closed, CommandOutcome::Closed(waiters) if waiters == vec![11]));
    m.run();
    let outcome = m.poll(true, 0);
    assert!(outcome.notices.is_empty());
    assert_eq!(outcome.sweep.gone, vec![id]);

    let id = m.connect(81, 49153).unwrap();
    let wait = ManagerCommand::WaitSocketReady { handle: id, response: 12 };
    assert!(matches!(m.ask(wait, 0), CommandOutcome::Waiting));
    m.run();
    let outcome = m.poll(true, 0);
    assert_eq!(outcome.notices.len(), 1);
    assert_eq!(outcome.notices[0].state, TcpSocketState::Closed);
    assert_eq!(outcome.notices[0].waiters, vec![12]);
    assert_eq!(outcome.sweep.gone, vec![id]);
    assert!(outcome.sweep.waiters.is_empty());
}

#[test]
fn sessions_get_one_packet_a_round_and_end() {
    let mut m = Manager::new();
    for local_port in [6000, 6001] {
        match m.ask(ManagerCommand::UdpRegister { local_port, response: 4 }, 0) {
            CommandOutcome::Bound { response: 4, local_port: port, bound } => {
                assert!(bound.is_ok());
                assert_eq!(port, local_port);
            }
            other => panic!("unexpected {:?}", other),
        }
    }
    match m.ask(ManagerCommand::UdpRegister { local_port: 0, response: 4 }, 0) {
        CommandOutcome::Bound { bound, .. } => assert_eq!(
            bound.unwrap_err().text(),
            "stack error: socket error: Unaddressable"
        ),
        other => panic!("unexpected {:?}", other),
    }
    for data in [b"one".to_vec(), b"two".to_vec(), vec![]] {
        let send = UdpSend { remote_ip: home(), remote_port: 6001, local_port: 6000, data };
        assert!(send_udp_data(&mut m.state, &mut m.net, &send, SECOND));
    }
    m.run();
    for expected in [b"one".to_vec(), b"two".to_vec()] {
        let outcome = m.poll(false, 2 * SECOND);
        assert_eq!(outcome.packets.len(), 1);
        assert_eq!(outcome.packets[0].local_port, 6001);
        assert_eq!(outcome.packets[0].remote, SocketAddress { ip: home(), port: 6000 });
        assert_eq!(outcome.packets[0].data, expected);
        assert!(!outcome.sessions_ended);
    }
    assert!(m.poll(false, 3 * SECOND).packets.is_empty());

    let timeout = m.state.tunables.udp_session_timeout;
    let outcome = m.poll(false, (timeout + 1) * SECOND + 1);
    assert!(outcome.sessions_ended);
    assert_eq!(m.state.udp.ports(), &vec![6001]);
    assert!(!m.poll(false, (timeout + 2) * SECOND).sessions_ended);
    let id = m.state.udp.handle_of(6001).unwrap();
    assert!(m.net.udp_recv(id, 10).unwrap_err().text().contains("Exhausted"));
    assert!(matches!(
        m.ask(ManagerCommand::UdpUnregister { local_port: 6001 }, 0),
        CommandOutcome::Unbound
    ));
    assert_eq!(
        m.net.udp_recv(id, 10).unwrap_err().text(),
        "socket error: invalid socket handle"
    );
    assert!(m.state.udp.is_empty());
}

#[test]
fn numbers_that_are_not_connections_change_nothing() {
    let mut m = Manager::new();
    let registered = m.ask(ManagerCommand::UdpRegister { local_port: 6000, response: 4 }, 0);
    assert!(matches!(registered, CommandOutcome::Bound { bound: Ok(()), .. }));
    let session = m.state.udp.handle_of(6000).unwrap();
    for handle in [session, 77] {
        m.state.tcp.handle_socket_event(SocketEvent { handle, kind: SocketEventKind::Closed });
        let closed = m.ask(ManagerCommand::Close { handle }, 0);
        assert!(matches!(closed, CommandOutcome::Closed(waiters) if waiters.is_empty()));
    }
    assert_eq!(m.poll(false, 0).sweep.gone, vec![77]);
    assert!(m.poll(false, 0).sweep.gone.is_empty());
    assert!(m.net.has(session));
    let stray = m.net.create_tcp_socket_with_buffer(16, &m.tunables);
    m.state.tcp.handle_socket_event(SocketEvent {
        handle: stray,
        kind: SocketEventKind::ReadReady,
    });
    assert_eq!(m.poll(false, 0).sweep.gone, vec![stray]);
    assert!(!m.net.has(stray));
}

fn lookup(response: u64) -> ManagerCommand {
    ManagerCommand::DnsResolve { domain: "example.com".to_string(), prefer_ipv6: false, response }
}

#[test]
fn lookups_are_sent_answered_and_kept() {
    let mut m = Manager::new();
    let server =
        m.net.bind_udp_socket(SocketAddress { ip: home(), port: 53 }, &m.tunables).unwrap();
    assert!(matches!(m.ask(lookup(5), 0), CommandOutcome::Replies(list) if list.is_empty()));
    m.run();
    let (client, query) = m.net.udp_recv(server, 512).unwrap();
    assert_eq!(client.port, 50000);
    assert_eq!(query[query.len() - 3], 1);
    let mut response = query.clone();
    response[2] = 0x81;
    response[3] = 0x80;
    response[7] = 1;
    response.extend_from_slice(&[0xc0, 12, 0, 1, 0, 1, 0, 0, 0, 60, 0, 4, 93, 184, 216, 34]);
    let (_, query) = m.net.udp_recv(server, 512).unwrap();
    assert_eq!(query[query.len() - 3], 28);
    let mut empty = query.clone();
    empty[2] = 0x81;
    empty[3] = 0x80;
    m.net.udp_send(server, client, &response).unwrap();
    m.net.udp_send(server, client, &empty).unwrap();
    m.run();
    let outcome = m.poll(false, SECOND);
    match &outcome.replies[..] {
        [DnsReply::One { responder: 5, address }] => {
            assert_eq!(*address.as_ref().unwrap(), IpAddress::V4([93, 184, 216, 34]));
        }
        other => panic!("unexpected {:?}", other),
    }
    match m.ask(lookup(6), 2 * SECOND) {
        CommandOutcome::Replies(list) => match &list[..] {
            [DnsReply::One { responder: 6, address: Ok(ip) }] => {
                assert_eq!(*ip, IpAddress::V4([93, 184, 216, 34]));
            }
            other => panic!("unexpected {:?}", other),
        },
        other => panic!("unexpected {:?}", other),
    }
    let all = ManagerCommand::DnsResolveAll { domain: "example.com".to_string(), response: 7 };
    match m.ask(all, 2 * SECOND) {
        CommandOutcome::Replies(list) => match &list[..] {
            [DnsReply::All { responder: 7, addresses: Ok(ips) }] => {
                assert_eq!(ips, &vec![IpAddress::V4([93, 184, 216, 34])]);
            }
            other => panic!("unexpected {:?}", other),
        },
        other => panic!("unexpected {:?}", other),
    }
}

#[test]
fn lookups_end_in_time() {
    let mut m = Manager::new();
    assert!(matches!(m.ask(lookup(5), 0), CommandOutcome::Replies(list) if list.is_empty()));
    assert!(m.poll(false, 5 * SECOND).timeouts.is_empty());
    let outcome = m.poll(false, 5 * SECOND + 1);
    match &outcome.timeouts[..] {
        [DnsReply::One { responder: 5, address: Err(e) }] => {
            assert_eq!(e.text(), "dns error: timeout");
        }
        other => panic!("unexpected {:?}", other),
    }
    assert!(!m.state.dns.has_work());
}

#[test]
fn lookups_without_an_address_fail_at_once() {
    let mut m = Manager::new();
    m.local = LocalAddresses::new(None, Some("fd00::1"));
    match m.ask(lookup(5), 0) {
        CommandOutcome::Replies(list) => match &list[..] {
            [DnsReply::One { responder: 5, address: Err(e) }] => {
                assert!(e.text().contains("No IPv4 address configured"));
            }
            other => panic!("unexpected {:?}", other),
        },
        other => panic!("unexpected {:?}", other),
    }
    assert_eq!(m.counters.local_port, 50001);
}
