use usque::addr::{IpAddress, SocketAddress};
use usque::manager::sockets::TcpSocketState;
use usque::manager::ManagerError;
use usque::proxy::connect::{
    connect_outcome, interleave_addresses, plan_connect, ConnectPlan, ConnectRace, ForwardEvent,
    ForwardStep, RaceResult, RaceWait, TcpForward,
};
use usque::proxy::fragments::FragBuffer;
use usque::proxy::relay::{relay_response, same_target, UdpRelay};
use usque::proxy::tunables::{max_concurrent_connections, SocksTunables};
use usque::proxy::wire::{
    address_len, build_bind_reply, build_udp_packet, build_udp_response, check_greeting,
    check_request, command_of, error_response, greeting_reply, parse_udp_request, read_address,
    SocksCommand, SocksTarget, UdpRequest,
};
use usque::proxy::{
    format_target_addr, get_local_port, map_connect_error_to_reply, map_manager_error_to_reply,
    tunnel_address, AuthConfig, Socks5Error, SocksReply,
};
use usque::tunnel::dns::DnsError;
use usque::vars::Vars;

fn v4(last: u8) -> IpAddress {
    IpAddress::V4([192, 0, 2, last])
}

fn v6(last: u8) -> IpAddress {
    let mut octets = [0u8; 16];
    octets[0] = 0x20;
    octets[15] = last;
    IpAddress::V6(octets)
}

fn mapped() -> IpAddress {
    IpAddress::V6([0, 0, 0, 0, 0, 0, 0, 0, 0, 0, 255, 255, 192, 0, 2, 7])
}

#[test]
fn replies_name_an_address() {
    assert_eq!(
        build_bind_reply(SocketAddress { ip: v4(1), port: 0x1234 }),
        vec![5, 0, 0, 1, 192, 0, 2, 1, 0x12, 0x34]
    );
    assert_eq!(build_bind_reply(SocketAddress { ip: v6(1), port: 1 }).len(), 22);
    assert_eq!(error_response(7), vec![5, 7, 0, 1, 0, 0, 0, 0, 0, 0]);
    assert_eq!(greeting_reply(), vec![5, 0]);
}

#[test]
fn relayed_packets_are_read_back() {
    for ip in [v4(9), v6(9)] {
        let remote = SocketAddress { ip, port: 5353 };
        let packet = build_udp_packet(remote, b"data");
        assert_eq!(build_udp_response(remote, b"data").unwrap(), packet);
        let (found, payload) = parse_udp_request(&packet).unwrap();
        assert_eq!(found, remote);
        assert_eq!(payload, b"data".to_vec());
        let (to, sent) = relay_response(Some(SocketAddress { ip: v4(1), port: 9 }), remote, b"data")
            .unwrap();
        assert_eq!(to.port, 9);
        assert_eq!(sent, packet);
        assert!(relay_response(None, remote, b"data").is_none());
    }
    assert!(parse_udp_request(&[0, 0, 0, 1, 1, 2, 3, 4, 0]).is_none());
    assert!(parse_udp_request(&[0, 0, 1, 1, 1, 2, 3, 4, 0, 9]).is_none());
    assert!(parse_udp_request(&[0, 0, 0, 3, 3, b'a', b'.', b'b', 0, 9]).is_none());
}

#[test]
fn requests_are_checked() {
    assert_eq!(check_greeting([5, 2]).unwrap(), 2);
    assert_eq!(
        check_greeting([4, 2]).unwrap_err().text(),
        "protocol error: Invalid SOCKS version"
    );
    assert_eq!(check_request([5, 1, 0, 3]).unwrap(), (SocksCommand::Connect, 3));
    assert_eq!(check_request([5, 3, 0, 1]).unwrap().0, SocksCommand::UdpAssociate);
    assert_eq!(command_of(2), SocksCommand::Unsupported);
    assert!(check_request([6, 1, 0, 1]).is_err());
}

#[test]
fn addresses_of_requests_are_read() {
    assert_eq!(address_len(1, &[]).unwrap(), 6);
    assert_eq!(address_len(4, &[]).unwrap(), 18);
    assert_eq!(address_len(3, &[]).unwrap(), 1);
    assert_eq!(address_len(3, &[11]).unwrap(), 14);
    assert_eq!(address_len(9, &[]).unwrap_err().text(), "protocol error: Unknown address type");
    match read_address(1, &[1, 2, 3, 4, 0, 80]).unwrap() {
        SocksTarget::Ip(address) => {
            assert_eq!(address.ip, IpAddress::V4([1, 2, 3, 4]));
            assert_eq!(address.port, 80);
        }
        _ => panic!("an address was given"),
    }
    match read_address(3, &[3, b'a', 0xff, b'b', 1, 0]).unwrap() {
        SocksTarget::Domain(name, port) => {
            assert_eq!(name, "a\u{fffd}b");
            assert_eq!(port, 256);
        }
        _ => panic!("a name was given"),
    }
    assert!(read_address(9, &[0]).is_err());
}

#[test]
fn targets_are_shown_without_mapping() {
    assert_eq!(tunnel_address(mapped()), v4(7));
    assert_eq!(tunnel_address(v6(1)), v6(1));
    let target = SocksTarget::Ip(SocketAddress { ip: mapped(), port: 80 });
    assert_eq!(format_target_addr(&target), "192.0.2.7:80");
    let domain = SocksTarget::Domain("example.com".to_string(), 443);
    assert_eq!(format_target_addr(&domain), "example.com:443");
    assert!(same_target(&domain, &SocksTarget::Domain("example.com".to_string(), 443)));
    assert!(!same_target(&domain, &SocksTarget::Domain("example.com".to_string(), 80)));
    assert!(!same_target(&domain, &target));
}

#[test]
fn errors_become_replies() {
    assert_eq!(
        map_manager_error_to_reply(&ManagerError::Dns(DnsError::Timeout)),
        SocksReply::HostUnreachable
    );
    assert_eq!(
        map_manager_error_to_reply(&ManagerError::NotConnected),
        SocksReply::GeneralFailure
    );
    assert_eq!(map_connect_error_to_reply(&Socks5Error::Timeout), SocksReply::ConnectionTimeout);
    assert_eq!(
        map_connect_error_to_reply(&Socks5Error::ConnectionFailed("x".to_string())),
        SocksReply::HostUnreachable
    );
    assert_eq!(
        map_connect_error_to_reply(&Socks5Error::IoError("x".to_string())),
        SocksReply::GeneralFailure
    );
    assert_eq!(
        Socks5Error::TunnelError(ManagerError::Dns(DnsError::NoRecords)).text(),
        "tunnel error: dns error: no records found"
    );
}

#[test]
fn only_the_named_user_is_let_in() {
    let auth = AuthConfig { username: "u".to_string(), password: "p".to_string() };
    assert!(auth.accepts("u", "p"));
    assert!(!auth.accepts("u", "q"));
    assert!(!auth.accepts("v", "p"));
}

#[test]
fn ports_come_round() {
    let mut counter = 16383u16;
    assert_eq!(get_local_port(&mut counter), 65535);
    assert_eq!(get_local_port(&mut counter), 49152);
    let mut last = 65535u16;
    assert_eq!(get_local_port(&mut last), 65535);
    assert_eq!(last, 0);
}

#[test]
fn the_environment_sets_the_proxy() {
    let vars = Vars {
        entries: vec![
            ("USQUE_MAX_CONNECTIONS".to_string(), "0".to_string()),
            ("USQUE_SOCKS_IDLE_TIMEOUT_SECS".to_string(), "7".to_string()),
        ],
    };
    let tunables = SocksTunables::from_env(&vars);
    assert_eq!(tunables.max_concurrent_connections, 1024);
    assert_eq!(tunables.idle_timeout, 7);
    assert_eq!(tunables.connection_attempt_delay, 250);
    assert_eq!(max_concurrent_connections(&vars), 1024);
    assert_eq!(SocksTunables::default().udp_frag_max_count, 128);
}

#[test]
fn addresses_are_tried_in_turns() {
    assert_eq!(
        interleave_addresses(&vec![v4(1), v4(2), v6(1), v4(3), v6(2)]),
        vec![v6(1), v4(1), v6(2), v4(2), v4(3)]
    );
    assert_eq!(interleave_addresses(&vec![v4(1), v4(2)]), vec![v4(1), v4(2)]);
    assert_eq!(interleave_addresses(&vec![]), vec![]);
    assert!(matches!(plan_connect(&vec![v4(1)]), ConnectPlan::Single(_)));
    assert!(matches!(plan_connect(&vec![v4(1), v6(1)]), ConnectPlan::Race));
    match plan_connect(&vec![]) {
        ConnectPlan::Refuse(reply, e) => {
            assert_eq!(reply, SocksReply::HostUnreachable);
            assert_eq!(e.text(), "protocol error: No addresses resolved");
        }
        _ => panic!("there is nothing to connect to"),
    }
}

#[test]
fn one_connection_is_waited_for() {
    assert!(connect_outcome(Some(TcpSocketState::Established)).is_ok());
    let (e, reply) = connect_outcome(Some(TcpSocketState::Closed)).unwrap_err();
    assert_eq!(e.text(), "connection failed: Connection closed");
    assert_eq!(reply, SocksReply::HostUnreachable);
    let (e, reply) = connect_outcome(None).unwrap_err();
    assert_eq!(e.text(), "timeout");
    assert_eq!(reply, SocksReply::ConnectionTimeout);
}

#[test]
fn the_first_connection_wins_the_race() {
    let mut race = ConnectRace::new(vec![v6(1), v4(1), v4(2)], 250, 1000);
    assert_eq!(race.next_address(), Some(v6(1)));
    race.on_started(Ok(1));
    match race.wait() {
        RaceWait::Until(Some(at)) => assert_eq!(at, 250_001_000),
        _ => panic!("an address is left"),
    }
    assert_eq!(race.next_address(), Some(v4(1)));
    race.on_started(Ok(2));
    race.on_attempt(2000);
    assert_eq!(race.next_attempt, 250_002_000);
    assert!(matches!(
        race.on_ready(9, TcpSocketState::Established, 3000),
        RaceResult::Ignored
    ));
    assert!(matches!(race.on_ready(1, TcpSocketState::Closed, 3000), RaceResult::Lost));
    assert_eq!(race.next_attempt, 250_002_000);
    assert_eq!(race.next_address(), Some(v4(2)));
    race.on_started(Ok(3));
    match race.on_ready(3, TcpSocketState::Established, 4000) {
        RaceResult::Won(rivals) => assert_eq!(rivals, vec![2]),
        _ => panic!("the third connection is ready"),
    }
    assert!(race.pending.is_empty());
}

#[test]
fn a_race_without_connections_is_lost() {
    let mut race = ConnectRace::new(vec![v6(1), v4(1)], 250, 0);
    race.next_address();
    race.on_started(Ok(1));
    assert!(matches!(race.on_ready(1, TcpSocketState::Closed, 5), RaceResult::Lost));
    assert_eq!(race.next_attempt, 5);
    race.next_address();
    race.on_started(Err(ManagerError::Overloaded));
    match race.wait() {
        RaceWait::Failed(e) => assert_eq!(e.text(), "tunnel error: manager overloaded"),
        _ => panic!("nothing is left"),
    }
    match race.wait() {
        RaceWait::Failed(e) => {
            assert_eq!(e.text(), "connection failed: All connection attempts failed")
        }
        _ => panic!("nothing is left"),
    }
    let mut late = ConnectRace::new(vec![v4(1), v4(2)], 250, 0);
    late.next_address();
    late.on_started(Ok(7));
    assert_eq!(late.on_timeout(), vec![7]);
}

#[test]
fn both_sides_end_a_connection() {
    let mut forward = TcpForward::new();
    assert_eq!(
        forward.on_event(ForwardEvent::ClientEnded),
        ForwardStep::Continue { from_tunnel: true, from_client: false }
    );
    assert_eq!(
        forward.on_event(ForwardEvent::TunnelEnded),
        ForwardStep::ShutdownClient { from_client: false }
    );
    assert_eq!(forward.on_event(ForwardEvent::ClientWritten), ForwardStep::Stop);
    let mut other = TcpForward::new();
    assert_eq!(
        other.on_event(ForwardEvent::TunnelWriteFailed),
        ForwardStep::Continue { from_tunnel: false, from_client: true }
    );
    assert_eq!(other.on_event(ForwardEvent::Idle), ForwardStep::Stop);
    assert_eq!(TcpForward::new().on_event(ForwardEvent::ClientReadFailed), ForwardStep::Stop);
}

#[test]
fn fragments_are_put_together() {
    let mut buffer = FragBuffer::new(0, 8);
    assert!(buffer.insert(1, false, b"ab".to_vec(), 1).is_none());
    assert!(buffer.insert(2, false, b"cd".to_vec(), 2).is_none());
    assert_eq!(buffer.insert(3, true, b"e".to_vec(), 3).unwrap(), b"abcde".to_vec());
    assert!(buffer.insert(0, true, b"x".to_vec(), 4).is_none());
    assert!(buffer.insert(8, true, b"x".to_vec(), 4).is_none());
    assert!(buffer.is_expired(3 + 5_000_000_001, 5));
    assert!(!buffer.is_expired(3 + 5_000_000_000, 5));
}

#[test]
fn a_fragment_out_of_order_starts_anew() {
    let mut buffer = FragBuffer::new(0, 8);
    assert!(buffer.insert(2, true, b"old".to_vec(), 0).is_none());
    assert!(buffer.insert(1, false, b"a".to_vec(), 0).is_none());
    assert_eq!(buffer.insert(2, true, b"b".to_vec(), 0).unwrap(), b"ab".to_vec());
    assert!(buffer.insert(3, true, b"c".to_vec(), 0).is_none());
}

fn request(frag: u8, payload: &[u8]) -> UdpRequest {
    UdpRequest {
        frag,
        target: SocksTarget::Domain("example.com".to_string(), 53),
        payload: payload.to_vec(),
    }
}

#[test]
fn a_relay_sends_whole_packets() {
    let mut relay = UdpRelay::new(128, 5);
    let (target, data) = relay.on_request(request(0, b"whole"), 0).unwrap();
    assert_eq!(format_target_addr(&target), "example.com:53");
    assert_eq!(data, b"whole".to_vec());
    assert!(relay.on_request(request(1, b"a"), 0).is_none());
    assert!(relay.on_request(request(0x80, b"x"), 0).is_none());
    assert_eq!(relay.on_request(request(0x82, b"b"), 0).unwrap().1, b"ab".to_vec());
    assert!(relay.on_request(request(1, b"a"), 0).is_none());
    assert!(relay.on_request(request(0x82, b"b"), 5_000_000_001).is_none());
    relay.cleanup_fragments(20_000_000_000);
    assert!(relay.on_request(request(1, b"a"), 20_000_000_000).is_none());
}

#[test]
fn datagrams_from_a_client_are_read() {
    let mut relay = UdpRelay::new(128, 5);
    let mut packet = vec![0, 0, 0, 3, 11];
    packet.extend_from_slice(b"example.com");
    packet.extend_from_slice(&[0, 53]);
    packet.extend_from_slice(b"query");
    let (target, data) = relay.on_datagram(&packet, 0).unwrap();
    assert_eq!(format_target_addr(&target), "example.com:53");
    assert_eq!(data, b"query".to_vec());
    let direct = build_udp_packet(SocketAddress { ip: v6(3), port: 9 }, b"x");
    let (target, data) = relay.on_datagram(&direct, 0).unwrap();
    assert!(same_target(&target, &SocksTarget::Ip(SocketAddress { ip: v6(3), port: 9 })));
    assert_eq!(data, b"x".to_vec());
    assert!(relay.on_datagram(&[0, 1, 0, 1, 1, 2, 3, 4, 0, 9], 0).is_none());
    assert!(relay.on_datagram(&[0, 0, 0, 9, 1, 2, 3, 4, 0, 9], 0).is_none());
    assert!(relay.on_datagram(&[0, 0, 0, 3, 1, 0xff, 0, 9], 0).is_none());
    assert!(relay.on_datagram(&[], 0).is_none());
}
