use usque::manager::backoff::{jittered, ExponentialBackoff};
use usque::manager::commands::{CommandStep, ManagerCommand, RuntimeState};
use usque::manager::dns_ops::DnsCounters;
use usque::manager::perf::PerfCounters;
use usque::manager::sockets::{
    retain_others, tcp_state, CloseStep, TcpSocketState, TcpSockets, WaitStep,
};
use usque::manager::stream::{SocketEvent, SocketEventKind};
use usque::manager::transport::{
    next_timer_at, stack_poll_deadline, wg_flush_due, BatchSend, SendBlock, StackDrain, TunnelMode,
};
use usque::manager::tunables::ManagerTunables;
use usque::manager::udp::UdpSessions;
use usque::manager::masque_io::{
    FlushStep, IoAction, IoEvent, MasqueWorker, SendBacklog, SendOutcome, WorkerSettings,
};
use usque::addr::IpAddress;
use usque::tunnel::masque::{MasqueControlState, MasqueTunnel};
use usque::tunnel::stack::{BufferPool, StackTunables, VirtualDevice};
use usque::vars::Vars;

#[test]
fn pauses_double_up_to_a_minute() {
    let mut backoff = ExponentialBackoff::new();
    let pauses: Vec<u64> = (0..8).map(|_| backoff.spread_delay(500)).collect();
    assert_eq!(pauses, vec![1000, 2000, 4000, 8000, 16000, 32000, 60000, 60000]);
    backoff.reset();
    assert_eq!(backoff.spread_delay(0), 500);
    assert_eq!(backoff.spread_delay(999), 2998);
    backoff.reset();
    let first: Vec<u64> = (0..20)
        .map(|_| {
            backoff.reset();
            backoff.next_delay()
        })
        .collect();
    assert!(first.iter().all(|ms| (500..1500).contains(ms)));
    assert!(first.iter().any(|ms| *ms != first[0]));
    assert_eq!(backoff.spread_delay(500), 2000);
    assert_eq!(jittered(100, 0), 100);
    assert_eq!(jittered(100, 1000), 150);
}

#[test]
fn connections_are_known_by_their_numbers() {
    let mut tcp = TcpSockets::new();
    tcp.insert(1);
    tcp.insert(2);
    assert_eq!(tcp.len(), 2);
    assert!(tcp.contains(1));
    tcp.handle_socket_event(SocketEvent { handle: 2, kind: SocketEventKind::WriteReady });
    tcp.handle_socket_event(SocketEvent { handle: 2, kind: SocketEventKind::Closed });
    assert_eq!(tcp.ready_len(), 1);
    assert_eq!(tcp.begin_tcp_sweep(false), vec![2]);
    assert_eq!(tcp.begin_tcp_sweep(true), vec![1, 2]);
    assert!(matches!(tcp.wait_socket_ready(1, 7, true, false, false), WaitStep::Wait));
    assert!(matches!(
        tcp.wait_socket_ready(1, 8, true, true, true),
        WaitStep::Reply(TcpSocketState::Established)
    ));
    assert_eq!(tcp.waiting_handles(), vec![1]);
    match tcp.close_connection(1) {
        CloseStep::Notify(waiters) => assert_eq!(waiters, vec![7]),
        _ => panic!("the connection is known"),
    }
    assert!(matches!(tcp.close_connection(9), CloseStep::Discard));
    assert_eq!(tcp.note_stream(1, false, false), Some(true));
    assert_eq!(tcp.note_stream(9, true, true), None);
    assert!(!tcp.take_close(1, 1, true));
    assert!(tcp.take_close(1, 0, true));
    assert!(!tcp.take_close(1, 0, true));
    assert!(tcp.remove_closed(&vec![1, 2]).is_empty());
    assert_eq!(tcp.len(), 0);
    assert_eq!(retain_others(&vec![1, 2, 3, 2], &vec![2]), vec![1, 3]);
    assert_eq!(tcp_state(true, true, false), TcpSocketState::Connecting);
    assert_eq!(tcp_state(false, true, true), TcpSocketState::Closed);
}

#[test]
fn idle_sessions_end() {
    let mut udp = UdpSessions::new();
    udp.register_udp_session(6000, 1, 0);
    udp.register_udp_session(6001, 2, 0);
    assert_eq!(udp.touch(6001, 50_000_000_000), Some(2));
    assert_eq!(udp.touch(7000, 0), None);
    assert_eq!(udp.expire_udp_sessions(60, 60_000_000_001), vec![1]);
    assert_eq!(udp.ports(), &vec![6001]);
    assert_eq!(udp.unregister_udp_session(6001), Some(2));
    assert!(udp.is_empty());
}

#[test]
fn reports_come_when_they_are_due() {
    let mut perf = PerfCounters::new(true, 5, 0);
    perf.inc_loop();
    perf.inc_rx(100);
    perf.inc_tcp_sweep(true);
    assert!(!perf.due(4_999_999_999));
    assert!(perf.report(1).is_none());
    let report = perf.report(5_000_000_000).unwrap();
    assert_eq!(report.counts.rx_bytes, 100);
    assert_eq!(report.counts.full_tcp_sweeps, 1);
    assert_eq!(report.elapsed, 5_000_000_000);
    assert_eq!(perf.counts.rx_bytes, 0);
    let mut off = PerfCounters::new(false, 5, 0);
    off.inc_rx(1);
    assert_eq!(off.counts.rx_packets, 0);
    assert!(!off.due(u64::MAX));
}

#[test]
fn a_blocked_tunnel_is_left_alone_for_longer_and_longer() {
    let mut block = SendBlock::new();
    assert!(!block.masque_drain_blocked(0));
    let mut pauses = Vec::new();
    for _ in 0..7 {
        block.on_full(0);
        let until = block.blocked_send_deadline(1_000, 0).unwrap();
        pauses.push(until / 1_000_000);
    }
    assert_eq!(pauses, vec![1, 2, 4, 8, 16, 32, 32]);
    assert!(block.masque_drain_blocked(31_999_999));
    assert!(!block.masque_drain_blocked(32_000_000));
    block.on_sent();
    assert!(block.blocked_send_deadline(1_000, 0).is_none());
    assert!(wg_flush_due(0, 1));
    assert!(!wg_flush_due(0, 0));
    assert_eq!(TunnelMode::Wireguard.mode_name(), "WireGuard");
    assert_eq!(next_timer_at(250, 1), 250_000_001);
}

#[test]
fn the_stack_is_looked_at_in_time() {
    assert_eq!(stack_poll_deadline(false, true, None, 50, 7), None);
    assert_eq!(stack_poll_deadline(true, true, Some(9), 50, 7), Some(7));
    assert_eq!(stack_poll_deadline(true, false, Some(9), 50, 7), Some(16));
    assert_eq!(stack_poll_deadline(true, false, Some(u64::MAX), 50, 7), Some(50_000_007));
    assert_eq!(stack_poll_deadline(true, false, None, 50, 7), Some(7));
}

#[test]
fn packets_that_were_not_taken_go_back() {
    let mut device =
        VirtualDevice::new(1500, BufferPool::filled(0, 0), &StackTunables::default(), 0);
    for n in 0..5u8 {
        device.tx_queue.push_back(vec![n]);
    }
    let mut perf = PerfCounters::new(true, 5, 0);
    let mut block = SendBlock::new();
    let mut drain = StackDrain::new(4, 2);
    let batch = drain.next_batch(&mut device, &mut perf).unwrap();
    assert_eq!(batch, vec![vec![0], vec![1]]);
    assert!(drain.on_batch(&mut device, &mut block, &mut perf, BatchSend::Sent, 0));
    let batch = drain.next_batch(&mut device, &mut perf).unwrap();
    assert_eq!(batch, vec![vec![2], vec![3]]);
    assert!(!drain.on_batch(&mut device, &mut block, &mut perf, BatchSend::Full(batch), 0));
    assert_eq!(device.take_packet(), Some(vec![2]));
    assert!(block.masque_drain_blocked(0));
    assert_eq!(perf.counts.masque_blocked_events, 1);
    assert!(drain.next_batch(&mut device, &mut perf).is_none());
}

#[test]
fn the_worker_follows_its_events() {
    let tunnel = MasqueTunnel {
        connect_stream_id: 4,
        flow_id: 0,
        max_h3_dgram_len: None,
        control_state: MasqueControlState::new(),
    };
    let mut worker = MasqueWorker { tunnel, backlog: SendBacklog::new(), recv_limit: 100 };
    let mut queued = 2usize;
    match worker.on_event(IoEvent::Datagram(vec![0, 9, 8]), &mut queued) {
        IoAction::Deliver(packet) => assert_eq!(packet, vec![9, 8]),
        _ => panic!("a packet came"),
    }
    assert!(matches!(
        worker.on_event(IoEvent::Datagram(vec![1, 9]), &mut queued),
        IoAction::Continue
    ));
    assert!(matches!(
        worker.on_event(IoEvent::Batch(vec![vec![1], vec![2]]), &mut queued),
        IoAction::Drain
    ));
    assert_eq!(queued, 0);
    assert!(matches!(worker.on_event(IoEvent::StatsTick, &mut queued), IoAction::SampleStats));
    assert!(matches!(
        worker.on_event(IoEvent::StreamReset(8), &mut queued),
        IoAction::Continue
    ));
    assert!(matches!(worker.on_event(IoEvent::StreamReset(4), &mut queued), IoAction::Stop));
    assert!(matches!(worker.on_event(IoEvent::Shutdown, &mut queued), IoAction::Stop));
    assert!(WorkerSettings::new(&ManagerTunables::default()).send_budget_limit > 0);
}

#[test]
fn a_blocked_packet_waits_at_the_front() {
    let mut backlog = SendBacklog::new();
    let mut queued = 2usize;
    backlog.absorb_send_batch(vec![vec![1], vec![2]], &mut queued);
    let mut round = usque::manager::masque_io::MasqueSendRound {
        sent_packets: 0,
        sent_bytes: 0,
        blocked: false,
    };
    let first = backlog.next_packet().unwrap();
    assert!(matches!(
        backlog.on_send_outcome(&mut round, first, SendOutcome::Blocked),
        FlushStep::Stop
    ));
    assert!(round.blocked);
    let first = backlog.next_packet().unwrap();
    assert_eq!(first, vec![1]);
    assert!(matches!(
        backlog.on_send_outcome(&mut round, first, SendOutcome::Sent),
        FlushStep::Next(_)
    ));
    assert_eq!((round.sent_packets, round.sent_bytes), (1, 1));
    let second = backlog.next_packet().unwrap();
    assert!(matches!(
        backlog.on_send_outcome(&mut round, second, SendOutcome::PacketTooBig(vec![7])),
        FlushStep::Answer(_, _)
    ));
    assert!(backlog.is_empty());
}

#[test]
fn commands_become_steps() {
    let mut state = RuntimeState::new(ManagerTunables::default(), false, 5, 0);
    let mut counters = DnsCounters::new();
    let ip = IpAddress::V4([1, 2, 3, 4]);
    let step = state.handle_command(
        &mut counters,
        &vec![ip],
        ManagerCommand::Connect {
            remote_ip: ip,
            remote_port: 80,
            local_port: 49152,
            reserved_slot: true,
            response: 1,
        },
        0,
    );
    assert!(matches!(step, CommandStep::OpenTcp { remote_port: 80, response: 1, .. }));
    let step = state.handle_command(
        &mut counters,
        &vec![ip],
        ManagerCommand::DnsResolve { domain: "a.b".to_string(), prefer_ipv6: false, response: 2 },
        0,
    );
    match step {
        CommandStep::StartDns { start, domain, resolve_all } => {
            assert_eq!(start.server, ip);
            assert_eq!(domain, "a.b");
            assert!(!resolve_all);
        }
        _ => panic!("the name is not known"),
    }
    assert!(state.has_poll_work(0, 0));
    let step =
        state.handle_command(&mut counters, &vec![ip], ManagerCommand::Close { handle: 9 }, 0);
    assert!(matches!(step, CommandStep::DiscardTcp(9)));
    let step = state.handle_command(
        &mut counters,
        &vec![ip],
        ManagerCommand::UdpUnregister { local_port: 5 },
        0,
    );
    assert!(matches!(step, CommandStep::RemoveUdp(None)));
}

#[test]
fn the_environment_sets_the_manager() {
    let vars = Vars {
        entries: vec![("USQUE_CMD_CHANNEL_CAPACITY".to_string(), "7".to_string())],
    };
    assert_eq!(ManagerTunables::from_env(&vars).cmd_channel_capacity, 7);
    assert_eq!(ManagerTunables::default().cmd_channel_capacity, 1024);
}
