use usque::addr::IpAddress;
use usque::manager::commands::ManagerCommand;
use usque::manager::load::{ManagerRuntimeStats, TunnelManagerPool};
use usque::manager::ManagerError;

fn loaded(
    max: usize,
    active_tcp_sockets: usize,
    pending_connects: usize,
    pending_to_client_bytes: usize,
    transport_pending_send_packets: usize,
) -> ManagerRuntimeStats {
    let mut stats = ManagerRuntimeStats::new(max);
    stats.update(active_tcp_sockets, pending_to_client_bytes, transport_pending_send_packets);
    stats.pending_connects = pending_connects;
    stats
}

#[test]
fn pick_prefers_less_loaded_worker() {
    let manager0 = loaded(8, 4, 0, 16 * 1024, 8);
    let manager1 = loaded(8, 1, 0, 1024, 0);
    let manager2 = loaded(8, 1, 0, 4 * 1024, 3);

    let mut pool = TunnelManagerPool::from_managers(vec![manager0, manager1, manager2]);

    let picked = pool.pick();
    assert_eq!(picked, 1);
}

#[test]
fn pick_for_tcp_skips_full_worker_and_errors_when_all_full() {
    let manager0 = loaded(2, 2, 0, 0, 0);
    let manager1 = loaded(2, 1, 0, 0, 0);

    let mut pool = TunnelManagerPool::from_managers(vec![manager0, manager1]);

    let picked = pool.pick_for_tcp().expect("one worker still has capacity");
    assert_eq!(picked, 1);
    assert_eq!(pool.managers[1].snapshot().pending_connects, 1);

    assert!(matches!(pool.pick_for_tcp(), Err(ManagerError::Overloaded)));
}

#[test]
fn a_finished_connect_frees_its_slot() {
    let mut stats = ManagerRuntimeStats::new(1);
    assert!(stats.try_reserve_tcp_slot());
    assert!(!stats.try_reserve_tcp_slot());
    stats.finish_reserved_tcp_connect();
    assert!(stats.try_reserve_tcp_slot());
    stats.reset();
    assert_eq!(stats.snapshot().active_tcp_sockets, 0);
}

#[test]
fn equal_workers_take_turns() {
    let mut pool = TunnelManagerPool::new(3, 8);
    let first = pool.pick();
    let second = pool.pick();
    let third = pool.pick();
    let mut seen = vec![first, second, third];
    seen.sort();
    assert_eq!(seen, vec![0, 1, 2]);
}

#[test]
fn a_request_gives_its_slot_back() {
    let mut stats = ManagerRuntimeStats::new(3);
    assert!(stats.try_reserve_tcp_slot());
    assert!(stats.try_reserve_tcp_slot());
    let connect = |reserved_slot| ManagerCommand::Connect {
        remote_ip: IpAddress::V4([1, 1, 1, 1]),
        remote_port: 80,
        local_port: 49152,
        reserved_slot,
        response: 0,
    };
    stats.on_command(&connect(false));
    stats.on_command(&ManagerCommand::Close { handle: 1 });
    assert_eq!(stats.snapshot().pending_connects, 2);
    stats.on_command(&connect(true));
    assert_eq!(stats.snapshot().pending_connects, 1);
}
