//! The settings of a manager.

use crate::vars::Vars;
use vstd::prelude::*;

verus! {

/// Capacities, budgets and times of a manager.
#[derive(Debug, Clone, Copy, PartialEq, Eq, Structural)]
pub struct ManagerTunables {
    /// Commands that may wait.
    pub cmd_channel_capacity: usize,
    /// UDP packets from clients that may wait.
    pub udp_data_channel_capacity: usize,
    /// Packets from the tunnel that may wait.
    pub incoming_dgram_capacity: usize,
    /// Bytes that one packet from the tunnel may have.
    pub udp_recv_buffer_size: usize,
    /// Bytes that are moved between a TCP socket and its client at once.
    pub tcp_chunk_size: usize,
    /// Seconds after which an idle UDP session ends.
    pub udp_session_timeout: u64,
    /// Bytes from a client that may wait.
    pub max_pending_data: usize,
    /// Bytes to a client that may wait.
    pub max_pending_to_client: usize,
    /// Packets from the tunnel that are handled in one turn.
    pub udp_batch_read_budget: usize,
    /// Packets that the stack takes in one turn.
    pub stack_ingress_budget: usize,
    /// Commands that are handled in one turn.
    pub cmd_batch_budget: usize,
    /// UDP packets from clients that are handled in one turn.
    pub udp_batch_budget: usize,
    /// Socket events that are handled in one turn.
    pub socket_event_batch_budget: usize,
    /// Ready TCP sockets up to which only those are looked at.
    pub targeted_tcp_sweep_budget: usize,
    /// Batches of packets to the MASQUE tunnel that may wait.
    pub masque_io_channel_capacity: usize,
    /// Packets in one batch, at least one.
    pub masque_send_batch_size: usize,
    /// Packets that leave for the MASQUE tunnel in one turn.
    pub masque_stack_drain_budget: usize,
    /// Packets that leave for the WireGuard tunnel in one turn.
    pub wg_stack_drain_budget: usize,
    /// TCP sockets of one worker, at least one.
    pub manager_max_tcp_sockets_per_worker: usize,
    /// Buffers that are kept for reuse.
    pub pool_max_size: usize,
    /// Capacity up to which a buffer is kept for reuse, at least 512.
    pub buffer_reuse_max_capacity: usize,
    /// Milliseconds after which the stack is looked at again.
    pub max_poll_interval: u64,
    /// Milliseconds between two ticks of the WireGuard timers.
    pub wg_timer_interval: u64,
    /// Receive buffer of the WireGuard socket.
    pub wg_udp_recv_buffer_size: usize,
    /// Send buffer of the WireGuard socket.
    pub wg_udp_send_buffer_size: usize,
}

/// The settings that hold where the environment says nothing.
pub open spec fn default_tunables() -> ManagerTunables {
    ManagerTunables {
        cmd_channel_capacity: 1024,
        udp_data_channel_capacity: 1024,
        incoming_dgram_capacity: 1024,
        udp_recv_buffer_size: 65535,
        tcp_chunk_size: 65536,
        udp_session_timeout: 300,
        max_pending_data: 131072,
        max_pending_to_client: 131072,
        udp_batch_read_budget: 128,
        stack_ingress_budget: 64,
        cmd_batch_budget: 128,
        udp_batch_budget: 128,
        socket_event_batch_budget: 128,
        targeted_tcp_sweep_budget: 64,
        masque_io_channel_capacity: 256,
        masque_send_batch_size: 32,
        masque_stack_drain_budget: 128,
        wg_stack_drain_budget: 256,
        manager_max_tcp_sockets_per_worker: 1024,
        pool_max_size: 256,
        buffer_reuse_max_capacity: 2048,
        max_poll_interval: 50,
        wg_timer_interval: 250,
        wg_udp_recv_buffer_size: 4194304,
        wg_udp_send_buffer_size: 2097152,
    }
}

impl Default for ManagerTunables {
    fn default() -> (tunables: Self)
        ensures
            tunables == default_tunables(),
    {
        ManagerTunables {
            cmd_channel_capacity: 1024,
            udp_data_channel_capacity: 1024,
            incoming_dgram_capacity: 1024,
            udp_recv_buffer_size: 65535,
            tcp_chunk_size: 65536,
            udp_session_timeout: 300,
            max_pending_data: 131072,
            max_pending_to_client: 131072,
            udp_batch_read_budget: 128,
            stack_ingress_budget: 64,
            cmd_batch_budget: 128,
            udp_batch_budget: 128,
            socket_event_batch_budget: 128,
            targeted_tcp_sweep_budget: 64,
            masque_io_channel_capacity: 256,
            masque_send_batch_size: 32,
            masque_stack_drain_budget: 128,
            wg_stack_drain_budget: 256,
            manager_max_tcp_sockets_per_worker: 1024,
            pool_max_size: 256,
            buffer_reuse_max_capacity: 2048,
            max_poll_interval: 50,
            wg_timer_interval: 250,
            wg_udp_recv_buffer_size: 4194304,
            wg_udp_send_buffer_size: 2097152,
        }
    }
}

/// `n`, but at least `least`.
pub open spec fn at_least(n: nat, least: nat) -> nat {
    if n < least {
        least
    } else {
        n
    }
}

fn raised(n: usize, least: usize) -> (res: usize)
    ensures
        res == at_least(n as nat, least as nat),
{
    if n < least {
        least
    } else {
        n
    }
}

impl ManagerTunables {
    /// Reads the settings from the environment.
    pub fn from_env(vars: &Vars) -> (tunables: ManagerTunables)
        ensures
            tunables.cmd_channel_capacity == vars.number_or(
                "USQUE_CMD_CHANNEL_CAPACITY"@,
                usize::MAX as nat,
                1024,
            ),
            tunables.udp_data_channel_capacity == vars.number_or(
                "USQUE_UDP_CHANNEL_CAPACITY"@,
                usize::MAX as nat,
                1024,
            ),
            tunables.incoming_dgram_capacity == vars.number_or(
                "USQUE_INCOMING_DGRAM_CAPACITY"@,
                usize::MAX as nat,
                1024,
            ),
            tunables.udp_recv_buffer_size == vars.number_or(
                "USQUE_INCOMING_UDP_BUFFER_SIZE"@,
                usize::MAX as nat,
                65535,
            ),
            tunables.tcp_chunk_size == vars.number_or(
                "USQUE_TCP_CHUNK_SIZE"@,
                usize::MAX as nat,
                65536,
            ),
            tunables.udp_session_timeout == vars.number_or(
                "USQUE_UDP_SESSION_TIMEOUT_SECS"@,
                u64::MAX as nat,
                300,
            ),
            tunables.max_pending_data == vars.number_or(
                "USQUE_MAX_PENDING_DATA"@,
                usize::MAX as nat,
                131072,
            ),
            tunables.max_pending_to_client == vars.number_or(
                "USQUE_MAX_PENDING_TO_CLIENT"@,
                usize::MAX as nat,
                131072,
            ),
            tunables.udp_batch_read_budget == vars.number_or(
                "USQUE_UDP_BATCH_READ_BUDGET"@,
                usize::MAX as nat,
                128,
            ),
            tunables.stack_ingress_budget == vars.number_or(
                "USQUE_STACK_INGRESS_BUDGET"@,
                usize::MAX as nat,
                64,
            ),
            tunables.cmd_batch_budget == vars.number_or(
                "USQUE_CMD_BATCH_BUDGET"@,
                usize::MAX as nat,
                128,
            ),
            tunables.udp_batch_budget == vars.number_or(
                "USQUE_UDP_BATCH_BUDGET"@,
                usize::MAX as nat,
                128,
            ),
            tunables.socket_event_batch_budget == vars.number_or(
                "USQUE_SOCKET_EVENT_BATCH_BUDGET"@,
                usize::MAX as nat,
                128,
            ),
            tunables.targeted_tcp_sweep_budget == vars.number_or(
                "USQUE_TARGETED_TCP_SWEEP_BUDGET"@,
                usize::MAX as nat,
                64,
            ),
            tunables.masque_io_channel_capacity == vars.number_or(
                "USQUE_MASQUE_IO_CHANNEL_CAPACITY"@,
                usize::MAX as nat,
                256,
            ),
            tunables.masque_send_batch_size == at_least(
                vars.number_or("USQUE_MASQUE_SEND_BATCH_SIZE"@, usize::MAX as nat, 32),
                1,
            ),
            tunables.masque_stack_drain_budget == vars.number_or(
                "USQUE_MASQUE_STACK_DRAIN_BUDGET"@,
                usize::MAX as nat,
                128,
            ),
            tunables.wg_stack_drain_budget == vars.number_or(
                "USQUE_WG_STACK_DRAIN_BUDGET"@,
                usize::MAX as nat,
                256,
            ),
            tunables.manager_max_tcp_sockets_per_worker == at_least(
                vars.number_or("USQUE_MANAGER_MAX_TCP_SOCKETS_PER_WORKER"@, usize::MAX as nat, 1024),
                1,
            ),
            tunables.pool_max_size == vars.number_or(
                "USQUE_BUFFER_POOL_MAX_SIZE"@,
                usize::MAX as nat,
                256,
            ),
            tunables.buffer_reuse_max_capacity == at_least(
                vars.number_or("USQUE_BUFFER_POOL_KEEP_CAPACITY"@, usize::MAX as nat, 2048),
                512,
            ),
            tunables.max_poll_interval == vars.number_or(
                "USQUE_MAX_POLL_INTERVAL_MS"@,
                u64::MAX as nat,
                50,
            ),
            tunables.wg_timer_interval == vars.number_or(
                "USQUE_WG_TIMER_INTERVAL_MS"@,
                u64::MAX as nat,
                250,
            ),
            tunables.wg_udp_recv_buffer_size == vars.number_or(
                "USQUE_WG_UDP_RECVBUF"@,
                usize::MAX as nat,
                4194304,
            ),
            tunables.wg_udp_send_buffer_size == vars.number_or(
                "USQUE_WG_UDP_SNDBUF"@,
                usize::MAX as nat,
                2097152,
            ),
    {
        let defaults: ManagerTunables = ManagerTunables::default();
        ManagerTunables {
            cmd_channel_capacity: vars.env_usize("USQUE_CMD_CHANNEL_CAPACITY", defaults.cmd_channel_capacity),
            udp_data_channel_capacity: vars.env_usize("USQUE_UDP_CHANNEL_CAPACITY", defaults.udp_data_channel_capacity),
            incoming_dgram_capacity: vars.env_usize("USQUE_INCOMING_DGRAM_CAPACITY", defaults.incoming_dgram_capacity),
            udp_recv_buffer_size: vars.env_usize("USQUE_INCOMING_UDP_BUFFER_SIZE", defaults.udp_recv_buffer_size),
            tcp_chunk_size: vars.env_usize("USQUE_TCP_CHUNK_SIZE", defaults.tcp_chunk_size),
            udp_session_timeout: vars.env_u64("USQUE_UDP_SESSION_TIMEOUT_SECS", defaults.udp_session_timeout),
            max_pending_data: vars.env_usize("USQUE_MAX_PENDING_DATA", defaults.max_pending_data),
            max_pending_to_client: vars.env_usize("USQUE_MAX_PENDING_TO_CLIENT", defaults.max_pending_to_client),
            udp_batch_read_budget: vars.env_usize("USQUE_UDP_BATCH_READ_BUDGET", defaults.udp_batch_read_budget),
            stack_ingress_budget: vars.env_usize("USQUE_STACK_INGRESS_BUDGET", defaults.stack_ingress_budget),
            cmd_batch_budget: vars.env_usize("USQUE_CMD_BATCH_BUDGET", defaults.cmd_batch_budget),
            udp_batch_budget: vars.env_usize("USQUE_UDP_BATCH_BUDGET", defaults.udp_batch_budget),
            socket_event_batch_budget: vars.env_usize("USQUE_SOCKET_EVENT_BATCH_BUDGET", defaults.socket_event_batch_budget),
            targeted_tcp_sweep_budget: vars.env_usize("USQUE_TARGETED_TCP_SWEEP_BUDGET", defaults.targeted_tcp_sweep_budget),
            masque_io_channel_capacity: vars.env_usize("USQUE_MASQUE_IO_CHANNEL_CAPACITY", defaults.masque_io_channel_capacity),
            masque_send_batch_size: raised(
                vars.env_usize("USQUE_MASQUE_SEND_BATCH_SIZE", defaults.masque_send_batch_size),
                1,
            ),
            masque_stack_drain_budget: vars.env_usize("USQUE_MASQUE_STACK_DRAIN_BUDGET", defaults.masque_stack_drain_budget),
            wg_stack_drain_budget: vars.env_usize("USQUE_WG_STACK_DRAIN_BUDGET", defaults.wg_stack_drain_budget),
            manager_max_tcp_sockets_per_worker: raised(
                vars.env_usize("USQUE_MANAGER_MAX_TCP_SOCKETS_PER_WORKER", defaults.manager_max_tcp_sockets_per_worker),
                1,
            ),
            pool_max_size: vars.env_usize("USQUE_BUFFER_POOL_MAX_SIZE", defaults.pool_max_size),
            buffer_reuse_max_capacity: raised(
                vars.env_usize("USQUE_BUFFER_POOL_KEEP_CAPACITY", defaults.buffer_reuse_max_capacity),
                512,
            ),
            max_poll_interval: vars.env_u64("USQUE_MAX_POLL_INTERVAL_MS", defaults.max_poll_interval),
            wg_timer_interval: vars.env_u64("USQUE_WG_TIMER_INTERVAL_MS", defaults.wg_timer_interval),
            wg_udp_recv_buffer_size: vars.env_usize("USQUE_WG_UDP_RECVBUF", defaults.wg_udp_recv_buffer_size),
            wg_udp_send_buffer_size: vars.env_usize("USQUE_WG_UDP_SNDBUF", defaults.wg_udp_send_buffer_size),
        }
    }
}

/// A number is raised to the least that is allowed, and stays where it is larger.
pub proof fn numbers_are_raised(n: nat, least: nat)
    ensures
        at_least(n, least) >= n,
        at_least(n, least) >= least,
        at_least(n, least) == n || at_least(n, least) == least,
{
}

/// What is usual where nothing is set.
pub proof fn what_is_usual()
    ensures
        ({
            let t = default_tunables();
            &&& t.cmd_channel_capacity == 1024 && t.udp_data_channel_capacity == 1024
                && t.incoming_dgram_capacity == 1024
            &&& t.udp_recv_buffer_size == 65535 && t.tcp_chunk_size == 65536
            &&& t.udp_session_timeout == 300
            &&& t.max_pending_data == 131072 && t.max_pending_to_client == 131072
            &&& t.udp_batch_read_budget == 128 && t.stack_ingress_budget == 64
            &&& t.cmd_batch_budget == 128 && t.udp_batch_budget == 128
                && t.socket_event_batch_budget == 128 && t.targeted_tcp_sweep_budget == 64
            &&& t.masque_io_channel_capacity == 256 && t.masque_send_batch_size == 32
                && t.masque_stack_drain_budget == 128 && t.wg_stack_drain_budget == 256
            &&& t.manager_max_tcp_sockets_per_worker == 1024
            &&& t.pool_max_size == 256 && t.buffer_reuse_max_capacity == 2048
            &&& t.max_poll_interval == 50 && t.wg_timer_interval == 250
            &&& t.wg_udp_recv_buffer_size == 4194304 && t.wg_udp_send_buffer_size == 2097152
        }),
{
}

} // verus!
