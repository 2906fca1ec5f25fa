//! What the manager does with the requests of its clients.

use crate::addr::IpAddress;
use crate::manager::dns_cache::{
    all_that_has_not_expired, candidates, no_names, valid_addresses, which_addresses_may_be_given,
    CachedRecord,
};
use crate::manager::dns_ops::{
    new_group, server_selected, DnsCounters, DnsReply, DnsSockets, DnsStart, DnsState, DnsView,
    GroupView,
};
use crate::manager::perf::{no_counts, PerfCounters, PerfSnapshot};
use crate::manager::sockets::{
    new_socket, without, CloseStep, SocketView, SocketsView, TcpSockets,
};
use crate::manager::tunables::ManagerTunables;
use crate::manager::udp::{UdpSend, UdpSessionState, UdpSessions, UdpView};
use crate::manager::{ManagerError, ManagerFault};
use crate::tunnel::quic::QuicPerfStats;
use crate::tunnel::stack::{DeviceStats, StackError};
use vstd::prelude::*;

verus! {

/// A request to the manager. Whoever waits for the answer is known by a number, and so is a
/// socket.
#[derive(Debug)]
pub enum ManagerCommand {
    Connect { remote_ip: IpAddress, remote_port: u16, local_port: u16, reserved_slot: bool, response: u64 },
    Close { handle: u64 },
    DnsResolve { domain: String, prefer_ipv6: bool, response: u64 },
    DnsResolveAll { domain: String, response: u64 },
    UdpRegister { local_port: u16, response: u64 },
    UdpUnregister { local_port: u16 },
    GetSocketState { handle: u64, response: u64 },
    WaitSocketReady { handle: u64, response: u64 },
}

/// What is left to do for a request.
#[derive(Debug)]
pub enum CommandStep {
    /// Open a TCP socket and connect it.
    OpenTcp { remote_ip: IpAddress, remote_port: u16, local_port: u16, response: u64 },
    /// Tell these that their connection is closed.
    NotifyClosed(Vec<u64>),
    /// Close a TCP socket, and remove it from the stack.
    DiscardTcp(u64),
    /// Give this answer.
    Reply(DnsReply),
    /// Ask this server for the name.
    StartDns { start: DnsStart, domain: String, resolve_all: bool },
    /// Bind a UDP socket to this port.
    BindUdp { local_port: u16, response: u64 },
    /// Remove this UDP socket from the stack, if there is one.
    RemoveUdp(Option<u64>),
    /// Look at a TCP socket, and answer how far its connection has come.
    AnswerState { handle: u64, response: u64 },
    /// Look at a TCP socket, and answer once its connection is no longer being made.
    AwaitReady { handle: u64, response: u64 },
}

/// What a client is told while the tunnel is down.
#[derive(Debug)]
pub enum DisconnectedReply {
    /// Nothing: nobody waits.
    Silent,
    /// That there is no connection.
    NotConnected(u64),
    /// That the connection is closed.
    Closed(u64),
}

/// What a manager keeps while its tunnel is up.
pub struct RuntimeState {
    pub tunables: ManagerTunables,
    pub tcp: TcpSockets,
    pub dns: DnsState,
    pub dns_sockets: DnsSockets,
    pub udp: UdpSessions,
    pub perf: PerfCounters,
}

/// What a client is told while the tunnel is down: that there is no connection, or that theirs is
/// closed.
pub fn handle_command_disconnected(cmd: ManagerCommand) -> (reply: DisconnectedReply)
    ensures
        reply == match cmd {
            ManagerCommand::Connect { response, .. } => DisconnectedReply::NotConnected(response),
            ManagerCommand::Close { .. } => DisconnectedReply::Silent,
            ManagerCommand::DnsResolve { response, .. } => DisconnectedReply::NotConnected(response),
            ManagerCommand::DnsResolveAll { response, .. } => DisconnectedReply::NotConnected(
                response,
            ),
            ManagerCommand::UdpRegister { response, .. } => DisconnectedReply::NotConnected(
                response,
            ),
            ManagerCommand::UdpUnregister { .. } => DisconnectedReply::Silent,
            ManagerCommand::GetSocketState { response, .. } => DisconnectedReply::Closed(response),
            ManagerCommand::WaitSocketReady { response, .. } => DisconnectedReply::Closed(response),
        },
{
    match cmd {
        ManagerCommand::Connect { response, .. } => DisconnectedReply::NotConnected(response),
        ManagerCommand::Close { .. } => DisconnectedReply::Silent,
        ManagerCommand::DnsResolve { response, .. } => DisconnectedReply::NotConnected(response),
        ManagerCommand::DnsResolveAll { response, .. } => DisconnectedReply::NotConnected(response),
        ManagerCommand::UdpRegister { response, .. } => DisconnectedReply::NotConnected(response),
        ManagerCommand::UdpUnregister { .. } => DisconnectedReply::Silent,
        ManagerCommand::GetSocketState { response, .. } => DisconnectedReply::Closed(response),
        ManagerCommand::WaitSocketReady { response, .. } => DisconnectedReply::Closed(response),
    }
}

/// Whether a name has an address in the cache that has not expired.
pub open spec fn is_cached(cache: Map<Seq<char>, Seq<CachedRecord>>, domain: Seq<char>, now: u64) -> bool {
    cache.contains_key(domain) && valid_addresses(cache[domain], now).len() > 0
}

/// The addresses in the cache that a single lookup chooses from.
pub open spec fn cached_choice(
    cache: Map<Seq<char>, Seq<CachedRecord>>,
    domain: Seq<char>,
    now: u64,
    prefer_ipv6: bool,
) -> Seq<IpAddress> {
    if cache.contains_key(domain) {
        candidates(cache[domain], now, prefer_ipv6)
    } else {
        Seq::empty()
    }
}

impl RuntimeState {
    pub open spec fn wf(&self) -> bool {
        &&& self.tcp.wf()
        &&& self.dns.wf()
        &&& self.udp.wf()
        &&& self.perf.interval_secs > 0
    }

    /// Everything but the sockets, the names and the sessions.
    pub open spec fn same_settings(&self, other: &RuntimeState) -> bool {
        &&& self.tunables == other.tunables
        &&& self.dns_sockets == other.dns_sockets
        &&& self.perf == other.perf
    }

    /// Nothing is open, and nothing waits.
    pub fn new(tunables: ManagerTunables, perf_enabled: bool, perf_interval_secs: u64, now: u64) -> (
        state: RuntimeState)
        ensures
            state.wf(),
            state.tunables == tunables,
            state.tcp@ == (SocketsView {
                sockets: Map::empty(),
                handles: Seq::empty(),
                ready: Seq::empty(),
            }),
            state.udp@ == (UdpView { sessions: Map::empty(), ports: Seq::empty() }),
            state.dns@ == (DnsView {
                queries: Map::empty(),
                groups: Map::empty(),
                cache: no_names(),
            }),
            state.dns_sockets.v4 is None,
            state.dns_sockets.v6 is None,
            state.perf == (PerfCounters {
                enabled: perf_enabled,
                interval_secs: if perf_interval_secs > 0 {
                    perf_interval_secs
                } else {
                    1
                },
                last_report: now,
                counts: no_counts(),
            }),
    {
        RuntimeState {
            tunables,
            tcp: TcpSockets::new(),
            dns: DnsState::new(),
            dns_sockets: DnsSockets::new(),
            udp: UdpSessions::new(),
            perf: PerfCounters::new(perf_enabled, perf_interval_secs, now),
        }
    }

    /// Whether the stack needs to be looked at: something is open or waits.
    pub fn has_poll_work(&self, rx_queue_len: usize, tx_queue_len: usize) -> (res: bool)
        requires
            self.wf(),
        ensures
            res == (self.udp@.ports.len() > 0 || self.dns@.queries != Map::<
                u64,
                crate::manager::dns_ops::DnsQueryState,
            >::empty() || self.dns@.groups != Map::<u64, GroupView>::empty() || rx_queue_len > 0
                || tx_queue_len > 0 || self.tcp@.handles.len() > 0),
    {
        !self.udp.is_empty() || self.dns.has_work() || rx_queue_len > 0 || tx_queue_len > 0
            || self.tcp.len() > 0
    }

    /// Takes a request, and says what is left to do for it.
    pub fn handle_command(
        &mut self,
        counters: &mut DnsCounters,
        dns_servers: &Vec<IpAddress>,
        cmd: ManagerCommand,
        now: u64,
    ) -> (step: CommandStep)
        requires
            old(self).wf(),
        ensures
            final(self).wf(),
            final(self).same_settings(old(self)),
            !(cmd is Close) ==> final(self).tcp@ == old(self).tcp@,
            !(cmd is UdpUnregister) ==> final(self).udp@ == old(self).udp@,
            !(cmd is DnsResolve || cmd is DnsResolveAll) ==> final(self).dns@ == old(self).dns@
                && *final(counters) == *old(counters),
            match cmd {
                ManagerCommand::Connect { remote_ip, remote_port, local_port, response, .. } => step
                    == (CommandStep::OpenTcp { remote_ip, remote_port, local_port, response }),
                ManagerCommand::Close { handle } => if old(self).tcp@.sockets.contains_key(handle) {
                    let socket = old(self).tcp@.sockets[handle];
                    &&& step matches CommandStep::NotifyClosed(waiters) && waiters@
                        == socket.waiters
                    &&& final(self).tcp@ == old(self).tcp@.with_socket(
                        handle,
                        SocketView {
                            close_requested: true,
                            write_shutdown: true,
                            waiters: Seq::empty(),
                            ..socket
                        },
                    )
                } else {
                    step == CommandStep::DiscardTcp(handle) && final(self).tcp@ == old(self).tcp@
                },
                ManagerCommand::DnsResolve { domain, prefer_ipv6, response } => {
                    let choice = cached_choice(old(self).dns@.cache, domain@, now, prefer_ipv6);
                    if choice.len() > 0 {
                        &&& step matches CommandStep::Reply(DnsReply::One { responder, address })
                            && responder == response && (address matches Ok(ip)
                            && choice.contains(ip))
                        &&& final(self).dns@ == old(self).dns@
                        &&& *final(counters) == *old(counters)
                    } else {
                        &&& step matches CommandStep::StartDns { start, domain: name, resolve_all }
                            && name@ == domain@ && !resolve_all && start.group_id == old(
                            counters,
                        ).group_id && server_selected(
                            dns_servers@,
                            old(counters).server_index,
                            prefer_ipv6,
                            start.server,
                        )
                        &&& final(self).dns@ == (DnsView {
                            groups: old(self).dns@.groups.insert(
                                old(counters).group_id as u64,
                                new_group(domain@, prefer_ipv6, Some(response), None, now),
                            ),
                            ..old(self).dns@
                        })
                        &&& *final(counters) == old(counters).after_start(dns_servers@.len())
                    }
                },
                ManagerCommand::DnsResolveAll { domain, response } => if is_cached(
                    old(self).dns@.cache,
                    domain@,
                    now,
                ) {
                    &&& step matches CommandStep::Reply(DnsReply::All { responder, addresses })
                        && responder == response && (addresses matches Ok(list) && list@
                        == valid_addresses(old(self).dns@.cache[domain@], now))
                    &&& final(self).dns@ == old(self).dns@
                    &&& *final(counters) == *old(counters)
                } else {
                    &&& step matches CommandStep::StartDns { start, domain: name, resolve_all }
                        && name@ == domain@ && resolve_all && start.group_id == old(
                        counters,
                    ).group_id && server_selected(
                        dns_servers@,
                        old(counters).server_index,
                        true,
                        start.server,
                    )
                    &&& final(self).dns@ == (DnsView {
                        groups: old(self).dns@.groups.insert(
                            old(counters).group_id as u64,
                            new_group(domain@, true, None, Some(response), now),
                        ),
                        ..old(self).dns@
                    })
                    &&& *final(counters) == old(counters).after_start(dns_servers@.len())
                },
                ManagerCommand::UdpRegister { local_port, response } => step
                    == (CommandStep::BindUdp { local_port, response }),
                ManagerCommand::UdpUnregister { local_port } => {
                    &&& step == CommandStep::RemoveUdp(
                        if old(self).udp@.sessions.contains_key(local_port as u64) {
                            Some(old(self).udp@.sessions[local_port as u64].handle)
                        } else {
                            None
                        },
                    )
                    &&& final(self).udp@ == (UdpView {
                        sessions: old(self).udp@.sessions.remove(local_port as u64),
                        ports: without(old(self).udp@.ports, seq![local_port as u64]),
                    })
                },
                ManagerCommand::GetSocketState { handle, response } => step
                    == (CommandStep::AnswerState { handle, response }),
                ManagerCommand::WaitSocketReady { handle, response } => step
                    == (CommandStep::AwaitReady { handle, response }),
            },
    {
        match cmd {
            ManagerCommand::Connect { remote_ip, remote_port, local_port, reserved_slot: _, response } =>
            CommandStep::OpenTcp { remote_ip, remote_port, local_port, response },
            ManagerCommand::Close { handle } => {
                match self.tcp.close_connection(handle) {
                    CloseStep::Notify(waiters) => CommandStep::NotifyClosed(waiters),
                    CloseStep::Discard => CommandStep::DiscardTcp(handle),
                }
            },
            ManagerCommand::DnsResolve { domain, prefer_ipv6, response } => {
                match self.dns.cached(domain.as_str(), prefer_ipv6, now) {
                    Some(ip) => CommandStep::Reply(
                        DnsReply::One { responder: response, address: Ok(ip) },
                    ),
                    None => {
                        let start: DnsStart = self.dns.start_dns_query(
                            counters,
                            &domain,
                            prefer_ipv6,
                            response,
                            dns_servers,
                            now,
                        );
                        CommandStep::StartDns { start, domain, resolve_all: false }
                    },
                }
            },
            ManagerCommand::DnsResolveAll { domain, response } => {
                match self.dns.cached_all(domain.as_str(), now) {
                    Some(list) => CommandStep::Reply(
                        DnsReply::All { responder: response, addresses: Ok(list) },
                    ),
                    None => {
                        let start: DnsStart = self.dns.start_dns_query_all(
                            counters,
                            &domain,
                            response,
                            dns_servers,
                            now,
                        );
                        CommandStep::StartDns { start, domain, resolve_all: true }
                    },
                }
            },
            ManagerCommand::UdpRegister { local_port, response } => CommandStep::BindUdp {
                local_port,
                response,
            },
            ManagerCommand::UdpUnregister { local_port } => CommandStep::RemoveUdp(
                self.udp.unregister_udp_session(local_port),
            ),
            ManagerCommand::GetSocketState { handle, response } => CommandStep::AnswerState {
                handle,
                response,
            },
            ManagerCommand::WaitSocketReady { handle, response } => CommandStep::AwaitReady {
                handle,
                response,
            },
        }
    }

    /// Takes in a TCP socket whose connection is being made, or says why it is not.
    pub fn create_connection(&mut self, handle: u64, connected: Result<(), StackError>) -> (res: Result<
        (),
        ManagerError,
    >)
        requires
            old(self).wf(),
            !old(self).tcp@.sockets.contains_key(handle),
        ensures
            final(self).wf(),
            final(self).same_settings(old(self)),
            final(self).dns@ == old(self).dns@,
            final(self).udp@ == old(self).udp@,
            match connected {
                Ok(_) => res is Ok && final(self).tcp@ == (SocketsView {
                    sockets: old(self).tcp@.sockets.insert(handle, new_socket()),
                    handles: old(self).tcp@.handles.push(handle),
                    ready: old(self).tcp@.ready,
                }),
                Err(e) => (res matches Err(told) && told@ == ManagerFault::Stack(e@))
                    && final(self).tcp@ == old(self).tcp@,
            },
    {
        match connected {
            Ok(_) => {
                self.tcp.insert(handle);
                Ok(())
            },
            Err(e) => Err(ManagerError::Stack(e)),
        }
    }

    /// Opens a UDP session with a socket that was bound, or says why there is none.
    pub fn register_udp_session(
        &mut self,
        local_port: u16,
        bound: Result<u64, StackError>,
        now: u64,
    ) -> (res: Result<(), ManagerError>)
        requires
            old(self).wf(),
        ensures
            final(self).wf(),
            final(self).same_settings(old(self)),
            final(self).dns@ == old(self).dns@,
            final(self).tcp@ == old(self).tcp@,
            match bound {
                Ok(handle) => res is Ok && final(self).udp@ == (UdpView {
                    sessions: old(self).udp@.sessions.insert(
                        local_port as u64,
                        UdpSessionState { handle, last_activity: now },
                    ),
                    ports: old(self).udp@.ports.push(local_port as u64),
                }),
                Err(e) => (res matches Err(told) && told@ == ManagerFault::Stack(e@))
                    && final(self).udp@ == old(self).udp@,
            },
    {
        match bound {
            Ok(handle) => {
                self.udp.register_udp_session(local_port, handle, now);
                Ok(())
            },
            Err(e) => Err(ManagerError::Stack(e)),
        }
    }

    /// The socket through which a client's packet leaves; `None` where its session is unknown, and
    /// the packet is dropped.
    pub fn handle_udp_send(&mut self, cmd: &UdpSend, now: u64) -> (res: Option<u64>)
        requires
            old(self).wf(),
        ensures
            final(self).wf(),
            final(self).same_settings(old(self)),
            final(self).dns@ == old(self).dns@,
            final(self).tcp@ == old(self).tcp@,
            if old(self).udp@.sessions.contains_key(cmd.local_port as u64) {
                let session = old(self).udp@.sessions[cmd.local_port as u64];
                &&& res == Some(session.handle)
                &&& final(self).udp@ == (UdpView {
                    sessions: old(self).udp@.sessions.insert(
                        cmd.local_port as u64,
                        UdpSessionState { handle: session.handle, last_activity: now },
                    ),
                    ports: old(self).udp@.ports,
                })
            } else {
                res is None && final(self).udp@ == old(self).udp@
            },
    {
        self.udp.touch(cmd.local_port, now)
    }

    /// What a report says of the moment. The bytes that wait for the stack and for the clients are
    /// those of all streams together.
    pub fn build_perf_snapshot(
        &self,
        device: DeviceStats,
        pending_from_client_bytes: usize,
        pending_to_client_bytes: usize,
        queues: QueueLengths,
        transport_pending_send_packets: usize,
        quic_stats: Option<QuicPerfStats>,
    ) -> (snapshot: PerfSnapshot)
        requires
            self.wf(),
        ensures
            snapshot.sockets == self.tcp@.handles.len(),
            snapshot.udp_sessions == self.udp@.sessions.dom().len(),
            snapshot.dns_groups == self.dns@.groups.dom().len(),
            snapshot.ready_tcp_queue_len == self.tcp@.ready.len(),
            snapshot == (PerfSnapshot {
                sockets: snapshot.sockets,
                udp_sessions: snapshot.udp_sessions,
                dns_groups: snapshot.dns_groups,
                pending_from_client_bytes,
                pending_to_client_bytes,
                rx_queue_len: device.rx_queue_len,
                tx_queue_len: device.tx_queue_len,
                rx_drops: device.rx_drops,
                tx_drops: device.tx_drops,
                cmd_queue_len: queues.commands,
                udp_queue_len: queues.udp,
                incoming_queue_len: queues.incoming,
                ready_tcp_queue_len: snapshot.ready_tcp_queue_len,
                transport_pending_send_packets,
                quic_stats,
            }),
    {
        PerfSnapshot {
            sockets: self.tcp.len(),
            udp_sessions: self.udp.len(),
            dns_groups: self.dns.group_count(),
            pending_from_client_bytes,
            pending_to_client_bytes,
            rx_queue_len: device.rx_queue_len,
            tx_queue_len: device.tx_queue_len,
            rx_drops: device.rx_drops,
            tx_drops: device.tx_drops,
            cmd_queue_len: queues.commands,
            udp_queue_len: queues.udp,
            incoming_queue_len: queues.incoming,
            ready_tcp_queue_len: self.tcp.ready_len(),
            transport_pending_send_packets,
            quic_stats,
        }
    }
}

/// How much waits for the manager.
#[derive(Debug, Clone, Copy, PartialEq, Eq, Structural)]
pub struct QueueLengths {
    pub commands: usize,
    pub udp: usize,
    pub incoming: usize,
}

/// A name is in the cache if and only if it has a record that has not expired.
pub proof fn what_is_in_the_cache(
    cache: Map<Seq<char>, Seq<CachedRecord>>,
    domain: Seq<char>,
    now: u64,
    prefer_ipv6: bool,
)
    ensures
        is_cached(cache, domain, now) <==> cache.contains_key(domain) && exists|i: int|
            0 <= i < cache[domain].len() && (#[trigger] cache[domain][i]).1 > now,
        cached_choice(cache, domain, now, prefer_ipv6).len() > 0 <==> cache.contains_key(domain)
            && exists|i: int|
            0 <= i < cache[domain].len() && (#[trigger] cache[domain][i]).1 > now,
        forall|ip: IpAddress| #[trigger]
            cached_choice(cache, domain, now, prefer_ipv6).contains(ip) ==> exists|i: int|
                0 <= i < cache[domain].len() && (#[trigger] cache[domain][i]).0 == ip
                    && cache[domain][i].1 > now,
{
    if cache.contains_key(domain) {
        let records = cache[domain];
        let fresh = |r: CachedRecord| r.1 > now;
        all_that_has_not_expired(records, now);
        some_are_left(records, fresh);
        which_addresses_may_be_given(records, now, prefer_ipv6, IpAddress::V4([0, 0, 0, 0]));
        assert forall|ip: IpAddress| #[trigger]
            cached_choice(cache, domain, now, prefer_ipv6).contains(ip) implies exists|i: int|
            0 <= i < records.len() && (#[trigger] records[i]).0 == ip && records[i].1 > now by {
            which_addresses_may_be_given(records, now, prefer_ipv6, ip);
        }
    }
}

proof fn some_are_left(records: Seq<CachedRecord>, fresh: spec_fn(CachedRecord) -> bool)
    ensures
        records.filter(fresh).len() > 0 <==> exists|i: int|
            0 <= i < records.len() && fresh(#[trigger] records[i]),
    decreases records.len(),
{
    reveal(Seq::filter);
    if records.len() > 0 {
        let shorter = records.drop_last();
        some_are_left(shorter, fresh);
        assert forall|i: int| 0 <= i < shorter.len() implies records[i] == #[trigger] shorter[i] by {}
        if exists|i: int| 0 <= i < records.len() && fresh(#[trigger] records[i]) {
            let i = choose|i: int| 0 <= i < records.len() && fresh(#[trigger] records[i]);
            if i < shorter.len() {
                assert(fresh(shorter[i]));
            }
        }
        if exists|i: int| 0 <= i < shorter.len() && fresh(#[trigger] shorter[i]) {
            let i = choose|i: int| 0 <= i < shorter.len() && fresh(#[trigger] shorter[i]);
            assert(fresh(records[i]));
        }
        if fresh(records.last()) {
            assert(fresh(records[records.len() - 1]));
        }
    }
}

/// Settings that stay the same are the tunables, the sockets of lookups and the counters.
pub proof fn which_settings_stay(a: RuntimeState, b: RuntimeState)
    requires
        a.same_settings(&b),
    ensures
        a.tunables == b.tunables,
        a.dns_sockets == b.dns_sockets,
        a.perf == b.perf,
{
}

} // verus!
