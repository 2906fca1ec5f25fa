//! How a tunnel is made, kept and made again.

use crate::manager::backoff::{is_spread, ExponentialBackoff};
use crate::manager::commands::{handle_command_disconnected, DisconnectedReply, ManagerCommand};

use crate::manager::tunables::ManagerTunables;
use crate::socks::ConnectionParams;
use crate::text::{blank, is_blank};
use crate::tunnel::quic::QuicConfig;
use vstd::prelude::*;

verus! {

/// How a QUIC connection is made.
pub fn quic_settings(params: &ConnectionParams) -> (cfg: QuicConfig)
    ensures
        cfg.idle_timeout == params.quic_idle_timeout_ms,
        cfg.initial_packet_size == params.initial_packet_size,
        cfg.congestion_control == params.congestion_control,
        cfg.initial_max_data == 10_000_000,
        cfg.initial_max_stream_data_bidi_local == 1_000_000,
        cfg.initial_max_stream_data_bidi_remote == 1_000_000,
        cfg.initial_max_stream_data_uni == 1_000_000,
        cfg.initial_max_streams_bidi == 100,
        cfg.initial_max_streams_uni == 100,
        cfg.enable_dgram,
        cfg.dgram_recv_max_queue_len == 10_000,
        cfg.dgram_send_max_queue_len == 10_000,
        cfg.max_recv_udp_payload_size == 1350,
        cfg.max_connection_window == 20_000_000,
        cfg.max_stream_window == 8_000_000,
{
    let mut cfg: QuicConfig = QuicConfig::default();
    cfg.idle_timeout = params.quic_idle_timeout_ms;
    cfg.initial_packet_size = params.initial_packet_size;
    cfg.congestion_control = params.congestion_control;
    cfg
}

/// The size of packets that fit a datagram, of which `dgram_max` bytes can be written: three bytes
/// stand before the packet. Where nothing is known of datagrams it is the smallest that IPv6 takes.
pub open spec fn dynamic_mtu(dgram_max: Option<usize>) -> int {
    match dgram_max {
        Some(max) => if max >= 3 {
            max - 3
        } else {
            0
        },
        None => 1280,
    }
}

/// The size of packets in a MASQUE tunnel: the smaller of what fits and what is asked for, where
/// zero asks for nothing.
pub fn masque_mtu(dgram_max: Option<usize>, configured: u16) -> (mtu: usize)
    ensures
        mtu == if configured == 0 || dynamic_mtu(dgram_max) < configured {
            dynamic_mtu(dgram_max)
        } else {
            configured as int
        },
{
    let dynamic: usize = match dgram_max {
        Some(max) => if max >= 3 {
            max - 3
        } else {
            0
        },
        None => 1280,
    };
    if configured == 0 || dynamic < configured as usize {
        dynamic
    } else {
        configured as usize
    }
}

/// The addresses of the stack, without those that are blank.
pub fn stack_addresses(params: &ConnectionParams) -> (res: (Option<&str>, Option<&str>))
    ensures
        match res.0 {
            Some(ip) => ip@ == params.ipv4@ && !blank(params.ipv4@),
            None => blank(params.ipv4@),
        },
        match params.ipv6 {
            Some(ipv6) => match res.1 {
                Some(ip) => ip@ == ipv6@ && !blank(ipv6@),
                None => blank(ipv6@),
            },
            None => res.1 is None,
        },
{
    let ipv4: Option<&str> = if is_blank(params.ipv4.as_str()) {
        None
    } else {
        Some(params.ipv4.as_str())
    };
    let ipv6: Option<&str> = match &params.ipv6 {
        Some(ipv6) => if is_blank(ipv6.as_str()) {
            None
        } else {
            Some(ipv6.as_str())
        },
        None => None,
    };
    (ipv4, ipv6)
}

/// What a WireGuard tunnel is made with.
#[derive(Debug, Clone, Copy)]
pub struct WgSetup {
    pub private_key: [u8; 32],
    pub peer_public_key: [u8; 32],
    pub client_id: [u8; 3],
    /// Seconds between two keepalives.
    pub keepalive: Option<u16>,
    /// The size of packets.
    pub mtu: usize,
}

/// What is missing for a WireGuard tunnel.
pub open spec fn wg_setup_gap(params: ConnectionParams) -> Option<Seq<char>> {
    if params.wg_private_key is None {
        Some("WG private key not set"@)
    } else if params.wg_peer_public_key is None {
        Some("WG peer public key not set"@)
    } else if params.wg_client_id is None {
        Some("WG client_id not set"@)
    } else {
        None
    }
}

/// What a WireGuard tunnel is made with. A keepalive counts in 16 bits; zero is none. Zero as the
/// size of packets is the smallest that IPv6 takes.
pub fn wg_setup(params: &ConnectionParams) -> (res: Result<WgSetup, String>)
    ensures
        match res {
            Ok(setup) => {
                &&& wg_setup_gap(*params) is None
                &&& Some(setup.private_key) == params.wg_private_key
                &&& Some(setup.peer_public_key) == params.wg_peer_public_key
                &&& Some(setup.client_id) == params.wg_client_id
                &&& setup.keepalive == if params.keepalive > 0 {
                    Some((params.keepalive % 65536) as u16)
                } else {
                    None
                }
                &&& setup.mtu == if params.mtu == 0 {
                    1280
                } else {
                    params.mtu as int
                }
            },
            Err(why) => wg_setup_gap(*params) == Some(why@),
        },
{
    let private_key: [u8; 32] = match params.wg_private_key {
        Some(key) => key,
        None => {
            return Err(String::from_str("WG private key not set"));
        },
    };
    let peer_public_key: [u8; 32] = match params.wg_peer_public_key {
        Some(key) => key,
        None => {
            return Err(String::from_str("WG peer public key not set"));
        },
    };
    let client_id: [u8; 3] = match params.wg_client_id {
        Some(id) => id,
        None => {
            return Err(String::from_str("WG client_id not set"));
        },
    };
    let keepalive: Option<u16> = if params.keepalive > 0 {
        Some((params.keepalive % 65536) as u16)
    } else {
        None
    };
    let mtu: usize = if params.mtu == 0 {
        1280
    } else {
        params.mtu as usize
    };
    Ok(WgSetup { private_key, peer_public_key, client_id, keepalive, mtu })
}

/// Where a tunnel is in its life.
#[derive(Debug, Clone, Copy, PartialEq, Eq, Structural)]
pub enum Phase {
    /// It is being made.
    Connecting,
    /// It is up.
    Active,
    /// It is down, and made again after a pause.
    Pausing,
    /// It is no longer wanted.
    Stopped,
}

/// What happens to a tunnel.
#[derive(Debug)]
pub enum LifeEvent {
    /// The tunnel is made.
    Established,
    /// The tunnel could not be made, or nobody can tell.
    ConnectFailed,
    /// The tunnel went down.
    Disconnected,
    /// The pause is over.
    PauseOver,
    /// A command came while the tunnel was not up.
    Command(ManagerCommand),
    /// A UDP packet came while the tunnel was not up.
    UdpSend,
    /// Nobody can give commands any more.
    CommandsClosed,
}

/// What is done with a tunnel.
#[derive(Debug)]
pub enum LifeAction {
    /// It is made.
    Connect,
    /// It is run until it goes down.
    Run,
    /// Milliseconds to wait.
    Pause(u64),
    /// A command is answered; then what was going on goes on.
    Answer(DisconnectedReply),
    /// What was going on goes on.
    Wait,
    /// Nothing more.
    Stop,
}

/// The life of a tunnel.
#[derive(Debug)]
pub struct Maintainer {
    pub phase: Phase,
    pub backoff: ExponentialBackoff,
}

impl Maintainer {
    /// Whether the pauses are in their bounds.
    pub open spec fn wf(&self) -> bool {
        self.backoff.wf()
    }

    /// A tunnel that is to be made.
    pub fn new() -> (m: Maintainer)
        ensures
            m.wf(),
            m.phase == Phase::Connecting,
            m.backoff.next() == 1000,
    {
        Maintainer { phase: Phase::Connecting, backoff: ExponentialBackoff::new() }
    }

    /// What follows an event. Pauses grow while the tunnel cannot be made, and start short again
    /// once it was up. Commands are answered at once while the tunnel is not up; UDP packets are
    /// dropped.
    pub fn on_event(&mut self, event: LifeEvent) -> (action: LifeAction)
        requires
            old(self).wf(),
        ensures
            final(self).wf(),
            match (old(self).phase, event) {
                (Phase::Connecting, LifeEvent::Established) => {
                    &&& action is Run
                    &&& final(self).phase == Phase::Active
                    &&& final(self).backoff.next() == 1000
                },
                (Phase::Connecting, LifeEvent::ConnectFailed) | (
                    Phase::Active,
                    LifeEvent::Disconnected,
                ) => {
                    &&& action matches LifeAction::Pause(ms) && is_spread(
                        old(self).backoff.next(),
                        ms as int,
                    )
                    &&& final(self).phase == Phase::Pausing
                    &&& final(self).backoff.next() == if 2 * old(self).backoff.next() < 60_000 {
                        2 * old(self).backoff.next()
                    } else {
                        60_000
                    }
                },
                (Phase::Pausing, LifeEvent::PauseOver) => {
                    &&& action is Connect
                    &&& final(self).phase == Phase::Connecting
                    &&& final(self).backoff == old(self).backoff
                },
                (Phase::Connecting, LifeEvent::Command(cmd)) | (
                    Phase::Pausing,
                    LifeEvent::Command(cmd),
                ) => {
                    &&& action matches LifeAction::Answer(reply) && answers(cmd, reply)
                    &&& *final(self) == *old(self)
                },
                (Phase::Connecting, LifeEvent::CommandsClosed) | (
                    Phase::Pausing,
                    LifeEvent::CommandsClosed,
                ) => {
                    &&& action is Stop
                    &&& final(self).phase == Phase::Stopped
                    &&& final(self).backoff == old(self).backoff
                },
                (Phase::Stopped, _) => action is Stop && *final(self) == *old(self),
                _ => action is Wait && *final(self) == *old(self),
            },
    {
        match (self.phase, event) {
            (Phase::Connecting, LifeEvent::Established) => {
                self.backoff.reset();
                self.phase = Phase::Active;
                LifeAction::Run
            },
            (Phase::Connecting, LifeEvent::ConnectFailed) => self.pause(),
            (Phase::Active, LifeEvent::Disconnected) => self.pause(),
            (Phase::Pausing, LifeEvent::PauseOver) => {
                self.phase = Phase::Connecting;
                LifeAction::Connect
            },
            (Phase::Connecting, LifeEvent::Command(cmd)) => LifeAction::Answer(
                handle_command_disconnected(cmd),
            ),
            (Phase::Pausing, LifeEvent::Command(cmd)) => LifeAction::Answer(
                handle_command_disconnected(cmd),
            ),
            (Phase::Connecting, LifeEvent::CommandsClosed) => {
                self.phase = Phase::Stopped;
                LifeAction::Stop
            },
            (Phase::Pausing, LifeEvent::CommandsClosed) => {
                self.phase = Phase::Stopped;
                LifeAction::Stop
            },
            (Phase::Stopped, _) => LifeAction::Stop,
            _ => LifeAction::Wait,
        }
    }

    fn pause(&mut self) -> (action: LifeAction)
        requires
            old(self).wf(),
        ensures
            final(self).wf(),
            action matches LifeAction::Pause(ms) && is_spread(
                        old(self).backoff.next(),
                        ms as int,
                    ),
            final(self).phase == Phase::Pausing,
            final(self).backoff.next() == if 2 * old(self).backoff.next() < 60_000 {
                2 * old(self).backoff.next()
            } else {
                60_000
            },
    {
        let ms: u64 = self.backoff.next_delay();
        self.phase = Phase::Pausing;
        LifeAction::Pause(ms)
    }
}

/// How a command is answered while the tunnel is not up.
pub open spec fn answers(cmd: ManagerCommand, reply: DisconnectedReply) -> bool {
    reply == match cmd {
        ManagerCommand::Connect { response, .. } => DisconnectedReply::NotConnected(response),
        ManagerCommand::Close { .. } => DisconnectedReply::Silent,
        ManagerCommand::DnsResolve { response, .. } => DisconnectedReply::NotConnected(response),
        ManagerCommand::DnsResolveAll { response, .. } => DisconnectedReply::NotConnected(response),
        ManagerCommand::UdpRegister { response, .. } => DisconnectedReply::NotConnected(response),
        ManagerCommand::UdpUnregister { .. } => DisconnectedReply::Silent,
        ManagerCommand::GetSocketState { response, .. } => DisconnectedReply::Closed(response),
        ManagerCommand::WaitSocketReady { response, .. } => DisconnectedReply::Closed(response),
    }
}

/// Whether the loop lets others run before its next turn. `poll_timeout` is in nanoseconds.
pub fn should_yield(
    poll_timeout: Option<u64>,
    dirty: bool,
    commands: usize,
    udp_sends: usize,
    incoming: usize,
) -> (res: bool)
    ensures
        res == ((poll_timeout matches Some(timeout) && timeout <= 1_000_000) || (dirty && (commands
            > 0 || udp_sends > 0 || incoming > 0))),
{
    let soon: bool = match poll_timeout {
        Some(timeout) => timeout <= 1_000_000,
        None => false,
    };
    soon || (dirty && (commands > 0 || udp_sends > 0 || incoming > 0))
}

/// What woke the loop of an active tunnel.
#[derive(Debug, Clone, Copy, PartialEq, Eq, Structural)]
pub enum Wake {
    Command,
    UdpSend,
    /// A packet from the tunnel, and whether it went on to the stack or is to be answered.
    Incoming { handled: bool },
    SocketEvent,
    /// The timer of the tunnel itself.
    Maintenance,
    /// The timer of the stack.
    PollTimer,
}

/// What the loop of an active tunnel does after it woke.
#[derive(Debug, Clone, Copy, PartialEq, Eq, Structural)]
pub enum TurnStep {
    /// Answers of the tunnel are sent, if `flush_first`, and then all queues are gone through.
    Cycle { flush_first: bool },
    /// The tunnel's own timers tick.
    Maintain,
    /// The stack is looked at.
    Poll,
}

/// What the loop of an active tunnel does after it woke.
pub fn turn_step(wake: Wake) -> (step: TurnStep)
    ensures
        step == match wake {
            Wake::Command | Wake::UdpSend | Wake::SocketEvent => TurnStep::Cycle {
                flush_first: false,
            },
            Wake::Incoming { handled } => TurnStep::Cycle { flush_first: handled },
            Wake::Maintenance => TurnStep::Maintain,
            Wake::PollTimer => TurnStep::Poll,
        },
{
    match wake {
        Wake::Command => TurnStep::Cycle { flush_first: false },
        Wake::UdpSend => TurnStep::Cycle { flush_first: false },
        Wake::SocketEvent => TurnStep::Cycle { flush_first: false },
        Wake::Incoming { handled } => TurnStep::Cycle { flush_first: handled },
        Wake::Maintenance => TurnStep::Maintain,
        Wake::PollTimer => TurnStep::Poll,
    }
}

/// The queue that the loop goes through.
#[derive(Debug, Clone, Copy, PartialEq, Eq, Structural)]
pub enum CycleQueue {
    SocketEvents,
    Commands,
    UdpSends,
    Incoming,
}

/// One pass through the queues of an active tunnel: each is gone through until it is empty or its
/// budget is used up.
#[derive(Debug, Clone, Copy)]
pub struct DirtyCycle {
    /// The queue that is gone through, `None` once all are done.
    pub queue: Option<CycleQueue>,
    /// How many items may still be taken from it.
    pub left: usize,
    /// Socket events that were taken.
    pub socket_events: usize,
    /// Whether a packet from the tunnel went on to the stack or is to be answered.
    pub handled_incoming: bool,
    /// The budgets of the queues behind the first one.
    pub commands: usize,
    pub udp_sends: usize,
    pub incoming: usize,
}

/// The queue behind another one.
pub open spec fn queue_after(queue: CycleQueue) -> Option<CycleQueue> {
    match queue {
        CycleQueue::SocketEvents => Some(CycleQueue::Commands),
        CycleQueue::Commands => Some(CycleQueue::UdpSends),
        CycleQueue::UdpSends => Some(CycleQueue::Incoming),
        CycleQueue::Incoming => None,
    }
}

impl DirtyCycle {
    /// The budget of a queue behind the first one.
    pub open spec fn budget(&self, queue: Option<CycleQueue>) -> usize {
        match queue {
            Some(CycleQueue::Commands) => self.commands,
            Some(CycleQueue::UdpSends) => self.udp_sends,
            Some(CycleQueue::Incoming) => self.incoming,
            _ => 0,
        }
    }

    /// The pass after its queue is done.
    pub open spec fn advanced(&self) -> DirtyCycle {
        match self.queue {
            Some(queue) => DirtyCycle {
                queue: queue_after(queue),
                left: self.budget(queue_after(queue)),
                ..*self
            },
            None => *self,
        }
    }

    /// How many steps the pass can still take at most.
    pub open spec fn steps_left(&self) -> int {
        match self.queue {
            None => 0,
            Some(CycleQueue::Incoming) => self.left + 1,
            Some(CycleQueue::UdpSends) => self.left + self.incoming + 2,
            Some(CycleQueue::Commands) => self.left + self.udp_sends + self.incoming + 3,
            Some(CycleQueue::SocketEvents) => self.left + self.commands + self.udp_sends
                + self.incoming + 4,
        }
    }

    /// A pass with the budgets of the settings.
    pub fn new(tunables: &ManagerTunables) -> (cycle: DirtyCycle)
        ensures
            cycle.queue == Some(CycleQueue::SocketEvents),
            cycle.left == tunables.socket_event_batch_budget,
            cycle.socket_events == 0,
            !cycle.handled_incoming,
            cycle.commands == tunables.cmd_batch_budget,
            cycle.udp_sends == tunables.udp_batch_budget,
            cycle.incoming == tunables.udp_batch_read_budget,
    {
        DirtyCycle {
            queue: Some(CycleQueue::SocketEvents),
            left: tunables.socket_event_batch_budget,
            socket_events: 0,
            handled_incoming: false,
            commands: tunables.cmd_batch_budget,
            udp_sends: tunables.udp_batch_budget,
            incoming: tunables.udp_batch_read_budget,
        }
    }

    fn advance(&mut self)
        ensures
            *final(self) == old(self).advanced(),
    {
        match self.queue {
            Some(CycleQueue::SocketEvents) => {
                self.queue = Some(CycleQueue::Commands);
                self.left = self.commands;
            },
            Some(CycleQueue::Commands) => {
                self.queue = Some(CycleQueue::UdpSends);
                self.left = self.udp_sends;
            },
            Some(CycleQueue::UdpSends) => {
                self.queue = Some(CycleQueue::Incoming);
                self.left = self.incoming;
            },
            Some(CycleQueue::Incoming) => {
                self.queue = None;
                self.left = 0;
            },
            None => {},
        }
    }

    /// The pass at the first queue, from its own on, that items may be taken from.
    pub open spec fn settled(&self) -> DirtyCycle
        decreases self.steps_left(),
    {
        if self.queue is Some && self.left == 0 {
            self.advanced().settled()
        } else {
            *self
        }
    }

    /// The queue that the next item is taken from, `None` once the pass is done.
    pub fn next_queue(&mut self) -> (queue: Option<CycleQueue>)
        ensures
            *final(self) == old(self).settled(),
            queue == final(self).queue,
            queue is Some ==> final(self).left > 0,
    {
        while self.queue.is_some() && self.left == 0
            invariant
                self.settled() == old(self).settled(),
            decreases self.steps_left(),
        {
            self.advance();
        }
        self.queue
    }

    /// Counts an item that was taken. `handled` says of a packet from the tunnel whether it went on to
    /// the stack or is to be answered.
    pub fn on_item(&mut self, handled: bool)
        requires
            old(self).queue is Some,
            old(self).left > 0,
        ensures
            final(self).queue == old(self).queue,
            final(self).left == old(self).left - 1,
            final(self).socket_events == if old(self).queue == Some(CycleQueue::SocketEvents)
                && old(self).socket_events < usize::MAX {
                old(self).socket_events + 1
            } else {
                old(self).socket_events as int
            },
            final(self).handled_incoming == (old(self).handled_incoming || (old(self).queue == Some(
                CycleQueue::Incoming,
            ) && handled)),
            final(self).commands == old(self).commands,
            final(self).udp_sends == old(self).udp_sends,
            final(self).incoming == old(self).incoming,
    {
        self.left = self.left - 1;
        match self.queue {
            Some(CycleQueue::SocketEvents) => {
                if self.socket_events < usize::MAX {
                    self.socket_events = self.socket_events + 1;
                }
            },
            Some(CycleQueue::Incoming) => {
                self.handled_incoming = self.handled_incoming || handled;
            },
            _ => {},
        }
    }

    /// Goes on to the next queue: this one is empty.
    pub fn on_empty(&mut self)
        ensures
            *final(self) == old(self).advanced(),
    {
        self.advance();
    }
}

/// A pass ends: whatever comes of an item, it can take fewer steps than before.
pub proof fn passes_end(before: DirtyCycle, after: DirtyCycle)
    requires
        before.queue is Some,
        after == before.advanced() || (before.left > 0 && after.queue == before.queue && after.left
            == before.left - 1 && after.commands == before.commands && after.udp_sends
            == before.udp_sends && after.incoming == before.incoming),
    ensures
        0 <= after.steps_left() < before.steps_left(),
{
}

/// A tunnel over datagrams of this size has packets three bytes shorter; where the size is not known
/// they have 1280 bytes.
pub proof fn packets_fit_in_datagrams(max: usize)
    ensures
        dynamic_mtu(None) == 1280,
        max >= 3 ==> dynamic_mtu(Some(max)) + 3 == max,
        max < 3 ==> dynamic_mtu(Some(max)) == 0,
{
}

/// A WireGuard tunnel needs both keys and the client number.
pub proof fn what_a_wg_tunnel_needs(params: ConnectionParams)
    ensures
        wg_setup_gap(params) is None <==> params.wg_private_key is Some
            && params.wg_peer_public_key is Some && params.wg_client_id is Some,
        params.wg_private_key is None ==> wg_setup_gap(params) == Some("WG private key not set"@),
        params.wg_private_key is Some && params.wg_peer_public_key is None ==> wg_setup_gap(params)
            == Some("WG peer public key not set"@),
        params.wg_private_key is Some && params.wg_peer_public_key is Some && params.wg_client_id
            is None ==> wg_setup_gap(params) == Some("WG client_id not set"@),
{
}

/// While the tunnel is down, whoever asks for a connection, a name or a UDP session is told that
/// there is no tunnel, whoever asks for a connection's state that it is closed, and nobody else is
/// told anything.
pub proof fn what_is_answered_without_a_tunnel(cmd: ManagerCommand, reply: DisconnectedReply)
    requires
        answers(cmd, reply),
    ensures
        reply is Silent <==> cmd is Close || cmd is UdpUnregister,
        reply is Closed <==> cmd is GetSocketState || cmd is WaitSocketReady,
        reply is NotConnected <==> cmd is Connect || cmd is DnsResolve || cmd is DnsResolveAll
            || cmd is UdpRegister,
        cmd matches ManagerCommand::Connect { response, .. } ==> reply
            == DisconnectedReply::NotConnected(response),
        cmd matches ManagerCommand::DnsResolve { response, .. } ==> reply
            == DisconnectedReply::NotConnected(response),
        cmd matches ManagerCommand::DnsResolveAll { response, .. } ==> reply
            == DisconnectedReply::NotConnected(response),
        cmd matches ManagerCommand::UdpRegister { response, .. } ==> reply
            == DisconnectedReply::NotConnected(response),
        cmd matches ManagerCommand::GetSocketState { response, .. } ==> reply
            == DisconnectedReply::Closed(response),
        cmd matches ManagerCommand::WaitSocketReady { response, .. } ==> reply
            == DisconnectedReply::Closed(response),
{
}

/// A turn goes through all four queues: socket events, commands, packets from clients, packets from
/// the tunnel, each with its own budget.
pub proof fn all_queues_have_their_turn(cycle: DirtyCycle)
    ensures
        cycle.queue == Some(CycleQueue::SocketEvents) ==> cycle.advanced().queue == Some(
            CycleQueue::Commands,
        ) && cycle.advanced().left == cycle.commands,
        cycle.queue == Some(CycleQueue::Commands) ==> cycle.advanced().queue == Some(
            CycleQueue::UdpSends,
        ) && cycle.advanced().left == cycle.udp_sends,
        cycle.queue == Some(CycleQueue::UdpSends) ==> cycle.advanced().queue == Some(
            CycleQueue::Incoming,
        ) && cycle.advanced().left == cycle.incoming,
        cycle.queue == Some(CycleQueue::Incoming) ==> cycle.advanced().queue is None,
        cycle.queue is None ==> cycle.advanced() == cycle,
        cycle.advanced().handled_incoming == cycle.handled_incoming,
        cycle.advanced().socket_events == cycle.socket_events,
        cycle.queue is Some && cycle.left > 0 ==> cycle.settled() == cycle,
        cycle.settled().queue is Some ==> cycle.settled().left > 0,
    decreases cycle.steps_left(),
{
    if cycle.queue is Some && cycle.left == 0 {
        all_queues_have_their_turn(cycle.advanced());
    }
}

} // verus!
