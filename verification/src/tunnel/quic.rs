//! The QUIC connection under the MASQUE tunnel.

use crate::text::{decimal, lowercase, push_decimal, same_bytes, same_text, to_lower};
use crate::vars::Vars;
use vstd::prelude::*;

verus! {

/// Why the QUIC connection failed.
#[derive(Debug)]
pub enum QuicError {
    IoError(String),
    Quiche(String),
    ConnectionError(String),
    HandshakeTimeout,
    PublicKeyMismatch,
}

/// A congestion control algorithm.
#[derive(Debug, Clone, Copy, PartialEq, Eq, Structural)]
pub enum CongestionControl {
    Reno,
    Cubic,
    Bbr2,
}

impl Default for CongestionControl {
    fn default() -> (cc: Self)
        ensures
            cc == CongestionControl::Bbr2,
    {
        CongestionControl::Bbr2
    }
}

/// The algorithm with this name in lower case.
pub open spec fn algorithm_named(lower: Seq<char>) -> Option<CongestionControl> {
    if lower == "reno"@ {
        Some(CongestionControl::Reno)
    } else if lower == "cubic"@ {
        Some(CongestionControl::Cubic)
    } else if lower == "bbr"@ || lower == "bbr2"@ || lower == "bbrv2"@ {
        Some(CongestionControl::Bbr2)
    } else {
        None
    }
}

/// What is said of a name that no algorithm has.
pub open spec fn unknown_algorithm(name: Seq<char>) -> Seq<char> {
    "Unknown congestion control algorithm: "@ + name + ". Valid options: reno, cubic, bbr2"@
}

impl CongestionControl {
    /// The algorithm with the name `lower`, which is `given` in lower case.
    pub fn from_lowercase(lower: &str, given: &str) -> (res: Result<CongestionControl, String>)
        ensures
            match res {
                Ok(cc) => algorithm_named(lower@) == Some(cc),
                Err(text) => algorithm_named(lower@) is None && text@ == unknown_algorithm(given@),
            },
    {
        if same_text(lower, "reno") {
            Ok(CongestionControl::Reno)
        } else if same_text(lower, "cubic") {
            Ok(CongestionControl::Cubic)
        } else if same_text(lower, "bbr") || same_text(lower, "bbr2") || same_text(lower, "bbrv2") {
            Ok(CongestionControl::Bbr2)
        } else {
            Err(
                String::from_str("Unknown congestion control algorithm: ").concat(given).concat(
                    ". Valid options: reno, cubic, bbr2",
                ),
            )
        }
    }

    /// The algorithm with the name `s`, in any case.
    pub fn from_name(s: &str) -> (res: Result<CongestionControl, String>)
        ensures
            match res {
                Ok(cc) => algorithm_named(lowercase(s@)) == Some(cc),
                Err(text) => algorithm_named(lowercase(s@)) is None && text@ == unknown_algorithm(
                    s@,
                ),
            },
    {
        let lower: String = to_lower(s);
        CongestionControl::from_lowercase(lower.as_str(), s)
    }

    /// The name of the algorithm.
    pub fn name(self) -> (name: &'static str)
        ensures
            algorithm_named(name@) == Some(self),
            name@ == match self {
                CongestionControl::Reno => "reno"@,
                CongestionControl::Cubic => "cubic"@,
                CongestionControl::Bbr2 => "bbr2"@,
            },
    {
        proof {
            reveal_strlit("reno");
            reveal_strlit("cubic");
            reveal_strlit("bbr2");
            assert("reno"@.len() == 4 && "cubic"@.len() == 5 && "bbr2"@.len() == 4);
            assert("reno"@[0] != "bbr2"@[0]);
        }
        match self {
            CongestionControl::Reno => "reno",
            CongestionControl::Cubic => "cubic",
            CongestionControl::Bbr2 => "bbr2",
        }
    }
}

/// The limits of a QUIC connection. Times are in milliseconds.
#[derive(Debug, Clone, Copy, PartialEq, Eq, Structural)]
pub struct QuicConfig {
    pub idle_timeout: u64,
    pub initial_max_data: u64,
    pub initial_max_stream_data_bidi_local: u64,
    pub initial_max_stream_data_bidi_remote: u64,
    pub initial_max_stream_data_uni: u64,
    pub initial_max_streams_bidi: u64,
    pub initial_max_streams_uni: u64,
    pub enable_dgram: bool,
    pub dgram_recv_max_queue_len: u64,
    pub dgram_send_max_queue_len: u64,
    pub initial_packet_size: u16,
    pub max_recv_udp_payload_size: usize,
    pub max_connection_window: u64,
    pub max_stream_window: u64,
    pub congestion_control: CongestionControl,
}

impl Default for QuicConfig {
    fn default() -> (cfg: Self)
        ensures
            cfg == (QuicConfig {
                idle_timeout: 30_000,
                initial_max_data: 10_000_000,
                initial_max_stream_data_bidi_local: 1_000_000,
                initial_max_stream_data_bidi_remote: 1_000_000,
                initial_max_stream_data_uni: 1_000_000,
                initial_max_streams_bidi: 100,
                initial_max_streams_uni: 100,
                enable_dgram: true,
                dgram_recv_max_queue_len: 10_000,
                dgram_send_max_queue_len: 10_000,
                initial_packet_size: 1242,
                max_recv_udp_payload_size: 1350,
                max_connection_window: 20_000_000,
                max_stream_window: 8_000_000,
                congestion_control: CongestionControl::Cubic,
            }),
    {
        QuicConfig {
            idle_timeout: 30_000,
            initial_max_data: 10_000_000,
            initial_max_stream_data_bidi_local: 1_000_000,
            initial_max_stream_data_bidi_remote: 1_000_000,
            initial_max_stream_data_uni: 1_000_000,
            initial_max_streams_bidi: 100,
            initial_max_streams_uni: 100,
            enable_dgram: true,
            dgram_recv_max_queue_len: 10_000,
            dgram_send_max_queue_len: 10_000,
            initial_packet_size: 1242,
            max_recv_udp_payload_size: 1350,
            max_connection_window: 20_000_000,
            max_stream_window: 8_000_000,
            congestion_control: CongestionControl::Cubic,
        }
    }
}

impl QuicConfig {
    /// The size of the buffers that packets are written to: the packet size, but at least
    /// 1350 bytes.
    pub fn max_datagram_size(&self) -> (size: usize)
        ensures
            size == if self.initial_packet_size > 1350 {
                self.initial_packet_size as int
            } else {
                1350
            },
    {
        if self.initial_packet_size > 1350 {
            self.initial_packet_size as usize
        } else {
            1350
        }
    }
}

/// The limit on the sending rate, in megabits per second, that the environment sets.
pub open spec fn pacing_limit(vars: &Vars) -> Option<nat> {
    match vars.number("USQUE_QUIC_MAX_PACING_RATE_MBPS"@, u64::MAX as nat) {
        Some(n) => if n > 0 {
            Some(n)
        } else {
            None
        },
        None => None,
    }
}

/// The limit on the sending rate, in bits per second, that the environment sets; `None`
/// where it sets none, or zero. `Err` where the rate does not fit 64 bits.
pub fn max_pacing_rate(vars: &Vars) -> (res: Result<Option<u64>, u64>)
    ensures
        match pacing_limit(vars) {
            None => res == Ok::<Option<u64>, u64>(None),
            Some(mbps) => if mbps * 1_000_000 <= u64::MAX {
                res == Ok::<Option<u64>, u64>(Some((mbps * 1_000_000) as u64))
            } else {
                res == Err::<Option<u64>, u64>(mbps as u64)
            },
        },
{
    match vars.read_u64("USQUE_QUIC_MAX_PACING_RATE_MBPS") {
        Some(mbps) => {
            if mbps == 0 {
                return Ok(None);
            }
            match mbps.checked_mul(1_000_000) {
                Some(rate) => Ok(Some(rate)),
                None => Err(mbps),
            }
        },
        None => Ok(None),
    }
}

/// What a run of sending achieved.
#[derive(Debug, Clone, Copy, PartialEq, Eq, Structural)]
pub struct QuicSendStatus {
    pub bytes_sent: usize,
    pub packets_sent: usize,
    pub blocked: bool,
    pub enobufs: bool,
    pub paced: bool,
}

impl Default for QuicSendStatus {
    fn default() -> (status: Self)
        ensures
            status == (QuicSendStatus {
                bytes_sent: 0,
                packets_sent: 0,
                blocked: false,
                enobufs: false,
                paced: false,
            }),
    {
        QuicSendStatus {
            bytes_sent: 0,
            packets_sent: 0,
            blocked: false,
            enobufs: false,
            paced: false,
        }
    }
}

impl QuicSendStatus {
    /// The status with one more packet of `bytes` bytes.
    pub open spec fn with_sent(self, bytes: nat) -> QuicSendStatus {
        QuicSendStatus {
            bytes_sent: (self.bytes_sent + bytes) as usize,
            packets_sent: (self.packets_sent + 1) as usize,
            ..self
        }
    }

    /// Whether one more packet of `bytes` bytes can be counted.
    pub open spec fn has_room(self, bytes: nat) -> bool {
        self.bytes_sent + bytes <= usize::MAX && self.packets_sent + 1 <= usize::MAX
    }

    /// Counts a packet.
    pub fn record_sent(&mut self, bytes: usize)
        requires
            old(self).has_room(bytes as nat),
        ensures
            *final(self) == old(self).with_sent(bytes as nat),
    {
        self.bytes_sent = self.bytes_sent + bytes;
        self.packets_sent = self.packets_sent + 1;
    }
}

/// Figures of a connection's path.
#[derive(Debug, Clone, Copy, PartialEq, Eq, Structural)]
pub struct QuicPerfStats {
    pub rtt_ms: u64,
    pub cwnd: usize,
    pub lost: usize,
    pub total_pto_count: usize,
    pub delivery_rate_bps: u64,
    pub dgram_recv: usize,
    pub dgram_sent: usize,
}

impl Default for QuicPerfStats {
    fn default() -> (stats: Self)
        ensures
            stats == (QuicPerfStats {
                rtt_ms: 0,
                cwnd: 0,
                lost: 0,
                total_pto_count: 0,
                delivery_rate_bps: 0,
                dgram_recv: 0,
                dgram_sent: 0,
            }),
    {
        QuicPerfStats {
            rtt_ms: 0,
            cwnd: 0,
            lost: 0,
            total_pto_count: 0,
            delivery_rate_bps: 0,
            dgram_recv: 0,
            dgram_sent: 0,
        }
    }
}

/// One path of a connection: whether it is in use, its round-trip time in milliseconds and
/// its other figures.
#[derive(Debug, Clone, Copy, PartialEq, Eq, Structural)]
pub struct PathFigures {
    pub active: bool,
    pub rtt_ms: u128,
    pub cwnd: usize,
    pub lost: usize,
    pub total_pto_count: usize,
    pub delivery_rate: u64,
    pub dgram_recv: usize,
    pub dgram_sent: usize,
}

/// The figures of one path.
pub open spec fn stats_of(path: PathFigures) -> QuicPerfStats {
    QuicPerfStats {
        rtt_ms: if path.rtt_ms > u64::MAX {
            u64::MAX
        } else {
            path.rtt_ms as u64
        },
        cwnd: path.cwnd,
        lost: path.lost,
        total_pto_count: path.total_pto_count,
        delivery_rate_bps: path.delivery_rate,
        dgram_recv: path.dgram_recv,
        dgram_sent: path.dgram_sent,
    }
}

/// The figures of the first path that is in use, or else of the first path.
pub fn perf_stats(paths: &Vec<PathFigures>) -> (res: Option<QuicPerfStats>)
    ensures
        match res {
            None => paths@.len() == 0,
            Some(stats) => paths@.len() > 0 && if exists|i: int|
                0 <= i < paths@.len() && (#[trigger] paths@[i]).active {
                exists|i: int|
                    #![trigger paths@[i]]
                    0 <= i < paths@.len() && paths@[i].active && stats == stats_of(paths@[i]) && (
                    forall|k: int| 0 <= k < i ==> !(#[trigger] paths@[k]).active)
            } else {
                stats == stats_of(paths@[0])
            },
        },
{
    if paths.len() == 0 {
        return None;
    }
    let mut i: usize = 0;
    while i < paths.len() && !paths[i].active
        invariant
            i <= paths@.len(),
            forall|k: int| 0 <= k < i ==> !(#[trigger] paths@[k]).active,
        decreases paths@.len() - i,
    {
        i += 1;
    }
    let path: PathFigures = if i < paths.len() {
        paths[i]
    } else {
        paths[0]
    };
    Some(
        QuicPerfStats {
            rtt_ms: if path.rtt_ms > u64::MAX as u128 {
                u64::MAX
            } else {
                path.rtt_ms as u64
            },
            cwnd: path.cwnd,
            lost: path.lost,
            total_pto_count: path.total_pto_count,
            delivery_rate_bps: path.delivery_rate,
            dgram_recv: path.dgram_recv,
            dgram_sent: path.dgram_sent,
        },
    )
}

/// Whether an operating system error says that there are no buffers left: 55 on macOS and
/// BSD, 105 on Linux.
pub fn is_enobufs(raw_os_error: Option<i32>) -> (res: bool)
    ensures
        res == (raw_os_error == Some(55i32) || raw_os_error == Some(105i32)),
{
    match raw_os_error {
        Some(code) => code == 55 || code == 105,
        None => false,
    }
}

/// What came of handing a packet to the UDP socket.
#[derive(Debug)]
pub enum UdpSend {
    /// The socket took this many bytes.
    Sent(usize),
    /// The socket cannot take the packet now.
    WouldBlock,
    /// The operating system failed, with this number and this description.
    Failed(Option<i32>, String),
}

/// What is to be done next in a run of sending.
#[derive(Debug, Clone, Copy, PartialEq, Eq, Structural)]
pub enum SendAction {
    /// Hand the packet that is held back to the socket.
    SendPending,
    /// Ask the connection for the next packet.
    Produce,
    /// The run is over.
    Stop,
}

/// What is to be done with a packet that the connection gave.
#[derive(Debug, Clone, Copy, PartialEq, Eq, Structural)]
pub enum ProducedAction {
    /// Hand it to the socket now.
    SendNow,
    /// It is held back until its time, and the run is over.
    Held,
}

/// The sending side of a connection: at most one packet is held back, because its time has
/// not come or because the socket would not take it. Times are nanoseconds of one clock.
#[derive(Debug)]
pub struct SendPump {
    pub pending: Vec<u8>,
    pub pending_at: Option<u64>,
    pub pending_socket_blocked: bool,
    pub flush_pending: bool,
}

/// The text for a packet of which the socket took only a part.
pub open spec fn partial_send(sent: nat, len: nat) -> Seq<char> {
    "partial UDP datagram send: sent "@ + decimal(sent) + " of "@ + decimal(len) + " bytes"@
}

fn partial_send_text(sent: usize, len: usize) -> (text: String)
    ensures
        text@ == partial_send(sent as nat, len as nat),
{
    let mut text: String = String::from_str("partial UDP datagram send: sent ");
    push_decimal(&mut text, sent as u64);
    text.append(" of ");
    push_decimal(&mut text, len as u64);
    text.append(" bytes");
    text
}

impl SendPump {
    /// No packet is held back.
    pub open spec fn idle(&self) -> bool {
        self.pending@.len() == 0 && self.pending_at is None && !self.pending_socket_blocked
    }

    /// Nothing to send yet.
    pub fn new() -> (pump: SendPump)
        ensures
            pump.idle(),
            !pump.flush_pending,
    {
        SendPump {
            pending: Vec::new(),
            pending_at: None,
            pending_socket_blocked: false,
            flush_pending: false,
        }
    }

    /// What comes next at time `now`. A packet that is held back goes first, and not before
    /// its time.
    pub fn next_action(&self, now: u64, status: &mut QuicSendStatus) -> (action: SendAction)
        ensures
            self.pending@.len() == 0 ==> action is Produce && *final(status) == *old(status),
            self.pending@.len() > 0 ==> if self.pending_at matches Some(at) && at > now {
                action is Stop && *final(status) == (QuicSendStatus { paced: true, ..*old(status) })
            } else {
                action is SendPending && *final(status) == *old(status)
            },
    {
        if self.pending.len() == 0 {
            return SendAction::Produce;
        }
        match self.pending_at {
            Some(at) => {
                if at > now {
                    status.paced = true;
                    return SendAction::Stop;
                }
            },
            None => {},
        }
        SendAction::SendPending
    }

    /// Takes note of what came of handing the packet that is held back to the socket. It is
    /// held back further where the socket would not take it.
    pub fn on_pending_sent(&mut self, outcome: UdpSend, status: &mut QuicSendStatus) -> (res: Result<
        SendAction,
        QuicError,
    >)
        requires
            old(self).pending@.len() > 0,
            old(status).has_room(old(self).pending@.len()),
        ensures
            final(self).flush_pending == old(self).flush_pending,
            match outcome {
                UdpSend::Sent(sent) => if sent == old(self).pending@.len() {
                    &&& res == Ok::<SendAction, QuicError>(SendAction::Produce)
                    &&& final(self).idle()
                    &&& *final(status) == old(status).with_sent(sent as nat)
                } else {
                    &&& res matches Err(QuicError::IoError(text)) && text@ == partial_send(
                        sent as nat,
                        old(self).pending@.len(),
                    )
                    &&& *final(self) == *old(self)
                    &&& *final(status) == *old(status)
                },
                UdpSend::WouldBlock => {
                    &&& res == Ok::<SendAction, QuicError>(SendAction::Stop)
                    &&& final(self).pending@ == old(self).pending@
                    &&& final(self).pending_at == old(self).pending_at
                    &&& final(self).pending_socket_blocked
                    &&& *final(status) == (QuicSendStatus { blocked: true, ..*old(status) })
                },
                UdpSend::Failed(code, text) => if code == Some(55i32) || code == Some(105i32) {
                    &&& res == Ok::<SendAction, QuicError>(SendAction::Stop)
                    &&& final(self).pending@ == old(self).pending@
                    &&& final(self).pending_at == old(self).pending_at
                    &&& final(self).pending_socket_blocked
                    &&& *final(status) == (QuicSendStatus {
                        blocked: true,
                        enobufs: true,
                        ..*old(status)
                    })
                } else {
                    &&& res matches Err(QuicError::IoError(told)) && told@ == text@
                    &&& *final(self) == *old(self)
                    &&& *final(status) == *old(status)
                },
            },
    {
        match outcome {
            UdpSend::Sent(sent) => {
                let len: usize = self.pending.len();
                if sent != len {
                    return Err(QuicError::IoError(partial_send_text(sent, len)));
                }
                self.pending.clear();
                self.pending_at = None;
                self.pending_socket_blocked = false;
                status.record_sent(sent);
                Ok(SendAction::Produce)
            },
            UdpSend::WouldBlock => {
                self.pending_socket_blocked = true;
                status.blocked = true;
                Ok(SendAction::Stop)
            },
            UdpSend::Failed(code, text) => {
                if is_enobufs(code) {
                    self.pending_socket_blocked = true;
                    status.blocked = true;
                    status.enobufs = true;
                    Ok(SendAction::Stop)
                } else {
                    Err(QuicError::IoError(text))
                }
            },
        }
    }

    /// Takes a packet from the connection that is to be sent at time `at`. It is held back
    /// where that time has not come.
    pub fn on_produced(&mut self, packet: &Vec<u8>, at: u64, now: u64, status: &mut QuicSendStatus)
        -> (action: ProducedAction)
        requires
            packet@.len() > 0,
            old(self).pending@.len() == 0,
        ensures
            final(self).flush_pending == old(self).flush_pending,
            if at > now {
                &&& action is Held
                &&& final(self).pending@ == packet@
                &&& final(self).pending_at == Some(at)
                &&& !final(self).pending_socket_blocked
                &&& *final(status) == (QuicSendStatus { paced: true, ..*old(status) })
            } else {
                &&& action is SendNow
                &&& *final(self) == *old(self)
                &&& *final(status) == *old(status)
            },
    {
        if at > now {
            self.cache_pending_packet(packet, at);
            status.paced = true;
            ProducedAction::Held
        } else {
            ProducedAction::SendNow
        }
    }

    /// Takes note of what came of handing a packet from the connection to the socket. It is
    /// held back where the socket would not take it.
    pub fn on_produced_sent(
        &mut self,
        packet: &Vec<u8>,
        at: u64,
        outcome: UdpSend,
        status: &mut QuicSendStatus,
    ) -> (res: Result<SendAction, QuicError>)
        requires
            packet@.len() > 0,
            old(self).pending@.len() == 0,
            old(status).has_room(packet@.len()),
        ensures
            final(self).flush_pending == old(self).flush_pending,
            match outcome {
                UdpSend::Sent(sent) => {
                    &&& *final(self) == *old(self)
                    &&& if sent == packet@.len() {
                        res == Ok::<SendAction, QuicError>(SendAction::Produce) && *final(status)
                            == old(status).with_sent(sent as nat)
                    } else {
                        &&& res matches Err(QuicError::ConnectionError(text)) && text@
                            == partial_send(sent as nat, packet@.len())
                        &&& *final(status) == *old(status)
                    }
                },
                UdpSend::WouldBlock => {
                    &&& res == Ok::<SendAction, QuicError>(SendAction::Stop)
                    &&& final(self).pending@ == packet@
                    &&& final(self).pending_at == Some(at)
                    &&& final(self).pending_socket_blocked
                    &&& *final(status) == (QuicSendStatus { blocked: true, ..*old(status) })
                },
                UdpSend::Failed(code, text) => if code == Some(55i32) || code == Some(105i32) {
                    &&& res == Ok::<SendAction, QuicError>(SendAction::Stop)
                    &&& final(self).pending@ == packet@
                    &&& final(self).pending_at == Some(at)
                    &&& final(self).pending_socket_blocked
                    &&& *final(status) == (QuicSendStatus {
                        blocked: true,
                        enobufs: true,
                        ..*old(status)
                    })
                } else {
                    &&& res matches Err(QuicError::IoError(told)) && told@ == text@
                    &&& *final(self) == *old(self)
                    &&& *final(status) == *old(status)
                },
            },
    {
        match outcome {
            UdpSend::Sent(sent) => {
                if sent != packet.len() {
                    return Err(QuicError::ConnectionError(partial_send_text(sent, packet.len())));
                }
                status.record_sent(sent);
                Ok(SendAction::Produce)
            },
            UdpSend::WouldBlock => {
                self.cache_pending_packet(packet, at);
                self.pending_socket_blocked = true;
                status.blocked = true;
                Ok(SendAction::Stop)
            },
            UdpSend::Failed(code, text) => {
                if is_enobufs(code) {
                    self.cache_pending_packet(packet, at);
                    self.pending_socket_blocked = true;
                    status.blocked = true;
                    status.enobufs = true;
                    Ok(SendAction::Stop)
                } else {
                    Err(QuicError::IoError(text))
                }
            },
        }
    }

    /// Holds a packet back until `send_at`.
    pub fn cache_pending_packet(&mut self, packet: &Vec<u8>, send_at: u64)
        ensures
            final(self).pending@ == packet@,
            final(self).pending_at == Some(send_at),
            !final(self).pending_socket_blocked,
            final(self).flush_pending == old(self).flush_pending,
    {
        let copy: Vec<u8> = packet.clone();
        assert(copy@ =~= packet@);
        self.pending = copy;
        self.pending_at = Some(send_at);
        self.pending_socket_blocked = false;
    }

    /// Whether a packet is held back.
    pub fn has_pending_send(&self) -> (res: bool)
        ensures
            res == (self.pending@.len() > 0),
    {
        self.pending.len() > 0
    }

    /// The number of packets that are held back.
    pub fn pending_send_packets(&self) -> (n: usize)
        ensures
            n == if self.pending@.len() > 0 {
                1int
            } else {
                0int
            },
    {
        if self.pending.len() > 0 {
            1
        } else {
            0
        }
    }

    /// When the packet that is held back may go, if that is after `now`.
    pub fn next_send_at(&self, now: u64) -> (res: Option<u64>)
        ensures
            res == if self.pending@.len() > 0 && (self.pending_at matches Some(at) && at > now) {
                self.pending_at
            } else {
                None
            },
    {
        if self.pending.len() > 0 {
            match self.pending_at {
                Some(at) => {
                    if at > now {
                        Some(at)
                    } else {
                        None
                    }
                },
                None => None,
            }
        } else {
            None
        }
    }

    /// Whether a packet is due and waits for the socket alone.
    pub fn needs_socket_writable(&self, now: u64) -> (res: bool)
        ensures
            res == (self.pending@.len() > 0 && self.pending_socket_blocked && (
            self.pending_at matches Some(at) ==> at <= now)),
    {
        if self.pending.len() == 0 || !self.pending_socket_blocked {
            return false;
        }
        match self.pending_at {
            Some(at) => at <= now,
            None => true,
        }
    }

    /// Whether a run of sending was asked for.
    pub fn has_pending_send_work(&self) -> (res: bool)
        ensures
            res == self.flush_pending,
    {
        self.flush_pending
    }

    /// Asks for a run of sending.
    pub fn mark_pending_send(&mut self)
        ensures
            *final(self) == (SendPump { flush_pending: true, ..*old(self) }),
    {
        self.flush_pending = true;
    }

    /// Whether a run of sending was asked for; the request is then spent.
    pub fn take_pending_send(&mut self) -> (res: bool)
        ensures
            res == old(self).flush_pending,
            *final(self) == (SendPump { flush_pending: false, ..*old(self) }),
    {
        let asked: bool = self.flush_pending;
        self.flush_pending = false;
        asked
    }
}

/// What the program does next during the handshake.
#[derive(Debug, Clone, Copy, PartialEq, Eq, Structural)]
pub enum HandshakeStep {
    /// Wait for the next packet.
    Receive,
    /// The connection is established.
    Done,
}

/// Whether the handshake goes on. Times are in nanoseconds.
pub fn handshake_step(established: bool, elapsed_ns: u128, timeout_ns: u128) -> (res: Result<
    HandshakeStep,
    QuicError,
>)
    ensures
        if established {
            res == Ok::<HandshakeStep, QuicError>(HandshakeStep::Done)
        } else if elapsed_ns > timeout_ns {
            res matches Err(QuicError::HandshakeTimeout)
        } else {
            res == Ok::<HandshakeStep, QuicError>(HandshakeStep::Receive)
        },
{
    if established {
        Ok(HandshakeStep::Done)
    } else if elapsed_ns > timeout_ns {
        Err(QuicError::HandshakeTimeout)
    } else {
        Ok(HandshakeStep::Receive)
    }
}

/// A connection that was closed during the handshake is an error.
pub fn handshake_alive(closed: bool) -> (res: Result<(), QuicError>)
    ensures
        match res {
            Ok(_) => !closed,
            Err(QuicError::ConnectionError(text)) => closed && text@ == "connection closed"@,
            Err(_) => false,
        },
{
    if closed {
        Err(QuicError::ConnectionError(String::from_str("connection closed")))
    } else {
        Ok(())
    }
}

/// The size of the handshake's receive buffer, and how long it waits for a packet, in
/// milliseconds.
#[derive(Debug, Clone, Copy, PartialEq, Eq, Structural)]
pub struct HandshakeTuning {
    pub buffer_size: usize,
    pub poll_timeout_ms: u64,
}

impl HandshakeTuning {
    /// Reads the settings from the environment.
    pub fn from_env(vars: &Vars) -> (tuning: HandshakeTuning)
        ensures
            tuning.buffer_size == vars.number_or(
                "USQUE_QUIC_HANDSHAKE_BUFFER_SIZE"@,
                usize::MAX as nat,
                65536,
            ),
            tuning.poll_timeout_ms == vars.number_or(
                "USQUE_QUIC_HANDSHAKE_POLL_TIMEOUT_MS"@,
                u64::MAX as nat,
                100,
            ),
    {
        HandshakeTuning {
            buffer_size: vars.env_usize("USQUE_QUIC_HANDSHAKE_BUFFER_SIZE", 65536),
            poll_timeout_ms: vars.env_u64("USQUE_QUIC_HANDSHAKE_POLL_TIMEOUT_MS", 100),
        }
    }
}

/// The public key of a DER certificate, as the DER of its `SubjectPublicKeyInfo`: what
/// `x509_cert::Certificate::from_der` reads and `to_der` writes again; `None` where either
/// of them fails.
pub uninterp spec fn certificate_key(cert_der: Seq<u8>) -> Option<Seq<u8>>;

/// Whether the certificate can be read and holds exactly the expected key.
pub open spec fn public_key_accepted(cert_der: Seq<u8>, expected: Seq<u8>) -> bool {
    certificate_key(cert_der) == Some(expected)
}

/// `x509_cert::Certificate::from_der`, then `to_der` of the `subject_public_key_info` that it
/// read. The result is a function of the bytes.
#[verifier::external_body]
fn read_certificate_key(cert_der: &Vec<u8>) -> (res: Option<Vec<u8>>)
    ensures
        match res {
            Some(key) => certificate_key(cert_der@) == Some(key@),
            None => certificate_key(cert_der@) is None,
        },
{
    let cert = <x509_cert::Certificate as der::Decode>::from_der(cert_der).ok()?;
    der::Encode::to_der(&cert.tbs_certificate.subject_public_key_info).ok()
}

/// Whether a public key that was read from a certificate is the expected one.
pub fn key_matches(key: &Option<Vec<u8>>, expected: &Vec<u8>) -> (res: bool)
    ensures
        res == match *key {
            Some(bytes) => bytes@ == expected@,
            None => false,
        },
{
    match key {
        Some(bytes) => same_bytes(bytes, expected),
        None => false,
    }
}

/// Whether the certificate holds the expected public key, both as DER.
pub fn verify_peer_public_key(cert_der: &Vec<u8>, expected_pub_key_spki: &Vec<u8>) -> (res: bool)
    ensures
        res == public_key_accepted(cert_der@, expected_pub_key_spki@),
{
    let key = read_certificate_key(cert_der);
    key_matches(&key, expected_pub_key_spki)
}

/// How a QUIC error reads.
pub open spec fn quic_error_text(e: QuicError) -> Seq<char> {
    match e {
        QuicError::IoError(why) => "IO error: "@ + why@,
        QuicError::Quiche(why) => "QUIC error: "@ + why@,
        QuicError::ConnectionError(why) => "connection error: "@ + why@,
        QuicError::HandshakeTimeout => "handshake timeout"@,
        QuicError::PublicKeyMismatch => "public key mismatch"@,
    }
}

impl QuicError {
    /// How the error reads.
    pub fn text(&self) -> (text: String)
        ensures
            text@ == quic_error_text(*self),
    {
        match self {
            QuicError::IoError(why) => String::from_str("IO error: ").concat(why.as_str()),
            QuicError::Quiche(why) => String::from_str("QUIC error: ").concat(why.as_str()),
            QuicError::ConnectionError(why) => String::from_str("connection error: ").concat(
                why.as_str(),
            ),
            QuicError::HandshakeTimeout => String::from_str("handshake timeout"),
            QuicError::PublicKeyMismatch => String::from_str("public key mismatch"),
        }
    }
}

/// Five names name an algorithm, and no other text does.
pub proof fn names_of_algorithms(lower: Seq<char>)
    ensures
        algorithm_named(lower) == Some(CongestionControl::Reno) <==> lower == seq![
            'r',
            'e',
            'n',
            'o',
        ],
        algorithm_named(lower) == Some(CongestionControl::Cubic) <==> lower == seq![
            'c',
            'u',
            'b',
            'i',
            'c',
        ],
        algorithm_named(lower) == Some(CongestionControl::Bbr2) <==> {
            ||| lower == seq!['b', 'b', 'r']
            ||| lower == seq!['b', 'b', 'r', '2']
            ||| lower == seq!['b', 'b', 'r', 'v', '2']
        },
{
    reveal_strlit("reno");
    reveal_strlit("cubic");
    reveal_strlit("bbr");
    reveal_strlit("bbr2");
    reveal_strlit("bbrv2");
    let reno = seq!['r', 'e', 'n', 'o'];
    let cubic = seq!['c', 'u', 'b', 'i', 'c'];
    let bbr = seq!['b', 'b', 'r'];
    let bbr2 = seq!['b', 'b', 'r', '2'];
    let bbrv2 = seq!['b', 'b', 'r', 'v', '2'];
    assert("reno"@ =~= reno);
    assert("cubic"@ =~= cubic);
    assert("bbr"@ =~= bbr);
    assert("bbr2"@ =~= bbr2);
    assert("bbrv2"@ =~= bbrv2);
    assert(reno[0] == 'r' && cubic[0] == 'c' && bbr[0] == 'b' && bbr2[0] == 'b' && bbrv2[0] == 'b');
}

/// A server is trusted if and only if its certificate holds exactly the key that is expected; one
/// without a readable key never is, and no certificate is trusted for two keys.
pub proof fn only_the_expected_key_is_trusted(cert_der: Seq<u8>, expected: Seq<u8>, other: Seq<u8>)
    ensures
        public_key_accepted(cert_der, expected) <==> certificate_key(cert_der) is Some
            && certificate_key(cert_der)->0 == expected,
        certificate_key(cert_der) is None ==> !public_key_accepted(cert_der, expected),
        public_key_accepted(cert_der, expected) && other != expected ==> !public_key_accepted(
            cert_der,
            other,
        ),
{
}

/// The pace is limited where a number other than zero is set.
pub proof fn when_the_pace_is_limited(vars: Vars)
    ensures
        ({
            let set = vars.number("USQUE_QUIC_MAX_PACING_RATE_MBPS"@, u64::MAX as nat);
            &&& set is None || set == Some(0nat) ==> pacing_limit(&vars) is None
            &&& set is Some && set->0 > 0 ==> pacing_limit(&vars) == set
        }),
{
}

/// A packet that was sent counts with its bytes, and the figures of a path are told as they are.
pub proof fn figures_are_told_as_they_are(status: QuicSendStatus, bytes: nat, path: PathFigures)
    requires
        status.has_room(bytes),
    ensures
        status.with_sent(bytes).bytes_sent == status.bytes_sent + bytes,
        status.with_sent(bytes).packets_sent == status.packets_sent + 1,
        status.with_sent(bytes).blocked == status.blocked,
        status.with_sent(bytes).enobufs == status.enobufs,
        status.with_sent(bytes).paced == status.paced,
        path.rtt_ms <= u64::MAX ==> stats_of(path).rtt_ms == path.rtt_ms,
        path.rtt_ms > u64::MAX ==> stats_of(path).rtt_ms == u64::MAX,
        stats_of(path).cwnd == path.cwnd,
        stats_of(path).lost == path.lost,
        stats_of(path).total_pto_count == path.total_pto_count,
        stats_of(path).delivery_rate_bps == path.delivery_rate,
        stats_of(path).dgram_recv == path.dgram_recv,
        stats_of(path).dgram_sent == path.dgram_sent,
{
}

/// Each kind of error reads with its own words.
pub proof fn how_quic_errors_read(e: QuicError)
    ensures
        e matches QuicError::IoError(why) ==> quic_error_text(e) == "IO error: "@ + why@,
        e matches QuicError::Quiche(why) ==> quic_error_text(e) == "QUIC error: "@ + why@,
        e matches QuicError::ConnectionError(why) ==> quic_error_text(e) == "connection error: "@
            + why@,
        e is HandshakeTimeout ==> quic_error_text(e) == "handshake timeout"@,
        e is PublicKeyMismatch ==> quic_error_text(e) == "public key mismatch"@,
{
}

/// There is room for a packet if and only if neither count would pass what a count can hold.
pub proof fn when_a_packet_can_be_counted(status: QuicSendStatus, bytes: nat)
    ensures
        status.has_room(bytes) <==> status.with_sent(bytes).bytes_sent == status.bytes_sent + bytes
            && status.with_sent(bytes).packets_sent == status.packets_sent + 1,
{
}

} // verus!
