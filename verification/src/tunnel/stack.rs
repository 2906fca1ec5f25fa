//! The userspace network stack.

use crate::addr::{ipv4_text, ipv6_parsed, is_ipv4_text, parse_ipv4, parse_ipv6, IpAddress};
use crate::text::{blank, is_blank};
use crate::vars::Vars;
use std::collections::VecDeque;
use vstd::prelude::*;

verus! {

/// Why the network stack failed.
#[derive(Debug)]
pub enum StackError {
    SocketError(String),
    IoError(String),
    PollPanic,
}

/// A stack error as values.
pub enum StackFault {
    SocketError(Seq<char>),
    IoError(Seq<char>),
    PollPanic,
}

impl View for StackError {
    type V = StackFault;

    open spec fn view(&self) -> StackFault {
        match self {
            StackError::SocketError(text) => StackFault::SocketError(text@),
            StackError::IoError(text) => StackFault::IoError(text@),
            StackError::PollPanic => StackFault::PollPanic,
        }
    }
}

/// How a stack error reads.
pub open spec fn stack_fault_text(fault: StackFault) -> Seq<char> {
    match fault {
        StackFault::SocketError(text) => "socket error: "@ + text,
        StackFault::IoError(text) => "IO error: "@ + text,
        StackFault::PollPanic => "smoltcp poll panicked"@,
    }
}

impl StackError {
    /// How the error reads.
    pub fn text(&self) -> (text: String)
        ensures
            text@ == stack_fault_text(self@),
    {
        match self {
            StackError::SocketError(text) => String::from_str("socket error: ").concat(
                text.as_str(),
            ),
            StackError::IoError(text) => String::from_str("IO error: ").concat(text.as_str()),
            StackError::PollPanic => String::from_str("smoltcp poll panicked"),
        }
    }
}

/// The settings of the stack.
#[derive(Debug, Clone, Copy, PartialEq, Eq, Structural)]
pub struct StackTunables {
    /// Packets that may wait in each direction.
    pub device_queue_capacity: usize,
    /// Buffers that are kept for reuse.
    pub buffer_pool_size: usize,
    /// Milliseconds by which a TCP acknowledgement may be delayed.
    pub tcp_ack_delay: Option<u64>,
    /// Seconds between two TCP keepalives.
    pub tcp_keepalive: Option<u64>,
    /// Seconds after which a silent TCP connection ends.
    pub tcp_timeout: Option<u64>,
    /// Packets that may wait in a UDP socket.
    pub udp_socket_metadata_capacity: usize,
    /// Bytes that may wait in a UDP socket.
    pub udp_socket_buffer_size: usize,
}

impl Default for StackTunables {
    fn default() -> (tunables: Self)
        ensures
            tunables == (StackTunables {
                device_queue_capacity: 4096,
                buffer_pool_size: 256,
                tcp_ack_delay: Some(10),
                tcp_keepalive: Some(28),
                tcp_timeout: Some(7200),
                udp_socket_metadata_capacity: 16,
                udp_socket_buffer_size: 65536,
            }),
    {
        StackTunables {
            device_queue_capacity: 4096,
            buffer_pool_size: 256,
            tcp_ack_delay: Some(10),
            tcp_keepalive: Some(28),
            tcp_timeout: Some(7200),
            udp_socket_metadata_capacity: 16,
            udp_socket_buffer_size: 65536,
        }
    }
}

/// A time that can be switched off: the number in the variable `name`, nothing where that is
/// zero, and `default` where the variable holds no number.
pub open spec fn optional_time(vars: &Vars, name: Seq<char>, default: u64) -> Option<u64> {
    match vars.number(name, u64::MAX as nat) {
        Some(n) => if n == 0 {
            None
        } else {
            Some(n as u64)
        },
        None => Some(default),
    }
}

fn env_optional_time(vars: &Vars, name: &str, default: u64) -> (res: Option<u64>)
    ensures
        res == optional_time(vars, name@, default),
{
    match vars.read_u64(name) {
        Some(n) => {
            if n == 0 {
                None
            } else {
                Some(n)
            }
        },
        None => Some(default),
    }
}

impl StackTunables {
    /// Reads the settings from the environment.
    pub fn from_env(vars: &Vars) -> (tunables: StackTunables)
        ensures
            tunables.device_queue_capacity == vars.number_or(
                "USQUE_STACK_QUEUE_CAPACITY"@,
                usize::MAX as nat,
                4096,
            ),
            tunables.buffer_pool_size == vars.number_or(
                "USQUE_STACK_BUFFER_POOL_SIZE"@,
                usize::MAX as nat,
                256,
            ),
            tunables.tcp_ack_delay == optional_time(vars, "USQUE_TCP_ACK_DELAY_MS"@, 10),
            tunables.tcp_keepalive == optional_time(vars, "USQUE_TCP_KEEPALIVE_SECS"@, 28),
            tunables.tcp_timeout == optional_time(vars, "USQUE_TCP_TIMEOUT_SECS"@, 7200),
            tunables.udp_socket_metadata_capacity == vars.number_or(
                "USQUE_UDP_SOCKET_METADATA_CAPACITY"@,
                usize::MAX as nat,
                16,
            ),
            tunables.udp_socket_buffer_size == vars.number_or(
                "USQUE_UDP_SOCKET_BUFFER_SIZE"@,
                usize::MAX as nat,
                65536,
            ),
    {
        StackTunables {
            device_queue_capacity: vars.env_usize("USQUE_STACK_QUEUE_CAPACITY", 4096),
            buffer_pool_size: vars.env_usize("USQUE_STACK_BUFFER_POOL_SIZE", 256),
            tcp_ack_delay: env_optional_time(vars, "USQUE_TCP_ACK_DELAY_MS", 10),
            tcp_keepalive: env_optional_time(vars, "USQUE_TCP_KEEPALIVE_SECS", 28),
            tcp_timeout: env_optional_time(vars, "USQUE_TCP_TIMEOUT_SECS", 7200),
            udp_socket_metadata_capacity: vars.env_usize("USQUE_UDP_SOCKET_METADATA_CAPACITY", 16),
            udp_socket_buffer_size: vars.env_usize("USQUE_UDP_SOCKET_BUFFER_SIZE", 65536),
        }
    }
}

/// A counter's next value; it starts anew after the largest one.
pub open spec fn counted(n: u64) -> u64 {
    if n == u64::MAX {
        0
    } else {
        (n + 1) as u64
    }
}

/// Counts dropped packets, for a warning at most once a second and for the next report. Times
/// are in nanoseconds.
#[derive(Debug, Clone, Copy, PartialEq, Eq, Structural)]
pub struct DropLogger {
    pub log_count: u64,
    pub perf_count: u64,
    pub last_log: u64,
}

impl DropLogger {
    /// Nothing was dropped yet.
    pub fn new(now: u64) -> (logger: DropLogger)
        ensures
            logger == (DropLogger { log_count: 0, perf_count: 0, last_log: now }),
    {
        DropLogger { log_count: 0, perf_count: 0, last_log: now }
    }

    /// Whether a drop at this time is worth a warning: the last one was a second ago.
    pub open spec fn warns(&self, now: u64) -> bool {
        now - self.last_log >= 1_000_000_000
    }

    /// The counts after one more drop.
    pub open spec fn dropped(self, now: u64) -> DropLogger {
        if self.warns(now) {
            DropLogger { log_count: 0, perf_count: counted(self.perf_count), last_log: now }
        } else {
            DropLogger {
                log_count: counted(self.log_count),
                perf_count: counted(self.perf_count),
                ..self
            }
        }
    }

    /// Counts a drop, and returns how many a warning is to speak of, if it is time for one.
    pub fn log_drop(&mut self, now: u64) -> (res: Option<u64>)
        ensures
            *final(self) == old(self).dropped(now),
            res == if old(self).warns(now) {
                Some(counted(old(self).log_count))
            } else {
                None
            },
    {
        self.log_count = self.log_count.wrapping_add(1);
        self.perf_count = self.perf_count.wrapping_add(1);
        if now.saturating_sub(self.last_log) >= 1_000_000_000 {
            let count: u64 = self.log_count;
            self.log_count = 0;
            self.last_log = now;
            Some(count)
        } else {
            None
        }
    }

    /// The drops since the last report.
    pub fn take_perf_count(&mut self) -> (count: u64)
        ensures
            count == old(self).perf_count,
            *final(self) == (DropLogger { perf_count: 0, ..*old(self) }),
    {
        let count: u64 = self.perf_count;
        self.perf_count = 0;
        count
    }
}

/// Empty buffers that are kept for reuse.
#[derive(Debug)]
pub struct BufferPool {
    pub buffers: Vec<Vec<u8>>,
}

impl BufferPool {
    /// Every buffer in the pool is empty.
    pub open spec fn wf(&self) -> bool {
        forall|i: int| 0 <= i < self.buffers@.len() ==> (#[trigger] self.buffers@[i])@.len() == 0
    }

    /// A pool with `size` buffers for packets of `capacity` bytes.
    pub fn filled(size: usize, capacity: usize) -> (pool: BufferPool)
        ensures
            pool.wf(),
            pool.buffers@.len() == size,
    {
        let mut buffers: Vec<Vec<u8>> = Vec::new();
        let mut i: usize = 0;
        while i < size
            invariant
                i <= size,
                buffers@.len() == i,
                forall|k: int| 0 <= k < i ==> (#[trigger] buffers@[k])@.len() == 0,
            decreases size - i,
        {
            buffers.push(Vec::with_capacity(capacity));
            i += 1;
        }
        BufferPool { buffers }
    }

    /// Takes an empty buffer: the one that was put back last, or a new one.
    pub fn take_pooled_buffer(&mut self, capacity: usize) -> (buf: Vec<u8>)
        requires
            old(self).wf(),
        ensures
            final(self).wf(),
            buf@.len() == 0,
            final(self).buffers@ == if old(self).buffers@.len() > 0 {
                old(self).buffers@.drop_last()
            } else {
                old(self).buffers@
            },
    {
        match self.buffers.pop() {
            Some(buf) => {
                let mut buf: Vec<u8> = buf;
                buf.clear();
                buf
            },
            None => Vec::with_capacity(capacity),
        }
    }

    /// Puts a buffer back, emptied, if fewer than `max_size` are in the pool.
    pub fn return_pooled_buffer(&mut self, buf: Vec<u8>, max_size: usize)
        requires
            old(self).wf(),
        ensures
            final(self).wf(),
            final(self).buffers@.len() == if old(self).buffers@.len() < max_size {
                old(self).buffers@.len() + 1
            } else {
                old(self).buffers@.len()
            },
            final(self).buffers@.take(old(self).buffers@.len() as int) == old(self).buffers@,
    {
        let mut buf: Vec<u8> = buf;
        buf.clear();
        if self.buffers.len() < max_size {
            self.buffers.push(buf);
        }
        assert(self.buffers@.take(old(self).buffers@.len() as int) =~= old(self).buffers@);
    }
}

/// The packets of a queue as values.
pub open spec fn packets(queue: Seq<Vec<u8>>) -> Seq<Seq<u8>> {
    Seq::new(queue.len(), |i: int| queue[i]@)
}

/// How many buffers a pool has after one was put back: no more than `limit`, unless there were more.
pub open spec fn put_back(count: nat, limit: nat) -> nat {
    if count < limit {
        count + 1
    } else {
        count
    }
}

/// How many buffers a pool has after one was taken, if there was one.
pub open spec fn taken_out(count: nat) -> nat {
    if count > 0 {
        (count - 1) as nat
    } else {
        0
    }
}

/// The device between the tunnel and the stack: a queue of packets in each direction.
#[derive(Debug)]
pub struct VirtualDevice {
    pub rx_queue: VecDeque<Vec<u8>>,
    pub tx_queue: VecDeque<Vec<u8>>,
    pub buffer_pool: BufferPool,
    pub mtu: usize,
    pub queue_capacity: usize,
    pub pool_capacity: usize,
    pub rx_drop_logger: DropLogger,
    pub tx_drop_logger: DropLogger,
}

impl VirtualDevice {
    /// The packets that wait for the stack.
    pub open spec fn rx(&self) -> Seq<Seq<u8>> {
        packets(self.rx_queue@)
    }

    /// The packets that wait for the tunnel.
    pub open spec fn tx(&self) -> Seq<Seq<u8>> {
        packets(self.tx_queue@)
    }

    /// How many buffers are kept for reuse.
    pub open spec fn pooled(&self) -> nat {
        self.buffer_pool.buffers@.len()
    }

    /// Whether no more packets can wait for the stack.
    pub open spec fn is_full(&self) -> bool {
        self.rx().len() == self.queue_capacity
    }

    /// The packets that wait for the stack after one more came: in a full queue the oldest goes.
    pub open spec fn rx_with(&self, data: Seq<u8>) -> Seq<Seq<u8>> {
        if self.is_full() {
            self.rx().skip(1).push(data)
        } else {
            self.rx().push(data)
        }
    }

    /// The drops of packets for the stack after one more came.
    pub open spec fn rx_drops_with(&self, now: u64) -> DropLogger {
        if self.is_full() {
            self.rx_drop_logger.dropped(now)
        } else {
            self.rx_drop_logger
        }
    }

    /// How many drops a warning speaks of when one more packet comes for the stack, if it is time for
    /// one.
    pub open spec fn rx_warning(&self, now: u64) -> Option<u64> {
        if self.is_full() && self.rx_drop_logger.warns(now) {
            Some(counted(self.rx_drop_logger.log_count))
        } else {
            None
        }
    }

    /// How many buffers are kept after one more packet came for the stack, in a buffer of its own:
    /// that of a packet that was dropped is kept.
    pub open spec fn pooled_with_packet(&self) -> nat {
        if self.is_full() {
            put_back(self.pooled(), self.pool_capacity as nat)
        } else {
            self.pooled()
        }
    }

    /// No more packets wait for the stack than there may.
    pub open spec fn wf(&self) -> bool {
        &&& self.rx_queue@.len() <= self.queue_capacity
        &&& self.buffer_pool.wf()
    }

    /// The parts that never change.
    pub open spec fn same_settings(&self, other: &VirtualDevice) -> bool {
        &&& self.mtu == other.mtu
        &&& self.queue_capacity == other.queue_capacity
        &&& self.pool_capacity == other.pool_capacity
    }

    /// A device without packets.
    pub fn new(mtu: usize, buffer_pool: BufferPool, tunables: &StackTunables, now: u64) -> (device:
        VirtualDevice)
        requires
            buffer_pool.wf(),
        ensures
            device.wf(),
            device.rx().len() == 0,
            device.tx().len() == 0,
            device.mtu == mtu,
            device.queue_capacity == tunables.device_queue_capacity,
            device.pool_capacity == tunables.buffer_pool_size,
            device.buffer_pool == buffer_pool,
            device.rx_drop_logger == (DropLogger { log_count: 0, perf_count: 0, last_log: now }),
            device.tx_drop_logger == (DropLogger { log_count: 0, perf_count: 0, last_log: now }),
    {
        VirtualDevice {
            rx_queue: VecDeque::new(),
            tx_queue: VecDeque::new(),
            buffer_pool,
            mtu,
            queue_capacity: tunables.device_queue_capacity,
            pool_capacity: tunables.buffer_pool_size,
            rx_drop_logger: DropLogger::new(now),
            tx_drop_logger: DropLogger::new(now),
        }
    }

    /// Drops the oldest packet for the stack if no more can wait, and counts it. Returns the count for
    /// a warning, if it is time for one.
    fn make_room(&mut self, now: u64) -> (warning: Option<u64>)
        requires
            old(self).wf(),
            old(self).queue_capacity > 0,
        ensures
            final(self).wf(),
            final(self).same_settings(old(self)),
            final(self).tx_queue == old(self).tx_queue,
            final(self).tx_drop_logger == old(self).tx_drop_logger,
            final(self).rx_queue@.len() < final(self).queue_capacity,
            final(self).rx() == if old(self).is_full() {
                old(self).rx().skip(1)
            } else {
                old(self).rx()
            },
            final(self).rx_drop_logger == old(self).rx_drops_with(now),
            final(self).pooled() == old(self).pooled_with_packet(),
            warning == old(self).rx_warning(now),
    {
        if self.rx_queue.len() < self.queue_capacity {
            return None;
        }
        match self.rx_queue.pop_front() {
            Some(dropped) => {
                self.buffer_pool.return_pooled_buffer(dropped, self.pool_capacity);
            },
            None => {},
        }
        assert(self.rx() =~= old(self).rx().skip(1));
        self.rx_drop_logger.log_drop(now)
    }

    /// Hands a packet from the tunnel to the stack. In a full queue the oldest packet is dropped
    /// for it, and counted. A queue without a place takes no packet. Returns the count for a warning,
    /// if it is time for one.
    pub fn inject_packet_owned(&mut self, data: Vec<u8>, now: u64) -> (warning: Option<u64>)
        requires
            old(self).wf(),
            old(self).queue_capacity > 0,
        ensures
            final(self).wf(),
            final(self).same_settings(old(self)),
            final(self).tx() == old(self).tx(),
            final(self).tx_drop_logger == old(self).tx_drop_logger,
            final(self).rx() == old(self).rx_with(data@),
            final(self).rx_drop_logger == old(self).rx_drops_with(now),
            final(self).pooled() == old(self).pooled_with_packet(),
            warning == old(self).rx_warning(now),
    {
        let warning: Option<u64> = self.make_room(now);
        let ghost kept = self.rx();
        self.rx_queue.push_back(data);
        assert(self.rx() =~= kept.push(data@));
        warning
    }

    /// Hands a copy of a packet from the tunnel to the stack. The copy is in a buffer that was kept,
    /// that of a packet that is dropped for it among them, if there is one.
    pub fn inject_packet(&mut self, data: &[u8], now: u64) -> (warning: Option<u64>)
        requires
            old(self).wf(),
            old(self).queue_capacity > 0,
        ensures
            final(self).wf(),
            final(self).same_settings(old(self)),
            final(self).tx() == old(self).tx(),
            final(self).tx_drop_logger == old(self).tx_drop_logger,
            final(self).rx() == old(self).rx_with(data@),
            final(self).rx_drop_logger == old(self).rx_drops_with(now),
            final(self).pooled() == taken_out(old(self).pooled_with_packet()),
            warning == old(self).rx_warning(now),
    {
        let warning: Option<u64> = self.make_room(now);
        let ghost kept = self.rx();
        let mut buf: Vec<u8> = self.buffer_pool.take_pooled_buffer(self.mtu);
        buf.extend_from_slice(data);
        assert(buf@ =~= data@);
        self.rx_queue.push_back(buf);
        assert(self.rx() =~= kept.push(data@));
        warning
    }

    /// Takes the packet for the tunnel that has waited longest.
    pub fn take_packet(&mut self) -> (res: Option<Vec<u8>>)
        requires
            old(self).wf(),
        ensures
            final(self).wf(),
            final(self).same_settings(old(self)),
            final(self).rx() == old(self).rx(),
            final(self).buffer_pool == old(self).buffer_pool,
            final(self).rx_drop_logger == old(self).rx_drop_logger,
            final(self).tx_drop_logger == old(self).tx_drop_logger,
            match res {
                Some(packet) => old(self).tx().len() > 0 && packet@ == old(self).tx()[0]
                    && final(self).tx() == old(self).tx().skip(1),
                None => old(self).tx().len() == 0 && final(self).tx() == old(self).tx(),
            },
    {
        let res: Option<Vec<u8>> = self.tx_queue.pop_front();
        proof {
            if res is Some {
                assert(self.tx() =~= old(self).tx().skip(1));
            }
        }
        res
    }

    /// Puts a packet for the tunnel back in front of all others.
    pub fn requeue_packet_front(&mut self, packet: Vec<u8>)
        requires
            old(self).wf(),
        ensures
            final(self).wf(),
            final(self).same_settings(old(self)),
            final(self).rx() == old(self).rx(),
            final(self).tx() == seq![packet@] + old(self).tx(),
            final(self).buffer_pool == old(self).buffer_pool,
            final(self).rx_drop_logger == old(self).rx_drop_logger,
            final(self).tx_drop_logger == old(self).tx_drop_logger,
    {
        self.tx_queue.push_front(packet);
        assert(self.tx() =~= seq![packet@] + old(self).tx());
    }

    /// Keeps the buffer of a packet that was sent.
    pub fn recycle_tx_buffer(&mut self, buf: Vec<u8>)
        requires
            old(self).wf(),
        ensures
            final(self).wf(),
            final(self).same_settings(old(self)),
            final(self).rx_drop_logger == old(self).rx_drop_logger,
            final(self).tx_drop_logger == old(self).tx_drop_logger,
            final(self).rx() == old(self).rx(),
            final(self).tx() == old(self).tx(),
            final(self).pooled() == put_back(old(self).pooled(), old(self).pool_capacity as nat),
    {
        self.buffer_pool.return_pooled_buffer(buf, self.pool_capacity);
    }

    /// How many packets wait for the stack and for the tunnel.
    pub fn queue_lengths(&self) -> (res: (usize, usize))
        ensures
            res.0 == self.rx().len(),
            res.1 == self.tx().len(),
    {
        (self.rx_queue.len(), self.tx_queue.len())
    }

    /// The drops in both directions since the last report.
    pub fn take_drop_counts(&mut self) -> (res: (u64, u64))
        requires
            old(self).wf(),
        ensures
            final(self).wf(),
            final(self).same_settings(old(self)),
            res == (old(self).rx_drop_logger.perf_count, old(self).tx_drop_logger.perf_count),
            final(self).rx() == old(self).rx(),
            final(self).tx() == old(self).tx(),
            final(self).buffer_pool == old(self).buffer_pool,
            final(self).rx_drop_logger == (DropLogger { perf_count: 0, ..old(self).rx_drop_logger }),
            final(self).tx_drop_logger == (DropLogger { perf_count: 0, ..old(self).tx_drop_logger }),
    {
        let rx: u64 = self.rx_drop_logger.take_perf_count();
        let tx: u64 = self.tx_drop_logger.take_perf_count();
        (rx, tx)
    }

    /// The lengths of the queues and the drops since the last report.
    pub fn take_device_stats(&mut self) -> (stats: DeviceStats)
        requires
            old(self).wf(),
        ensures
            final(self).wf(),
            final(self).same_settings(old(self)),
            final(self).buffer_pool == old(self).buffer_pool,
            final(self).rx_drop_logger == (DropLogger { perf_count: 0, ..old(self).rx_drop_logger }),
            final(self).tx_drop_logger == (DropLogger { perf_count: 0, ..old(self).tx_drop_logger }),
            stats == (DeviceStats {
                rx_queue_len: old(self).rx().len() as usize,
                tx_queue_len: old(self).tx().len() as usize,
                rx_drops: old(self).rx_drop_logger.perf_count,
                tx_drops: old(self).tx_drop_logger.perf_count,
            }),
            final(self).rx() == old(self).rx(),
            final(self).tx() == old(self).tx(),
    {
        let (rx_queue_len, tx_queue_len) = self.queue_lengths();
        let (rx_drops, tx_drops) = self.take_drop_counts();
        DeviceStats { rx_queue_len, tx_queue_len, rx_drops, tx_drops }
    }

    /// Whether one more packet for the tunnel may wait.
    pub open spec fn can_transmit(&self) -> bool {
        self.tx_queue@.len() < self.queue_capacity
    }

    /// Takes the packet for the stack that has waited longest, but only while an answer to it
    /// could wait too: otherwise it stays.
    pub fn receive(&mut self) -> (res: Option<Vec<u8>>)
        requires
            old(self).wf(),
        ensures
            final(self).wf(),
            final(self).same_settings(old(self)),
            final(self).buffer_pool == old(self).buffer_pool,
            final(self).rx_drop_logger == old(self).rx_drop_logger,
            final(self).tx_drop_logger == old(self).tx_drop_logger,
            final(self).tx() == old(self).tx(),
            match res {
                Some(packet) => old(self).can_transmit() && old(self).rx().len() > 0 && packet@
                    == old(self).rx()[0] && final(self).rx() == old(self).rx().skip(1),
                None => (!old(self).can_transmit() || old(self).rx().len() == 0)
                    && final(self).rx() == old(self).rx(),
            },
    {
        if self.tx_queue.len() >= self.queue_capacity {
            return None;
        }
        let res: Option<Vec<u8>> = self.rx_queue.pop_front();
        proof {
            if res is Some {
                assert(self.rx() =~= old(self).rx().skip(1));
            }
        }
        res
    }

    /// A buffer for a packet to the tunnel, while one more may wait.
    pub fn transmit(&mut self) -> (res: Option<Vec<u8>>)
        requires
            old(self).wf(),
        ensures
            final(self).wf(),
            final(self).same_settings(old(self)),
            final(self).rx_drop_logger == old(self).rx_drop_logger,
            final(self).tx_drop_logger == old(self).tx_drop_logger,
            final(self).rx() == old(self).rx(),
            final(self).tx() == old(self).tx(),
            res is Some <==> old(self).can_transmit(),
            res matches Some(buf) ==> buf@.len() == 0,
            final(self).pooled() == if old(self).can_transmit() {
                taken_out(old(self).pooled())
            } else {
                old(self).pooled()
            },
    {
        if self.tx_queue.len() >= self.queue_capacity {
            return None;
        }
        Some(self.buffer_pool.take_pooled_buffer(self.mtu))
    }

    /// Queues a packet that the stack has written for the tunnel. In a full queue it is dropped
    /// and counted. Returns the count for a warning, if it is time for one.
    pub fn push_transmitted(&mut self, packet: Vec<u8>, now: u64) -> (warning: Option<u64>)
        requires
            old(self).wf(),
        ensures
            final(self).wf(),
            final(self).same_settings(old(self)),
            final(self).rx_drop_logger == old(self).rx_drop_logger,
            final(self).rx() == old(self).rx(),
            if old(self).can_transmit() {
                &&& final(self).tx() == old(self).tx().push(packet@)
                &&& final(self).buffer_pool == old(self).buffer_pool
                &&& final(self).tx_drop_logger == old(self).tx_drop_logger
                &&& warning is None
            } else {
                &&& final(self).tx() == old(self).tx()
                &&& final(self).pooled() == put_back(
                    old(self).pooled(),
                    old(self).pool_capacity as nat,
                )
                &&& final(self).tx_drop_logger == old(self).tx_drop_logger.dropped(now)
                &&& warning == if old(self).tx_drop_logger.warns(now) {
                    Some(counted(old(self).tx_drop_logger.log_count))
                } else {
                    None
                }
            },
    {
        if self.tx_queue.len() >= self.queue_capacity {
            let warning: Option<u64> = self.tx_drop_logger.log_drop(now);
            self.buffer_pool.return_pooled_buffer(packet, self.pool_capacity);
            return warning;
        }
        self.tx_queue.push_back(packet);
        assert(self.tx() =~= old(self).tx().push(packet@));
        None
    }
}

/// The packets `batch` in front of `queue`, put back one by one from the last to the first.
pub open spec fn requeued(queue: Seq<Seq<u8>>, batch: Seq<Seq<u8>>) -> Seq<Seq<u8>>
    decreases batch.len(),
{
    if batch.len() == 0 {
        queue
    } else {
        requeued(seq![batch.last()] + queue, batch.drop_last())
    }
}

/// Packets that were taken for the tunnel and are put back, the last one first, are where they
/// were.
pub proof fn requeueing_restores_order(queue: Seq<Seq<u8>>, batch: Seq<Seq<u8>>)
    ensures
        requeued(queue, batch) == batch + queue,
    decreases batch.len(),
{
    if batch.len() > 0 {
        requeueing_restores_order(seq![batch.last()] + queue, batch.drop_last());
        assert(batch.drop_last() + (seq![batch.last()] + queue) =~= batch + queue);
    } else {
        assert(batch + queue =~= queue);
    }
}

/// The lengths of a device's queues, and its drops since the last report.
#[derive(Debug, Clone, Copy, PartialEq, Eq, Structural)]
pub struct DeviceStats {
    pub rx_queue_len: usize,
    pub tx_queue_len: usize,
    pub rx_drops: u64,
    pub tx_drops: u64,
}

/// What a look at the stack brought.
#[derive(Debug, Clone, Copy, PartialEq, Eq, Structural)]
pub struct StackPollOutcome {
    pub ingress_processed: usize,
    pub more_ingress: bool,
    pub socket_state_changed: bool,
}

impl Default for StackPollOutcome {
    fn default() -> (outcome: Self)
        ensures
            outcome == (StackPollOutcome {
                ingress_processed: 0,
                more_ingress: false,
                socket_state_changed: false,
            }),
    {
        StackPollOutcome { ingress_processed: 0, more_ingress: false, socket_state_changed: false }
    }
}

/// What became of one packet that the stack was given.
#[derive(Debug, Clone, Copy, PartialEq, Eq, Structural)]
pub enum IngressResult {
    /// There was none.
    NoPacket,
    PacketProcessed,
    SocketStateChanged,
}

/// A look at the stack that handles a limited number of packets.
#[derive(Debug, Clone, Copy, PartialEq, Eq, Structural)]
pub struct BoundedPoll {
    pub budget: usize,
    pub outcome: StackPollOutcome,
}

impl BoundedPoll {
    /// The budget is kept.
    pub open spec fn wf(&self) -> bool {
        &&& self.budget > 0
        &&& self.outcome.ingress_processed <= self.budget
    }

    /// A look with a budget of `ingress_budget` packets, but at least one.
    pub fn new(ingress_budget: usize) -> (poll: BoundedPoll)
        ensures
            poll.wf(),
            poll.budget == if ingress_budget == 0 {
                1
            } else {
                ingress_budget
            },
            poll.outcome == (StackPollOutcome {
                ingress_processed: 0,
                more_ingress: false,
                socket_state_changed: false,
            }),
    {
        BoundedPoll {
            budget: if ingress_budget == 0 {
                1
            } else {
                ingress_budget
            },
            outcome: StackPollOutcome::default(),
        }
    }

    /// Takes note of one packet. Returns whether another one may be handled.
    pub fn on_ingress(&mut self, result: IngressResult) -> (more: bool)
        requires
            old(self).wf(),
            old(self).outcome.ingress_processed < old(self).budget,
        ensures
            final(self).wf(),
            final(self).budget == old(self).budget,
            match result {
                IngressResult::NoPacket => !more && *final(self) == *old(self),
                _ => {
                    &&& final(self).outcome == (StackPollOutcome {
                        ingress_processed: (old(self).outcome.ingress_processed + 1) as usize,
                        socket_state_changed: old(self).outcome.socket_state_changed || result
                            is SocketStateChanged,
                        ..old(self).outcome
                    })
                    &&& more == (final(self).outcome.ingress_processed < final(self).budget)
                },
            },
    {
        match result {
            IngressResult::NoPacket => false,
            IngressResult::PacketProcessed => {
                self.outcome.ingress_processed = self.outcome.ingress_processed + 1;
                self.outcome.ingress_processed < self.budget
            },
            IngressResult::SocketStateChanged => {
                self.outcome.ingress_processed = self.outcome.ingress_processed + 1;
                self.outcome.socket_state_changed = true;
                self.outcome.ingress_processed < self.budget
            },
        }
    }

    /// What the look brought, with the packets that still wait, and whether sending changed a
    /// socket. More packets are owed a look only if the budget was used up.
    pub fn finish(&self, rx_queue_len: usize, egress_changed: bool) -> (outcome: StackPollOutcome)
        requires
            self.wf(),
        ensures
            outcome == (StackPollOutcome {
                ingress_processed: self.outcome.ingress_processed,
                more_ingress: if self.outcome.ingress_processed == self.budget {
                    rx_queue_len > 0
                } else {
                    self.outcome.more_ingress
                },
                socket_state_changed: self.outcome.socket_state_changed || egress_changed,
            }),
    {
        StackPollOutcome {
            ingress_processed: self.outcome.ingress_processed,
            more_ingress: if self.outcome.ingress_processed == self.budget {
                rx_queue_len > 0
            } else {
                self.outcome.more_ingress
            },
            socket_state_changed: self.outcome.socket_state_changed || egress_changed,
        }
    }
}

/// The addresses that the stack answers to.
#[derive(Debug, Clone, Copy)]
pub struct LocalAddresses {
    pub ipv4: Option<[u8; 4]>,
    pub ipv6: Option<[u8; 16]>,
}

/// The address that stands in for one that is missing or cannot be read: 10.0.0.1.
pub open spec fn is_fallback(octets: [u8; 4]) -> bool {
    octets@ == seq![10u8, 0, 0, 1]
}

/// Whether a text is missing or blank.
pub open spec fn is_missing(text: Option<&str>) -> bool {
    match text {
        Some(s) => blank(s@),
        None => true,
    }
}

/// The IPv6 address that is configured, if it can be read.
pub open spec fn configured_ipv6(text: Option<&str>) -> Option<Seq<u8>> {
    if is_missing(text) {
        None
    } else {
        ipv6_parsed(text->0@)
    }
}

fn fallback() -> (octets: [u8; 4])
    ensures
        is_fallback(octets),
{
    let octets: [u8; 4] = [10, 0, 0, 1];
    assert(octets@ =~= seq![10u8, 0, 0, 1]);
    octets
}

impl LocalAddresses {
    /// The addresses that are configured. An IPv4 address that cannot be read is replaced by
    /// 10.0.0.1, an IPv6 address that cannot be read is left out, and where nothing is left
    /// 10.0.0.1 is used.
    pub fn new(ipv4: Option<&str>, ipv6: Option<&str>) -> (local: LocalAddresses)
        ensures
            match local.ipv6 {
                Some(octets) => configured_ipv6(ipv6) == Some(octets@),
                None => configured_ipv6(ipv6) is None,
            },
            match local.ipv4 {
                Some(octets) => if is_missing(ipv4) {
                    local.ipv6 is None && is_fallback(octets)
                } else if is_ipv4_text(ipv4->0@) {
                    ipv4->0@ == ipv4_text(octets@)
                } else {
                    is_fallback(octets)
                },
                None => is_missing(ipv4) && local.ipv6 is Some,
            },
    {
        let v6: Option<[u8; 16]> = match ipv6 {
            Some(s) => {
                if is_blank(s) {
                    None
                } else {
                    parse_ipv6(s)
                }
            },
            None => None,
        };
        let v4: Option<[u8; 4]> = match ipv4 {
            Some(s) => {
                if is_blank(s) {
                    None
                } else {
                    match parse_ipv4(s) {
                        Some(octets) => Some(octets),
                        None => Some(fallback()),
                    }
                }
            },
            None => None,
        };
        if v4.is_none() && v6.is_none() {
            LocalAddresses { ipv4: Some(fallback()), ipv6: None }
        } else {
            LocalAddresses { ipv4: v4, ipv6: v6 }
        }
    }

    /// The stack always has an address.
    pub open spec fn wf(&self) -> bool {
        self.ipv4 is Some || self.ipv6 is Some
    }

    /// The address for remotes of a family, if there is one.
    pub open spec fn address_for(&self, remote_ip: IpAddress) -> Option<IpAddress> {
        match remote_ip {
            IpAddress::V4(_) => match self.ipv4 {
                Some(octets) => Some(IpAddress::V4(octets)),
                None => None,
            },
            IpAddress::V6(_) => match self.ipv6 {
                Some(octets) => Some(IpAddress::V6(octets)),
                None => None,
            },
        }
    }

    /// The address where none is asked for, if there is one.
    pub open spec fn default_address(&self) -> Option<IpAddress> {
        match (self.ipv4, self.ipv6) {
            (Some(octets), _) => Some(IpAddress::V4(octets)),
            (None, Some(octets)) => Some(IpAddress::V6(octets)),
            (None, None) => None,
        }
    }

    /// The local address for a remote one: the one of the same family.
    pub fn local_addr_for_remote(&self, remote_ip: IpAddress) -> (res: Result<IpAddress, StackError>)
        ensures
            match self.address_for(remote_ip) {
                Some(ip) => res == Ok::<IpAddress, StackError>(ip),
                None => res matches Err(StackError::SocketError(text)) && text@ == if remote_ip is V4 {
                    "No IPv4 address configured"@
                } else {
                    "No IPv6 address configured"@
                },
            },
    {
        match remote_ip {
            IpAddress::V4(_) => match self.ipv4 {
                Some(octets) => Ok(IpAddress::V4(octets)),
                None => Err(
                    StackError::SocketError(String::from_str("No IPv4 address configured")),
                ),
            },
            IpAddress::V6(_) => match self.ipv6 {
                Some(octets) => Ok(IpAddress::V6(octets)),
                None => Err(
                    StackError::SocketError(String::from_str("No IPv6 address configured")),
                ),
            },
        }
    }

    /// The local address where none is asked for: that of IPv4, or else that of IPv6.
    pub fn local_addr_default(&self) -> (res: Result<IpAddress, StackError>)
        ensures
            match self.default_address() {
                Some(ip) => res == Ok::<IpAddress, StackError>(ip),
                None => res matches Err(StackError::SocketError(text)) && text@
                    == "No IP address configured"@,
            },
    {
        match self.ipv4 {
            Some(octets) => Ok(IpAddress::V4(octets)),
            None => match self.ipv6 {
                Some(octets) => Ok(IpAddress::V6(octets)),
                None => Err(StackError::SocketError(String::from_str("No IP address configured"))),
            },
        }
    }
}

/// A remote is reached from an address of its own family, and from no other. Where any address will
/// do, the IPv4 address is used before the IPv6 address.
pub proof fn which_own_address_is_used(local: LocalAddresses, remote: IpAddress)
    ensures
        remote is V4 && local.ipv4 is Some ==> local.address_for(remote) == Some(
            IpAddress::V4(local.ipv4->0),
        ),
        remote is V6 && local.ipv6 is Some ==> local.address_for(remote) == Some(
            IpAddress::V6(local.ipv6->0),
        ),
        remote is V4 && local.ipv4 is None ==> local.address_for(remote) is None,
        remote is V6 && local.ipv6 is None ==> local.address_for(remote) is None,
        local.ipv4 is Some ==> local.default_address() == Some(IpAddress::V4(local.ipv4->0)),
        local.ipv4 is None && local.ipv6 is Some ==> local.default_address() == Some(
            IpAddress::V6(local.ipv6->0),
        ),
        local.ipv4 is None && local.ipv6 is None ==> local.default_address() is None,
{
}

/// An IPv6 address of the configuration is used as it reads, unless it is blank.
pub proof fn which_ipv6_is_configured(text: &str)
    ensures
        !blank(text@) ==> configured_ipv6(Some(text)) == ipv6_parsed(text@),
        blank(text@) ==> configured_ipv6(Some(text)) is None,
        configured_ipv6(None) is None,
        is_missing(Some(text)) <==> blank(text@),
        is_missing(None),
{
}

/// Every drop counts. A warning comes a second after the last one at the earliest, and tells of all
/// drops since then.
pub proof fn drops_are_counted(logger: DropLogger, now: u64)
    requires
        logger.log_count < u64::MAX,
        logger.perf_count < u64::MAX,
    ensures
        logger.warns(now) <==> now >= logger.last_log + 1_000_000_000,
        logger.dropped(now).perf_count == logger.perf_count + 1,
        logger.warns(now) ==> logger.dropped(now).log_count == 0 && logger.dropped(now).last_log
            == now,
        !logger.warns(now) ==> logger.dropped(now).log_count == logger.log_count + 1
            && logger.dropped(now).last_log == logger.last_log,
        counted(logger.log_count) == logger.log_count + 1,
{
}

/// A device is full when as many packets wait as may. Only then does a packet go for a new one, and
/// its buffer is kept if there is room for it.
pub proof fn when_a_packet_is_dropped(device: VirtualDevice, data: Seq<u8>, now: u64)
    requires
        device.wf(),
        device.queue_capacity > 0,
    ensures
        device.rx_with(data).last() == data,
        device.rx().len() < device.queue_capacity ==> device.rx_with(data) == device.rx().push(data)
            && device.rx_drops_with(now) == device.rx_drop_logger && device.rx_warning(now) is None
            && device.pooled_with_packet() == device.pooled(),
        device.rx().len() == device.queue_capacity ==> device.rx_with(data)
            == device.rx().drop_first().push(data) && device.rx_drops_with(now)
            == device.rx_drop_logger.dropped(now) && (device.rx_warning(now) is Some
            <==> device.rx_drop_logger.warns(now)),
        device.can_transmit() <==> device.tx().len() < device.queue_capacity,
        put_back(device.pooled(), device.pool_capacity as nat) == if device.pooled()
            < device.pool_capacity {
            device.pooled() + 1
        } else {
            device.pooled()
        },
        device.pooled() > 0 ==> taken_out(device.pooled()) == device.pooled() - 1,
{
    if device.rx().len() == device.queue_capacity {
        assert(device.rx().skip(1) =~= device.rx().drop_first());
    }
}

/// A time that is set to zero is switched off; one that is not set has its usual value.
pub proof fn zero_switches_a_time_off(vars: Vars, name: Seq<char>, default: u64)
    ensures
        ({
            let set = vars.number(name, u64::MAX as nat);
            &&& set is None ==> optional_time(&vars, name, default) == Some(default)
            &&& set == Some(0nat) ==> optional_time(&vars, name, default) is None
            &&& set is Some && set->0 > 0 && set->0 <= u64::MAX ==> optional_time(
                &vars,
                name,
                default,
            ) is Some && optional_time(&vars, name, default)->0 == set->0
        }),
{
}

/// Each kind of fault reads with its own words.
pub proof fn how_stack_faults_read(fault: StackFault)
    ensures
        fault matches StackFault::SocketError(why) ==> stack_fault_text(fault) == "socket error: "@
            + why,
        fault matches StackFault::IoError(why) ==> stack_fault_text(fault) == "IO error: "@ + why,
        fault is PollPanic ==> stack_fault_text(fault) == "smoltcp poll panicked"@,
{
}

/// The address that stands in for a missing one is 10.0.0.1.
pub proof fn which_address_stands_in(octets: [u8; 4])
    ensures
        is_fallback(octets) <==> octets@[0] == 10 && octets@[1] == 0 && octets@[2] == 0 && octets@[3]
            == 1,
{
    if octets@[0] == 10 && octets@[1] == 0 && octets@[2] == 0 && octets@[3] == 1 {
        assert(octets@ =~= seq![10u8, 0, 0, 1]);
    }
}

/// A device keeps its size of packets and its limits.
pub proof fn a_device_keeps_its_limits(a: VirtualDevice, b: VirtualDevice)
    requires
        a.same_settings(&b),
    ensures
        a.mtu == b.mtu,
        a.queue_capacity == b.queue_capacity,
        a.pool_capacity == b.pool_capacity,
{
}

} // verus!
