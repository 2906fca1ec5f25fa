//! How packets leave for the tunnel and come from it.

use crate::manager::masque_io::TransportIoEvent;
use crate::manager::perf::{PerfCounters, PerfCounts};
use crate::manager::tunables::ManagerTunables;
use crate::tunnel::stack::{packets, requeued, requeueing_restores_order, VirtualDevice};
use crate::tunnel::wireguard::{
    carries, encrypts, grew, is_init, names_device, receives, WgTunnel,
};
use vstd::prelude::*;

verus! {

/// The kind of a tunnel.
#[derive(Debug, Clone, Copy, PartialEq, Eq, Structural)]
pub enum TunnelMode {
    Masque,
    Wireguard,
}

impl Default for TunnelMode {
    fn default() -> (mode: Self)
        ensures
            mode == TunnelMode::Masque,
    {
        TunnelMode::Masque
    }
}

impl TunnelMode {
    /// The name of the kind.
    pub fn mode_name(self) -> (name: &'static str)
        ensures
            name@ == match self {
                TunnelMode::Masque => "MASQUE"@,
                TunnelMode::Wireguard => "WireGuard"@,
            },
    {
        match self {
            TunnelMode::Masque => "MASQUE",
            TunnelMode::Wireguard => "WireGuard",
        }
    }

    /// How many packets may leave in one turn.
    pub fn stack_drain_budget(self, tunables: &ManagerTunables) -> (budget: usize)
        ensures
            budget == match self {
                TunnelMode::Masque => tunables.masque_stack_drain_budget,
                TunnelMode::Wireguard => tunables.wg_stack_drain_budget,
            },
    {
        match self {
            TunnelMode::Masque => tunables.masque_stack_drain_budget,
            TunnelMode::Wireguard => tunables.wg_stack_drain_budget,
        }
    }
}

/// Milliseconds as nanoseconds.
pub open spec fn ms(n: int) -> int {
    n * 1_000_000
}

/// The pause after the tunnel took no packets `streak` times in a row, in milliseconds: it
/// doubles from one up to 32.
pub open spec fn blocked_pause(streak: int) -> int {
    if streak <= 1 {
        1
    } else if streak == 2 {
        2
    } else if streak == 3 {
        4
    } else if streak == 4 {
        8
    } else if streak == 5 {
        16
    } else {
        32
    }
}

/// How often in a row the MASQUE tunnel took no packets, and until when none are offered to it.
/// Times are in nanoseconds.
#[derive(Debug, Clone, Copy, PartialEq, Eq, Structural)]
pub struct SendBlock {
    pub blocked_streak: u8,
    pub blocked_until: Option<u128>,
}

impl SendBlock {
    /// The streak is not counted beyond six.
    pub open spec fn wf(&self) -> bool {
        self.blocked_streak <= 6
    }

    /// Whether no packets are offered now.
    pub open spec fn blocked(&self, now: u64) -> bool {
        self.blocked_until matches Some(until) && until > now
    }

    /// The state after the tunnel took no packets once more.
    pub open spec fn after_full(self, now: u64) -> SendBlock {
        let streak = if self.blocked_streak >= 6 {
            6
        } else {
            self.blocked_streak + 1
        };
        SendBlock {
            blocked_streak: streak as u8,
            blocked_until: Some((now + ms(blocked_pause(streak))) as u128),
        }
    }

    /// The tunnel takes packets.
    pub fn new() -> (block: SendBlock)
        ensures
            block == (SendBlock { blocked_streak: 0, blocked_until: None }),
    {
        SendBlock { blocked_streak: 0, blocked_until: None }
    }

    /// The tunnel took packets.
    pub fn on_sent(&mut self)
        ensures
            *final(self) == (SendBlock { blocked_streak: 0, blocked_until: None }),
    {
        self.blocked_streak = 0;
        self.blocked_until = None;
    }

    /// The tunnel took no packets.
    pub fn on_full(&mut self, now: u64)
        requires
            old(self).wf(),
        ensures
            final(self).wf(),
            *final(self) == old(self).after_full(now),
    {
        self.blocked_streak = if self.blocked_streak >= 6 {
            6
        } else {
            self.blocked_streak + 1
        };
        let pause: u128 = match self.blocked_streak {
            1 => 1,
            2 => 2,
            3 => 4,
            4 => 8,
            5 => 16,
            _ => 32,
        };
        self.blocked_until = Some(now as u128 + pause * 1_000_000);
    }

    /// Whether no packets are offered now.
    pub fn masque_drain_blocked(&self, now: u64) -> (res: bool)
        ensures
            res == self.blocked(now),
    {
        match self.blocked_until {
            Some(until) => until > now as u128,
            None => false,
        }
    }

    /// When packets are offered again, if none are now; at the latest when the stack is looked at
    /// again.
    pub fn blocked_send_deadline(&self, max_poll_interval: u64, now: u64) -> (res: Option<u128>)
        ensures
            res == if self.blocked(now) {
                let next_poll = now + ms(max_poll_interval as int);
                Some(
                    (if self.blocked_until->0 <= next_poll {
                        self.blocked_until->0 as int
                    } else {
                        next_poll
                    }) as u128,
                )
            } else {
                None
            },
    {
        match self.blocked_until {
            Some(until) => {
                if until > now as u128 {
                    let next_poll: u128 = now as u128 + max_poll_interval as u128 * 1_000_000;
                    Some(
                        if until <= next_poll {
                            until
                        } else {
                            next_poll
                        },
                    )
                } else {
                    None
                }
            },
            None => None,
        }
    }
}

/// Pauses grow from one failure to the next, from one millisecond to 32, and a success ends them.
pub proof fn blocked_pauses_grow(block: SendBlock, now: u64)
    requires
        block.wf(),
    ensures
        block.after_full(now).blocked(now),
        now + ms(1) <= block.after_full(now).blocked_until->0 <= now + ms(32),
        block.after_full(now).blocked_until->0 <= block.after_full(now).after_full(
            now,
        ).blocked_until->0,
{
}

/// When the stack is to be looked at next: not at all without work, now if packets wait for it,
/// and otherwise when it asks for it, but at the latest after the longest interval. Times are in
/// nanoseconds, the interval in milliseconds.
pub fn stack_poll_deadline(
    has_work: bool,
    has_rx_packets: bool,
    poll_delay: Option<u64>,
    max_poll_interval: u64,
    now: u64,
) -> (res: Option<u128>)
    ensures
        res == if !has_work {
            None
        } else if has_rx_packets {
            Some(now as u128)
        } else {
            let delay = match poll_delay {
                Some(delay) => delay as int,
                None => 0,
            };
            Some(
                (now + if delay <= ms(max_poll_interval as int) {
                    delay
                } else {
                    ms(max_poll_interval as int)
                }) as u128,
            )
        },
{
    if !has_work {
        return None;
    }
    if has_rx_packets {
        return Some(now as u128);
    }
    let delay: u128 = match poll_delay {
        Some(delay) => delay as u128,
        None => 0,
    };
    let longest: u128 = max_poll_interval as u128 * 1_000_000;
    Some(
        now as u128 + if delay <= longest {
            delay
        } else {
            longest
        },
    )
}

/// When the WireGuard timers tick next. Times are in nanoseconds, the interval in milliseconds.
pub fn next_timer_at(wg_timer_interval: u64, now: u64) -> (at: u128)
    ensures
        at == now + ms(wg_timer_interval as int),
{
    now as u128 + wg_timer_interval as u128 * 1_000_000
}

/// What became of a batch of packets that was offered to the tunnel's worker.
#[derive(Debug)]
pub enum BatchSend {
    Sent,
    /// The worker's channel is full; the packets come back.
    Full(Vec<Vec<u8>>),
    /// The worker is gone; the packets come back.
    Closed(Vec<Vec<u8>>),
}

/// The bytes of a list of packets, as counted: the count starts anew after its largest value.
pub open spec fn counted_tx(counts: PerfCounts, list: Seq<Seq<u8>>) -> PerfCounts
    decreases list.len(),
{
    if list.len() == 0 {
        counts
    } else {
        let rest = counted_tx(counts, list.drop_last());
        PerfCounts {
            tx_packets: rest.tx_packets.wrapping_add(1),
            tx_bytes: rest.tx_bytes.wrapping_add(list.last().len() as u64),
            ..rest
        }
    }
}

/// One turn of moving packets from the stack to the tunnel: how many may still leave, and how
/// many go together.
#[derive(Debug, Clone, Copy, PartialEq, Eq, Structural)]
pub struct StackDrain {
    pub budget: usize,
    pub attempted: usize,
    pub batch_size: usize,
}

/// The smallest of three numbers.
pub open spec fn min3(a: int, b: int, c: int) -> int {
    if a <= b && a <= c {
        a
    } else if b <= c {
        b
    } else {
        c
    }
}

impl StackDrain {
    /// The budget is kept, and a batch has at least one packet.
    pub open spec fn wf(&self) -> bool {
        self.attempted <= self.budget && self.batch_size > 0
    }

    /// The packets of the next batch.
    pub open spec fn next(&self, queue: Seq<Seq<u8>>) -> Seq<Seq<u8>> {
        queue.take(min3(self.batch_size as int, self.budget - self.attempted, queue.len() as int))
    }

    /// A turn with this budget. Batches are not larger than the budget.
    pub fn new(budget: usize, send_batch_size: usize) -> (drain: StackDrain)
        requires
            send_batch_size > 0,
        ensures
            drain.wf(),
            drain.budget == budget,
            drain.attempted == 0,
            drain.batch_size == if budget > 0 && budget < send_batch_size {
                budget
            } else if budget == 0 {
                1
            } else {
                send_batch_size
            },
    {
        let most: usize = if budget == 0 {
            1
        } else {
            budget
        };
        StackDrain {
            budget,
            attempted: 0,
            batch_size: if send_batch_size < most {
                send_batch_size
            } else {
                most
            },
        }
    }

    /// Takes the next batch off the stack's queue, if any packet waits and the budget is not used
    /// up. The packets are counted.
    pub fn next_batch(&mut self, device: &mut VirtualDevice, perf: &mut PerfCounters) -> (res: Option<
        Vec<Vec<u8>>,
    >)
        requires
            old(self).wf(),
            old(device).wf(),
        ensures
            final(self).wf(),
            final(device).wf(),
            final(device).same_settings(old(device)),
            final(device).rx() == old(device).rx(),
            final(device).buffer_pool == old(device).buffer_pool,
            final(device).rx_drop_logger == old(device).rx_drop_logger,
            final(device).tx_drop_logger == old(device).tx_drop_logger,
            final(self).budget == old(self).budget,
            final(self).batch_size == old(self).batch_size,
            ({
                let batch = old(self).next(old(device).tx());
                &&& final(self).attempted == old(self).attempted + batch.len()
                &&& final(device).tx() == old(device).tx().skip(batch.len() as int)
                &&& *final(perf) == old(perf).with_counts(counted_tx(old(perf).counts, batch))
                &&& match res {
                    Some(list) => packets(list@) == batch && batch.len() > 0,
                    None => batch.len() == 0,
                }
            }),
    {
        let ghost queue = device.tx();
        let ghost full = self.next(queue);
        let mut list: Vec<Vec<u8>> = Vec::new();
        let mut waiting: bool = true;
        assert(packets(list@) =~= queue.take(0));
        assert(queue.skip(0) =~= queue);
        assert(counted_tx(old(perf).counts, queue.take(0)) == old(perf).counts);
        while waiting && self.attempted < self.budget && list.len() < self.batch_size
            invariant
                self.wf(),
                device.wf(),
                device.same_settings(old(device)),
                device.rx() == old(device).rx(),
                device.buffer_pool == old(device).buffer_pool,
                device.rx_drop_logger == old(device).rx_drop_logger,
                device.tx_drop_logger == old(device).tx_drop_logger,
                self.budget == old(self).budget,
                self.batch_size == old(self).batch_size,
                queue == old(device).tx(),
                full == old(self).next(queue),
                list@.len() <= full.len(),
                list@.len() <= queue.len(),
                self.attempted == old(self).attempted + list@.len(),
                packets(list@) == queue.take(list@.len() as int),
                device.tx() == queue.skip(list@.len() as int),
                *perf == old(perf).with_counts(
                    counted_tx(old(perf).counts, queue.take(list@.len() as int)),
                ),
                !waiting ==> list@.len() == queue.len(),
            decreases (if waiting {
                1int
            } else {
                0int
            }) + self.budget - self.attempted,
        {
            match device.take_packet() {
                Some(packet) => {
                    let ghost n = list@.len() as int;
                    perf.inc_tx(packet.len());
                    assert(packet@ == queue[n]);
                    let ghost before = packets(list@);
                    list.push(packet);
                    self.attempted = self.attempted + 1;
                    assert(packets(list@) =~= before.push(packet@));
                    assert(queue.take(n + 1) =~= queue.take(n).push(queue[n]));
                    assert(queue.take(n + 1).drop_last() =~= queue.take(n));
                    assert(queue.skip(n).skip(1) =~= queue.skip(n + 1));
                },
                None => {
                    waiting = false;
                },
            }
        }
        assert(list@.len() == full.len());
        assert(full =~= queue.take(list@.len() as int));
        if list.len() == 0 {
            None
        } else {
            Some(list)
        }
    }

    /// Takes note of what became of a batch. One that the worker could not take is put back in
    /// front of the queue, in its order; the turn is then over.
    pub fn on_batch(
        &self,
        device: &mut VirtualDevice,
        block: &mut SendBlock,
        perf: &mut PerfCounters,
        outcome: BatchSend,
        now: u64,
    ) -> (more: bool)
        requires
            self.wf(),
            old(device).wf(),
            old(block).wf(),
        ensures
            final(device).wf(),
            final(device).same_settings(old(device)),
            final(device).buffer_pool == old(device).buffer_pool,
            final(device).rx_drop_logger == old(device).rx_drop_logger,
            final(device).tx_drop_logger == old(device).tx_drop_logger,
            final(block).wf(),
            final(device).rx() == old(device).rx(),
            match outcome {
                BatchSend::Sent => {
                    &&& more == (self.attempted < self.budget)
                    &&& final(device).tx() == old(device).tx()
                    &&& *final(block) == (SendBlock { blocked_streak: 0, blocked_until: None })
                    &&& *final(perf) == *old(perf)
                },
                BatchSend::Full(list) => {
                    &&& !more
                    &&& final(device).tx() == packets(list@) + old(device).tx()
                    &&& *final(block) == old(block).after_full(now)
                    &&& *final(perf) == old(perf).with_counts(
                        (PerfCounts {
                            masque_blocked_events: old(
                                perf,
                            ).counts.masque_blocked_events.wrapping_add(1),
                            ..old(perf).counts
                        }),
                    )
                },
                BatchSend::Closed(list) => {
                    &&& !more
                    &&& final(device).tx() == packets(list@) + old(device).tx()
                    &&& *final(block) == *old(block)
                    &&& *final(perf) == *old(perf)
                },
            },
    {
        match outcome {
            BatchSend::Sent => {
                block.on_sent();
                self.attempted < self.budget
            },
            BatchSend::Full(list) => {
                perf.inc_masque_blocked();
                block.on_full(now);
                requeue_batch(device, list);
                false
            },
            BatchSend::Closed(list) => {
                requeue_batch(device, list);
                false
            },
        }
    }
}

/// Puts a batch back in front of the queue, in its order.
pub fn requeue_batch(device: &mut VirtualDevice, batch: Vec<Vec<u8>>)
    requires
        old(device).wf(),
    ensures
        final(device).wf(),
        final(device).same_settings(old(device)),
        final(device).buffer_pool == old(device).buffer_pool,
        final(device).rx_drop_logger == old(device).rx_drop_logger,
        final(device).tx_drop_logger == old(device).tx_drop_logger,
        final(device).rx() == old(device).rx(),
        final(device).tx() == packets(batch@) + old(device).tx(),
{
    let ghost all = packets(batch@);
    let ghost queue = device.tx();
    let mut batch: Vec<Vec<u8>> = batch;
    while batch.len() > 0
        invariant
            device.wf(),
            device.same_settings(old(device)),
            device.buffer_pool == old(device).buffer_pool,
            device.rx_drop_logger == old(device).rx_drop_logger,
            device.tx_drop_logger == old(device).tx_drop_logger,
            device.rx() == old(device).rx(),
            requeued(device.tx(), packets(batch@)) == requeued(queue, all),
        decreases batch@.len(),
    {
        let ghost left = packets(batch@);
        match batch.pop() {
            Some(packet) => {
                device.requeue_packet_front(packet);
                assert(left.last() == packet@);
                assert(packets(batch@) =~= left.drop_last());
            },
            None => {},
        }
    }
    proof {
        requeueing_restores_order(queue, all);
    }
}

/// A batch that was taken off the queue and could not be sent leaves the queue as it was.
pub proof fn failed_batch_changes_nothing(queue: Seq<Seq<u8>>, drain: StackDrain)
    requires
        drain.wf(),
    ensures
        drain.next(queue) + queue.skip(drain.next(queue).len() as int) == queue,
{
    assert(drain.next(queue) + queue.skip(drain.next(queue).len() as int) =~= queue);
}

/// Whether what WireGuard has encrypted is to be sent: packets left the stack in this turn, or some
/// still wait.
pub fn wg_flush_due(drained: usize, pending_send_packets: usize) -> (res: bool)
    ensures
        res == (drained > 0 || pending_send_packets > 0),
{
    drained > 0 || pending_send_packets > 0
}

/// Whether some packets of WireGuard's are those for packets of the stack: each starts a handshake,
/// or carries as many bytes as one of them has.
pub open spec fn sent_for(packets: Seq<Seq<u8>>, sent: Seq<Seq<u8>>) -> bool {
    forall|i: int|
        0 <= i < sent.len() ==> is_init(#[trigger] sent[i]) || exists|j: int|
            0 <= j < packets.len() && carries(sent[i], (#[trigger] packets[j]).len())
}

/// What becomes of packets that are sent through a WireGuard tunnel, one after the other.
pub open spec fn encrypts_all(
    before: WgTunnel,
    after: WgTunnel,
    packets: Seq<Seq<u8>>,
) -> bool
    decreases packets.len(),
{
    if packets.len() == 0 {
        after == before
    } else {
        exists|between: WgTunnel| #[trigger]
            encrypts(between, after, packets.last()) && encrypts_all(
                before,
                between,
                packets.drop_last(),
            )
    }
}

/// How many buffers a pool has after some were put back.
pub open spec fn all_put_back(count: nat, limit: nat, more: nat) -> nat {
    if count + more <= limit {
        count + more
    } else if count < limit {
        limit
    } else {
        count
    }
}

/// Encrypts the packets that the stack has for the WireGuard tunnel, in order and up to a budget.
/// Returns how many. A packet has at most as many bytes as the tunnel takes.
pub fn drain_to_wg(
    device: &mut VirtualDevice,
    tunnel: &mut WgTunnel,
    perf: &mut PerfCounters,
    budget: usize,
) -> (drained: usize)
    requires
        old(device).wf(),
        forall|i: int|
            0 <= i < old(device).tx().len() ==> (#[trigger] old(device).tx()[i]).len() <= 4096,
    ensures
        final(device).wf(),
        final(device).same_settings(old(device)),
        final(device).rx() == old(device).rx(),
        final(device).rx_drop_logger == old(device).rx_drop_logger,
        final(device).tx_drop_logger == old(device).tx_drop_logger,
        final(device).pooled() == all_put_back(
            old(device).pooled(),
            old(device).pool_capacity as nat,
            drained as nat,
        ),
        drained == if (budget as int) < old(device).tx().len() {
            budget as int
        } else {
            old(device).tx().len() as int
        },
        final(device).tx() == old(device).tx().skip(drained as int),
        *final(perf) == old(perf).with_counts(
            counted_tx(old(perf).counts, old(device).tx().take(drained as int)),
        ),
        final(tunnel).client_id() == old(tunnel).client_id(),
        encrypts_all(*old(tunnel), *final(tunnel), old(device).tx().take(drained as int)),
        grew(old(tunnel).waiting(), final(tunnel).waiting(), old(tunnel).client_id()),
        final(tunnel).waiting().len() <= old(tunnel).waiting().len() + drained,
        sent_for(
            old(device).tx().take(drained as int),
            final(tunnel).waiting().skip(old(tunnel).waiting().len() as int),
        ),
{
    let ghost queue = device.tx();
    let ghost before = tunnel.waiting();
    let ghost id = tunnel.client_id();
    let mut drained: usize = 0;
    proof {
        assert(queue.skip(0) =~= queue);
        assert(before.take(before.len() as int) =~= before);
        assert(counted_tx(old(perf).counts, queue.take(0)) == old(perf).counts);
    }
    while drained < budget
        invariant
            device.wf(),
            device.same_settings(old(device)),
            device.rx() == old(device).rx(),
            device.rx_drop_logger == old(device).rx_drop_logger,
            device.tx_drop_logger == old(device).tx_drop_logger,
            device.pooled() == all_put_back(
                old(device).pooled(),
                old(device).pool_capacity as nat,
                drained as nat,
            ),
            queue == old(device).tx(),
            before == old(tunnel).waiting(),
            id == old(tunnel).client_id(),
            forall|i: int| 0 <= i < queue.len() ==> (#[trigger] queue[i]).len() <= 4096,
            drained <= budget,
            drained <= queue.len(),
            device.tx() == queue.skip(drained as int),
            *perf == old(perf).with_counts(
                counted_tx(old(perf).counts, queue.take(drained as int)),
            ),
            tunnel.client_id() == id,
            encrypts_all(*old(tunnel), *tunnel, queue.take(drained as int)),
            grew(before, tunnel.waiting(), id),
            tunnel.waiting().len() <= before.len() + drained,
            sent_for(queue.take(drained as int), tunnel.waiting().skip(before.len() as int)),
        decreases budget - drained,
    {
        match device.take_packet() {
            Some(packet) => {
                let ghost n = drained as int;
                let ghost waiting = tunnel.waiting();
                let ghost between = *tunnel;
                assert(packet@ == queue[n]);
                perf.inc_tx(packet.len());
                tunnel.encrypt_ip_packet(packet.as_slice());
                device.recycle_tx_buffer(packet);
                proof {
                    assert(queue.take(n + 1) =~= queue.take(n).push(queue[n]));
                    assert(queue.take(n + 1).drop_last() =~= queue.take(n));
                    assert(encrypts(between, *tunnel, queue.take(n + 1).last()));
                    assert(queue.skip(n).skip(1) =~= queue.skip(n + 1));
                    assert(tunnel.waiting().take(before.len() as int) =~= waiting.take(
                        before.len() as int,
                    )) by {
                        assert(tunnel.waiting().take(waiting.len() as int).take(
                            before.len() as int,
                        ) =~= tunnel.waiting().take(before.len() as int));
                    }
                    assert forall|i: int|
                        before.len() <= i < tunnel.waiting().len() implies names_device(
                        #[trigger] tunnel.waiting()[i],
                        id,
                    ) by {
                        if i < waiting.len() {
                            assert(tunnel.waiting().take(waiting.len() as int)[i] == waiting[i]);
                        }
                    }
                    let so_far = waiting.skip(before.len() as int);
                    let now_sent = tunnel.waiting().skip(before.len() as int);
                    let taken = queue.take(n + 1);
                    assert forall|i: int| 0 <= i < now_sent.len() implies is_init(
                        #[trigger] now_sent[i],
                    ) || exists|j: int|
                        0 <= j < taken.len() && carries(now_sent[i], (#[trigger] taken[j]).len()) by {
                        if i < so_far.len() {
                            assert(now_sent[i] == so_far[i]);
                            if !is_init(so_far[i]) {
                                let j = choose|j: int|
                                    0 <= j < queue.take(n).len() && carries(
                                        so_far[i],
                                        (#[trigger] queue.take(n)[j]).len(),
                                    );
                                assert(taken[j] == queue.take(n)[j]);
                            }
                        } else {
                            assert(now_sent[i] == tunnel.waiting().last());
                            assert(taken[n] == queue[n]);
                        }
                    }
                }
                drained += 1;
            },
            None => {
                return drained;
            },
        }
    }
    drained
}

/// What becomes of the device with a packet for the stack.
pub open spec fn takes_packet(
    before: &VirtualDevice,
    after: &VirtualDevice,
    data: Seq<u8>,
    now: u64,
) -> bool {
    &&& after.rx() == before.rx_with(data)
    &&& after.rx_drop_logger == before.rx_drops_with(now)
    &&& after.pooled() == before.pooled_with_packet()
}

/// Decrypts a packet that came through the WireGuard tunnel, and hands what was in it to the stack.
pub fn handle_wg_datagram(
    device: &mut VirtualDevice,
    tunnel: &mut WgTunnel,
    perf: &mut PerfCounters,
    data: Vec<u8>,
    now: u64,
) -> (handling: IncomingHandling)
    requires
        old(device).wf(),
        old(device).queue_capacity > 0 || old(tunnel).yields(data@) is None,
    ensures
        final(device).wf(),
        final(device).same_settings(old(device)),
        final(device).tx_drop_logger == old(device).tx_drop_logger,
        final(device).tx() == old(device).tx(),
        *final(perf) == old(perf).with_counts(
            (PerfCounts {
                rx_packets: old(perf).counts.rx_packets.wrapping_add(1),
                rx_bytes: old(perf).counts.rx_bytes.wrapping_add(data@.len() as u64),
                ..old(perf).counts
            }),
        ),
        final(tunnel).client_id() == old(tunnel).client_id(),
        grew(old(tunnel).waiting(), final(tunnel).waiting(), old(tunnel).client_id()),
        receives(*old(tunnel), *final(tunnel), data@),
        match old(tunnel).yields(data@) {
            Some(ip) => {
                &&& handling == (IncomingHandling {
                    stack_ingress: true,
                    needs_transport_flush: true,
                    warning: old(device).rx_warning(now),
                })
                &&& takes_packet(old(device), final(device), ip, now)
            },
            None => {
                &&& handling == (IncomingHandling {
                    stack_ingress: false,
                    needs_transport_flush: true,
                    warning: None,
                })
                &&& *final(device) == *old(device)
            },
        },
{
    let len: usize = data.len();
    let payload: Option<Vec<u8>> = tunnel.decrypt_incoming(data);
    let handling = handle_incoming_datagram(
        device,
        perf,
        IncomingPacket::Wireguard(len, payload),
        now,
    );
    handling
}

/// What a packet from the tunnel leads to.
#[derive(Debug, Clone, Copy, PartialEq, Eq, Structural)]
pub struct IncomingHandling {
    /// The stack has got a packet.
    pub stack_ingress: bool,
    /// The tunnel may have something to send.
    pub needs_transport_flush: bool,
    /// So many packets were dropped for want of room, if it is time for a warning.
    pub warning: Option<u64>,
}

impl IncomingHandling {
    /// Whether anything is to be done after the packet.
    pub fn is_handled(&self) -> (res: bool)
        ensures
            res == (self.stack_ingress || self.needs_transport_flush),
    {
        self.stack_ingress || self.needs_transport_flush
    }
}

/// What a packet is worth once it has come through the tunnel.
#[derive(Debug)]
pub enum IncomingPacket {
    /// A packet from the MASQUE tunnel.
    Masque(Vec<u8>),
    /// A packet from the WireGuard tunnel: its length, and what was in it, if anything.
    Wireguard(usize, Option<Vec<u8>>),
}

/// Hands a packet from the tunnel to the stack.
pub fn handle_incoming_datagram(
    device: &mut VirtualDevice,
    perf: &mut PerfCounters,
    incoming: IncomingPacket,
    now: u64,
) -> (handling: IncomingHandling)
    requires
        old(device).wf(),
        old(device).queue_capacity > 0 || incoming matches IncomingPacket::Wireguard(_, None),
    ensures
        final(device).wf(),
        final(device).same_settings(old(device)),
        final(device).tx_drop_logger == old(device).tx_drop_logger,
        final(device).tx() == old(device).tx(),
        ({
            let (len, payload) = match incoming {
                IncomingPacket::Masque(data) => (data@.len(), Some(data@)),
                IncomingPacket::Wireguard(len, Some(data)) => (len as nat, Some(data@)),
                IncomingPacket::Wireguard(len, None) => (len as nat, None),
            };
            &&& *final(perf) == old(perf).with_counts(
                (PerfCounts {
                    rx_packets: old(perf).counts.rx_packets.wrapping_add(1),
                    rx_bytes: old(perf).counts.rx_bytes.wrapping_add(len as u64),
                    ..old(perf).counts
                }),
            )
            &&& handling == (IncomingHandling {
                stack_ingress: payload is Some,
                needs_transport_flush: incoming is Wireguard,
                warning: if payload is Some {
                    old(device).rx_warning(now)
                } else {
                    None
                },
            })
            &&& match payload {
                Some(data) => takes_packet(old(device), final(device), data, now),
                None => *final(device) == *old(device),
            }
        }),
{
    match incoming {
        IncomingPacket::Masque(data) => {
            perf.inc_rx(data.len());
            let warning: Option<u64> = device.inject_packet_owned(data, now);
            IncomingHandling { stack_ingress: true, needs_transport_flush: false, warning }
        },
        IncomingPacket::Wireguard(len, payload) => {
            perf.inc_rx(len);
            match payload {
                Some(data) => {
                    let warning: Option<u64> = device.inject_packet_owned(data, now);
                    IncomingHandling { stack_ingress: true, needs_transport_flush: true, warning }
                },
                None => IncomingHandling {
                    stack_ingress: false,
                    needs_transport_flush: true,
                    warning: None,
                },
            }
        },
    }
}

/// Takes an event of the MASQUE worker.
pub fn handle_transport_io_event(
    device: &mut VirtualDevice,
    perf: &mut PerfCounters,
    event: TransportIoEvent,
    now: u64,
) -> (handling: IncomingHandling)
    requires
        old(device).wf(),
        event is Incoming ==> old(device).queue_capacity > 0,
    ensures
        final(device).wf(),
        final(device).same_settings(old(device)),
        final(device).tx_drop_logger == old(device).tx_drop_logger,
        final(device).tx() == old(device).tx(),
        match event {
            TransportIoEvent::Incoming(data) => {
                &&& handling == (IncomingHandling {
                    stack_ingress: true,
                    needs_transport_flush: false,
                    warning: old(device).rx_warning(now),
                })
                &&& takes_packet(old(device), final(device), data@, now)
                &&& *final(perf) == old(perf).with_counts(
                    (PerfCounts {
                        rx_packets: old(perf).counts.rx_packets.wrapping_add(1),
                        rx_bytes: old(perf).counts.rx_bytes.wrapping_add(data@.len() as u64),
                        ..old(perf).counts
                    }),
                )
            },
            TransportIoEvent::QuicFlush(status) => {
                &&& handling == (IncomingHandling {
                    stack_ingress: false,
                    needs_transport_flush: false,
                    warning: None,
                })
                &&& *final(device) == *old(device)
                &&& *final(perf) == old(perf).with_counts(
                    PerfCounters::with_send_batch(old(perf).counts, status),
                )
            },
            TransportIoEvent::MasqueBlocked => {
                &&& handling == (IncomingHandling {
                    stack_ingress: false,
                    needs_transport_flush: false,
                    warning: None,
                })
                &&& *final(device) == *old(device)
                &&& *final(perf) == old(perf).with_counts(
                    (PerfCounts {
                        masque_blocked_events: old(perf).counts.masque_blocked_events.wrapping_add(
                            1,
                        ),
                        ..old(perf).counts
                    }),
                )
            },
        },
{
    match event {
        TransportIoEvent::Incoming(data) => handle_incoming_datagram(
            device,
            perf,
            IncomingPacket::Masque(data),
            now,
        ),
        TransportIoEvent::QuicFlush(status) => {
            perf.record_masque_send_batch(status);
            IncomingHandling {
                stack_ingress: false,
                needs_transport_flush: false,
                warning: None,
            }
        },
        TransportIoEvent::MasqueBlocked => {
            perf.inc_masque_blocked();
            IncomingHandling {
                stack_ingress: false,
                needs_transport_flush: false,
                warning: None,
            }
        },
    }
}

/// What came of reading from the tunnel's UDP socket.
#[derive(Debug, Clone, Copy, PartialEq, Eq, Structural)]
pub enum UdpRead {
    /// A datagram of this length.
    Datagram(usize),
    WouldBlock,
    Failed,
}

/// What follows from a read.
#[derive(Debug, Clone, Copy, PartialEq, Eq, Structural)]
pub enum UdpReadStep {
    /// The datagram, of this length, goes to the manager.
    Deliver(usize),
    /// The socket has nothing more; the buffer is free.
    Stop,
}

/// A run of reading from the tunnel's UDP socket.
#[derive(Debug, Clone, Copy, PartialEq, Eq, Structural)]
pub struct UdpDrain {
    pub budget: usize,
    pub drained: usize,
}

impl UdpDrain {
    pub open spec fn wf(&self) -> bool {
        self.drained <= self.budget
    }

    /// A run of at most `budget` datagrams.
    pub fn new(budget: usize) -> (drain: UdpDrain)
        ensures
            drain.wf(),
            drain.budget == budget,
            drain.drained == 0,
    {
        UdpDrain { budget, drained: 0 }
    }

    /// How many datagrams a run may take where this many packets are handled in one turn: four
    /// times as many, but at least one.
    pub fn read_budget(udp_batch_read_budget: usize) -> (budget: usize)
        ensures
            budget == if udp_batch_read_budget == 0 {
                1
            } else if udp_batch_read_budget * 4 > usize::MAX {
                usize::MAX as int
            } else {
                udp_batch_read_budget * 4
            },
    {
        if udp_batch_read_budget == 0 {
            1
        } else {
            match udp_batch_read_budget.checked_mul(4) {
                Some(budget) => budget,
                None => usize::MAX,
            }
        }
    }

    /// Whether another datagram may be read.
    pub fn wants_more(&self) -> (res: bool)
        ensures
            res == (self.drained < self.budget),
    {
        self.drained < self.budget
    }

    /// Takes note of a read. An empty datagram ends the run, as does a socket that has nothing more
    /// or that fails.
    pub fn on_read(&mut self, read: UdpRead) -> (step: UdpReadStep)
        requires
            old(self).wf(),
            old(self).drained < old(self).budget,
        ensures
            final(self).wf(),
            final(self).budget == old(self).budget,
            match read {
                UdpRead::Datagram(len) if len > 0 => step == UdpReadStep::Deliver(len)
                    && final(self).drained == old(self).drained + 1,
                _ => step == UdpReadStep::Stop && final(self).drained == old(self).drained,
            },
    {
        match read {
            UdpRead::Datagram(len) => {
                if len == 0 {
                    return UdpReadStep::Stop;
                }
                self.drained = self.drained + 1;
                UdpReadStep::Deliver(len)
            },
            UdpRead::WouldBlock => UdpReadStep::Stop,
            UdpRead::Failed => UdpReadStep::Stop,
        }
    }
}

/// The pauses after a full channel are 1, 2, 4, 8, 16 and 32 milliseconds, and 32 from then on.
pub proof fn blocked_pauses_double(block: SendBlock, now: u64, streak: int)
    requires
        block.wf(),
        1 <= streak,
    ensures
        blocked_pause(1) == 1,
        blocked_pause(streak + 1) == if 2 * blocked_pause(streak) <= 32 {
            2 * blocked_pause(streak)
        } else {
            32
        },
        block.blocked_streak < 6 ==> block.after_full(now).blocked_streak == block.blocked_streak + 1,
        block.blocked_streak == 6 ==> block.after_full(now).blocked_streak == 6,
        block.after_full(now).blocked_until is Some,
        block.after_full(now).blocked_until->0 == now + 1_000_000 * blocked_pause(
            block.after_full(now).blocked_streak as int,
        ),
        block.blocked(now) <==> block.blocked_until is Some && block.blocked_until->0 > now,
{
}

/// What is counted of packets that were sent is their number and all their bytes, and nothing else.
pub proof fn every_packet_is_counted(counts: PerfCounts, list: Seq<Seq<u8>>)
    requires
        counts.tx_packets + list.len() <= u64::MAX,
        counts.tx_bytes + list.map_values(|p: Seq<u8>| p.len() as int).fold_left(
            0int,
            |a: int, b: int| a + b,
        ) <= u64::MAX,
    ensures
        counted_tx(counts, list).tx_packets == counts.tx_packets + list.len(),
        counted_tx(counts, list).tx_bytes == counts.tx_bytes + list.map_values(
            |p: Seq<u8>| p.len() as int,
        ).fold_left(0int, |a: int, b: int| a + b),
        0 <= list.map_values(|p: Seq<u8>| p.len() as int).fold_left(0int, |a: int, b: int| a + b),
        counted_tx(counts, list) == (PerfCounts {
            tx_packets: counted_tx(counts, list).tx_packets,
            tx_bytes: counted_tx(counts, list).tx_bytes,
            ..counts
        }),
    decreases list.len(),
{
    let size = |p: Seq<u8>| p.len() as int;
    let plus = |a: int, b: int| a + b;
    let sizes = list.map_values(size);
    reveal_with_fuel(Seq::fold_left, 2);
    if list.len() > 0 {
        let shorter = list.drop_last();
        assert(sizes.drop_last() =~= shorter.map_values(size));
        assert(sizes.fold_left(0int, plus) == shorter.map_values(size).fold_left(0int, plus)
            + list.last().len());
        sums_grow(shorter);
        every_packet_is_counted(counts, shorter);
    }
}

proof fn sums_grow(list: Seq<Seq<u8>>)
    ensures
        0 <= list.map_values(|p: Seq<u8>| p.len() as int).fold_left(0int, |a: int, b: int| a + b),
    decreases list.len(),
{
    let size = |p: Seq<u8>| p.len() as int;
    let plus = |a: int, b: int| a + b;
    let sizes = list.map_values(size);
    reveal_with_fuel(Seq::fold_left, 2);
    if list.len() > 0 {
        let shorter = list.drop_last();
        assert(sizes.drop_last() =~= shorter.map_values(size));
        sums_grow(shorter);
    }
}

/// A batch is the front of the queue: as many packets as a batch may have, as the turn may still
/// send, and as there are, and not one less.
pub proof fn batches_are_as_large_as_they_may_be(drain: StackDrain, queue: Seq<Seq<u8>>)
    requires
        drain.wf(),
    ensures
        drain.next(queue).is_prefix_of(queue),
        drain.next(queue).len() <= drain.batch_size,
        drain.next(queue).len() <= drain.budget - drain.attempted,
        drain.next(queue).len() == queue.len() || drain.next(queue).len() == drain.batch_size
            || drain.next(queue).len() == drain.budget - drain.attempted,
{
}

/// A packet for the stack comes in behind the others, and the oldest goes where there is no room; a
/// warning tells of the drops only then.
pub proof fn the_newest_packet_stays(
    before: VirtualDevice,
    after: VirtualDevice,
    data: Seq<u8>,
    now: u64,
)
    requires
        takes_packet(&before, &after, data, now),
        before.wf(),
        before.queue_capacity > 0,
    ensures
        after.rx().last() == data,
        before.rx().len() < before.queue_capacity ==> after.rx() == before.rx().push(data)
            && after.rx_drop_logger == before.rx_drop_logger && before.rx_warning(now) is None,
        before.rx().len() == before.queue_capacity ==> after.rx() == before.rx().skip(1).push(data),
        after.rx().len() <= before.queue_capacity,
{
}

/// A pool gets every buffer back until it is full, and no more then.
pub proof fn buffers_come_back(count: nat, limit: nat, more: nat)
    ensures
        count + more <= limit ==> all_put_back(count, limit, more) == count + more,
        count <= limit <= count + more ==> all_put_back(count, limit, more) == limit,
        limit <= count ==> all_put_back(count, limit, more) == count,
{
}

/// Every packet of a turn is encrypted, one after the other: none is left out, and the packets that
/// wait to be sent are only added to.
pub proof fn packets_are_encrypted_in_turn(
    before: WgTunnel,
    between: WgTunnel,
    after: WgTunnel,
    packets: Seq<Seq<u8>>,
    next: Seq<u8>,
)
    requires
        encrypts_all(before, between, packets),
        encrypts(between, after, next),
    ensures
        encrypts_all(before, after, packets.push(next)),
        encrypts_all(before, before, Seq::empty()),
{
    assert(packets.push(next).drop_last() =~= packets);
    assert(packets.push(next).last() == next);
}

/// A packet that leaves the queue of the stack alone is encrypted: with none there is no change, and
/// with one the tunnel does with it what it does with a single packet.
pub proof fn one_packet_is_encrypted(before: WgTunnel, after: WgTunnel, packet: Seq<u8>)
    ensures
        encrypts_all(before, after, Seq::empty()) ==> after == before,
        encrypts_all(before, after, seq![packet]) ==> encrypts(before, after, packet),
{
    if encrypts_all(before, after, seq![packet]) {
        assert(seq![packet].last() == packet);
        assert(seq![packet].drop_last() =~= Seq::empty());
        let between = choose|between: WgTunnel| #[trigger]
            encrypts(between, after, packet) && encrypts_all(before, between, Seq::empty());
        assert(between == before);
    }
}

} // verus!
