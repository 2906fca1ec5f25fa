//! The load of a manager, and the choice of the manager that takes the next connection.

use crate::manager::commands::ManagerCommand;
use crate::manager::ManagerError;
use vstd::prelude::*;

verus! {

/// How busy a manager is.
#[derive(Debug, Clone, Copy, PartialEq, Eq, Structural)]
pub struct ManagerLoadSnapshot {
    pub active_tcp_sockets: usize,
    pub pending_connects: usize,
    pub pending_to_client_bytes: usize,
    pub transport_pending_send_packets: usize,
}

/// The figures of a running manager.
#[derive(Debug, Clone, Copy, PartialEq, Eq, Structural)]
pub struct ManagerRuntimeStats {
    pub max_tcp_sockets_per_worker: usize,
    pub active_tcp_sockets: usize,
    pub pending_connects: usize,
    pub pending_to_client_bytes: usize,
    pub transport_pending_send_packets: usize,
}

impl ManagerRuntimeStats {
    /// Whether there is room for one more TCP connection: open sockets and reserved slots
    /// together are below the limit.
    pub open spec fn has_slot(&self) -> bool {
        self.active_tcp_sockets + self.pending_connects < self.max_tcp_sockets_per_worker
    }

    /// The figures with one slot more reserved.
    pub open spec fn reserved(self) -> ManagerRuntimeStats {
        ManagerRuntimeStats { pending_connects: (self.pending_connects + 1) as usize, ..self }
    }

    /// The figures with one slot less reserved, if there was one.
    pub open spec fn given_back(self) -> ManagerRuntimeStats {
        ManagerRuntimeStats {
            pending_connects: if self.pending_connects > 0 {
                (self.pending_connects - 1) as usize
            } else {
                0
            },
            ..self
        }
    }

    /// The load that these figures report.
    pub open spec fn load(self) -> ManagerLoadSnapshot {
        ManagerLoadSnapshot {
            active_tcp_sockets: self.active_tcp_sockets,
            pending_connects: self.pending_connects,
            pending_to_client_bytes: self.pending_to_client_bytes,
            transport_pending_send_packets: self.transport_pending_send_packets,
        }
    }

    /// A manager that does nothing yet.
    pub fn new(max_tcp_sockets_per_worker: usize) -> (stats: ManagerRuntimeStats)
        ensures
            stats == (ManagerRuntimeStats {
                max_tcp_sockets_per_worker,
                active_tcp_sockets: 0,
                pending_connects: 0,
                pending_to_client_bytes: 0,
                transport_pending_send_packets: 0,
            }),
    {
        ManagerRuntimeStats {
            max_tcp_sockets_per_worker,
            active_tcp_sockets: 0,
            pending_connects: 0,
            pending_to_client_bytes: 0,
            transport_pending_send_packets: 0,
        }
    }

    /// The load that these figures report.
    pub fn snapshot(&self) -> (load: ManagerLoadSnapshot)
        ensures
            load == self.load(),
    {
        ManagerLoadSnapshot {
            active_tcp_sockets: self.active_tcp_sockets,
            pending_connects: self.pending_connects,
            pending_to_client_bytes: self.pending_to_client_bytes,
            transport_pending_send_packets: self.transport_pending_send_packets,
        }
    }

    /// Reserves a slot for a TCP connection, if there is one.
    pub fn try_reserve_tcp_slot(&mut self) -> (res: bool)
        ensures
            res == old(self).has_slot(),
            *final(self) == if old(self).has_slot() {
                old(self).reserved()
            } else {
                *old(self)
            },
    {
        if self.active_tcp_sockets.saturating_add(self.pending_connects)
            >= self.max_tcp_sockets_per_worker {
            return false;
        }
        self.pending_connects = self.pending_connects + 1;
        true
    }

    /// Gives a reserved slot back.
    pub fn finish_reserved_tcp_connect(&mut self)
        ensures
            *final(self) == old(self).given_back(),
    {
        if self.pending_connects > 0 {
            self.pending_connects = self.pending_connects - 1;
        }
    }

    /// A request has come to its manager: the slot that was reserved for it is given back.
    pub fn on_command(&mut self, cmd: &ManagerCommand)
        ensures
            *final(self) == if cmd matches ManagerCommand::Connect { reserved_slot: true, .. } {
                old(self).given_back()
            } else {
                *old(self)
            },
    {
        if let ManagerCommand::Connect { reserved_slot, .. } = cmd {
            if *reserved_slot {
                self.finish_reserved_tcp_connect();
            }
        }
    }

    /// Takes the figures of the manager's loop. Reserved slots stay.
    pub fn update(
        &mut self,
        active_tcp_sockets: usize,
        pending_to_client_bytes: usize,
        transport_pending_send_packets: usize,
    )
        ensures
            *final(self) == (ManagerRuntimeStats {
                active_tcp_sockets,
                pending_to_client_bytes,
                transport_pending_send_packets,
                ..*old(self)
            }),
    {
        self.active_tcp_sockets = active_tcp_sockets;
        self.pending_to_client_bytes = pending_to_client_bytes;
        self.transport_pending_send_packets = transport_pending_send_packets;
    }

    /// Starts anew: nothing is open, reserved or pending.
    pub fn reset(&mut self)
        ensures
            *final(self) == (ManagerRuntimeStats {
                max_tcp_sockets_per_worker: old(self).max_tcp_sockets_per_worker,
                active_tcp_sockets: 0,
                pending_connects: 0,
                pending_to_client_bytes: 0,
                transport_pending_send_packets: 0,
            }),
    {
        self.update(0, 0, 0);
        self.pending_connects = 0;
    }
}

/// A reservation never takes a manager beyond its limit, and giving the slot back restores
/// the figures.
pub proof fn reservation_respects_limit(stats: ManagerRuntimeStats)
    requires
        stats.has_slot(),
    ensures
        stats.reserved().given_back() == stats,
        stats.reserved().active_tcp_sockets + stats.reserved().pending_connects
            <= stats.max_tcp_sockets_per_worker,
        stats.reserved().pending_connects == stats.pending_connects + 1,
{
}

/// A sum that stops at the largest number.
pub open spec fn saturated_sum(a: usize, b: usize) -> int {
    if a + b > usize::MAX {
        usize::MAX as int
    } else {
        a + b
    }
}

/// How far a manager lies behind the one that is first in turn.
pub open spec fn turn(idx: int, start: int, len: int) -> int {
    if idx >= start {
        idx - start
    } else {
        idx + len - start
    }
}

/// Whether a manager is preferred to another: by connections, then by packets that wait for
/// the transport, then by bytes that wait for clients, then by turn.
pub open spec fn preferred(
    a: ManagerLoadSnapshot,
    a_turn: int,
    b: ManagerLoadSnapshot,
    b_turn: int,
) -> bool {
    let a_sockets = saturated_sum(a.active_tcp_sockets, a.pending_connects);
    let b_sockets = saturated_sum(b.active_tcp_sockets, b.pending_connects);
    if a_sockets != b_sockets {
        a_sockets < b_sockets
    } else if a.transport_pending_send_packets != b.transport_pending_send_packets {
        a.transport_pending_send_packets < b.transport_pending_send_packets
    } else if a.pending_to_client_bytes != b.pending_to_client_bytes {
        a.pending_to_client_bytes < b.pending_to_client_bytes
    } else {
        a_turn < b_turn
    }
}

/// Whether a manager may be picked: any of them, or only one with a free slot.
pub open spec fn eligible(stats: ManagerRuntimeStats, reserve: bool) -> bool {
    !reserve || stats.has_slot()
}

/// Whether manager `best` is the one to pick: it may be picked, and it is preferred to every
/// other one that may.
pub open spec fn is_best(
    managers: Seq<ManagerRuntimeStats>,
    start: int,
    reserve: bool,
    best: int,
) -> bool {
    let len = managers.len() as int;
    &&& 0 <= best < len
    &&& eligible(managers[best], reserve)
    &&& forall|i: int|
        0 <= i < len && i != best && eligible(#[trigger] managers[i], reserve) ==> preferred(
            managers[best].load(),
            turn(best, start, len),
            managers[i].load(),
            turn(i, start, len),
        )
}

/// There is never more than one manager to pick.
pub proof fn best_is_unique(
    managers: Seq<ManagerRuntimeStats>,
    start: int,
    reserve: bool,
    a: int,
    b: int,
)
    requires
        0 <= start < managers.len(),
        is_best(managers, start, reserve, a),
        is_best(managers, start, reserve, b),
    ensures
        a == b,
{
    if a != b {
        assert(eligible(managers[a], reserve));
        assert(eligible(managers[b], reserve));
    }
}

fn is_preferred(
    a: ManagerLoadSnapshot,
    a_turn: usize,
    b: ManagerLoadSnapshot,
    b_turn: usize,
) -> (res: bool)
    ensures
        res == preferred(a, a_turn as int, b, b_turn as int),
{
    let a_sockets: usize = a.active_tcp_sockets.saturating_add(a.pending_connects);
    let b_sockets: usize = b.active_tcp_sockets.saturating_add(b.pending_connects);
    if a_sockets != b_sockets {
        a_sockets < b_sockets
    } else if a.transport_pending_send_packets != b.transport_pending_send_packets {
        a.transport_pending_send_packets < b.transport_pending_send_packets
    } else if a.pending_to_client_bytes != b.pending_to_client_bytes {
        a.pending_to_client_bytes < b.pending_to_client_bytes
    } else {
        a_turn < b_turn
    }
}

/// The managers of a pool. A manager is known by its place.
pub struct TunnelManagerPool {
    pub managers: Vec<ManagerRuntimeStats>,
    pub next: usize,
}

impl TunnelManagerPool {
    /// A pool has at least one manager.
    pub open spec fn wf(&self) -> bool {
        self.managers@.len() > 0
    }

    /// Which manager is first in turn.
    pub open spec fn start(&self) -> int {
        self.next as int % self.managers@.len() as int
    }

    /// A pool of `size` managers, but at least one.
    pub fn new(size: usize, max_tcp_sockets_per_worker: usize) -> (pool: TunnelManagerPool)
        ensures
            pool.wf(),
            pool.next == 0,
            pool.managers@.len() == if size == 0 {
                1
            } else {
                size as nat
            },
            forall|i: int|
                0 <= i < pool.managers@.len() ==> #[trigger] pool.managers@[i]
                    == (ManagerRuntimeStats {
                    max_tcp_sockets_per_worker,
                    active_tcp_sockets: 0,
                    pending_connects: 0,
                    pending_to_client_bytes: 0,
                    transport_pending_send_packets: 0,
                }),
    {
        let size: usize = if size == 0 {
            1
        } else {
            size
        };
        let mut managers: Vec<ManagerRuntimeStats> = Vec::new();
        let mut i: usize = 0;
        while i < size
            invariant
                i <= size,
                managers@.len() == i,
                forall|k: int|
                    0 <= k < i ==> #[trigger] managers@[k] == (ManagerRuntimeStats {
                        max_tcp_sockets_per_worker,
                        active_tcp_sockets: 0,
                        pending_connects: 0,
                        pending_to_client_bytes: 0,
                        transport_pending_send_packets: 0,
                    }),
            decreases size - i,
        {
            managers.push(ManagerRuntimeStats::new(max_tcp_sockets_per_worker));
            i += 1;
        }
        TunnelManagerPool { managers, next: 0 }
    }

    /// A pool of the given managers.
    pub fn from_managers(managers: Vec<ManagerRuntimeStats>) -> (pool: TunnelManagerPool)
        requires
            managers@.len() > 0,
        ensures
            pool.wf(),
            pool.managers@ == managers@,
            pool.next == 0,
    {
        TunnelManagerPool { managers, next: 0 }
    }

    /// Picks the least loaded manager, with a slot for a TCP connection if one is to be
    /// reserved. The turn passes on. `None`: no manager has a slot left.
    fn pick_loaded_manager(&mut self, reserve_tcp_slot: bool) -> (res: Option<usize>)
        requires
            old(self).wf(),
        ensures
            final(self).wf(),
            final(self).next == (if old(self).next == usize::MAX {
                0
            } else {
                old(self).next + 1
            }),
            match res {
                Some(best) => {
                    &&& is_best(
                        old(self).managers@,
                        old(self).start(),
                        reserve_tcp_slot,
                        best as int,
                    )
                    &&& final(self).managers@ == if reserve_tcp_slot {
                        old(self).managers@.update(
                            best as int,
                            old(self).managers@[best as int].reserved(),
                        )
                    } else {
                        old(self).managers@
                    }
                },
                None => {
                    &&& forall|i: int|
                        0 <= i < old(self).managers@.len() ==> !eligible(
                            #[trigger] old(self).managers@[i],
                            reserve_tcp_slot,
                        )
                    &&& final(self).managers@ == old(self).managers@
                },
            },
    {
        let len: usize = self.managers.len();
        let start: usize = self.next % len;
        self.next = self.next.wrapping_add(1);
        let mut best: Option<usize> = None;
        let mut i: usize = 0;
        while i < len
            invariant
                i <= len,
                self.managers@ == old(self).managers@,
                len == self.managers@.len(),
                start < len,
                match best {
                    Some(b) => {
                        &&& b < i
                        &&& eligible(self.managers@[b as int], reserve_tcp_slot)
                        &&& forall|k: int|
                            0 <= k < i && k != b && eligible(
                                #[trigger] self.managers@[k],
                                reserve_tcp_slot,
                            ) ==> preferred(
                                self.managers@[b as int].load(),
                                turn(b as int, start as int, len as int),
                                self.managers@[k].load(),
                                turn(k, start as int, len as int),
                            )
                    },
                    None => forall|k: int|
                        0 <= k < i ==> !eligible(#[trigger] self.managers@[k], reserve_tcp_slot),
                },
            decreases len - i,
        {
            let stats: ManagerRuntimeStats = self.managers[i];
            let free: bool = stats.active_tcp_sockets.saturating_add(stats.pending_connects)
                < stats.max_tcp_sockets_per_worker;
            if !reserve_tcp_slot || free {
                let i_turn: usize = if i >= start {
                    i - start
                } else {
                    len - start + i
                };
                best =
                match best {
                    Some(b) => {
                        let b_turn: usize = if b >= start {
                            b - start
                        } else {
                            len - start + b
                        };
                        if is_preferred(
                            stats.snapshot(),
                            i_turn,
                            self.managers[b].snapshot(),
                            b_turn,
                        ) {
                            Some(i)
                        } else {
                            Some(b)
                        }
                    },
                    None => Some(i),
                };
            }
            i += 1;
        }
        match best {
            Some(b) => {
                if reserve_tcp_slot {
                    let mut stats: ManagerRuntimeStats = self.managers[b];
                    let _ = stats.try_reserve_tcp_slot();
                    self.managers.set(b, stats);
                }
                Some(b)
            },
            None => None,
        }
    }

    /// Picks the least loaded manager.
    pub fn pick(&mut self) -> (best: usize)
        requires
            old(self).wf(),
        ensures
            final(self).wf(),
            is_best(old(self).managers@, old(self).start(), false, best as int),
            final(self).managers@ == old(self).managers@,
            final(self).next == (if old(self).next == usize::MAX {
                0
            } else {
                old(self).next + 1
            }),
    {
        match self.pick_loaded_manager(false) {
            Some(best) => best,
            None => {
                assert(eligible(old(self).managers@[0], false));
                0
            },
        }
    }

    /// Picks the least loaded manager that has a slot for a TCP connection, and reserves the
    /// slot. An error where none has one.
    pub fn pick_for_tcp(&mut self) -> (res: Result<usize, ManagerError>)
        requires
            old(self).wf(),
        ensures
            final(self).wf(),
            match res {
                Ok(best) => {
                    &&& is_best(old(self).managers@, old(self).start(), true, best as int)
                    &&& final(self).managers@ == old(self).managers@.update(
                        best as int,
                        old(self).managers@[best as int].reserved(),
                    )
                },
                Err(e) => {
                    &&& e is Overloaded
                    &&& forall|i: int|
                        0 <= i < old(self).managers@.len() ==> !(
                        #[trigger] old(self).managers@[i]).has_slot()
                    &&& final(self).managers@ == old(self).managers@
                },
            },
            final(self).next == (if old(self).next == usize::MAX {
                0
            } else {
                old(self).next + 1
            }),
    {
        match self.pick_loaded_manager(true) {
            Some(best) => Ok(best),
            None => {
                assert forall|i: int| 0 <= i < old(self).managers@.len() implies !(
                #[trigger] old(self).managers@[i]).has_slot() by {
                    assert(!eligible(old(self).managers@[i], true));
                }
                Err(ManagerError::Overloaded)
            },
        }
    }
}

/// A manager takes a connection as long as those that are open and those that are being made are
/// fewer than it may have.
pub proof fn connections_up_to_the_limit(stats: ManagerRuntimeStats)
    ensures
        stats.has_slot() <==> stats.active_tcp_sockets + stats.pending_connects + 1
            <= stats.max_tcp_sockets_per_worker,
        stats.given_back().pending_connects == if stats.pending_connects == 0 {
            0
        } else {
            stats.pending_connects - 1
        },
        stats.given_back().active_tcp_sockets == stats.active_tcp_sockets,
        stats.given_back().max_tcp_sockets_per_worker == stats.max_tcp_sockets_per_worker,
        stats.reserved().active_tcp_sockets == stats.active_tcp_sockets,
        stats.reserved().max_tcp_sockets_per_worker == stats.max_tcp_sockets_per_worker,
        stats.load().active_tcp_sockets == stats.active_tcp_sockets,
        stats.load().pending_connects == stats.pending_connects,
        stats.load().pending_to_client_bytes == stats.pending_to_client_bytes,
        stats.load().transport_pending_send_packets == stats.transport_pending_send_packets,
{
}

/// The manager that is picked has the fewest connections of all that may be picked; among those with
/// as few, the fewest packets that wait to be sent; among those again, the fewest bytes for clients;
/// and among those, its turn comes first.
pub proof fn the_least_loaded_is_picked(
    managers: Seq<ManagerRuntimeStats>,
    start: int,
    reserve: bool,
    best: int,
    other: int,
)
    requires
        is_best(managers, start, reserve, best),
        0 <= start < managers.len(),
        0 <= other < managers.len(),
        other != best,
        reserve ==> managers[other].active_tcp_sockets + managers[other].pending_connects
            < managers[other].max_tcp_sockets_per_worker,
        managers[best].active_tcp_sockets + managers[best].pending_connects <= usize::MAX,
        managers[other].active_tcp_sockets + managers[other].pending_connects <= usize::MAX,
    ensures
        0 <= best < managers.len(),
        reserve ==> managers[best].active_tcp_sockets + managers[best].pending_connects
            < managers[best].max_tcp_sockets_per_worker,
        ({
            let a = managers[best];
            let b = managers[other];
            let a_open = a.active_tcp_sockets + a.pending_connects;
            let b_open = b.active_tcp_sockets + b.pending_connects;
            &&& a_open <= b_open
            &&& a_open == b_open ==> a.transport_pending_send_packets
                <= b.transport_pending_send_packets
            &&& a_open == b_open && a.transport_pending_send_packets
                == b.transport_pending_send_packets ==> a.pending_to_client_bytes
                <= b.pending_to_client_bytes
            &&& a_open == b_open && a.transport_pending_send_packets
                == b.transport_pending_send_packets && a.pending_to_client_bytes
                == b.pending_to_client_bytes ==> (best - start) % (managers.len() as int) < (other
                - start) % (managers.len() as int)
        }),
{
    let len = managers.len() as int;
    assert(eligible(managers[other], reserve));
    assert forall|i: int| 0 <= i < len implies #[trigger] turn(i, start, len) == (i - start) % len by {
        if i >= start {
            vstd::arithmetic::div_mod::lemma_small_mod((i - start) as nat, len as nat);
        } else {
            vstd::arithmetic::div_mod::lemma_mod_add_multiples_vanish(i - start, len);
            vstd::arithmetic::div_mod::lemma_small_mod((i + len - start) as nat, len as nat);
        }
    }
    assert(turn(best, start, len) == (best - start) % len);
    assert(turn(other, start, len) == (other - start) % len);
}

/// The turn goes round: it starts with each manager once before it starts with the same one again.
pub proof fn the_turn_goes_round(pool: TunnelManagerPool)
    requires
        pool.wf(),
    ensures
        0 <= pool.start() < pool.managers@.len(),
        pool.start() == pool.next as int % pool.managers@.len() as int,
{
}

} // verus!
