//! The figures that a manager reports from time to time.

use crate::tunnel::quic::{QuicPerfStats, QuicSendStatus};
use vstd::prelude::*;

verus! {

/// What has happened since the last report. Every count starts anew after its largest value.
#[derive(Debug, Clone, Copy, PartialEq, Eq, Structural)]
pub struct PerfCounts {
    pub rx_packets: u64,
    pub rx_bytes: u64,
    pub tx_packets: u64,
    pub tx_bytes: u64,
    pub poll_count: u64,
    pub loop_iterations: u64,
    pub scheduler_yields: u64,
    pub masque_blocked_events: u64,
    pub masque_send_batches: u64,
    pub masque_send_packets: u64,
    pub quic_socket_blocked: u64,
    pub quic_send_enobufs: u64,
    pub quic_pacing_events: u64,
    pub wg_flushes: u64,
    pub socket_event_batches: u64,
    pub socket_events: u64,
    pub full_tcp_sweeps: u64,
    pub targeted_tcp_sweeps: u64,
}

/// Nothing has happened.
pub open spec fn no_counts() -> PerfCounts {
    PerfCounts {
        rx_packets: 0,
        rx_bytes: 0,
        tx_packets: 0,
        tx_bytes: 0,
        poll_count: 0,
        loop_iterations: 0,
        scheduler_yields: 0,
        masque_blocked_events: 0,
        masque_send_batches: 0,
        masque_send_packets: 0,
        quic_socket_blocked: 0,
        quic_send_enobufs: 0,
        quic_pacing_events: 0,
        wg_flushes: 0,
        socket_event_batches: 0,
        socket_events: 0,
        full_tcp_sweeps: 0,
        targeted_tcp_sweeps: 0,
    }
}

fn zero_counts() -> (counts: PerfCounts)
    ensures
        counts == no_counts(),
{
    PerfCounts {
        rx_packets: 0,
        rx_bytes: 0,
        tx_packets: 0,
        tx_bytes: 0,
        poll_count: 0,
        loop_iterations: 0,
        scheduler_yields: 0,
        masque_blocked_events: 0,
        masque_send_batches: 0,
        masque_send_packets: 0,
        quic_socket_blocked: 0,
        quic_send_enobufs: 0,
        quic_pacing_events: 0,
        wg_flushes: 0,
        socket_event_batches: 0,
        socket_events: 0,
        full_tcp_sweeps: 0,
        targeted_tcp_sweeps: 0,
    }
}

/// The counters of a manager. Times are in nanoseconds.
#[derive(Debug, Clone, Copy, PartialEq, Eq, Structural)]
pub struct PerfCounters {
    pub enabled: bool,
    pub interval_secs: u64,
    pub last_report: u64,
    pub counts: PerfCounts,
}

/// What a report says of the counters: the counts, and the time in which they came together.
#[derive(Debug, Clone, Copy, PartialEq, Eq, Structural)]
pub struct PerfReport {
    pub elapsed: u64,
    pub counts: PerfCounts,
}

/// What a report says of the moment.
#[derive(Debug, Clone, Copy, PartialEq, Eq, Structural)]
pub struct PerfSnapshot {
    pub sockets: usize,
    pub udp_sessions: usize,
    pub dns_groups: usize,
    pub pending_from_client_bytes: usize,
    pub pending_to_client_bytes: usize,
    pub rx_queue_len: usize,
    pub tx_queue_len: usize,
    pub rx_drops: u64,
    pub tx_drops: u64,
    pub cmd_queue_len: usize,
    pub udp_queue_len: usize,
    pub incoming_queue_len: usize,
    pub ready_tcp_queue_len: usize,
    pub transport_pending_send_packets: usize,
    pub quic_stats: Option<QuicPerfStats>,
}

impl PerfCounters {
    /// Whether a report is due: the interval has passed.
    pub open spec fn is_due(&self, now: u64) -> bool {
        self.enabled && now - self.last_report >= self.interval_secs * 1_000_000_000
    }

    /// The counters with these counts, if they are switched on.
    pub open spec fn with_counts(self, counts: PerfCounts) -> PerfCounters {
        if self.enabled {
            PerfCounters { counts, ..self }
        } else {
            self
        }
    }

    /// The counters after a look at all sockets.
    pub open spec fn after_poll(self, full_sweep: bool) -> PerfCounters {
        let polls = self.counts.poll_count.wrapping_add(1);
        let full = self.counts.full_tcp_sweeps.wrapping_add(1);
        let targeted = self.counts.targeted_tcp_sweeps.wrapping_add(1);
        self.with_counts(
            if full_sweep {
                PerfCounts { poll_count: polls, full_tcp_sweeps: full, ..self.counts }
            } else {
                PerfCounts { poll_count: polls, targeted_tcp_sweeps: targeted, ..self.counts }
            },
        )
    }

    /// Counters that report every `interval_secs` seconds, but not more than once a second.
    pub fn new(enabled: bool, interval_secs: u64, now: u64) -> (perf: PerfCounters)
        ensures
            perf == (PerfCounters {
                enabled,
                interval_secs: if interval_secs == 0 {
                    1
                } else {
                    interval_secs
                },
                last_report: now,
                counts: no_counts(),
            }),
    {
        PerfCounters {
            enabled,
            interval_secs: if interval_secs == 0 {
                1
            } else {
                interval_secs
            },
            last_report: now,
            counts: zero_counts(),
        }
    }

    /// Whether a report is due.
    pub fn due(&self, now: u64) -> (res: bool)
        requires
            self.interval_secs > 0,
        ensures
            res == self.is_due(now),
    {
        self.enabled && now.saturating_sub(self.last_report) as u128 >= self.interval_secs as u128
            * 1_000_000_000
    }

    /// Counts a turn of the loop.
    pub fn inc_loop(&mut self)
        ensures
            *final(self) == old(self).with_counts(
                (PerfCounts { loop_iterations: old(self).counts.loop_iterations.wrapping_add(1), ..old(self).counts }),
            ),
    {
        if self.enabled {
            self.counts.loop_iterations = self.counts.loop_iterations.wrapping_add(1);
        }
    }

    /// Counts a look at the stack.
    pub fn inc_poll(&mut self)
        ensures
            *final(self) == old(self).with_counts(
                (PerfCounts { poll_count: old(self).counts.poll_count.wrapping_add(1), ..old(self).counts }),
            ),
    {
        if self.enabled {
            self.counts.poll_count = self.counts.poll_count.wrapping_add(1);
        }
    }

    /// Counts a packet from the tunnel.
    pub fn inc_rx(&mut self, bytes: usize)
        ensures
            *final(self) == old(self).with_counts(
                (PerfCounts { rx_packets: old(self).counts.rx_packets.wrapping_add(1), rx_bytes: old(self).counts.rx_bytes.wrapping_add(bytes as u64), ..old(self).counts }),
            ),
    {
        if self.enabled {
            self.counts.rx_packets = self.counts.rx_packets.wrapping_add(1);
            self.counts.rx_bytes = self.counts.rx_bytes.wrapping_add(bytes as u64);
        }
    }

    /// Counts a packet to the tunnel.
    pub fn inc_tx(&mut self, bytes: usize)
        ensures
            *final(self) == old(self).with_counts(
                (PerfCounts { tx_packets: old(self).counts.tx_packets.wrapping_add(1), tx_bytes: old(self).counts.tx_bytes.wrapping_add(bytes as u64), ..old(self).counts }),
            ),
    {
        if self.enabled {
            self.counts.tx_packets = self.counts.tx_packets.wrapping_add(1);
            self.counts.tx_bytes = self.counts.tx_bytes.wrapping_add(bytes as u64);
        }
    }

    /// Counts a turn that is given to others.
    pub fn inc_yield(&mut self)
        ensures
            *final(self) == old(self).with_counts(
                (PerfCounts { scheduler_yields: old(self).counts.scheduler_yields.wrapping_add(1), ..old(self).counts }),
            ),
    {
        if self.enabled {
            self.counts.scheduler_yields = self.counts.scheduler_yields.wrapping_add(1);
        }
    }

    /// Counts that the MASQUE tunnel took no packet.
    pub fn inc_masque_blocked(&mut self)
        ensures
            *final(self) == old(self).with_counts(
                (PerfCounts { masque_blocked_events: old(self).counts.masque_blocked_events.wrapping_add(1), ..old(self).counts }),
            ),
    {
        if self.enabled {
            self.counts.masque_blocked_events = self.counts.masque_blocked_events.wrapping_add(1);
        }
    }

    /// The counts with what a run of sending achieved.
    pub open spec fn with_send_batch(counts: PerfCounts, status: QuicSendStatus) -> PerfCounts {
        PerfCounts {
            masque_send_batches: if status.packets_sent > 0 {
                counts.masque_send_batches.wrapping_add(1)
            } else {
                counts.masque_send_batches
            },
            masque_send_packets: if status.packets_sent > 0 {
                counts.masque_send_packets.wrapping_add(status.packets_sent as u64)
            } else {
                counts.masque_send_packets
            },
            quic_socket_blocked: if status.blocked {
                counts.quic_socket_blocked.wrapping_add(1)
            } else {
                counts.quic_socket_blocked
            },
            quic_send_enobufs: if status.enobufs {
                counts.quic_send_enobufs.wrapping_add(1)
            } else {
                counts.quic_send_enobufs
            },
            quic_pacing_events: if status.paced {
                counts.quic_pacing_events.wrapping_add(1)
            } else {
                counts.quic_pacing_events
            },
            ..counts
        }
    }

    /// Counts what a run of sending achieved.
    pub fn record_masque_send_batch(&mut self, status: QuicSendStatus)
        ensures
            *final(self) == old(self).with_counts(
                PerfCounters::with_send_batch(old(self).counts, status),
            ),
    {
        if !self.enabled {
            return ;
        }
        if status.packets_sent > 0 {
            self.counts.masque_send_batches = self.counts.masque_send_batches.wrapping_add(1);
            self.counts.masque_send_packets = self.counts.masque_send_packets.wrapping_add(
                status.packets_sent as u64,
            );
        }
        if status.blocked {
            self.counts.quic_socket_blocked = self.counts.quic_socket_blocked.wrapping_add(1);
        }
        if status.enobufs {
            self.counts.quic_send_enobufs = self.counts.quic_send_enobufs.wrapping_add(1);
        }
        if status.paced {
            self.counts.quic_pacing_events = self.counts.quic_pacing_events.wrapping_add(1);
        }
    }

    /// Counts that packets went out through WireGuard.
    pub fn inc_wg_flush(&mut self)
        ensures
            *final(self) == old(self).with_counts(
                (PerfCounts { wg_flushes: old(self).counts.wg_flushes.wrapping_add(1), ..old(self).counts }),
            ),
    {
        if self.enabled {
            self.counts.wg_flushes = self.counts.wg_flushes.wrapping_add(1);
        }
    }

    /// Counts a batch of socket events, unless it is empty.
    pub fn inc_socket_event_batch(&mut self, count: usize)
        ensures
            *final(self) == if count > 0 {
                old(self).with_counts(
                    (PerfCounts {
                        socket_event_batches: old(self).counts.socket_event_batches.wrapping_add(1),
                        socket_events: old(self).counts.socket_events.wrapping_add(count as u64),
                        ..old(self).counts
                    }),
                )
            } else {
                *old(self)
            },
    {
        if self.enabled && count > 0 {
            self.counts.socket_event_batches = self.counts.socket_event_batches.wrapping_add(1);
            self.counts.socket_events = self.counts.socket_events.wrapping_add(count as u64);
        }
    }

    /// Counts a look at the TCP sockets: at all of them, or at those that are ready.
    pub fn inc_tcp_sweep(&mut self, full_sweep: bool)
        ensures
            *final(self) == old(self).with_counts(
                if full_sweep {
                    PerfCounts {
                        full_tcp_sweeps: old(self).counts.full_tcp_sweeps.wrapping_add(1),
                        ..old(self).counts
                    }
                } else {
                    PerfCounts {
                        targeted_tcp_sweeps: old(self).counts.targeted_tcp_sweeps.wrapping_add(1),
                        ..old(self).counts
                    }
                },
            ),
    {
        if self.enabled {
            if full_sweep {
                self.counts.full_tcp_sweeps = self.counts.full_tcp_sweeps.wrapping_add(1);
            } else {
                self.counts.targeted_tcp_sweeps = self.counts.targeted_tcp_sweeps.wrapping_add(1);
            }
        }
    }

    /// What is to be reported, if a report is due. The counts then start anew.
    pub fn report(&mut self, now: u64) -> (res: Option<PerfReport>)
        requires
            old(self).interval_secs > 0,
        ensures
            if old(self).is_due(now) {
                &&& res == Some(
                    PerfReport {
                        elapsed: (now - old(self).last_report) as u64,
                        counts: old(self).counts,
                    },
                )
                &&& *final(self) == (PerfCounters {
                    last_report: now,
                    counts: no_counts(),
                    ..*old(self)
                })
            } else {
                res is None && *final(self) == *old(self)
            },
    {
        if !self.due(now) {
            return None;
        }
        let report = PerfReport { elapsed: now - self.last_report, counts: self.counts };
        self.last_report = now;
        self.counts = zero_counts();
        Some(report)
    }
}

/// A report is due when reports are wanted and so many seconds have gone since the last one. What is
/// counted counts only where reports are wanted.
pub proof fn when_a_report_is_due(perf: PerfCounters, now: u64, counts: PerfCounts, full: bool)
    ensures
        perf.is_due(now) <==> perf.enabled && now >= perf.last_report + perf.interval_secs
            * 1_000_000_000,
        perf.enabled ==> perf.with_counts(counts).counts == counts,
        !perf.enabled ==> perf.with_counts(counts) == perf,
        perf.with_counts(counts).last_report == perf.last_report,
        perf.with_counts(counts).interval_secs == perf.interval_secs,
        perf.enabled ==> perf.after_poll(full).counts.poll_count == perf.counts.poll_count.wrapping_add(
            1,
        ),
        perf.enabled ==> perf.after_poll(full).counts.full_tcp_sweeps == if full {
            perf.counts.full_tcp_sweeps.wrapping_add(1)
        } else {
            perf.counts.full_tcp_sweeps
        },
        perf.enabled ==> perf.after_poll(full).counts.targeted_tcp_sweeps == if full {
            perf.counts.targeted_tcp_sweeps
        } else {
            perf.counts.targeted_tcp_sweeps.wrapping_add(1)
        },
{
}

/// A round that sent packets counts as one batch with its packets; each obstacle counts once.
pub proof fn what_a_batch_counts(counts: PerfCounts, status: QuicSendStatus)
    ensures
        ({
            let after = PerfCounters::with_send_batch(counts, status);
            &&& status.packets_sent > 0 ==> after.masque_send_batches
                == counts.masque_send_batches.wrapping_add(1)
            &&& status.packets_sent == 0 ==> after.masque_send_batches
                == counts.masque_send_batches && after.masque_send_packets
                == counts.masque_send_packets
            &&& status.packets_sent > 0 ==> after.masque_send_packets
                == counts.masque_send_packets.wrapping_add(status.packets_sent as u64)
            &&& after.quic_socket_blocked != counts.quic_socket_blocked ==> status.blocked
            &&& status.blocked ==> after.quic_socket_blocked
                == counts.quic_socket_blocked.wrapping_add(1)
            &&& status.enobufs ==> after.quic_send_enobufs == counts.quic_send_enobufs.wrapping_add(
                1,
            )
            &&& !status.enobufs ==> after.quic_send_enobufs == counts.quic_send_enobufs
            &&& status.paced ==> after.quic_pacing_events
                == counts.quic_pacing_events.wrapping_add(1)
            &&& !status.paced ==> after.quic_pacing_events == counts.quic_pacing_events
            &&& after.tx_packets == counts.tx_packets && after.tx_bytes == counts.tx_bytes
            &&& after.rx_packets == counts.rx_packets && after.rx_bytes == counts.rx_bytes
        }),
{
}

/// Counting starts with nothing.
pub proof fn counting_starts_with_nothing()
    ensures
        ({
            let none = no_counts();
            &&& none.rx_packets == 0 && none.rx_bytes == 0 && none.tx_packets == 0 && none.tx_bytes
                == 0
            &&& none.poll_count == 0 && none.loop_iterations == 0 && none.scheduler_yields == 0
            &&& none.masque_blocked_events == 0 && none.masque_send_batches == 0
                && none.masque_send_packets == 0
            &&& none.quic_socket_blocked == 0 && none.quic_send_enobufs == 0
                && none.quic_pacing_events == 0
            &&& none.wg_flushes == 0 && none.socket_event_batches == 0 && none.socket_events == 0
            &&& none.full_tcp_sweeps == 0 && none.targeted_tcp_sweeps == 0
        }),
{
}

} // verus!
