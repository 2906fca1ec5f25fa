//! The pauses between two attempts to open the tunnel.

use crate::manager::dns_cache::random_below;
use vstd::prelude::*;

verus! {

/// The shortest pause, in milliseconds.
pub const SHORTEST_PAUSE: u64 = 100;

/// A pause of `delay` milliseconds after it was spread: `permille` is a number of thousandths, which
/// makes it shorter or longer by up to half.
pub open spec fn spread(delay: int, permille: int) -> int {
    let ms = delay * (500 + permille) / 1000;
    if ms < SHORTEST_PAUSE {
        SHORTEST_PAUSE as int
    } else {
        ms
    }
}

/// A pause after it was spread.
pub fn jittered(delay: u64, permille: u64) -> (ms: u64)
    requires
        permille <= 1000,
        spread(delay as int, permille as int) <= u64::MAX,
    ensures
        ms == spread(delay as int, permille as int),
{
    assert(0 <= delay * (500 + permille) <= delay * 1500) by (nonlinear_arith)
        requires
            0 <= delay,
            0 <= permille <= 1000,
    ;
    let product: u128 = delay as u128 * (500 + permille) as u128;
    let ms: u128 = product / 1000;
    if ms < SHORTEST_PAUSE as u128 {
        SHORTEST_PAUSE
    } else {
        ms as u64
    }
}

/// Whether a pause is one that `delay` milliseconds can be spread to: shorter by at most half, and
/// longer by less than half.
pub open spec fn is_spread(delay: int, ms: int) -> bool {
    exists|permille: int| 0 <= permille < 1000 && ms == #[trigger] spread(delay, permille)
}

/// Pauses that double up to a limit. Times are in milliseconds.
#[derive(Debug, Clone, Copy, PartialEq, Eq, Structural)]
pub struct ExponentialBackoff {
    base: u64,
    max: u64,
    current: u64,
}

impl ExponentialBackoff {
    /// The next pause is at least one second and at most a minute.
    pub closed spec fn wf(&self) -> bool {
        self.base == 1000 && self.max == 60_000 && 1000 <= self.current <= 60_000
    }

    /// The next pause, before it is spread.
    pub closed spec fn next(&self) -> int {
        self.current as int
    }

    /// The pauses begin with one second.
    pub fn new() -> (backoff: ExponentialBackoff)
        ensures
            backoff.wf(),
            backoff.next() == 1000,
    {
        ExponentialBackoff { base: 1000, max: 60_000, current: 1000 }
    }

    /// The next pause, spread by a number of thousandths. The one after it is twice as long, but at
    /// most a minute, before it is spread.
    pub fn spread_delay(&mut self, permille: u64) -> (ms: u64)
        requires
            old(self).wf(),
            permille <= 1000,
        ensures
            final(self).wf(),
            ms == spread(old(self).next(), permille as int),
            1000 <= old(self).next() <= 60_000,
            final(self).next() == if 2 * old(self).next() < 60_000 {
                2 * old(self).next()
            } else {
                60_000
            },
    {
        let delay: u64 = self.current;
        self.current = if delay * 2 < self.max {
            delay * 2
        } else {
            self.max
        };
        assert(delay * (500 + permille) <= 90_000_000) by (nonlinear_arith)
            requires
                delay <= 60_000,
                permille <= 1000,
        ;
        jittered(delay, permille)
    }

    /// The next pause, spread at random. The one after it is twice as long, but at most a minute,
    /// before it is spread.
    pub fn next_delay(&mut self) -> (ms: u64)
        requires
            old(self).wf(),
        ensures
            final(self).wf(),
            is_spread(old(self).next(), ms as int),
            1000 <= old(self).next() <= 60_000,
            final(self).next() == if 2 * old(self).next() < 60_000 {
                2 * old(self).next()
            } else {
                60_000
            },
    {
        let permille: u64 = random_below(1000) as u64;
        self.spread_delay(permille)
    }

    /// The pauses begin with one second again.
    pub fn reset(&mut self)
        requires
            old(self).wf(),
        ensures
            final(self).wf(),
            final(self).next() == 1000,
    {
        self.current = self.base;
    }
}

/// The pause after `n` failed attempts, before it is spread: it doubles each time, up to a minute.
pub open spec fn pause_after(n: nat) -> int
    decreases n,
{
    if n == 0 {
        1000
    } else if 2 * pause_after((n - 1) as nat) < 60_000 {
        2 * pause_after((n - 1) as nat)
    } else {
        60_000
    }
}

/// Pauses never get shorter from one failed attempt to the next, are at least a second and at
/// most a minute, and a minute from the seventh on.
pub proof fn pauses_grow_to_a_minute(n: nat)
    ensures
        1000 <= pause_after(n) <= pause_after(n + 1) <= 60_000,
        n >= 6 ==> pause_after(n) == 60_000,
    decreases n,
{
    reveal_with_fuel(pause_after, 8);
    if n > 0 {
        pauses_grow_to_a_minute((n - 1) as nat);
    }
}

/// However a pause is spread, it is at least half as long and less than one and a half times as long
/// as before, if it is at least a fifth of a second.
pub proof fn spread_stays_near(delay: int, ms: int)
    requires
        delay >= 200,
        is_spread(delay, ms),
    ensures
        delay / 2 <= ms,
        2 * ms < 3 * delay,
{
    let permille = choose|permille: int| 0 <= permille < 1000 && ms == #[trigger] spread(
        delay,
        permille,
    );
    assert(delay * 500 <= delay * (500 + permille) < delay * 1500) by (nonlinear_arith)
        requires
            delay >= 200,
            0 <= permille < 1000,
    ;
}

/// A pause is spread evenly from a half of it to one and a half, but is a tenth of a second at least.
pub proof fn pauses_are_spread(delay: int, permille: int)
    requires
        delay >= 0,
        0 <= permille <= 1000,
    ensures
        spread(delay, permille) >= 100,
        spread(delay, permille) > 100 ==> spread(delay, permille) == delay * (500 + permille) / 1000,
        delay >= 200 ==> spread(delay, 0) == delay / 2,
        delay >= 200 ==> spread(delay, 500) == delay,
        delay >= 200 ==> spread(delay, 1000) == delay * 1500 / 1000,
{
    assert(delay * 500 / 1000 == delay / 2);
    assert(delay * 1000 / 1000 == delay);
}

/// The pauses are one second, then twice the one before, up to a minute.
pub proof fn pauses_double(n: nat)
    ensures
        pause_after(0) == 1000,
        pause_after(n + 1) == if 2 * pause_after(n) < 60_000 {
            2 * pause_after(n)
        } else {
            60_000
        },
{
}

} // verus!
