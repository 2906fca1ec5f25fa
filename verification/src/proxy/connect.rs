//! Connections for a client.

use crate::addr::IpAddress;
use crate::manager::sockets::TcpSocketState;
use crate::manager::ManagerError;
use crate::proxy::{connect_reply, map_connect_error_to_reply, Socks5Error, SocksReply};
use vstd::prelude::*;

verus! {

/// The addresses of one family, in order.
pub open spec fn of_family(ips: Seq<IpAddress>, v6: bool) -> Seq<IpAddress>
    decreases ips.len(),
{
    if ips.len() == 0 {
        Seq::empty()
    } else {
        (if (ips[0] is V6) == v6 {
            seq![ips[0]]
        } else {
            Seq::empty()
        }) + of_family(ips.skip(1), v6)
    }
}

/// Two lists in turns, the first one first; what is left of the longer one follows.
pub open spec fn in_turns(a: Seq<IpAddress>, b: Seq<IpAddress>) -> Seq<IpAddress>
    decreases a.len(),
{
    if a.len() == 0 {
        b
    } else if b.len() == 0 {
        a
    } else {
        seq![a[0], b[0]] + in_turns(a.skip(1), b.skip(1))
    }
}

/// The addresses in the order in which they are tried: IPv6 and IPv4 in turns.
pub open spec fn interleaved(ips: Seq<IpAddress>) -> Seq<IpAddress> {
    in_turns(of_family(ips, true), of_family(ips, false))
}

proof fn family_of_sum(a: Seq<IpAddress>, b: Seq<IpAddress>, v6: bool)
    ensures
        of_family(a + b, v6) == of_family(a, v6) + of_family(b, v6),
    decreases a.len(),
{
    if a.len() == 0 {
        assert(a + b =~= b);
        assert(of_family(a, v6) + of_family(b, v6) =~= of_family(b, v6));
    } else {
        assert((a + b).skip(1) =~= a.skip(1) + b);
        family_of_sum(a.skip(1), b, v6);
        let head = if (a[0] is V6) == v6 {
            seq![a[0]]
        } else {
            Seq::empty()
        };
        assert(head + (of_family(a.skip(1), v6) + of_family(b, v6)) =~= (head + of_family(
            a.skip(1),
            v6,
        )) + of_family(b, v6));
    }
}

proof fn family_members(ips: Seq<IpAddress>, v6: bool)
    ensures
        forall|i: int|
            0 <= i < of_family(ips, v6).len() ==> (#[trigger] of_family(ips, v6)[i] is V6) == v6,
    decreases ips.len(),
{
    if ips.len() > 0 {
        family_members(ips.skip(1), v6);
        let rest = of_family(ips.skip(1), v6);
        let all = of_family(ips, v6);
        assert forall|i: int| 0 <= i < all.len() implies (#[trigger] all[i] is V6) == v6 by {
            if (ips[0] is V6) == v6 {
                if i > 0 {
                    assert(all[i] == rest[i - 1]);
                }
            } else {
                assert(all[i] == rest[i]);
            }
        }
    }
}

proof fn family_of_members(ips: Seq<IpAddress>, members: bool, v6: bool)
    requires
        forall|i: int| 0 <= i < ips.len() ==> (#[trigger] ips[i] is V6) == members,
    ensures
        of_family(ips, v6) == if v6 == members {
            ips
        } else {
            Seq::empty()
        },
    decreases ips.len(),
{
    if ips.len() > 0 {
        assert forall|i: int| 0 <= i < ips.skip(1).len() implies (#[trigger] ips.skip(1)[i] is V6)
            == members by {
            assert(ips.skip(1)[i] == ips[i + 1]);
        }
        family_of_members(ips.skip(1), members, v6);
        if v6 == members {
            assert(seq![ips[0]] + ips.skip(1) =~= ips);
        }
    } else {
        assert(ips =~= Seq::empty());
    }
}

proof fn family_of_turns(a: Seq<IpAddress>, b: Seq<IpAddress>, v6: bool)
    requires
        forall|i: int| 0 <= i < a.len() ==> #[trigger] a[i] is V6,
        forall|i: int| 0 <= i < b.len() ==> !(#[trigger] b[i] is V6),
    ensures
        of_family(in_turns(a, b), v6) == if v6 {
            a
        } else {
            b
        },
    decreases a.len(),
{
    if a.len() == 0 {
        family_of_members(b, false, v6);
        assert(a =~= Seq::empty());
    } else if b.len() == 0 {
        family_of_members(a, true, v6);
        assert(b =~= Seq::empty());
    } else {
        family_of_turns(a.skip(1), b.skip(1), v6);
        let first = seq![a[0], b[0]];
        family_of_sum(first, in_turns(a.skip(1), b.skip(1)), v6);
        reveal_with_fuel(of_family, 3);
        assert(first.skip(1) =~= seq![b[0]]);
        assert(first.skip(1).skip(1) =~= Seq::empty());
        if v6 {
            assert(of_family(first, true) =~= seq![a[0]]);
            assert(seq![a[0]] + a.skip(1) =~= a);
        } else {
            assert(of_family(first, false) =~= seq![b[0]]);
            assert(seq![b[0]] + b.skip(1) =~= b);
        }
    }
}

/// Trying the families in turns loses no address and adds none: each family's addresses stay in
/// their order.
pub proof fn interleaving_keeps_families(ips: Seq<IpAddress>, v6: bool)
    ensures
        of_family(interleaved(ips), v6) == of_family(ips, v6),
{
    family_members(ips, true);
    family_members(ips, false);
    family_of_turns(of_family(ips, true), of_family(ips, false), v6);
}

/// IPv6 is tried first where there is an IPv6 address.
pub proof fn v6_is_tried_first(ips: Seq<IpAddress>)
    requires
        of_family(ips, true).len() > 0,
    ensures
        interleaved(ips).len() > 0,
        interleaved(ips)[0] is V6,
{
    family_members(ips, true);
}

proof fn family_is_a_filter(ips: Seq<IpAddress>, v6: bool)
    ensures
        of_family(ips, v6) == ips.filter(|ip: IpAddress| (ip is V6) == v6),
    decreases ips.len(),
{
    reveal(Seq::filter);
    if ips.len() > 0 {
        family_is_a_filter(ips.drop_last(), v6);
        assert(ips =~= ips.drop_last() + seq![ips.last()]);
        family_of_sum(ips.drop_last(), seq![ips.last()], v6);
        reveal_with_fuel(of_family, 2);
        assert(seq![ips.last()].skip(1) =~= Seq::empty());
        assert(of_family(seq![ips.last()], v6) =~= if (ips.last() is V6) == v6 {
            seq![ips.last()]
        } else {
            Seq::empty()
        });
    }
}

proof fn places_in_turns(a: Seq<IpAddress>, b: Seq<IpAddress>)
    ensures
        in_turns(a, b).len() == a.len() + b.len(),
        forall|i: int|
            0 <= i < a.len() && i < b.len() ==> in_turns(a, b)[2 * i] == #[trigger] a[i],
        forall|i: int|
            0 <= i < a.len() && i < b.len() ==> in_turns(a, b)[2 * i + 1] == #[trigger] b[i],
        forall|i: int| b.len() <= i < a.len() ==> in_turns(a, b)[b.len() + i] == #[trigger] a[i],
        forall|i: int| a.len() <= i < b.len() ==> in_turns(a, b)[a.len() + i] == #[trigger] b[i],
    decreases a.len(),
{
    if a.len() > 0 && b.len() > 0 {
        let c = a.skip(1);
        let d = b.skip(1);
        places_in_turns(c, d);
        let rest = in_turns(c, d);
        let all = in_turns(a, b);
        assert(all == seq![a[0], b[0]] + rest);
        assert forall|i: int| 0 <= i < a.len() && i < b.len() implies all[2 * i]
            == #[trigger] a[i] by {
            if i > 0 {
                assert(all[2 * i] == rest[2 * (i - 1)]);
                assert(c[i - 1] == a[i]);
            }
        }
        assert forall|i: int| 0 <= i < a.len() && i < b.len() implies all[2 * i + 1]
            == #[trigger] b[i] by {
            if i > 0 {
                assert(all[2 * i + 1] == rest[2 * (i - 1) + 1]);
                assert(d[i - 1] == b[i]);
            }
        }
        assert forall|i: int| b.len() <= i < a.len() implies all[b.len() + i]
            == #[trigger] a[i] by {
            assert(all[b.len() + i] == rest[d.len() + (i - 1)]);
            assert(c[i - 1] == a[i]);
        }
        assert forall|i: int| a.len() <= i < b.len() implies all[a.len() + i]
            == #[trigger] b[i] by {
            assert(all[a.len() + i] == rest[c.len() + (i - 1)]);
            assert(d[i - 1] == b[i]);
        }
    }
}

/// As long as both families have addresses left, IPv6 and IPv4 take turns: every even place has the
/// next IPv6 address and the place behind it the next IPv4 address. When one family has run out,
/// the others follow in their order. Nothing is left out.
pub proof fn families_take_turns(ips: Seq<IpAddress>)
    ensures
        ({
            let six = ips.filter(|ip: IpAddress| ip is V6);
            let four = ips.filter(|ip: IpAddress| ip is V4);
            let order = interleaved(ips);
            &&& order.len() == six.len() + four.len()
            &&& forall|i: int|
                0 <= i < six.len() && i < four.len() ==> order[2 * i] == #[trigger] six[i]
            &&& forall|i: int|
                0 <= i < six.len() && i < four.len() ==> order[2 * i + 1] == #[trigger] four[i]
            &&& forall|i: int|
                four.len() <= i < six.len() ==> order[four.len() + i] == #[trigger] six[i]
            &&& forall|i: int|
                six.len() <= i < four.len() ==> order[six.len() + i] == #[trigger] four[i]
        }),
{
    let is_six = |ip: IpAddress| ip is V6;
    let is_four = |ip: IpAddress| ip is V4;
    family_is_a_filter(ips, true);
    family_is_a_filter(ips, false);
    assert((|ip: IpAddress| (ip is V6) == true) =~= is_six);
    assert((|ip: IpAddress| (ip is V6) == false) =~= is_four);
    places_in_turns(of_family(ips, true), of_family(ips, false));
}

/// The addresses in the order in which they are tried.
pub fn interleave_addresses(addresses: &Vec<IpAddress>) -> (res: Vec<IpAddress>)
    ensures
        res@ == interleaved(addresses@),
{
    let mut v6: Vec<IpAddress> = Vec::new();
    let mut v4: Vec<IpAddress> = Vec::new();
    let mut at: usize = 0;
    assert(addresses@.skip(0) =~= addresses@);
    assert(v6@ + of_family(addresses@, true) =~= of_family(addresses@, true));
    assert(v4@ + of_family(addresses@, false) =~= of_family(addresses@, false));
    while at < addresses.len()
        invariant
            at <= addresses@.len(),
            v6@ + of_family(addresses@.skip(at as int), true) == of_family(addresses@, true),
            v4@ + of_family(addresses@.skip(at as int), false) == of_family(addresses@, false),
        decreases addresses@.len() - at,
    {
        let ip: IpAddress = addresses[at];
        let ghost rest = addresses@.skip(at as int);
        let ghost before6 = v6@;
        let ghost before4 = v4@;
        assert(rest.skip(1) =~= addresses@.skip(at + 1));
        match ip {
            IpAddress::V6(_) => {
                v6.push(ip);
            },
            IpAddress::V4(_) => {
                v4.push(ip);
            },
        }
        assert(v6@ + of_family(rest.skip(1), true) =~= before6 + of_family(rest, true));
        assert(v4@ + of_family(rest.skip(1), false) =~= before4 + of_family(rest, false));
        at += 1;
    }
    assert(v6@ =~= of_family(addresses@, true));
    assert(v4@ =~= of_family(addresses@, false));
    let mut res: Vec<IpAddress> = Vec::new();
    let mut i: usize = 0;
    assert(v6@.skip(0) =~= v6@);
    assert(v4@.skip(0) =~= v4@);
    assert(res@ + in_turns(v6@, v4@) =~= in_turns(v6@, v4@));
    while i < v6.len() && i < v4.len()
        invariant
            i <= v6@.len(),
            i <= v4@.len(),
            res@ + in_turns(v6@.skip(i as int), v4@.skip(i as int)) == in_turns(v6@, v4@),
        decreases v6@.len() - i,
    {
        let ghost before = res@;
        let ghost a = v6@.skip(i as int);
        let ghost b = v4@.skip(i as int);
        assert(a.skip(1) =~= v6@.skip(i + 1));
        assert(b.skip(1) =~= v4@.skip(i + 1));
        res.push(v6[i]);
        res.push(v4[i]);
        assert(res@ + in_turns(a.skip(1), b.skip(1)) =~= before + in_turns(a, b));
        i += 1;
    }
    let ghost rest = in_turns(v6@.skip(i as int), v4@.skip(i as int));
    let ghost start = res@;
    if i < v6.len() {
        assert(rest == v6@.skip(i as int));
        let mut k: usize = i;
        assert(res@ + v6@.skip(k as int) =~= start + rest);
        while k < v6.len()
            invariant
                k <= v6@.len(),
                res@ + v6@.skip(k as int) == start + rest,
            decreases v6@.len() - k,
        {
            let ghost before = res@;
            res.push(v6[k]);
            assert(res@ + v6@.skip(k + 1) =~= before + v6@.skip(k as int));
            k += 1;
        }
        assert(res@ + v6@.skip(k as int) =~= res@);
    } else {
        assert(rest == v4@.skip(i as int));
        let mut k: usize = i;
        assert(res@ + v4@.skip(k as int) =~= start + rest);
        while k < v4.len()
            invariant
                k <= v4@.len(),
                res@ + v4@.skip(k as int) == start + rest,
            decreases v4@.len() - k,
        {
            let ghost before = res@;
            res.push(v4[k]);
            assert(res@ + v4@.skip(k + 1) =~= before + v4@.skip(k as int));
            k += 1;
        }
        assert(res@ + v4@.skip(k as int) =~= res@);
    }
    res
}

/// How a client is connected.
#[derive(Debug)]
pub enum ConnectPlan {
    /// There is no address: the client is told so.
    Refuse(SocksReply, Socks5Error),
    /// There is one address.
    Single(IpAddress),
    /// There are several: they race.
    Race,
}

/// How a client is connected to one of some addresses.
pub fn plan_connect(addresses: &Vec<IpAddress>) -> (plan: ConnectPlan)
    ensures
        match plan {
            ConnectPlan::Refuse(reply, e) => {
                &&& addresses@.len() == 0
                &&& reply == SocksReply::HostUnreachable
                &&& e matches Socks5Error::ProtocolError(text) && text@ == "No addresses resolved"@
            },
            ConnectPlan::Single(ip) => addresses@.len() == 1 && ip == addresses@[0],
            ConnectPlan::Race => addresses@.len() > 1,
        },
{
    if addresses.len() == 0 {
        return ConnectPlan::Refuse(
            SocksReply::HostUnreachable,
            Socks5Error::ProtocolError(String::from_str("No addresses resolved")),
        );
    }
    if addresses.len() == 1 {
        return ConnectPlan::Single(addresses[0]);
    }
    ConnectPlan::Race
}

/// What became of a connection, as far as the client is concerned. `None` is a connection that was
/// not ready in time.
pub fn connect_outcome(ready: Option<TcpSocketState>) -> (res: Result<(), (Socks5Error, SocksReply)>)
    ensures
        match res {
            Ok(_) => ready == Some(TcpSocketState::Established),
            Err((e, reply)) => {
                &&& ready != Some(TcpSocketState::Established)
                &&& reply == connect_reply(e)
                &&& match ready {
                    Some(TcpSocketState::Closed) => e matches Socks5Error::ConnectionFailed(text)
                        && text@ == "Connection closed"@,
                    _ => e is Timeout,
                }
            },
        },
{
    match ready {
        Some(TcpSocketState::Established) => Ok(()),
        Some(TcpSocketState::Closed) => {
            let e = Socks5Error::ConnectionFailed(String::from_str("Connection closed"));
            let reply = map_connect_error_to_reply(&e);
            Err((e, reply))
        },
        _ => {
            let e = Socks5Error::Timeout;
            let reply = map_connect_error_to_reply(&e);
            Err((e, reply))
        },
    }
}

/// A race of connections to several addresses.
#[derive(Debug)]
pub struct ConnectRace {
    /// The addresses, in the order in which they are tried.
    pub addresses: Vec<IpAddress>,
    /// How many of them have been tried.
    pub tried: usize,
    /// The connections that are being made.
    pub pending: Vec<u64>,
    /// Why the last attempt failed.
    pub last_error: Option<Socks5Error>,
    /// When the next address is tried, in nanoseconds.
    pub next_attempt: u128,
    /// Milliseconds between two attempts.
    pub delay: u64,
}

/// What a race waits for.
#[derive(Debug)]
pub enum RaceWait {
    /// Every attempt has failed.
    Failed(Socks5Error),
    /// A connection, and where an address is left, the time to try it.
    Until(Option<u128>),
}

/// What follows when a connection is ready or has failed.
#[derive(Debug)]
pub enum RaceResult {
    /// The connection is the one that the client gets; the others are closed.
    Won(Vec<u64>),
    /// The connection failed, and is closed.
    Lost,
    /// The connection is not in the race.
    Ignored,
}

/// Where a connection stands among those from `from` on; their number if it does not.
pub open spec fn place_of(list: Seq<u64>, handle: u64, from: int) -> int
    decreases list.len() - from,
{
    if 0 <= from < list.len() && list[from] != handle {
        place_of(list, handle, from + 1)
    } else {
        from
    }
}

fn find_handle(list: &Vec<u64>, handle: u64) -> (at: usize)
    ensures
        at == place_of(list@, handle, 0),
        at <= list@.len(),
        at < list@.len() ==> list@[at as int] == handle,
        at == list@.len() ==> !list@.contains(handle),
{
    let mut at: usize = 0;
    while at < list.len() && list[at] != handle
        invariant
            at <= list@.len(),
            place_of(list@, handle, 0) == place_of(list@, handle, at as int),
            forall|k: int| 0 <= k < at ==> list@[k] != handle,
        decreases list@.len() - at,
    {
        at += 1;
    }
    at
}

impl ConnectRace {
    /// Whether no more addresses were tried than there are.
    pub open spec fn wf(&self) -> bool {
        self.tried <= self.addresses@.len()
    }

    /// Whether an address is left.
    pub open spec fn has_more(&self) -> bool {
        self.tried < self.addresses@.len()
    }

    /// A race to some addresses. The first attempt is made at once, the next one after a pause.
    pub fn new(addresses: Vec<IpAddress>, delay: u64, now: u64) -> (race: ConnectRace)
        ensures
            race.wf(),
            race.addresses@ == addresses@,
            race.tried == 0,
            race.pending@.len() == 0,
            race.last_error is None,
            race.next_attempt == now + delay * 1_000_000,
            race.delay == delay,
    {
        ConnectRace {
            addresses,
            tried: 0,
            pending: Vec::new(),
            last_error: None,
            next_attempt: now as u128 + delay as u128 * 1_000_000,
            delay,
        }
    }

    /// The next address, if one is left.
    pub fn next_address(&mut self) -> (ip: Option<IpAddress>)
        requires
            old(self).wf(),
        ensures
            final(self).wf(),
            final(self).addresses == old(self).addresses,
            final(self).pending == old(self).pending,
            final(self).last_error == old(self).last_error,
            final(self).next_attempt == old(self).next_attempt,
            final(self).delay == old(self).delay,
            match ip {
                Some(ip) => old(self).has_more() && ip == old(self).addresses@[old(self).tried as int] && final(self).tried == old(self).tried + 1,
                None => !old(self).has_more() && final(self).tried == old(self).tried,
            },
    {
        if self.tried < self.addresses.len() {
            let ip: IpAddress = self.addresses[self.tried];
            self.tried = self.tried + 1;
            Some(ip)
        } else {
            None
        }
    }

    /// Notes what became of the start of an attempt: a connection, or an error.
    pub fn on_started(&mut self, started: Result<u64, ManagerError>)
        requires
            old(self).wf(),
        ensures
            final(self).wf(),
            final(self).addresses == old(self).addresses,
            final(self).tried == old(self).tried,
            final(self).next_attempt == old(self).next_attempt,
            final(self).delay == old(self).delay,
            match started {
                Ok(handle) => final(self).pending@ == old(self).pending@.push(handle) && final(self).last_error == old(self).last_error,
                Err(e) => final(self).pending == old(self).pending && final(self).last_error
                    == Some(Socks5Error::TunnelError(e)),
            },
    {
        match started {
            Ok(handle) => {
                self.pending.push(handle);
            },
            Err(e) => {
                self.last_error = Some(Socks5Error::TunnelError(e));
            },
        }
    }

    /// What the race waits for. With no connection and no address left it has failed.
    pub fn wait(&mut self) -> (res: RaceWait)
        requires
            old(self).wf(),
        ensures
            final(self).wf(),
            final(self).addresses == old(self).addresses,
            final(self).tried == old(self).tried,
            final(self).pending == old(self).pending,
            final(self).next_attempt == old(self).next_attempt,
            final(self).delay == old(self).delay,
            match res {
                RaceWait::Failed(e) => {
                    &&& old(self).pending@.len() == 0
                    &&& !old(self).has_more()
                    &&& final(self).last_error is None
                    &&& match old(self).last_error {
                        Some(last) => e == last,
                        None => e matches Socks5Error::ConnectionFailed(text) && text@
                            == "All connection attempts failed"@,
                    }
                },
                RaceWait::Until(timer) => {
                    &&& old(self).pending@.len() > 0 || old(self).has_more()
                    &&& final(self).last_error == old(self).last_error
                    &&& timer == if old(self).has_more() {
                        Some(old(self).next_attempt)
                    } else {
                        None
                    }
                },
            },
    {
        if self.pending.len() == 0 && self.tried >= self.addresses.len() {
            let last: Option<Socks5Error> = self.last_error.take();
            return RaceWait::Failed(
                match last {
                    Some(e) => e,
                    None => Socks5Error::ConnectionFailed(
                        String::from_str("All connection attempts failed"),
                    ),
                },
            );
        }
        if self.tried < self.addresses.len() {
            RaceWait::Until(Some(self.next_attempt))
        } else {
            RaceWait::Until(None)
        }
    }

    /// What follows when a connection is ready or has failed. When none is left and an address is,
    /// that is tried at once.
    pub fn on_ready(&mut self, handle: u64, state: TcpSocketState, now: u64) -> (res: RaceResult)
        requires
            old(self).wf(),
        ensures
            final(self).wf(),
            final(self).addresses == old(self).addresses,
            final(self).tried == old(self).tried,
            final(self).delay == old(self).delay,
            match res {
                RaceResult::Won(rivals) => {
                    &&& state == TcpSocketState::Established
                    &&& old(self).pending@.contains(handle)
                    &&& rivals@ == old(self).pending@.remove(place_of(old(self).pending@, handle, 0))
                    &&& final(self).pending@.len() == 0
                    &&& final(self).last_error == old(self).last_error
                    &&& final(self).next_attempt == old(self).next_attempt
                },
                RaceResult::Lost => {
                    &&& state == TcpSocketState::Closed
                    &&& old(self).pending@.contains(handle)
                    &&& final(self).pending@ == old(self).pending@.remove(
                        place_of(old(self).pending@, handle, 0),
                    )
                    &&& final(self).last_error matches Some(Socks5Error::ConnectionFailed(text))
                        && text@ == "Connection closed"@
                    &&& final(self).next_attempt == if final(self).pending@.len() == 0 && old(self).has_more() {
                        now as u128
                    } else {
                        old(self).next_attempt
                    }
                },
                RaceResult::Ignored => {
                    &&& state == TcpSocketState::Connecting || !old(self).pending@.contains(handle)
                    &&& *final(self) == *old(self)
                },
            },
    {
        let at: usize = find_handle(&self.pending, handle);
        if at == self.pending.len() {
            return RaceResult::Ignored;
        }
        assert(self.pending@.contains(handle));
        match state {
            TcpSocketState::Established => {
                let mut rivals: Vec<u64> = Vec::new();
                rivals.append(&mut self.pending);
                rivals.remove(at);
                RaceResult::Won(rivals)
            },
            TcpSocketState::Closed => {
                self.pending.remove(at);
                self.last_error =
                Some(Socks5Error::ConnectionFailed(String::from_str("Connection closed")));
                if self.pending.len() == 0 && self.tried < self.addresses.len() {
                    self.next_attempt = now as u128;
                }
                RaceResult::Lost
            },
            TcpSocketState::Connecting => RaceResult::Ignored,
        }
    }

    /// Puts the next attempt off. An attempt was made just now.
    pub fn on_attempt(&mut self, now: u64)
        requires
            old(self).wf(),
        ensures
            final(self).wf(),
            final(self).addresses == old(self).addresses,
            final(self).tried == old(self).tried,
            final(self).pending == old(self).pending,
            final(self).last_error == old(self).last_error,
            final(self).delay == old(self).delay,
            final(self).next_attempt == now + old(self).delay * 1_000_000,
    {
        self.next_attempt = now as u128 + self.delay as u128 * 1_000_000;
    }

    /// Gives the race up, and says which connections are closed.
    pub fn on_timeout(&mut self) -> (closed: Vec<u64>)
        requires
            old(self).wf(),
        ensures
            final(self).wf(),
            closed@ == old(self).pending@,
            final(self).pending@.len() == 0,
            final(self).addresses == old(self).addresses,
            final(self).tried == old(self).tried,
            final(self).last_error == old(self).last_error,
            final(self).next_attempt == old(self).next_attempt,
            final(self).delay == old(self).delay,
    {
        let mut closed: Vec<u64> = Vec::new();
        closed.append(&mut self.pending);
        assert(closed@ =~= old(self).pending@);
        closed
    }
}

/// Of all connections in a race, each is either the one that the client gets or one that is
/// closed.
pub proof fn rivals_are_all_closed(pending: Seq<u64>, winner: u64, other: u64)
    requires
        pending.contains(winner),
        pending.contains(other),
    ensures
        other == winner || pending.remove(place_of(pending, winner, 0)).contains(other),
{
    place_is_first(pending, winner, 0);
    let at = place_of(pending, winner, 0);
    let i = choose|i: int| 0 <= i < pending.len() && pending[i] == other;
    if other != winner {
        let rest = pending.remove(at);
        if i < at {
            assert(rest[i] == other);
        } else {
            assert(rest[i - 1] == other);
        }
    }
}

proof fn place_is_first(list: Seq<u64>, handle: u64, from: int)
    requires
        0 <= from <= list.len(),
        exists|i: int| from <= i < list.len() && list[i] == handle,
    ensures
        from <= place_of(list, handle, from) < list.len(),
        list[place_of(list, handle, from)] == handle,
    decreases list.len() - from,
{
    if list[from] != handle {
        place_is_first(list, handle, from + 1);
    }
}

/// What a client's connection is fed with.
#[derive(Debug, Clone, Copy)]
pub struct TcpForward {
    pub client_eof: bool,
    pub tunnel_eof: bool,
}

/// What happens to a client's connection.
#[derive(Debug, Clone, Copy, PartialEq, Eq, Structural)]
pub enum ForwardEvent {
    /// Data from the tunnel was written to the client.
    ClientWritten,
    /// The client takes no more data.
    ClientWriteFailed,
    /// The tunnel has no more data.
    TunnelEnded,
    /// The client has no more data.
    ClientEnded,
    /// Data from the client went to the tunnel.
    TunnelWritten,
    /// The tunnel takes no more data.
    TunnelWriteFailed,
    /// The client cannot be read.
    ClientReadFailed,
    /// Nothing happened for too long.
    Idle,
}

/// What is done next with a client's connection.
#[derive(Debug, Clone, Copy, PartialEq, Eq, Structural)]
pub enum ForwardStep {
    /// Data is moved on, from the tunnel and from the client as far as they have not ended.
    Continue { from_tunnel: bool, from_client: bool },
    /// The client is told that there is no more data; then data is moved on.
    ShutdownClient { from_client: bool },
    /// The connection ends.
    Stop,
}

impl TcpForward {
    /// A connection of which neither side has ended.
    pub fn new() -> (forward: TcpForward)
        ensures
            !forward.client_eof,
            !forward.tunnel_eof,
    {
        TcpForward { client_eof: false, tunnel_eof: false }
    }

    /// What is done next.
    pub fn on_event(&mut self, event: ForwardEvent) -> (step: ForwardStep)
        ensures
            final(self).client_eof == (old(self).client_eof || event
                == ForwardEvent::ClientEnded),
            final(self).tunnel_eof == (old(self).tunnel_eof || event == ForwardEvent::TunnelEnded
                || event == ForwardEvent::TunnelWriteFailed),
            step == if event == ForwardEvent::ClientWriteFailed || event
                == ForwardEvent::ClientReadFailed || event == ForwardEvent::Idle {
                ForwardStep::Stop
            } else if event == ForwardEvent::TunnelEnded {
                ForwardStep::ShutdownClient { from_client: !final(self).client_eof }
            } else if final(self).client_eof && final(self).tunnel_eof {
                ForwardStep::Stop
            } else {
                ForwardStep::Continue {
                    from_tunnel: !final(self).tunnel_eof,
                    from_client: !final(self).client_eof,
                }
            },
    {
        match event {
            ForwardEvent::ClientWriteFailed => {
                return ForwardStep::Stop;
            },
            ForwardEvent::ClientReadFailed => {
                return ForwardStep::Stop;
            },
            ForwardEvent::Idle => {
                return ForwardStep::Stop;
            },
            ForwardEvent::TunnelEnded => {
                self.tunnel_eof = true;
                return ForwardStep::ShutdownClient { from_client: !self.client_eof };
            },
            ForwardEvent::ClientEnded => {
                self.client_eof = true;
            },
            ForwardEvent::TunnelWriteFailed => {
                self.tunnel_eof = true;
            },
            ForwardEvent::ClientWritten => {},
            ForwardEvent::TunnelWritten => {},
        }
        if self.client_eof && self.tunnel_eof {
            ForwardStep::Stop
        } else {
            ForwardStep::Continue { from_tunnel: !self.tunnel_eof, from_client: !self.client_eof }
        }
    }
}

/// There is something left to try as long as some address of the list has not been tried.
pub proof fn no_address_is_passed_over(race: ConnectRace)
    requires
        race.wf(),
    ensures
        race.has_more() <==> race.addresses@.skip(race.tried as int).len() > 0,
        race.has_more() <==> race.addresses@.take(race.tried as int) != race.addresses@,
{
    if race.has_more() {
        assert(race.addresses@.take(race.tried as int).len() < race.addresses@.len());
    } else {
        assert(race.addresses@.take(race.tried as int) =~= race.addresses@);
    }
}

/// A connection that leaves the race is the one that came in, and no other leaves with it.
pub proof fn one_leaves_the_race(pending: Seq<u64>, handle: u64, other: u64)
    requires
        pending.contains(handle),
    ensures
        0 <= place_of(pending, handle, 0) < pending.len(),
        pending[place_of(pending, handle, 0)] == handle,
        pending.remove(place_of(pending, handle, 0)).len() == pending.len() - 1,
        pending.no_duplicates() ==> !pending.remove(place_of(pending, handle, 0)).contains(handle),
        other != handle ==> (pending.contains(other) <==> pending.remove(
            place_of(pending, handle, 0),
        ).contains(other)),
{
    place_is_first(pending, handle, 0);
    let at = place_of(pending, handle, 0);
    let left = pending.remove(at);
    assert forall|i: int| 0 <= i < left.len() implies #[trigger] left[i] == pending[if i < at {
        i
    } else {
        i + 1
    }] by {}
    if pending.contains(other) && other != handle {
        let i = pending.index_of(other);
        assert(left[if i < at {
            i
        } else {
            i - 1
        }] == other);
    }
    if left.contains(other) {
        let i = left.index_of(other);
        assert(pending[if i < at {
            i
        } else {
            i + 1
        }] == other);
    }
}

} // verus!
