//! The UDP sessions of a manager.

use crate::manager::sockets::{retain_others, without, without_keeps_the_others};
use crate::table::Table;
use vstd::prelude::*;

verus! {

/// A UDP session: its socket, which is known by a number, and when it was used last, in
/// nanoseconds.
#[derive(Debug, Clone, Copy, PartialEq, Eq, Structural)]
pub struct UdpSessionState {
    pub handle: u64,
    pub last_activity: u64,
}

/// The sessions as values: each under its local port, and the ports in the order in which they
/// were registered.
#[verifier::ext_equal]
pub struct UdpView {
    pub sessions: Map<u64, UdpSessionState>,
    pub ports: Seq<u64>,
}

/// Whether a session has been idle for longer than `timeout` seconds.
pub open spec fn is_stale(session: UdpSessionState, timeout: u64, now: u64) -> bool {
    now - session.last_activity > timeout * 1_000_000_000
}

/// A UDP packet from a client.
#[derive(Debug)]
pub struct UdpSend {
    pub remote_ip: crate::addr::IpAddress,
    pub remote_port: u16,
    pub local_port: u16,
    pub data: Vec<u8>,
}

/// The UDP sessions of a manager.
pub struct UdpSessions {
    sessions: Table<UdpSessionState>,
    ports: Vec<u64>,
}

impl View for UdpSessions {
    type V = UdpView;

    closed spec fn view(&self) -> UdpView {
        UdpView { sessions: self.sessions@, ports: self.ports@ }
    }
}

/// The ports of a list of removed sessions are those that were stale, each once, and their
/// sockets are those of the sessions.
pub open spec fn are_stale(
    sessions: Map<u64, UdpSessionState>,
    ports: Seq<u64>,
    handles: Seq<u64>,
    timeout: u64,
    now: u64,
) -> bool {
    &&& ports.no_duplicates()
    &&& ports.len() == handles.len()
    &&& forall|port: u64| #[trigger]
        ports.contains(port) <==> sessions.contains_key(port) && is_stale(
            sessions[port],
            timeout,
            now,
        )
    &&& forall|i: int| 0 <= i < ports.len() ==> #[trigger] handles[i] == sessions[ports[i]].handle
}

impl UdpSessions {
    /// Every session's port is in the list, and every port of the list has a session.
    pub closed spec fn wf(&self) -> bool {
        &&& forall|port: u64| #[trigger]
            self.ports@.contains(port) <==> self.sessions@.contains_key(port)
        &&& forall|port: u64| #[trigger] self.sessions@.contains_key(port) ==> port <= u16::MAX
    }

    /// Every session's port is in the list, and every port of the list has a session.
    pub proof fn stays_consistent(&self)
        requires
            self.wf(),
        ensures
            forall|port: u64| #[trigger]
                self@.ports.contains(port) <==> self@.sessions.contains_key(port),
            forall|port: u64| #[trigger]
                self@.sessions.contains_key(port) ==> port <= u16::MAX,
    {
    }

    /// No sessions.
    pub fn new() -> (sessions: UdpSessions)
        ensures
            sessions.wf(),
            sessions@ == (UdpView { sessions: Map::empty(), ports: Seq::empty() }),
    {
        UdpSessions { sessions: Table::new(), ports: Vec::new() }
    }

    /// The number of sessions.
    pub fn len(&self) -> (n: usize)
        ensures
            n == self@.sessions.dom().len(),
    {
        self.sessions.len()
    }

    /// Whether there are no sessions.
    pub fn is_empty(&self) -> (res: bool)
        ensures
            res == (self@.ports.len() == 0),
    {
        self.ports.len() == 0
    }

    /// The local ports, in the order in which they were registered.
    pub fn ports(&self) -> (list: &Vec<u64>)
        ensures
            list@ == self@.ports,
    {
        &self.ports
    }

    /// Opens a session on a local port, with a socket that is bound to it.
    pub fn register_udp_session(&mut self, local_port: u16, handle: u64, now: u64)
        requires
            old(self).wf(),
        ensures
            final(self).wf(),
            final(self)@ == (UdpView {
                sessions: old(self)@.sessions.insert(
                    local_port as u64,
                    UdpSessionState { handle, last_activity: now },
                ),
                ports: old(self)@.ports.push(local_port as u64),
            }),
    {
        self.sessions.insert(local_port as u64, UdpSessionState { handle, last_activity: now });
        self.ports.push(local_port as u64);
        proof {
            let before = old(self).ports@;
            let grown = self.ports@;
            assert forall|port: u64| #[trigger]
                grown.contains(port) <==> self.sessions@.contains_key(port) by {
                if before.contains(port) {
                    let k = choose|k: int| 0 <= k < before.len() && before[k] == port;
                    assert(grown[k] == port);
                }
                if port == local_port as u64 {
                    assert(grown[before.len() as int] == port);
                }
                if grown.contains(port) && port != local_port as u64 {
                    let k = choose|k: int| 0 <= k < grown.len() && grown[k] == port;
                    assert(before[k] == port);
                }
            }
        }
    }

    /// The socket of a session that is used now; `None` where there is no such session.
    pub fn touch(&mut self, local_port: u16, now: u64) -> (res: Option<u64>)
        requires
            old(self).wf(),
        ensures
            final(self).wf(),
            if old(self)@.sessions.contains_key(local_port as u64) {
                let session = old(self)@.sessions[local_port as u64];
                &&& res == Some(session.handle)
                &&& final(self)@ == (UdpView {
                    sessions: old(self)@.sessions.insert(
                        local_port as u64,
                        UdpSessionState { handle: session.handle, last_activity: now },
                    ),
                    ..old(self)@
                })
            } else {
                res is None && final(self)@ == old(self)@
            },
    {
        let handle: u64 = match self.sessions.get(local_port as u64) {
            Some(session) => session.handle,
            None => {
                return None;
            },
        };
        self.sessions.insert(local_port as u64, UdpSessionState { handle, last_activity: now });
        Some(handle)
    }

    /// The socket of a session.
    pub fn handle_of(&self, local_port: u64) -> (res: Option<u64>)
        ensures
            res == if self@.sessions.contains_key(local_port) {
                Some(self@.sessions[local_port].handle)
            } else {
                None
            },
    {
        match self.sessions.get(local_port) {
            Some(session) => Some(session.handle),
            None => None,
        }
    }

    /// Ends a session. Returns its socket, which is to be removed.
    pub fn unregister_udp_session(&mut self, local_port: u16) -> (res: Option<u64>)
        requires
            old(self).wf(),
        ensures
            final(self).wf(),
            res == if old(self)@.sessions.contains_key(local_port as u64) {
                Some(old(self)@.sessions[local_port as u64].handle)
            } else {
                None
            },
            final(self)@ == (UdpView {
                sessions: old(self)@.sessions.remove(local_port as u64),
                ports: without(old(self)@.ports, seq![local_port as u64]),
            }),
    {
        let gone: Vec<u64> = vec![local_port as u64];
        assert(gone@ =~= seq![local_port as u64]);
        let removed: Option<UdpSessionState> = self.sessions.remove(local_port as u64);
        self.ports = retain_others(&self.ports, &gone);
        proof {
            without_keeps_the_others(old(self).ports@, gone@);
            assert(gone@[0] == local_port as u64);
            assert forall|port: u64| #[trigger] gone@.contains(port) <==> port == local_port as u64 by {
                assert(gone@[0] == local_port as u64);
            }
        }
        match removed {
            Some(session) => Some(session.handle),
            None => None,
        }
    }

    /// Ends the sessions that have been idle for longer than `timeout` seconds. Returns their
    /// sockets, which are to be removed.
    pub fn expire_udp_sessions(&mut self, timeout: u64, now: u64) -> (handles: Vec<u64>)
        requires
            old(self).wf(),
        ensures
            final(self).wf(),
            final(self)@.sessions == Map::new(
                |port: u64|
                    old(self)@.sessions.contains_key(port) && !is_stale(
                        old(self)@.sessions[port],
                        timeout,
                        now,
                    ),
                |port: u64| old(self)@.sessions[port],
            ),
            exists|stale: Seq<u64>| #[trigger]
                are_stale(old(self)@.sessions, stale, handles@, timeout, now) && final(self)@.ports
                    == without(old(self)@.ports, stale),
    {
        let ghost start = self.sessions@;
        let keys: Vec<u64> = self.sessions.keys();
        let mut stale: Vec<u64> = Vec::new();
        let mut handles: Vec<u64> = Vec::new();
        let mut i: usize = 0;
        while i < keys.len()
            invariant
                i <= keys@.len(),
                start == old(self).sessions@,
                self.ports@ == old(self).ports@,
                keys@.no_duplicates(),
                forall|port: u64| #[trigger] keys@.contains(port) <==> start.contains_key(port),
                stale@.len() == handles@.len(),
                stale@.no_duplicates(),
                forall|port: u64| #[trigger]
                    stale@.contains(port) <==> keys@.take(i as int).contains(port) && is_stale(
                        start[port],
                        timeout,
                        now,
                    ),
                forall|k: int| 0 <= k < stale@.len() ==> #[trigger] handles@[k] == start[stale@[k]].handle,
                forall|port: u64| #[trigger]
                    self.sessions@.contains_key(port) <==> start.contains_key(port)
                        && !stale@.contains(port),
                forall|port: u64| #[trigger]
                    self.sessions@.contains_key(port) ==> self.sessions@[port] == start[port],
            decreases keys@.len() - i,
        {
            let port: u64 = keys[i];
            let ghost seen = keys@.take(i as int);
            proof {
                assert(keys@.contains(port));
                assert(keys@.take(i + 1) =~= seen.push(port));
                assert forall|other: u64| #[trigger]
                    keys@.take(i + 1).contains(other) <==> seen.contains(other) || other == port by {
                    if seen.contains(other) {
                        let k = choose|k: int| 0 <= k < seen.len() && seen[k] == other;
                        assert(seen.push(port)[k] == other);
                    }
                    if other == port {
                        assert(seen.push(port)[seen.len() as int] == port);
                    }
                    if seen.push(port).contains(other) && other != port {
                        let k = choose|k: int|
                            0 <= k < seen.push(port).len() && seen.push(port)[k] == other;
                        assert(seen[k] == other);
                    }
                }
                if seen.contains(port) {
                    let k = choose|k: int| 0 <= k < seen.len() && seen[k] == port;
                    assert(keys@[k] == keys@[i as int]);
                }
                assert(!stale@.contains(port));
                assert(self.sessions@.contains_key(port));
            }
            let session: UdpSessionState = match self.sessions.get(port) {
                Some(session) => *session,
                None => UdpSessionState { handle: 0, last_activity: now },
            };
            let idle: u64 = now.saturating_sub(session.last_activity);
            if idle as u128 > timeout as u128 * 1_000_000_000 {
                let ghost before = stale@;
                let _ = self.sessions.remove(port);
                stale.push(port);
                handles.push(session.handle);
                proof {
                    assert forall|other: u64| #[trigger]
                        stale@.contains(other) <==> before.contains(other) || other == port by {
                        if before.contains(other) {
                            let k = choose|k: int| 0 <= k < before.len() && before[k] == other;
                            assert(stale@[k] == other);
                        }
                        if other == port {
                            assert(stale@[before.len() as int] == port);
                        }
                    }
                }
            }
            i += 1;
        }
        assert(keys@.take(i as int) =~= keys@);
        self.ports = retain_others(&self.ports, &stale);
        proof {
            without_keeps_the_others(old(self).ports@, stale@);
            assert(self.sessions@ =~= Map::new(
                |port: u64| start.contains_key(port) && !is_stale(start[port], timeout, now),
                |port: u64| start[port],
            ));
            assert(are_stale(start, stale@, handles@, timeout, now));
        }
        handles
    }
}

/// A session ends when it has been silent for longer than its time in seconds; every other one stays.
pub proof fn silent_sessions_end(
    sessions: Map<u64, UdpSessionState>,
    ports: Seq<u64>,
    handles: Seq<u64>,
    timeout: u64,
    now: u64,
    port: u64,
)
    requires
        are_stale(sessions, ports, handles, timeout, now),
    ensures
        ports.contains(port) <==> sessions.contains_key(port) && now
            > sessions[port].last_activity + timeout * 1_000_000_000,
        sessions.contains_key(port) ==> (is_stale(sessions[port], timeout, now) <==> now
            > sessions[port].last_activity + timeout * 1_000_000_000),
        ports.contains(port) ==> handles.contains(sessions[port].handle),
{
    if ports.contains(port) {
        let i = ports.index_of(port);
        assert(handles[i] == sessions[ports[i]].handle);
    }
}

} // verus!
