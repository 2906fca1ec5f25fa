//! The TCP sockets of a manager: what is known of each, and which of them want attention.

use crate::manager::stream::{SocketEvent, SocketEventKind};
use crate::table::Table;
use vstd::prelude::*;

verus! {

/// How far a TCP connection has come.
#[derive(Debug, Clone, Copy, PartialEq, Eq, Structural)]
pub enum TcpSocketState {
    Connecting,
    Established,
    Closed,
}

/// How far a connection has come, by what its socket can do.
pub open spec fn state_of(active: bool, may_send: bool, may_recv: bool) -> TcpSocketState {
    if !active {
        TcpSocketState::Closed
    } else if may_send && may_recv {
        TcpSocketState::Established
    } else {
        TcpSocketState::Connecting
    }
}

/// How far a connection has come, by what its socket can do.
pub fn tcp_state(active: bool, may_send: bool, may_recv: bool) -> (state: TcpSocketState)
    ensures
        state == state_of(active, may_send, may_recv),
{
    if !active {
        TcpSocketState::Closed
    } else if may_send && may_recv {
        TcpSocketState::Established
    } else {
        TcpSocketState::Connecting
    }
}

/// What is known of a socket. Those who wait for the connection are known by a number.
#[derive(Debug)]
pub struct SocketState {
    pub pending_events: u8,
    pub close_requested: bool,
    pub write_shutdown: bool,
    pub fin_sent: bool,
    pub ready_waiters: Vec<u64>,
}

/// What is known of a socket, as values.
pub struct SocketView {
    pub pending_events: u8,
    pub close_requested: bool,
    pub write_shutdown: bool,
    pub fin_sent: bool,
    pub waiters: Seq<u64>,
}

impl View for SocketState {
    type V = SocketView;

    open spec fn view(&self) -> SocketView {
        SocketView {
            pending_events: self.pending_events,
            close_requested: self.close_requested,
            write_shutdown: self.write_shutdown,
            fin_sent: self.fin_sent,
            waiters: self.ready_waiters@,
        }
    }
}

/// A socket that was just opened.
pub open spec fn new_socket() -> SocketView {
    SocketView {
        pending_events: 0,
        close_requested: false,
        write_shutdown: false,
        fin_sent: false,
        waiters: Seq::empty(),
    }
}

/// The sockets, as values: what is known of each, in which order they were opened, and which of
/// them are ready, in which order.
#[verifier::ext_equal]
pub struct SocketsView {
    pub sockets: Map<u64, SocketView>,
    pub handles: Seq<u64>,
    pub ready: Seq<u64>,
}

impl SocketsView {
    /// The sockets with another state of one of them.
    pub open spec fn with_socket(self, handle: u64, socket: SocketView) -> SocketsView {
        SocketsView { sockets: self.sockets.insert(handle, socket), ..self }
    }

    /// The sockets with one more that is ready; none is ready twice.
    pub open spec fn with_ready(self, handle: u64) -> SocketsView {
        if self.ready.contains(handle) {
            self
        } else {
            SocketsView { ready: self.ready.push(handle), ..self }
        }
    }

    /// The sockets without some of them.
    pub open spec fn without_gone(self, gone: Seq<u64>) -> SocketsView {
        SocketsView {
            sockets: self.sockets.remove_keys(gone.to_set()),
            handles: without(self.handles, gone),
            ready: without(self.ready, gone),
        }
    }
}

/// The members of `list` that are not among `gone`, in their order.
pub open spec fn without(list: Seq<u64>, gone: Seq<u64>) -> Seq<u64>
    decreases list.len(),
{
    if list.len() == 0 {
        Seq::empty()
    } else {
        let rest = without(list.drop_last(), gone);
        if gone.contains(list.last()) {
            rest
        } else {
            rest.push(list.last())
        }
    }
}

/// What is left of a list are its members that are not among `gone`, each as often as before.
pub proof fn without_keeps_the_others(list: Seq<u64>, gone: Seq<u64>)
    ensures
        forall|x: u64| #[trigger]
            without(list, gone).contains(x) <==> list.contains(x) && !gone.contains(x),
        list.no_duplicates() ==> without(list, gone).no_duplicates(),
    decreases list.len(),
{
    if list.len() > 0 {
        let init = list.drop_last();
        let rest = without(init, gone);
        without_keeps_the_others(init, gone);
        let all = without(list, gone);
        assert forall|x: u64| #[trigger] all.contains(x) <==> list.contains(x) && !gone.contains(
            x,
        ) by {
            if all.contains(x) {
                let k = choose|k: int| 0 <= k < all.len() && all[k] == x;
                if k < rest.len() {
                    assert(rest[k] == x);
                    assert(rest.contains(x));
                    let j = choose|j: int| 0 <= j < init.len() && init[j] == x;
                    assert(list[j] == x);
                } else {
                    assert(list[list.len() - 1] == x);
                }
            }
            if list.contains(x) && !gone.contains(x) {
                let j = choose|j: int| 0 <= j < list.len() && list[j] == x;
                if j < init.len() {
                    assert(init[j] == x);
                    assert(init.contains(x));
                    assert(rest.contains(x));
                    let k = choose|k: int| 0 <= k < rest.len() && rest[k] == x;
                    assert(all[k] == x);
                } else {
                    assert(all[all.len() - 1] == x);
                }
            }
        }
        if list.no_duplicates() {
            assert(init.no_duplicates()) by {
                assert forall|i: int, j: int|
                    0 <= i < init.len() && 0 <= j < init.len() && i != j implies init[i]
                    != init[j] by {
                    assert(list[i] != list[j]);
                }
            }
            assert(!init.contains(list.last())) by {
                if init.contains(list.last()) {
                    let j = choose|j: int| 0 <= j < init.len() && init[j] == list.last();
                    assert(list[j] == list[list.len() - 1]);
                }
            }
            assert(!rest.contains(list.last()));
            assert forall|i: int, j: int|
                0 <= i < all.len() && 0 <= j < all.len() && i != j implies all[i] != all[j] by {
                if i < rest.len() && j < rest.len() {
                    assert(rest[i] != rest[j]);
                } else if i < rest.len() {
                    assert(rest.contains(rest[i]));
                } else if j < rest.len() {
                    assert(rest.contains(rest[j]));
                }
            }
        }
    }
}

fn contains(list: &Vec<u64>, x: u64) -> (res: bool)
    ensures
        res == list@.contains(x),
{
    let mut i: usize = 0;
    while i < list.len()
        invariant
            i <= list@.len(),
            forall|k: int| 0 <= k < i ==> list@[k] != x,
        decreases list@.len() - i,
    {
        if list[i] == x {
            assert(list@[i as int] == x);
            return true;
        }
        i += 1;
    }
    false
}

/// The members of `list` that are not among `gone`, in their order.
pub fn retain_others(list: &Vec<u64>, gone: &Vec<u64>) -> (kept: Vec<u64>)
    ensures
        kept@ == without(list@, gone@),
{
    let mut kept: Vec<u64> = Vec::new();
    let mut i: usize = 0;
    assert(list@.take(0) =~= Seq::empty());
    while i < list.len()
        invariant
            i <= list@.len(),
            kept@ == without(list@.take(i as int), gone@),
        decreases list@.len() - i,
    {
        assert(list@.take(i + 1).drop_last() =~= list@.take(i as int));
        if !contains(gone, list[i]) {
            kept.push(list[i]);
        }
        i += 1;
    }
    assert(list@.take(i as int) =~= list@);
    kept
}

fn copy_of(list: &Vec<u64>) -> (copy: Vec<u64>)
    ensures
        copy@ == list@,
{
    let mut copy: Vec<u64> = Vec::new();
    let mut i: usize = 0;
    while i < list.len()
        invariant
            i <= list@.len(),
            copy@ =~= list@.take(i as int),
        decreases list@.len() - i,
    {
        copy.push(list[i]);
        i += 1;
    }
    copy
}

/// What is left to do for a client that closes its connection.
#[derive(Debug)]
pub enum CloseStep {
    /// These wait for the connection, and are told that it is closed.
    Notify(Vec<u64>),
    /// The socket is not known; whatever the stack has of it is removed.
    Discard,
}

/// What is left to do for someone who waits for a connection.
#[derive(Debug, Clone, Copy, PartialEq, Eq, Structural)]
pub enum WaitStep {
    /// They are told this now.
    Reply(TcpSocketState),
    /// They wait.
    Wait,
}

/// The TCP sockets of a manager.
pub struct TcpSockets {
    sockets: Table<SocketState>,
    handles: Vec<u64>,
    ready: Vec<u64>,
}

pub open spec fn socket_views(sockets: Map<u64, SocketState>) -> Map<u64, SocketView> {
    Map::new(|handle: u64| sockets.contains_key(handle), |handle: u64| sockets[handle]@)
}

impl View for TcpSockets {
    type V = SocketsView;

    closed spec fn view(&self) -> SocketsView {
        SocketsView {
            sockets: socket_views(self.sockets@),
            handles: self.handles@,
            ready: self.ready@,
        }
    }
}

/// The waiters of sockets that are gone, socket by socket.
pub open spec fn waiters_of(sockets: Map<u64, SocketView>, gone: Seq<u64>) -> Seq<u64>
    decreases gone.len(),
{
    if gone.len() == 0 {
        Seq::empty()
    } else {
        let rest = waiters_of(sockets, gone.drop_last());
        if sockets.contains_key(gone.last()) && !gone.drop_last().contains(gone.last()) {
            rest + sockets[gone.last()].waiters
        } else {
            rest
        }
    }
}

/// The list of sockets, the table of what is known of them and the queue of the ready ones agree:
/// every socket is in the list once, and nothing else is; no socket is ready twice.
pub open spec fn consistent(view: SocketsView) -> bool {
    &&& view.handles.no_duplicates()
    &&& view.ready.no_duplicates()
    &&& forall|handle: u64| #[trigger]
        view.handles.contains(handle) <==> view.sockets.contains_key(handle)
}

impl TcpSockets {
    pub closed spec fn wf(&self) -> bool {
        consistent(self@)
    }

    /// The list of sockets, the table and the queue agree.
    pub proof fn stays_consistent(&self)
        requires
            self.wf(),
        ensures
            consistent(self@),
    {
    }

    /// No sockets.
    pub fn new() -> (sockets: TcpSockets)
        ensures
            sockets.wf(),
            sockets@ == (SocketsView {
                sockets: Map::empty(),
                handles: Seq::empty(),
                ready: Seq::empty(),
            }),
    {
        let sockets = TcpSockets { sockets: Table::new(), handles: Vec::new(), ready: Vec::new() };
        assert(sockets@.sockets =~= Map::empty());
        sockets
    }

    /// The number of sockets.
    pub fn len(&self) -> (n: usize)
        requires
            self.wf(),
        ensures
            n == self@.handles.len(),
    {
        self.handles.len()
    }

    /// The number of sockets that are ready.
    pub fn ready_len(&self) -> (n: usize)
        ensures
            n == self@.ready.len(),
    {
        self.ready.len()
    }

    /// Whether a socket is known.
    pub fn contains(&self, handle: u64) -> (res: bool)
        ensures
            res == self@.sockets.contains_key(handle),
    {
        self.sockets.contains(handle)
    }

    /// Takes in a socket that was opened.
    pub fn insert(&mut self, handle: u64)
        requires
            old(self).wf(),
            !old(self)@.sockets.contains_key(handle),
        ensures
            final(self).wf(),
            final(self)@ == (SocketsView {
                sockets: old(self)@.sockets.insert(handle, new_socket()),
                handles: old(self)@.handles.push(handle),
                ready: old(self)@.ready,
            }),
    {
        self.sockets.insert(
            handle,
            SocketState {
                pending_events: 0,
                close_requested: false,
                write_shutdown: false,
                fin_sent: false,
                ready_waiters: Vec::new(),
            },
        );
        self.handles.push(handle);
        proof {
            let before = old(self)@;
            assert(!before.handles.contains(handle));
            assert(self@.sockets =~= before.sockets.insert(handle, new_socket()));
            lemma_pushed(before.handles, handle);
        }
    }

    /// Puts a socket into the queue of the ready ones, unless it is there.
    pub fn enqueue_ready_tcp_handle(&mut self, handle: u64)
        requires
            old(self).wf(),
        ensures
            final(self).wf(),
            final(self)@ == old(self)@.with_ready(handle),
    {
        if !contains(&self.ready, handle) {
            proof {
                lemma_pushed(self.ready@, handle);
            }
            self.ready.push(handle);
        }
    }

    fn take(&mut self, handle: u64) -> (res: Option<SocketState>)
        ensures
            match res {
                Some(socket) => old(self)@.sockets.contains_key(handle)
                    && old(self)@.sockets[handle] == socket@ && final(self)@ == (SocketsView {
                    sockets: old(self)@.sockets.remove(handle),
                    ..old(self)@
                }),
                None => !old(self)@.sockets.contains_key(handle) && final(self)@ == old(self)@,
            },
    {
        let res: Option<SocketState> = self.sockets.remove(handle);
        proof {
            if res is Some {
                assert(self@.sockets =~= old(self)@.sockets.remove(handle));
            } else {
                assert(self@.sockets =~= old(self)@.sockets);
            }
        }
        res
    }

    fn put_back(&mut self, handle: u64, socket: SocketState, Ghost(before): Ghost<SocketsView>)
        requires
            consistent(before),
            before.sockets.contains_key(handle),
            old(self)@ == (SocketsView { sockets: before.sockets.remove(handle), ..before }),
        ensures
            final(self).wf(),
            final(self)@ == before.with_socket(handle, socket@),
    {
        self.sockets.insert(handle, socket);
        assert(self@.sockets =~= old(self)@.sockets.insert(handle, socket@));
        assert(self@.sockets =~= before.sockets.insert(handle, socket@));
        assert forall|other: u64| #[trigger]
            self@.handles.contains(other) <==> self@.sockets.contains_key(other) by {
            assert(before.handles.contains(other) <==> before.sockets.contains_key(other));
        }
    }

    /// Takes note of events of a socket, and puts it into the queue of the ready ones.
    pub fn mark_ready_tcp_handle(&mut self, handle: u64, event_mask: u8)
        requires
            old(self).wf(),
        ensures
            final(self).wf(),
            final(self)@ == (if old(self)@.sockets.contains_key(handle) {
                let socket = old(self)@.sockets[handle];
                old(self)@.with_socket(
                    handle,
                    SocketView { pending_events: socket.pending_events | event_mask, ..socket },
                )
            } else {
                old(self)@
            }).with_ready(handle),
    {
        let ghost before = self@;
        match self.take(handle) {
            Some(socket) => {
                let mut socket: SocketState = socket;
                socket.pending_events = socket.pending_events | event_mask;
                self.put_back(handle, socket, Ghost(before));
            },
            None => {},
        }
        self.enqueue_ready_tcp_handle(handle);
    }

    /// Takes an event of a stream: a client that is gone closes its connection. The socket is then
    /// ready.
    pub fn handle_socket_event(&mut self, event: SocketEvent)
        requires
            old(self).wf(),
        ensures
            final(self).wf(),
            final(self)@ == (if event.kind is Closed && old(self)@.sockets.contains_key(
                event.handle,
            ) {
                old(self)@.with_socket(
                    event.handle,
                    SocketView {
                        close_requested: true,
                        write_shutdown: true,
                        ..old(self)@.sockets[event.handle]
                    },
                )
            } else {
                old(self)@
            }).with_ready(event.handle),
    {
        let ghost before = self@;
        let closed: bool = match event.kind {
            SocketEventKind::Closed => true,
            _ => false,
        };
        if closed {
            match self.take(event.handle) {
                Some(socket) => {
                    let mut socket: SocketState = socket;
                    socket.close_requested = true;
                    socket.write_shutdown = true;
                    self.put_back(event.handle, socket, Ghost(before));
                },
                None => {},
            }
        }
        self.enqueue_ready_tcp_handle(event.handle);
    }

    /// A client closes its connection. Those who wait for it are to be told.
    pub fn close_connection(&mut self, handle: u64) -> (step: CloseStep)
        requires
            old(self).wf(),
        ensures
            final(self).wf(),
            if old(self)@.sockets.contains_key(handle) {
                let socket = old(self)@.sockets[handle];
                &&& step matches CloseStep::Notify(waiters) && waiters@ == socket.waiters
                &&& final(self)@ == old(self)@.with_socket(
                    handle,
                    SocketView {
                        close_requested: true,
                        write_shutdown: true,
                        waiters: Seq::empty(),
                        ..socket
                    },
                )
            } else {
                step is Discard && final(self)@ == old(self)@
            },
    {
        let ghost before = self@;
        match self.take(handle) {
            Some(socket) => {
                let mut socket: SocketState = socket;
                socket.close_requested = true;
                socket.write_shutdown = true;
                let mut waiters: Vec<u64> = Vec::new();
                std::mem::swap(&mut waiters, &mut socket.ready_waiters);
                self.put_back(handle, socket, Ghost(before));
                CloseStep::Notify(waiters)
            },
            None => CloseStep::Discard,
        }
    }

    /// How far a connection has come; one that is unknown or being closed counts as closed.
    pub open spec fn connection_state(
        view: SocketsView,
        handle: u64,
        active: bool,
        may_send: bool,
        may_recv: bool,
    ) -> TcpSocketState {
        if !view.sockets.contains_key(handle) || view.sockets[handle].close_requested {
            TcpSocketState::Closed
        } else {
            state_of(active, may_send, may_recv)
        }
    }

    /// How far a connection has come, by what its socket can do.
    pub fn get_tcp_socket_state(&self, handle: u64, active: bool, may_send: bool, may_recv: bool) -> (
        state: TcpSocketState)
        ensures
            state == TcpSockets::connection_state(self@, handle, active, may_send, may_recv),
    {
        match self.sockets.get(handle) {
            Some(socket) => {
                if socket.close_requested {
                    TcpSocketState::Closed
                } else {
                    tcp_state(active, may_send, may_recv)
                }
            },
            None => TcpSocketState::Closed,
        }
    }

    /// Someone waits for a connection. They are told at once unless it is being made.
    pub fn wait_socket_ready(
        &mut self,
        handle: u64,
        responder: u64,
        active: bool,
        may_send: bool,
        may_recv: bool,
    ) -> (step: WaitStep)
        requires
            old(self).wf(),
        ensures
            final(self).wf(),
            ({
                let state = TcpSockets::connection_state(
                    old(self)@,
                    handle,
                    active,
                    may_send,
                    may_recv,
                );
                if state == TcpSocketState::Connecting {
                    let socket = old(self)@.sockets[handle];
                    &&& step is Wait
                    &&& final(self)@ == old(self)@.with_socket(
                        handle,
                        SocketView { waiters: socket.waiters.push(responder), ..socket },
                    )
                } else {
                    step == WaitStep::Reply(state) && final(self)@ == old(self)@
                }
            }),
    {
        let state: TcpSocketState = self.get_tcp_socket_state(handle, active, may_send, may_recv);
        let connecting: bool = match state {
            TcpSocketState::Connecting => true,
            _ => false,
        };
        if !connecting {
            return WaitStep::Reply(state);
        }
        let ghost before = self@;
        match self.take(handle) {
            Some(socket) => {
                let mut socket: SocketState = socket;
                socket.ready_waiters.push(responder);
                self.put_back(handle, socket, Ghost(before));
                WaitStep::Wait
            },
            None => WaitStep::Reply(TcpSocketState::Closed),
        }
    }

    /// The sockets for which someone waits, in the order in which they were opened.
    pub fn waiting_handles(&self) -> (list: Vec<u64>)
        requires
            self.wf(),
        ensures
            list@.no_duplicates(),
            forall|handle: u64| #[trigger]
                list@.contains(handle) <==> self@.sockets.contains_key(handle)
                    && self@.sockets[handle].waiters.len() > 0,
    {
        let mut idle: Vec<u64> = Vec::new();
        let mut i: usize = 0;
        while i < self.handles.len()
            invariant
                i <= self.handles@.len(),
                self.wf(),
                forall|handle: u64| #[trigger]
                    idle@.contains(handle) <==> self.handles@.take(i as int).contains(handle)
                        && self@.sockets[handle].waiters.len() == 0,
            decreases self.handles@.len() - i,
        {
            let handle: u64 = self.handles[i];
            assert(self.handles@.contains(handle));
            let ghost seen = self.handles@.take(i as int);
            assert(self.handles@.take(i + 1) =~= seen.push(handle));
            let waits: bool = match self.sockets.get(handle) {
                Some(socket) => socket.ready_waiters.len() > 0,
                None => false,
            };
            proof {
                lemma_contains_pushed(seen, handle);
                lemma_contains_pushed(idle@, handle);
            }
            if !waits {
                idle.push(handle);
            }
            i += 1;
        }
        assert(self.handles@.take(i as int) =~= self.handles@);
        proof {
            without_keeps_the_others(self.handles@, idle@);
        }
        retain_others(&self.handles, &idle)
    }

    /// Those who wait for a connection, and what they are told, if it is no longer being made.
    pub fn take_ready_waiters(&mut self, handle: u64, active: bool, may_send: bool, may_recv: bool) -> (
        res: Option<(Vec<u64>, TcpSocketState)>)
        requires
            old(self).wf(),
        ensures
            final(self).wf(),
            ({
                let state = state_of(active, may_send, may_recv);
                if old(self)@.sockets.contains_key(handle) && state != TcpSocketState::Connecting {
                    let socket = old(self)@.sockets[handle];
                    &&& res matches Some((waiters, told)) && waiters@ == socket.waiters && told
                        == state
                    &&& final(self)@ == old(self)@.with_socket(
                        handle,
                        SocketView { waiters: Seq::empty(), ..socket },
                    )
                } else {
                    res is None && final(self)@ == old(self)@
                }
            }),
    {
        let state: TcpSocketState = tcp_state(active, may_send, may_recv);
        match state {
            TcpSocketState::Connecting => {
                return None;
            },
            _ => {},
        }
        let ghost before = self@;
        match self.take(handle) {
            Some(socket) => {
                let mut socket: SocketState = socket;
                let mut waiters: Vec<u64> = Vec::new();
                std::mem::swap(&mut waiters, &mut socket.ready_waiters);
                self.put_back(handle, socket, Ghost(before));
                Some((waiters, state))
            },
            None => None,
        }
    }

    /// The sockets to look at: all of them, or those that are ready. The queue of the ready ones is
    /// then empty.
    pub fn begin_tcp_sweep(&mut self, full_sweep: bool) -> (list: Vec<u64>)
        requires
            old(self).wf(),
        ensures
            final(self).wf(),
            list@ == if full_sweep {
                old(self)@.handles
            } else {
                old(self)@.ready
            },
            final(self)@ == (SocketsView { ready: Seq::empty(), ..old(self)@ }),
    {
        let mut ready: Vec<u64> = Vec::new();
        std::mem::swap(&mut ready, &mut self.ready);
        if full_sweep {
            copy_of(&self.handles)
        } else {
            ready
        }
    }

    /// Takes note of what the client did with its stream. Returns whether the client is leaving, if
    /// the socket is known.
    pub fn note_stream(&mut self, handle: u64, dropped: bool, shutdown: bool) -> (res: Option<bool>)
        requires
            old(self).wf(),
        ensures
            final(self).wf(),
            if old(self)@.sockets.contains_key(handle) {
                let socket = old(self)@.sockets[handle];
                &&& res == Some(socket.close_requested || dropped)
                &&& final(self)@ == old(self)@.with_socket(
                    handle,
                    SocketView {
                        close_requested: socket.close_requested || dropped,
                        write_shutdown: socket.write_shutdown || dropped || shutdown,
                        ..socket
                    },
                )
            } else {
                res is None && final(self)@ == old(self)@
            },
    {
        let ghost before = self@;
        match self.take(handle) {
            Some(socket) => {
                let mut socket: SocketState = socket;
                if dropped {
                    socket.close_requested = true;
                    socket.write_shutdown = true;
                }
                if shutdown {
                    socket.write_shutdown = true;
                }
                let leaving: bool = socket.close_requested;
                self.put_back(handle, socket, Ghost(before));
                Some(leaving)
            },
            None => None,
        }
    }

    /// Whether the socket is to be closed now: the client is leaving, everything that it wrote was
    /// sent, and the socket can still send. That happens once.
    pub fn take_close(&mut self, handle: u64, buffered: usize, may_send: bool) -> (close: bool)
        requires
            old(self).wf(),
        ensures
            final(self).wf(),
            ({
                let due = old(self)@.sockets.contains_key(handle)
                    && old(self)@.sockets[handle].close_requested
                    && !old(self)@.sockets[handle].fin_sent && buffered == 0 && may_send;
                &&& close == due
                &&& final(self)@ == if due {
                    old(self)@.with_socket(
                        handle,
                        SocketView { fin_sent: true, ..old(self)@.sockets[handle] },
                    )
                } else {
                    old(self)@
                }
            }),
    {
        let due: bool = match self.sockets.get(handle) {
            Some(socket) => socket.close_requested && !socket.fin_sent && buffered == 0 && may_send,
            None => false,
        };
        if !due {
            return false;
        }
        let ghost before = self@;
        match self.take(handle) {
            Some(socket) => {
                let mut socket: SocketState = socket;
                socket.fin_sent = true;
                self.put_back(handle, socket, Ghost(before));
            },
            None => {},
        }
        true
    }

    /// Forgets sockets that are gone. Returns those who waited for them.
    pub fn remove_closed(&mut self, closed: &Vec<u64>) -> (waiters: Vec<u64>)
        requires
            old(self).wf(),
        ensures
            final(self).wf(),
            waiters@ == waiters_of(old(self)@.sockets, closed@),
            final(self)@ == old(self)@.without_gone(closed@),
    {
        let ghost start = self@;
        let mut waiters: Vec<u64> = Vec::new();
        let mut i: usize = 0;
        assert(closed@.take(0) =~= Seq::empty());
        while i < closed.len()
            invariant
                i <= closed@.len(),
                consistent(start),
                self@.handles == start.handles,
                self@.ready == start.ready,
                forall|handle: u64| #[trigger]
                    self@.sockets.contains_key(handle) <==> start.sockets.contains_key(handle)
                        && !closed@.take(i as int).contains(handle),
                forall|handle: u64| #[trigger]
                    self@.sockets.contains_key(handle) ==> self@.sockets[handle]
                        == start.sockets[handle],
                waiters@ == waiters_of(start.sockets, closed@.take(i as int)),
            decreases closed@.len() - i,
        {
            let handle: u64 = closed[i];
            let ghost seen = closed@.take(i as int);
            assert(closed@.take(i + 1) =~= seen.push(handle));
            assert(closed@.take(i + 1).drop_last() =~= seen);
            proof {
                lemma_contains_pushed(seen, handle);
            }
            match self.take(handle) {
                Some(socket) => {
                    let mut more: Vec<u64> = socket.ready_waiters;
                    waiters.append(&mut more);
                },
                None => {},
            }
            i += 1;
        }
        assert(closed@.take(i as int) =~= closed@);
        proof {
            without_keeps_the_others(start.handles, closed@);
            without_keeps_the_others(start.ready, closed@);
        }
        assert(self@.sockets =~= start.sockets.remove_keys(closed@.to_set()));
        self.handles = retain_others(&self.handles, closed);
        self.ready = retain_others(&self.ready, closed);
        proof {
            assert forall|handle: u64| #[trigger]
                self@.handles.contains(handle) <==> self@.sockets.contains_key(handle) by {
                assert(start.handles.contains(handle) <==> start.sockets.contains_key(handle));
            }
        }
        waiters
    }
}

pub(crate) proof fn lemma_contains_pushed(list: Seq<u64>, x: u64)
    ensures
        forall|y: u64| #[trigger] list.push(x).contains(y) <==> list.contains(y) || y == x,
{
    let grown = list.push(x);
    assert forall|y: u64| #[trigger] grown.contains(y) <==> list.contains(y) || y == x by {
        if list.contains(y) {
            let k = choose|k: int| 0 <= k < list.len() && list[k] == y;
            assert(grown[k] == y);
        }
        if y == x {
            assert(grown[list.len() as int] == x);
        }
        if grown.contains(y) && y != x {
            let k = choose|k: int| 0 <= k < grown.len() && grown[k] == y;
            assert(list[k] == y);
        }
    }
}

pub(crate) proof fn lemma_pushed(list: Seq<u64>, x: u64)
    requires
        list.no_duplicates(),
        !list.contains(x),
    ensures
        list.push(x).no_duplicates(),
        forall|y: u64| #[trigger] list.push(x).contains(y) <==> list.contains(y) || y == x,
{
    lemma_contains_pushed(list, x);
    let grown = list.push(x);
    assert forall|i: int, j: int|
        0 <= i < grown.len() && 0 <= j < grown.len() && i != j implies grown[i] != grown[j] by {
        if i < list.len() && j < list.len() {
            assert(list[i] != list[j]);
        } else if i < list.len() {
            assert(list.contains(list[i]));
        } else if j < list.len() {
            assert(list.contains(list[j]));
        }
    }
}

/// A socket that is active and can send and receive is connected; one that is active and cannot do
/// both is being connected; one that is not active is closed. A connection that is to be closed
/// counts as closed, and so does one that is not there.
pub proof fn states_of_connections(
    view: SocketsView,
    handle: u64,
    active: bool,
    may_send: bool,
    may_recv: bool,
)
    ensures
        state_of(active, may_send, may_recv) == TcpSocketState::Closed <==> !active,
        state_of(active, may_send, may_recv) == TcpSocketState::Established <==> active && may_send
            && may_recv,
        ({
            let state = TcpSockets::connection_state(view, handle, active, may_send, may_recv);
            let open = view.sockets.contains_key(handle) && !view.sockets[handle].close_requested;
            &&& state == TcpSocketState::Closed <==> !open || !active
            &&& state == TcpSocketState::Established <==> open && active && may_send && may_recv
        }),
{
}

/// A new connection has no events, is not to be closed, and nobody waits for it.
pub proof fn a_new_connection_is_quiet()
    ensures
        new_socket().pending_events == 0,
        !new_socket().close_requested,
        !new_socket().write_shutdown,
        !new_socket().fin_sent,
        new_socket().waiters.len() == 0,
{
}

/// A connection is at most once in the list of those that are ready; marking it changes no other
/// one's place and nothing else.
pub proof fn ready_once(view: SocketsView, handle: u64, other: u64)
    ensures
        view.with_ready(handle).ready.contains(handle),
        other != handle ==> (view.with_ready(handle).ready.contains(other)
            <==> view.ready.contains(other)),
        view.ready.is_prefix_of(view.with_ready(handle).ready),
        view.ready.no_duplicates() ==> view.with_ready(handle).ready.no_duplicates(),
        view.with_ready(handle).sockets == view.sockets,
        view.with_ready(handle).handles == view.handles,
{
    let after = view.with_ready(handle).ready;
    if !view.ready.contains(handle) {
        assert(after[after.len() - 1] == handle);
        assert forall|x: u64| #[trigger] view.ready.contains(x) implies after.contains(x) by {
            let i = view.ready.index_of(x);
            assert(after[i] == x);
        }
        if after.contains(other) && other != handle {
            let i = after.index_of(other);
            assert(view.ready[i] == other);
        }
    }
}

/// Connections that are gone are gone from everywhere, and all others stay as they were.
pub proof fn gone_is_gone(view: SocketsView, gone: Seq<u64>, handle: u64)
    ensures
        ({
            let after = view.without_gone(gone);
            &&& after.sockets.contains_key(handle) <==> view.sockets.contains_key(handle)
                && !gone.contains(handle)
            &&& after.sockets.contains_key(handle) ==> after.sockets[handle]
                == view.sockets[handle]
            &&& after.handles.contains(handle) <==> view.handles.contains(handle)
                && !gone.contains(handle)
            &&& after.ready.contains(handle) <==> view.ready.contains(handle) && !gone.contains(
                handle,
            )
        }),
{
    without_keeps_the_others(view.handles, gone);
    without_keeps_the_others(view.ready, gone);
}

/// Whoever waits for a connection that is gone is told of it, and nobody else is.
pub proof fn whoever_waits_is_told(sockets: Map<u64, SocketView>, gone: Seq<u64>, waiter: u64)
    ensures
        waiters_of(sockets, gone).contains(waiter) <==> exists|handle: u64|
            gone.contains(handle) && #[trigger] sockets.contains_key(handle)
                && sockets[handle].waiters.contains(waiter),
    decreases gone.len(),
{
    if gone.len() > 0 {
        let shorter = gone.drop_last();
        let last = gone.last();
        let rest = waiters_of(sockets, shorter);
        whoever_waits_is_told(sockets, shorter, waiter);
        assert forall|x: u64| #[trigger] gone.contains(x) <==> shorter.contains(x) || x == last by {
            if gone.contains(x) {
                let i = gone.index_of(x);
                if i < shorter.len() {
                    assert(shorter[i] == x);
                }
            }
            if shorter.contains(x) {
                let i = shorter.index_of(x);
                assert(gone[i] == x);
            }
            assert(gone[gone.len() - 1] == last);
        }
        let own = sockets[last].waiters;
        let both = rest + own;
        assert(both.contains(waiter) <==> rest.contains(waiter) || own.contains(waiter)) by {
            if rest.contains(waiter) {
                assert(both[rest.index_of(waiter)] == waiter);
            }
            if own.contains(waiter) {
                assert(both[rest.len() + own.index_of(waiter)] == waiter);
            }
            if both.contains(waiter) {
                let i = both.index_of(waiter);
                assert(if i < rest.len() {
                    rest[i] == waiter
                } else {
                    own[i - rest.len()] == waiter
                });
            }
        }
        if exists|handle: u64|
            gone.contains(handle) && #[trigger] sockets.contains_key(handle)
                && sockets[handle].waiters.contains(waiter) {
            let handle = choose|handle: u64|
                gone.contains(handle) && #[trigger] sockets.contains_key(handle)
                    && sockets[handle].waiters.contains(waiter);
            if handle != last {
                assert(shorter.contains(handle));
            }
        }
    } else {
        assert(waiters_of(sockets, gone) =~= Seq::empty());
    }
}

} // verus!
