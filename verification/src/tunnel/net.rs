//! The sockets of the userspace network stack.

use crate::addr::{IpAddress, SocketAddress};
use crate::tunnel::stack::{StackError, StackFault, StackTunables};
use smoltcp::iface::{Interface, SocketHandle, SocketSet};
use smoltcp::socket::{tcp, udp};
use vstd::prelude::*;

verus! {

/// The sockets of smoltcp.
#[verifier::external_type_specification]
#[verifier::external_body]
pub struct ExSocketSet<'a>(smoltcp::iface::SocketSet<'a>);

/// How smoltcp names a socket.
#[verifier::external_type_specification]
#[verifier::external_body]
pub struct ExSocketHandle(smoltcp::iface::SocketHandle);

/// The interface of smoltcp.
#[verifier::external_type_specification]
#[verifier::external_body]
pub struct ExInterface(smoltcp::iface::Interface);

/// Where a TCP connection is in its life.
#[derive(Debug, Clone, Copy, PartialEq, Eq, Structural)]
pub enum TcpPhase {
    Closed,
    Listen,
    SynSent,
    SynReceived,
    Established,
    FinWait1,
    FinWait2,
    CloseWait,
    Closing,
    LastAck,
    TimeWait,
}

/// How a TCP socket finds out how fast it may send.
#[derive(Debug, Clone, Copy, PartialEq, Eq, Structural)]
pub enum TcpPacing {
    Unlimited,
    Cubic,
}

/// How a TCP socket behaves.
#[derive(Debug, Clone, Copy)]
pub struct TcpSettings {
    /// How it finds out how fast it may send.
    pub pacing: TcpPacing,
    /// Whether small packets are held back.
    pub nagle: bool,
    /// Milliseconds by which an acknowledgement may be delayed.
    pub ack_delay: Option<u64>,
    /// Seconds between two keepalives.
    pub keep_alive: Option<u64>,
    /// Seconds after which a silent connection ends.
    pub timeout: Option<u64>,
}

/// A TCP socket: where its connection is, the remote and the local port that it was last connected
/// with, whether the remote has ended its side, and how it behaves; the bytes that it has taken and not yet sent for good, those that it has
/// received and that were not yet read, and how many there can be of each.
#[verifier::ext_equal]
pub struct TcpView {
    pub phase: TcpPhase,
    pub route: Option<(SocketAddress, u16)>,
    pub ended: bool,
    pub settings: TcpSettings,
    pub tx: Seq<u8>,
    pub tx_capacity: nat,
    pub rx: Seq<u8>,
    pub rx_capacity: nat,
}

/// A UDP socket: its local address; the packets that it has taken and not yet sent, and those that it
/// has received and that were not yet read, each with the remote that it goes to or comes from; how
/// many packets and bytes there is room for in each direction; and how long the next packet that it
/// takes can be, which also rests on where the free bytes lie.
#[verifier::ext_equal]
pub struct PacketsView {
    pub local: SocketAddress,
    pub tx: Seq<(SocketAddress, Seq<u8>)>,
    pub rx: Seq<(SocketAddress, Seq<u8>)>,
    pub packets: nat,
    pub bytes: nat,
    pub fits: Set<nat>,
}

/// A socket.
#[verifier::ext_equal]
pub enum StackSocket {
    Tcp(TcpView),
    Udp(PacketsView),
}

/// The sockets in a set of smoltcp's.
pub uninterp spec fn socket_contents(set: SocketSet<'static>) -> Map<SocketHandle, StackSocket>;

/// Whether a set of smoltcp's takes any number of sockets.
pub uninterp spec fn set_grows(set: SocketSet<'static>) -> bool;

/// No sockets.
pub open spec fn no_sockets() -> Map<SocketHandle, StackSocket> {
    Map::empty()
}

/// Whether a name is that of a TCP socket.
pub open spec fn is_tcp(set: SocketSet<'static>, handle: SocketHandle) -> bool {
    socket_contents(set).dom().contains(handle) && socket_contents(set)[handle] is Tcp
}

/// Whether a name is that of a UDP socket.
pub open spec fn is_udp(set: SocketSet<'static>, handle: SocketHandle) -> bool {
    socket_contents(set).dom().contains(handle) && socket_contents(set)[handle] is Udp
}

/// The TCP socket with a name.
pub open spec fn tcp_in(set: SocketSet<'static>, handle: SocketHandle) -> TcpView {
    socket_contents(set)[handle]->Tcp_0
}

/// The UDP socket with a name.
pub open spec fn udp_in(set: SocketSet<'static>, handle: SocketHandle) -> PacketsView {
    socket_contents(set)[handle]->Udp_0
}

impl TcpView {
    /// Whether the connection exchanges packets.
    pub open spec fn is_active(self) -> bool {
        self.phase != TcpPhase::Closed && self.phase != TcpPhase::TimeWait && self.phase
            != TcpPhase::Listen
    }

    /// Whether a connection is being made, or not yet over.
    pub open spec fn is_open(self) -> bool {
        self.phase != TcpPhase::Closed && self.phase != TcpPhase::TimeWait
    }

    /// Whether the connection takes data.
    pub open spec fn may_send(self) -> bool {
        self.phase == TcpPhase::Established || self.phase == TcpPhase::CloseWait
    }

    /// Whether there is data to read, or some can still come.
    pub open spec fn may_recv(self) -> bool {
        self.phase == TcpPhase::Established || self.phase == TcpPhase::FinWait1 || self.phase
            == TcpPhase::FinWait2 || self.rx.len() > 0
    }

    /// Whether the connection is no longer being made.
    pub open spec fn is_past_handshake(self) -> bool {
        self.phase != TcpPhase::Listen && self.phase != TcpPhase::SynSent && self.phase
            != TcpPhase::SynReceived
    }

    /// How many of `len` bytes the socket takes.
    pub open spec fn takes(self, len: int) -> int {
        let room = self.tx_capacity - self.tx.len();
        if room >= len {
            len
        } else if room > 0 {
            room
        } else {
            0
        }
    }

    /// The socket after a connection was started.
    pub open spec fn connecting_to(self, remote: SocketAddress, local_port: u16) -> TcpView {
        TcpView {
            phase: TcpPhase::SynSent,
            route: Some((remote, local_port)),
            ended: false,
            tx: Seq::empty(),
            rx: Seq::empty(),
            ..self
        }
    }

    /// The socket after its side of the connection was closed.
    pub open spec fn closed(self) -> TcpView {
        TcpView {
            phase: match self.phase {
                TcpPhase::Listen | TcpPhase::SynSent => TcpPhase::Closed,
                TcpPhase::SynReceived | TcpPhase::Established => TcpPhase::FinWait1,
                TcpPhase::CloseWait => TcpPhase::LastAck,
                _ => self.phase,
            },
            ..self
        }
    }
}

impl PacketsView {
    /// Whether a packet from this socket can go to a remote.
    pub open spec fn reaches(self, remote: SocketAddress) -> bool {
        self.local.port != 0 && remote.port != 0 && !is_unspecified(remote.ip)
    }

    /// Whether the socket takes a packet for a remote.
    pub open spec fn takes_packet(self, remote: SocketAddress, data: Seq<u8>) -> bool {
        self.reaches(remote) && self.fits.contains(data.len())
    }

    /// The socket after it took a packet: `fits` is then as in `later`.
    pub open spec fn with_packet(
        self,
        remote: SocketAddress,
        data: Seq<u8>,
        later: PacketsView,
    ) -> PacketsView {
        PacketsView { tx: self.tx.push((remote, data)), fits: later.fits, ..self }
    }

    /// The socket after it had no room for a packet: `fits` is then as in `later`.
    pub open spec fn after_refusal(self, later: PacketsView) -> PacketsView {
        PacketsView { fits: later.fits, ..self }
    }
}

/// A set after one of its sockets changed.
pub open spec fn changed(
    before: SocketSet<'static>,
    after: SocketSet<'static>,
    handle: SocketHandle,
    socket: StackSocket,
) -> bool {
    &&& socket_contents(after) == socket_contents(before).insert(handle, socket)
    &&& set_grows(after) == set_grows(before)
}

/// A set after nothing changed.
pub open spec fn unchanged(before: SocketSet<'static>, after: SocketSet<'static>) -> bool {
    socket_contents(after) == socket_contents(before) && set_grows(after) == set_grows(before)
}

/// `SocketSet::new` of smoltcp, with a vector: no sockets, and room for any number of them.
#[verifier::external_body]
fn new_set() -> (set: SocketSet<'static>)
    ensures
        socket_contents(set) == no_sockets(),
        set_grows(set),
{
    SocketSet::new(vec![])
}

/// Whether a number of milliseconds is a time that smoltcp can count.
pub open spec fn countable_ms(ms: Option<u64>) -> bool {
    ms matches Some(n) ==> n * 1000 <= u64::MAX
}

/// Whether a number of seconds is a time that smoltcp can count.
pub open spec fn countable_secs(secs: Option<u64>) -> bool {
    secs matches Some(n) ==> n * 1_000_000 <= u64::MAX
}

/// What `SocketSet::add` of smoltcp gives: the name of a socket that was not in the set.
pub open spec fn added(
    before: SocketSet<'static>,
    after: SocketSet<'static>,
    handle: SocketHandle,
    socket: StackSocket,
) -> bool {
    &&& !socket_contents(before).dom().contains(handle)
    &&& changed(before, after, handle, socket)
}

/// A new TCP socket.
pub open spec fn fresh_tcp(buffer_size: nat, settings: TcpSettings) -> StackSocket {
    StackSocket::Tcp(
        TcpView {
            phase: TcpPhase::Closed,
            route: None,
            ended: false,
            settings,
            tx: Seq::empty(),
            tx_capacity: buffer_size,
            rx: Seq::empty(),
            rx_capacity: buffer_size,
        },
    )
}

/// A new UDP socket.
pub open spec fn fresh_udp(local: SocketAddress, packets: nat, bytes: nat) -> StackSocket {
    StackSocket::Udp(
        PacketsView {
            local,
            tx: Seq::empty(),
            rx: Seq::empty(),
            packets,
            bytes,
            fits: Set::new(|len: nat| packets > 0 && len <= bytes),
        },
    )
}

/// `SocketSet::add` of smoltcp, for a TCP socket with buffers of this size and the settings: the
/// socket is closed and empty, and its name was not in use. What the settings do on the wire is not
/// said.
#[verifier::external_body]
fn add_tcp(set: &mut SocketSet<'static>, buffer_size: usize, settings: TcpSettings) -> (handle:
    SocketHandle)
    requires
        set_grows(*old(set)),
        buffer_size <= 1_073_741_824,
        countable_ms(settings.ack_delay),
        countable_secs(settings.keep_alive),
        countable_secs(settings.timeout),
    ensures
        added(*old(set), *final(set), handle, fresh_tcp(buffer_size as nat, settings)),
{
    let buffer = || tcp::SocketBuffer::new(vec![0u8; buffer_size]);
    let mut socket = tcp::Socket::new(buffer(), buffer());
    socket.set_nagle_enabled(settings.nagle);
    socket.set_ack_delay(settings.ack_delay.map(smoltcp::time::Duration::from_millis));
    socket.set_keep_alive(settings.keep_alive.map(smoltcp::time::Duration::from_secs));
    socket.set_congestion_control(match settings.pacing {
        TcpPacing::Unlimited => tcp::CongestionControl::None,
        TcpPacing::Cubic => tcp::CongestionControl::Cubic,
    });
    socket.set_timeout(settings.timeout.map(smoltcp::time::Duration::from_secs));
    set.add(socket)
}

/// Whether a UDP socket was added, which needs a port.
pub open spec fn adds_udp(
    before: SocketSet<'static>,
    after: SocketSet<'static>,
    local: SocketAddress,
    packets: usize,
    bytes: usize,
    res: Result<SocketHandle, String>,
) -> bool {
    match res {
        Ok(handle) => local.port != 0 && added(
            before,
            after,
            handle,
            fresh_udp(local, packets as nat, bytes as nat),
        ),
        Err(why) => local.port == 0 && why@ == "Unaddressable"@ && unchanged(before, after),
    }
}

/// `bind` of a UDP socket of smoltcp's with room for `packets` packets and `bytes` bytes in each
/// direction, which is then added to the set. Port zero is refused.
#[verifier::external_body]
fn add_udp(set: &mut SocketSet<'static>, local: SocketAddress, packets: usize, bytes: usize) -> (res:
    Result<SocketHandle, String>)
    requires
        set_grows(*old(set)),
    ensures
        adds_udp(*old(set), *final(set), local, packets, bytes, res),
{
    let buffer = || udp::PacketBuffer::new(vec![udp::PacketMetadata::EMPTY; packets], vec![0; bytes]);
    let ip = match local.ip {
        IpAddress::V4(o) => smoltcp::wire::IpAddress::Ipv4(o.into()),
        IpAddress::V6(o) => smoltcp::wire::IpAddress::Ipv6(o.into()),
    };
    let mut socket = udp::Socket::new(buffer(), buffer());
    socket.bind((ip, local.port)).map_err(|e| format!("{:?}", e))?;
    Ok(set.add(socket))
}

/// Whether an interface of smoltcp's has an IPv4 address.
pub uninterp spec fn has_ipv4(iface: Interface) -> bool;

/// Whether a connection through an interface can lead to a remote: both ports are there, the remote
/// is a host, and the interface has an address for the connection. It always has one for IPv6, where
/// the loopback address stands in.
pub open spec fn leads_to(iface: Interface, remote: SocketAddress, local_port: u16) -> bool {
    &&& remote.port != 0
    &&& local_port != 0
    &&& !is_unspecified(remote.ip)
    &&& remote.ip is V4 ==> has_ipv4(iface)
}

/// Whether a connection was started: then nothing waits in the socket. Else nothing changed.
pub open spec fn starts_connection(
    before: SocketSet<'static>,
    after: SocketSet<'static>,
    iface: Interface,
    handle: SocketHandle,
    remote: SocketAddress,
    local_port: u16,
    res: Result<(), String>,
) -> bool {
    match res {
        Ok(_) => {
            &&& !tcp_in(before, handle).is_open()
            &&& leads_to(iface, remote, local_port)
            &&& changed(
                before,
                after,
                handle,
                StackSocket::Tcp(
                    tcp_in(before, handle).connecting_to(remote, local_port),
                ),
            )
        },
        Err(why) => {
            &&& tcp_in(before, handle).is_open() || !leads_to(iface, remote, local_port)
            &&& why@ == if tcp_in(before, handle).is_open() {
                "InvalidState"@
            } else {
                "Unaddressable"@
            }
            &&& unchanged(before, after)
        },
    }
}

/// Whether an address is that of no host.
pub open spec fn is_unspecified(ip: IpAddress) -> bool {
    match ip {
        IpAddress::V4(o) => forall|i: int| 0 <= i < 4 ==> #[trigger] o@[i] == 0,
        IpAddress::V6(o) => forall|i: int| 0 <= i < 16 ==> #[trigger] o@[i] == 0,
    }
}

/// `connect` of a TCP socket of smoltcp's: a connection to a remote is started, unless the socket has
/// one, or it leads nowhere: that needs two ports, a remote that is a host, and for IPv4 an address of
/// the interface. The interface keeps its addresses.
#[verifier::external_body]
fn connect_in(set: &mut SocketSet<'static>, iface: &mut Interface, handle: SocketHandle, remote: SocketAddress, local_port: u16) -> (res: Result<
    (),
    String,
>)
    requires
        is_tcp(*old(set), handle),
    ensures
        starts_connection(*old(set), *final(set), *old(iface), handle, remote, local_port, res),
        has_ipv4(*final(iface)) == has_ipv4(*old(iface)),
{
    let ip = match remote.ip {
        IpAddress::V4(o) => smoltcp::wire::IpAddress::Ipv4(o.into()),
        IpAddress::V6(o) => smoltcp::wire::IpAddress::Ipv6(o.into()),
    };
    let socket = set.get_mut::<tcp::Socket>(handle);
    socket.connect(iface.context(), (ip, remote.port), local_port).map_err(|e| format!("{:?}", e))
}

/// What a TCP socket does with data: it takes as much as there is room for, unless its side of the
/// connection is closed.
pub open spec fn sends(
    before: SocketSet<'static>,
    after: SocketSet<'static>,
    handle: SocketHandle,
    data: Seq<u8>,
    res: Result<usize, String>,
) -> bool {
    let socket = tcp_in(before, handle);
    match res {
        Ok(n) => {
            &&& socket.may_send()
            &&& n == socket.takes(data.len() as int)
            &&& changed(
                before,
                after,
                handle,
                StackSocket::Tcp(TcpView { tx: socket.tx + data.take(n as int), ..socket }),
            )
        },
        Err(why) => !socket.may_send() && why@ == "InvalidState"@ && unchanged(before, after),
    }
}

/// `send_slice` of a TCP socket of smoltcp's: it takes as much of the data as there is room for,
/// unless its side of the connection is closed.
#[verifier::external_body]
fn send_in(set: &mut SocketSet<'static>, handle: SocketHandle, data: &[u8]) -> (res: Result<
    usize,
    String,
>)
    requires
        is_tcp(*old(set), handle),
    ensures
        sends(*old(set), *final(set), handle, data@, res),
{
    set.get_mut::<tcp::Socket>(handle).send_slice(data).map_err(|e| format!("{:?}", e))
}

/// What a TCP socket gives: as many of the bytes that it has received as are asked for, unless none
/// can come any more.
pub open spec fn gives(
    before: SocketSet<'static>,
    after: SocketSet<'static>,
    handle: SocketHandle,
    len: usize,
    res: Result<Vec<u8>, String>,
) -> bool {
    let socket = tcp_in(before, handle);
    match res {
        Ok(data) => {
            let n = if len < socket.rx.len() {
                len as int
            } else {
                socket.rx.len() as int
            };
            &&& socket.may_recv()
            &&& data@ == socket.rx.take(n)
            &&& changed(
                before,
                after,
                handle,
                StackSocket::Tcp(TcpView { rx: socket.rx.skip(n), ..socket }),
            )
        },
        Err(why) => {
            &&& !socket.may_recv()
            &&& why@ == if socket.ended {
                "Finished"@
            } else {
                "InvalidState"@
            }
            &&& unchanged(before, after)
        },
    }
}

/// `recv_slice` of a TCP socket of smoltcp's: it gives at most `len` of the bytes that it has
/// received, the oldest first, unless none can come any more: because the remote has ended its side, or for
/// another reason.
#[verifier::external_body]
fn recv_in(set: &mut SocketSet<'static>, handle: SocketHandle, len: usize) -> (res: Result<
    Vec<u8>,
    String,
>)
    requires
        is_tcp(*old(set), handle),
    ensures
        gives(*old(set), *final(set), handle, len, res),
{
    let mut data = vec![0u8; len];
    let n = set.get_mut::<tcp::Socket>(handle).recv_slice(&mut data).map_err(|e| format!("{:?}", e))?;
    data.truncate(n);
    Ok(data)
}

/// `state` of a TCP socket of smoltcp's.
#[verifier::external_body]
fn phase_in(set: &SocketSet<'static>, handle: SocketHandle) -> (phase: TcpPhase)
    requires
        is_tcp(*set, handle),
    ensures
        phase == tcp_in(*set, handle).phase,
{
    match set.get::<tcp::Socket>(handle).state() {
        tcp::State::Closed => TcpPhase::Closed,
        tcp::State::Listen => TcpPhase::Listen,
        tcp::State::SynSent => TcpPhase::SynSent,
        tcp::State::SynReceived => TcpPhase::SynReceived,
        tcp::State::Established => TcpPhase::Established,
        tcp::State::FinWait1 => TcpPhase::FinWait1,
        tcp::State::FinWait2 => TcpPhase::FinWait2,
        tcp::State::CloseWait => TcpPhase::CloseWait,
        tcp::State::Closing => TcpPhase::Closing,
        tcp::State::LastAck => TcpPhase::LastAck,
        tcp::State::TimeWait => TcpPhase::TimeWait,
    }
}

/// `is_active` of a TCP socket of smoltcp's: whether its connection exchanges packets.
#[verifier::external_body]
fn active_in(set: &SocketSet<'static>, handle: SocketHandle) -> (res: bool)
    requires
        is_tcp(*set, handle),
    ensures
        res == tcp_in(*set, handle).is_active(),
{
    set.get::<tcp::Socket>(handle).is_active()
}

/// `may_send` of a TCP socket of smoltcp's: whether its side of the connection is open.
#[verifier::external_body]
fn may_send_in(set: &SocketSet<'static>, handle: SocketHandle) -> (res: bool)
    requires
        is_tcp(*set, handle),
    ensures
        res == tcp_in(*set, handle).may_send(),
{
    set.get::<tcp::Socket>(handle).may_send()
}

/// `may_recv` of a TCP socket of smoltcp's: whether it has data, or some can still come.
#[verifier::external_body]
fn may_recv_in(set: &SocketSet<'static>, handle: SocketHandle) -> (res: bool)
    requires
        is_tcp(*set, handle),
    ensures
        res == tcp_in(*set, handle).may_recv(),
{
    set.get::<tcp::Socket>(handle).may_recv()
}

/// `close` of a TCP socket of smoltcp's: its side of the connection is closed.
#[verifier::external_body]
fn close_in(set: &mut SocketSet<'static>, handle: SocketHandle)
    requires
        is_tcp(*old(set), handle),
    ensures
        changed(
            *old(set),
            *final(set),
            handle,
            StackSocket::Tcp(tcp_in(*old(set), handle).closed()),
        ),
{
    set.get_mut::<tcp::Socket>(handle).close()
}

/// `SocketSet::remove` of smoltcp: the socket is no longer in the set.
#[verifier::external_body]
fn remove_in(set: &mut SocketSet<'static>, handle: SocketHandle)
    requires
        socket_contents(*old(set)).dom().contains(handle),
    ensures
        socket_contents(*final(set)) == socket_contents(*old(set)).remove(handle),
        set_grows(*final(set)) == set_grows(*old(set)),
{
    set.remove(handle);
}

/// What a UDP socket does with a packet: it takes it, or refuses it for want of room, or because it
/// goes nowhere.
pub open spec fn sends_packet(
    before: SocketSet<'static>,
    after: SocketSet<'static>,
    handle: SocketHandle,
    remote: SocketAddress,
    data: Seq<u8>,
    res: Result<(), String>,
) -> bool {
    let socket = udp_in(before, handle);
    match res {
        Ok(_) => {
            &&& socket.takes_packet(remote, data)
            &&& socket.tx.len() < socket.packets
            &&& data.len() <= socket.bytes
            &&& changed(
                before,
                after,
                handle,
                StackSocket::Udp(socket.with_packet(remote, data, udp_in(after, handle))),
            )
        },
        Err(why) => if socket.reaches(remote) {
            &&& !socket.fits.contains(data.len())
            &&& why@ == "BufferFull"@
            &&& changed(
                before,
                after,
                handle,
                StackSocket::Udp(socket.after_refusal(udp_in(after, handle))),
            )
        } else {
            why@ == "Unaddressable"@ && unchanged(before, after)
        },
    }
}

/// `send_slice` of a UDP socket of smoltcp's: it takes the packet, or refuses it for want of room,
/// or because it goes nowhere. How long a packet can be once one was taken or refused is not said: it
/// rests on whether the free bytes lie side by side, and on the padding that smoltcp puts between
/// packets, which it leaves behind where the packet itself then finds no place.
#[verifier::external_body]
fn send_packet_in(set: &mut SocketSet<'static>, handle: SocketHandle, remote: SocketAddress, data: &[u8]) -> (res: Result<
    (),
    String,
>)
    requires
        is_udp(*old(set), handle),
    ensures
        sends_packet(*old(set), *final(set), handle, remote, data@, res),
{
    let ip = match remote.ip {
        IpAddress::V4(o) => smoltcp::wire::IpAddress::Ipv4(o.into()),
        IpAddress::V6(o) => smoltcp::wire::IpAddress::Ipv6(o.into()),
    };
    let socket = set.get_mut::<udp::Socket>(handle);
    socket.send_slice(data, (ip, remote.port)).map_err(|e| format!("{:?}", e))
}

/// What a UDP socket gives: the oldest packet that it has received. A packet of more than `len`
/// bytes is lost.
pub open spec fn gives_packet(
    before: SocketSet<'static>,
    after: SocketSet<'static>,
    handle: SocketHandle,
    len: usize,
    res: Result<(SocketAddress, Vec<u8>), String>,
) -> bool {
    let socket = udp_in(before, handle);
    let rest = StackSocket::Udp(PacketsView { rx: socket.rx.skip(1), ..socket });
    match res {
        Ok((remote, data)) => {
            &&& socket.rx.len() > 0
            &&& socket.rx[0] == (remote, data@)
            &&& data@.len() <= len
            &&& changed(before, after, handle, rest)
        },
        Err(why) => {
            ||| socket.rx.len() == 0 && why@ == "Exhausted"@ && unchanged(before, after)
            ||| socket.rx.len() > 0 && socket.rx[0].1.len() > len && why@ == "Truncated"@ && changed(
                before,
                after,
                handle,
                rest,
            )
        },
    }
}

/// `recv_slice` of a UDP socket of smoltcp's: it gives the oldest packet that it has received. A
/// packet of more than `len` bytes is lost.
#[verifier::external_body]
fn recv_packet_in(set: &mut SocketSet<'static>, handle: SocketHandle, len: usize) -> (res: Result<
    (SocketAddress, Vec<u8>),
    String,
>)
    requires
        is_udp(*old(set), handle),
    ensures
        gives_packet(*old(set), *final(set), handle, len, res),
{
    let mut data = vec![0u8; len];
    let socket = set.get_mut::<udp::Socket>(handle);
    let (n, meta) = socket.recv_slice(&mut data).map_err(|e| format!("{:?}", e))?;
    data.truncate(n);
    let ip = match meta.endpoint.addr {
        smoltcp::wire::IpAddress::Ipv4(ip) => IpAddress::V4(ip.octets()),
        smoltcp::wire::IpAddress::Ipv6(ip) => IpAddress::V6(ip.octets()),
    };
    Ok((SocketAddress { ip, port: meta.endpoint.port }, data))
}

/// `can_recv` of a UDP socket of smoltcp's: it is said of a socket that has a packet, and may be
/// said of one that has none.
#[verifier::external_body]
fn can_recv_in(set: &SocketSet<'static>, handle: SocketHandle) -> (res: bool)
    requires
        is_udp(*set, handle),
    ensures
        udp_in(*set, handle).rx.len() > 0 ==> res,
{
    set.get::<udp::Socket>(handle).can_recv()
}

/// The sockets of the stack, each with a number, and of which it is known whether it is one of TCP.
/// The number of a socket that was removed can be
/// used again.
pub struct NetSockets {
    set: SocketSet<'static>,
    handles: Vec<Option<SocketHandle>>,
    tcp: Vec<bool>,
}

impl View for NetSockets {
    type V = Map<u64, StackSocket>;

    closed spec fn view(&self) -> Map<u64, StackSocket> {
        Map::new(
            |id: u64| id < self.handles@.len() && self.handles@[id as int] is Some,
            |id: u64| socket_contents(self.set)[self.handles@[id as int].unwrap()],
        )
    }
}

/// Whether the sockets of a set are still of the same kinds in a later state of it.
pub open spec fn same_kinds(before: SocketSet<'static>, after: SocketSet<'static>) -> bool {
    forall|handle: SocketHandle| #[trigger]
        socket_contents(before).dom().contains(handle) ==> (socket_contents(after)[handle] is Tcp)
            == (socket_contents(before)[handle] is Tcp)
}

/// What is said of a socket that is not there.
pub open spec fn no_such_socket(e: StackError) -> bool {
    e@ == StackFault::SocketError("invalid socket handle"@)
}

/// Whether the settings of the stack can be those of a socket.
pub open spec fn settable(tunables: StackTunables) -> bool {
    &&& countable_ms(tunables.tcp_ack_delay)
    &&& countable_secs(tunables.tcp_keepalive)
    &&& countable_secs(tunables.tcp_timeout)
}

/// A new TCP socket with the settings of the stack.
pub open spec fn new_tcp(buffer_size: nat, tunables: StackTunables) -> StackSocket {
    fresh_tcp(
        buffer_size,
        TcpSettings {
            pacing: TcpPacing::Cubic,
            nagle: false,
            ack_delay: tunables.tcp_ack_delay,
            keep_alive: tunables.tcp_keepalive,
            timeout: tunables.tcp_timeout,
        },
    )
}

/// A new UDP socket with the settings of the stack.
pub open spec fn new_udp(local: SocketAddress, tunables: StackTunables) -> StackSocket {
    fresh_udp(
        local,
        tunables.udp_socket_metadata_capacity as nat,
        tunables.udp_socket_buffer_size as nat,
    )
}

impl NetSockets {
    /// Whether each number stands for a socket of its own.
    pub closed spec fn wf(&self) -> bool {
        &&& set_grows(self.set)
        &&& self.handles@.len() <= u64::MAX
        &&& forall|i: int|
            0 <= i < self.handles@.len() && (#[trigger] self.handles@[i]) is Some
                ==> socket_contents(self.set).dom().contains(self.handles@[i].unwrap())
        &&& self.tcp@.len() == self.handles@.len()
        &&& forall|i: int|
            0 <= i < self.handles@.len() && (#[trigger] self.handles@[i]) is Some ==> self.tcp@[i]
                == (socket_contents(self.set)[self.handles@[i].unwrap()] is Tcp)
        &&& forall|i: int, j: int|
            0 <= i < j < self.handles@.len() && (#[trigger] self.handles@[i]) is Some && (
            #[trigger] self.handles@[j]) is Some ==> self.handles@[i] != self.handles@[j]
    }

    proof fn view_changed(&self, before: NetSockets, id: u64, socket: StackSocket)
        requires
            before.wf(),
            before@.dom().contains(id),
            self.handles == before.handles,
            self.tcp == before.tcp,
            (socket is Tcp) == (before@[id] is Tcp),
            changed(before.set, self.set, before.handles@[id as int].unwrap(), socket),
        ensures
            self.wf(),
            self@ == before@.insert(id, socket),
    {
        let handle = before.handles@[id as int].unwrap();
        assert forall|other: u64| #[trigger]
            self@.dom().contains(other) implies self@[other] == before@.insert(
            id,
            socket,
        )[other] by {
            if other < id {
                assert(before.handles@[other as int] != before.handles@[id as int]);
            } else if id < other {
                assert(before.handles@[id as int] != before.handles@[other as int]);
            }
        }
        assert(self@ =~= before@.insert(id, socket));
    }

    proof fn view_unchanged(&self, before: NetSockets)
        requires
            before.wf(),
            self.handles == before.handles,
            self.tcp == before.tcp,
            unchanged(before.set, self.set),
        ensures
            self.wf(),
            self@ == before@,
    {
        assert(self@ =~= before@);
    }

    /// No sockets.
    pub fn new() -> (net: NetSockets)
        ensures
            net.wf(),
            net@ == Map::<u64, StackSocket>::empty(),
    {
        let net = NetSockets { set: new_set(), handles: Vec::new(), tcp: Vec::new() };
        assert(net@ =~= Map::<u64, StackSocket>::empty());
        net
    }

    /// The set that holds the sockets.
    pub closed spec fn socket_set(&self) -> SocketSet<'static> {
        self.set
    }

    /// The handle that a number stands for.
    pub closed spec fn handle_at(&self, id: u64) -> SocketHandle {
        self.handles@[id as int].unwrap()
    }

    /// The set that holds the sockets, for the stack to look at them and to send and receive on the
    /// wire. The numbers keep their sockets as long as no socket leaves the set.
    pub fn sockets_mut(&mut self) -> (set: &mut SocketSet<'static>)
        requires
            old(self).wf(),
        ensures
            *set == old(self).socket_set(),
            final(self).socket_set() == *final(set),
            final(self)@.dom() == old(self)@.dom(),
            forall|id: u64| #[trigger]
                old(self)@.dom().contains(id) ==> final(self)@[id] == socket_contents(
                    *final(set),
                )[old(self).handle_at(id)],
            set_grows(*final(set)) && socket_contents(*set).dom().subset_of(
                socket_contents(*final(set)).dom(),
            ) && same_kinds(*set, *final(set)) ==> final(self).wf(),
    {
        assert(forall|id: u64| #[trigger]
            self@.dom().contains(id) ==> self.handle_at(id) == self.handles@[id as int].unwrap());
        &mut self.set
    }

    fn handle_of(&self, id: u64) -> (handle: Option<SocketHandle>)
        requires
            self.wf(),
        ensures
            match handle {
                Some(handle) => self@.dom().contains(id) && id <= usize::MAX
                    && self.handles@[id as int] == Some(handle) && socket_contents(self.set).dom().contains(handle) && self@[id]
                    == socket_contents(self.set)[handle],
                None => !self@.dom().contains(id),
            },
    {
        if id < self.handles.len() as u64 {
            self.handles[id as usize]
        } else {
            None
        }
    }

    /// Whether there is a socket with a number.
    pub fn has(&self, id: u64) -> (res: bool)
        requires
            self.wf(),
        ensures
            res == self@.dom().contains(id),
    {
        self.handle_of(id).is_some()
    }

    /// Whether there is a TCP socket with a number.
    pub fn is_tcp(&self, id: u64) -> (res: bool)
        requires
            self.wf(),
        ensures
            res == (self@.dom().contains(id) && self@[id] is Tcp),
    {
        match self.handle_of(id) {
            Some(_) => self.tcp[id as usize],
            None => false,
        }
    }

    fn place(
        &mut self,
        handle: SocketHandle,
        tcp: bool,
        before: Ghost<NetSockets>,
        socket: Ghost<StackSocket>,
    ) -> (id: u64)
        requires
            before@.wf(),
            old(self).handles == before@.handles,
            old(self).tcp == before@.tcp,
            tcp == (socket@ is Tcp),
            added(before@.set, old(self).set, handle, socket@),
        ensures
            final(self).wf(),
            !before@@.dom().contains(id),
            final(self)@ == before@@.insert(id, socket@),
    {
        let ghost start = before@;
        assert forall|i: int|
            0 <= i < start.handles@.len() && (#[trigger] start.handles@[i]) is Some implies start.handles@[i].unwrap()
            != handle by {
            assert(socket_contents(start.set).dom().contains(start.handles@[i].unwrap()));
        }
        let mut at: usize = 0;
        while at < self.handles.len() && self.handles[at].is_some()
            invariant
                at <= self.handles@.len(),
                self.handles == start.handles,
                self.tcp == start.tcp,
                self.set == old(self).set,
            decreases self.handles@.len() - at,
        {
            at += 1;
        }
        if at < self.handles.len() {
            self.handles.set(at, Some(handle));
            self.tcp.set(at, tcp);
        } else {
            self.handles.push(Some(handle));
            self.tcp.push(tcp);
        }
        let id: u64 = at as u64;
        let count: usize = self.handles.len();
        proof {
            assert(count <= u64::MAX);
            assert(self.handles@[at as int] == Some(handle));
            assert forall|i: int|
                0 <= i < self.handles@.len() && i != at implies #[trigger] self.handles@[i]
                == start.handles@[i] && self.tcp@[i] == start.tcp@[i] by {}
            assert(self.wf());
            assert forall|other: u64| #[trigger]
                self@.dom().contains(other) implies self@[other] == start@.insert(
                id,
                socket@,
            )[other] by {
                if other != id {
                    assert(self.handles@[other as int] == start.handles@[other as int]);
                }
            }
            assert(self@ =~= start@.insert(id, socket@));
        }
        id
    }

    /// A new TCP socket, whose buffers have this size.
    pub fn create_tcp_socket_with_buffer(&mut self, buffer_size: usize, tunables: &StackTunables) -> (id:
        u64)
        requires
            old(self).wf(),
            buffer_size <= 1_073_741_824,
            settable(*tunables),
        ensures
            final(self).wf(),
            !old(self)@.dom().contains(id),
            final(self)@ == old(self)@.insert(id, new_tcp(buffer_size as nat, *tunables)),
    {
        let settings = TcpSettings {
            pacing: TcpPacing::Cubic,
            nagle: false,
            ack_delay: tunables.tcp_ack_delay,
            keep_alive: tunables.tcp_keepalive,
            timeout: tunables.tcp_timeout,
        };
        let handle: SocketHandle = add_tcp(&mut self.set, buffer_size, settings);
        self.place(handle, true, Ghost(*old(self)), Ghost(new_tcp(buffer_size as nat, *tunables)))
    }

    /// A new UDP socket at a local address, which needs a port.
    pub fn bind_udp_socket(&mut self, local: SocketAddress, tunables: &StackTunables) -> (res: Result<
        u64,
        StackError,
    >)
        requires
            old(self).wf(),
        ensures
            final(self).wf(),
            match res {
                Ok(id) => local.port != 0 && !old(self)@.dom().contains(id) && final(self)@ == old(
                    self
                )@.insert(id, new_udp(local, *tunables)),
                Err(e) => local.port == 0 && e@ == StackFault::SocketError("Unaddressable"@)
                    && final(self)@ == old(self)@,
            },
    {
        match add_udp(
            &mut self.set,
            local,
            tunables.udp_socket_metadata_capacity,
            tunables.udp_socket_buffer_size,
        ) {
            Ok(handle) => Ok(
                self.place(handle, false, Ghost(*old(self)), Ghost(new_udp(local, *tunables))),
            ),
            Err(why) => {
                proof {
                    self.view_unchanged(*old(self));
                }
                Err(StackError::SocketError(why))
            },
        }
    }

    /// Starts a connection to a remote.
    pub fn connect_tcp(&mut self, iface: &mut Interface, id: u64, remote: SocketAddress, local_port: u16) -> (res:
        Result<(), StackError>)
        requires
            old(self).wf(),
            old(self)@.dom().contains(id) ==> old(self)@[id] is Tcp,
        ensures
            final(self).wf(),
            match res {
                Ok(_) => {
                    &&& old(self)@.dom().contains(id)
                    &&& !(old(self)@[id]->Tcp_0).is_open()
                    &&& leads_to(*old(iface), remote, local_port)
                    &&& final(self)@ == old(self)@.insert(
                        id,
                        StackSocket::Tcp((old(self)@[id]->Tcp_0).connecting_to(remote, local_port)),
                    )
                },
                Err(e) => {
                    &&& final(self)@ == old(self)@
                    &&& if old(self)@.dom().contains(id) {
                        e@ == if (old(self)@[id]->Tcp_0).is_open() {
                            StackFault::SocketError("InvalidState"@)
                        } else {
                            StackFault::SocketError("Unaddressable"@)
                        }
                    } else {
                        no_such_socket(e)
                    }
                },
            },
            res is Ok <==> old(self)@.dom().contains(id) && !(old(self)@[id]->Tcp_0).is_open()
                && leads_to(*old(iface), remote, local_port),
            has_ipv4(*final(iface)) == has_ipv4(*old(iface)),
    {
        let handle: SocketHandle = match self.handle_of(id) {
            Some(handle) => handle,
            None => {
                return Err(StackError::SocketError(String::from_str("invalid socket handle")));
            },
        };
        match connect_in(&mut self.set, iface, handle, remote, local_port) {
            Ok(_) => {
                proof {
                    self.view_changed(
                        *old(self),
                        id,
                        StackSocket::Tcp((old(self)@[id]->Tcp_0).connecting_to(remote, local_port)),
                    );
                }
                Ok(())
            },
            Err(why) => {
                proof {
                    self.view_unchanged(*old(self));
                }
                Err(StackError::SocketError(why))
            },
        }
    }

    /// Gives data to a TCP socket. It takes as much as there is room for.
    pub fn tcp_send(&mut self, id: u64, data: &[u8]) -> (res: Result<usize, StackError>)
        requires
            old(self).wf(),
            old(self)@.dom().contains(id) ==> old(self)@[id] is Tcp,
        ensures
            final(self).wf(),
            if old(self)@.dom().contains(id) {
                let socket = old(self)@[id]->Tcp_0;
                match res {
                    Ok(n) => {
                        &&& socket.may_send()
                        &&& n == socket.takes(data@.len() as int)
                        &&& final(self)@ == old(self)@.insert(
                            id,
                            StackSocket::Tcp(
                                TcpView { tx: socket.tx + data@.take(n as int), ..socket },
                            ),
                        )
                    },
                    Err(e) => !socket.may_send() && e@ == StackFault::SocketError("InvalidState"@)
                        && final(self)@ == old(self)@,
                }
            } else {
                res matches Err(e) && no_such_socket(e) && final(self)@ == old(self)@
            },
    {
        let handle: SocketHandle = match self.handle_of(id) {
            Some(handle) => handle,
            None => {
                return Err(StackError::SocketError(String::from_str("invalid socket handle")));
            },
        };
        match send_in(&mut self.set, handle, data) {
            Ok(n) => {
                proof {
                    let socket = old(self)@[id]->Tcp_0;
                    self.view_changed(
                        *old(self),
                        id,
                        StackSocket::Tcp(TcpView { tx: socket.tx + data@.take(n as int), ..socket }),
                    );
                }
                Ok(n)
            },
            Err(why) => {
                proof {
                    self.view_unchanged(*old(self));
                }
                Err(StackError::SocketError(why))
            },
        }
    }

    /// Reads at most `len` bytes from a TCP socket.
    pub fn tcp_recv(&mut self, id: u64, len: usize) -> (res: Result<Vec<u8>, StackError>)
        requires
            old(self).wf(),
            old(self)@.dom().contains(id) ==> old(self)@[id] is Tcp,
        ensures
            final(self).wf(),
            if old(self)@.dom().contains(id) {
                let socket = old(self)@[id]->Tcp_0;
                match res {
                    Ok(data) => {
                        let n = if len < socket.rx.len() {
                            len as int
                        } else {
                            socket.rx.len() as int
                        };
                        &&& socket.may_recv()
                        &&& data@ == socket.rx.take(n)
                        &&& final(self)@ == old(self)@.insert(
                            id,
                            StackSocket::Tcp(TcpView { rx: socket.rx.skip(n), ..socket }),
                        )
                    },
                    Err(e) => {
                        &&& !socket.may_recv()
                        &&& e@ == StackFault::SocketError(
                            if socket.ended {
                                "Finished"@
                            } else {
                                "InvalidState"@
                            },
                        )
                        &&& final(self)@ == old(self)@
                    },
                }
            } else {
                res matches Err(e) && no_such_socket(e) && final(self)@ == old(self)@
            },
    {
        let handle: SocketHandle = match self.handle_of(id) {
            Some(handle) => handle,
            None => {
                return Err(StackError::SocketError(String::from_str("invalid socket handle")));
            },
        };
        match recv_in(&mut self.set, handle, len) {
            Ok(data) => {
                proof {
                    let socket = old(self)@[id]->Tcp_0;
                    let n = if len < socket.rx.len() {
                        len as int
                    } else {
                        socket.rx.len() as int
                    };
                    self.view_changed(
                        *old(self),
                        id,
                        StackSocket::Tcp(TcpView { rx: socket.rx.skip(n), ..socket }),
                    );
                }
                Ok(data)
            },
            Err(why) => {
                proof {
                    self.view_unchanged(*old(self));
                }
                Err(StackError::SocketError(why))
            },
        }
    }

    /// Whether the connection of a TCP socket exchanges packets.
    pub fn tcp_is_active(&self, id: u64) -> (res: bool)
        requires
            self.wf(),
            self@.dom().contains(id) ==> self@[id] is Tcp,
        ensures
            res == (self@.dom().contains(id) && (self@[id]->Tcp_0).is_active()),
    {
        match self.handle_of(id) {
            Some(handle) => active_in(&self.set, handle),
            None => false,
        }
    }

    /// Whether a TCP socket takes data.
    pub fn tcp_may_send(&self, id: u64) -> (res: bool)
        requires
            self.wf(),
            self@.dom().contains(id) ==> self@[id] is Tcp,
        ensures
            res == (self@.dom().contains(id) && (self@[id]->Tcp_0).may_send()),
    {
        match self.handle_of(id) {
            Some(handle) => may_send_in(&self.set, handle),
            None => false,
        }
    }

    /// Whether a TCP socket has data, or some can still come.
    pub fn tcp_may_recv(&self, id: u64) -> (res: bool)
        requires
            self.wf(),
            self@.dom().contains(id) ==> self@[id] is Tcp,
        ensures
            res == (self@.dom().contains(id) && (self@[id]->Tcp_0).may_recv()),
    {
        match self.handle_of(id) {
            Some(handle) => may_recv_in(&self.set, handle),
            None => false,
        }
    }

    /// Whether the connection of a TCP socket is no longer being made.
    pub fn tcp_is_past_handshake(&self, id: u64) -> (res: bool)
        requires
            self.wf(),
            self@.dom().contains(id) ==> self@[id] is Tcp,
        ensures
            res == (self@.dom().contains(id) && (self@[id]->Tcp_0).is_past_handshake()),
    {
        match self.handle_of(id) {
            Some(handle) => match phase_in(&self.set, handle) {
                TcpPhase::Listen => false,
                TcpPhase::SynSent => false,
                TcpPhase::SynReceived => false,
                _ => true,
            },
            None => false,
        }
    }

    /// Closes the client's side of a connection.
    pub fn tcp_close(&mut self, id: u64)
        requires
            old(self).wf(),
            old(self)@.dom().contains(id) ==> old(self)@[id] is Tcp,
        ensures
            final(self).wf(),
            final(self)@ == if old(self)@.dom().contains(id) {
                old(self)@.insert(id, StackSocket::Tcp((old(self)@[id]->Tcp_0).closed()))
            } else {
                old(self)@
            },
    {
        if let Some(handle) = self.handle_of(id) {
            close_in(&mut self.set, handle);
            proof {
                self.view_changed(
                    *old(self),
                    id,
                    StackSocket::Tcp((old(self)@[id]->Tcp_0).closed()),
                );
            }
        }
    }

    /// Removes a socket.
    pub fn remove_socket(&mut self, id: u64)
        requires
            old(self).wf(),
        ensures
            final(self).wf(),
            final(self)@ == old(self)@.remove(id),
    {
        match self.handle_of(id) {
            Some(handle) => {
                remove_in(&mut self.set, handle);
                self.handles.set(id as usize, None);
                proof {
                    let start = *old(self);
                    assert forall|i: int|
                        0 <= i < self.handles@.len() && (#[trigger] self.handles@[i])
                            is Some implies self.handles@[i] == start.handles@[i]
                        && self.handles@[i].unwrap() != handle by {
                        assert(i != id);
                        if i < id {
                            assert(start.handles@[i] != start.handles@[id as int]);
                        } else {
                            assert(start.handles@[id as int] != start.handles@[i]);
                        }
                    }
                    assert(self.wf());
                    assert forall|other: u64| #[trigger]
                        self@.dom().contains(other) implies self@[other] == start@[other] by {
                        assert(self.handles@[other as int] == start.handles@[other as int]);
                    }
                    assert(self@ =~= start@.remove(id));
                }
            },
            None => {
                assert(self@ =~= old(self)@.remove(id));
            },
        }
    }

    /// Gives a packet to a UDP socket. It takes any packet that fits and leads somewhere.
    pub fn udp_send(&mut self, id: u64, remote: SocketAddress, data: &[u8]) -> (res: Result<
        (),
        StackError,
    >)
        requires
            old(self).wf(),
            old(self)@.dom().contains(id) ==> old(self)@[id] is Udp,
        ensures
            final(self).wf(),
            if old(self)@.dom().contains(id) {
                let socket = old(self)@[id]->Udp_0;
                let later = final(self)@[id]->Udp_0;
                if socket.takes_packet(remote, data@) {
                    &&& res is Ok
                    &&& socket.tx.len() < socket.packets
                    &&& data@.len() <= socket.bytes
                    &&& final(self)@ == old(self)@.insert(
                        id,
                        StackSocket::Udp(socket.with_packet(remote, data@, later)),
                    )
                } else if socket.reaches(remote) {
                    &&& res matches Err(e) && e@ == StackFault::SocketError("BufferFull"@)
                    &&& final(self)@ == old(self)@.insert(
                        id,
                        StackSocket::Udp(socket.after_refusal(later)),
                    )
                } else {
                    &&& res matches Err(e) && e@ == StackFault::SocketError("Unaddressable"@)
                    &&& final(self)@ == old(self)@
                }
            } else {
                res matches Err(e) && no_such_socket(e) && final(self)@ == old(self)@
            },
    {
        let handle: SocketHandle = match self.handle_of(id) {
            Some(handle) => handle,
            None => {
                return Err(StackError::SocketError(String::from_str("invalid socket handle")));
            },
        };
        match send_packet_in(&mut self.set, handle, remote, data) {
            Ok(_) => {
                proof {
                    let socket = old(self)@[id]->Udp_0;
                    let later = udp_in(self.set, handle);
                    self.view_changed(
                        *old(self),
                        id,
                        StackSocket::Udp(socket.with_packet(remote, data@, later)),
                    );
                }
                Ok(())
            },
            Err(why) => {
                proof {
                    let socket = old(self)@[id]->Udp_0;
                    if socket.reaches(remote) {
                        let later = udp_in(self.set, handle);
                        self.view_changed(
                            *old(self),
                            id,
                            StackSocket::Udp(socket.after_refusal(later)),
                        );
                    } else {
                        self.view_unchanged(*old(self));
                    }
                }
                Err(StackError::SocketError(why))
            },
        }
    }

    /// Reads the oldest packet from a UDP socket. A packet of more than `len` bytes is lost.
    pub fn udp_recv(&mut self, id: u64, len: usize) -> (res: Result<
        (SocketAddress, Vec<u8>),
        StackError,
    >)
        requires
            old(self).wf(),
            old(self)@.dom().contains(id) ==> old(self)@[id] is Udp,
        ensures
            final(self).wf(),
            if old(self)@.dom().contains(id) {
                let socket = old(self)@[id]->Udp_0;
                let rest = old(self)@.insert(
                    id,
                    StackSocket::Udp(PacketsView { rx: socket.rx.skip(1), ..socket }),
                );
                match res {
                    Ok((remote, data)) => {
                        &&& socket.rx.len() > 0
                        &&& socket.rx[0] == (remote, data@)
                        &&& data@.len() <= len
                        &&& final(self)@ == rest
                    },
                    Err(e) => {
                        ||| socket.rx.len() == 0 && e@ == StackFault::SocketError("Exhausted"@)
                            && final(self)@ == old(self)@
                        ||| socket.rx.len() > 0 && socket.rx[0].1.len() > len && e@
                            == StackFault::SocketError("Truncated"@) && final(self)@ == rest
                    },
                }
            } else {
                res matches Err(e) && no_such_socket(e) && final(self)@ == old(self)@
            },
    {
        let handle: SocketHandle = match self.handle_of(id) {
            Some(handle) => handle,
            None => {
                return Err(StackError::SocketError(String::from_str("invalid socket handle")));
            },
        };
        let ghost socket = self@[id]->Udp_0;
        let ghost rest = StackSocket::Udp(PacketsView { rx: socket.rx.skip(1), ..socket });
        match recv_packet_in(&mut self.set, handle, len) {
            Ok((remote, data)) => {
                proof {
                    self.view_changed(*old(self), id, rest);
                }
                Ok((remote, data))
            },
            Err(why) => {
                proof {
                    if socket.rx.len() == 0 {
                        self.view_unchanged(*old(self));
                    } else {
                        self.view_changed(*old(self), id, rest);
                    }
                }
                Err(StackError::SocketError(why))
            },
        }
    }

    /// Whether a UDP socket may have a packet: it is said of every one that has.
    pub fn udp_can_recv(&self, id: u64) -> (res: bool)
        requires
            self.wf(),
            self@.dom().contains(id) ==> self@[id] is Udp,
        ensures
            res ==> self@.dom().contains(id),
            self@.dom().contains(id) && (self@[id]->Udp_0).rx.len() > 0 ==> res,
    {
        match self.handle_of(id) {
            Some(handle) => can_recv_in(&self.set, handle),
            None => false,
        }
    }
}

/// A new TCP socket has buffers of this size, sends small packets at once, finds its pace by CUBIC,
/// and has the times of the settings. A new UDP socket is bound to its address and has the room of
/// the settings.
pub proof fn what_new_sockets_are_like(
    buffer_size: nat,
    local: SocketAddress,
    tunables: StackTunables,
)
    ensures
        ({
            let tcp = new_tcp(buffer_size, tunables);
            &&& tcp is Tcp
            &&& (tcp->Tcp_0).phase == TcpPhase::Closed
            &&& (tcp->Tcp_0).tx_capacity == buffer_size
            &&& (tcp->Tcp_0).rx_capacity == buffer_size
            &&& (tcp->Tcp_0).tx.len() == 0
            &&& (tcp->Tcp_0).rx.len() == 0
            &&& (tcp->Tcp_0).settings.pacing == TcpPacing::Cubic
            &&& !(tcp->Tcp_0).settings.nagle
            &&& (tcp->Tcp_0).settings.ack_delay == tunables.tcp_ack_delay
            &&& (tcp->Tcp_0).settings.keep_alive == tunables.tcp_keepalive
            &&& (tcp->Tcp_0).settings.timeout == tunables.tcp_timeout
        }),
        ({
            let udp = new_udp(local, tunables);
            &&& udp is Udp
            &&& (udp->Udp_0).local == local
            &&& (udp->Udp_0).packets == tunables.udp_socket_metadata_capacity
            &&& (udp->Udp_0).bytes == tunables.udp_socket_buffer_size
            &&& (udp->Udp_0).tx.len() == 0
            &&& (udp->Udp_0).rx.len() == 0
            &&& forall|len: nat| #[trigger] (udp->Udp_0).fits.contains(len) <==>
                tunables.udp_socket_metadata_capacity > 0 && len <= tunables.udp_socket_buffer_size
        }),
{
}

/// A socket that is not there is told of in the same words everywhere.
pub proof fn how_a_missing_socket_is_told(e: StackError)
    ensures
        no_such_socket(e) <==> e@ == StackFault::SocketError("invalid socket handle"@),
{
}

} // verus!
