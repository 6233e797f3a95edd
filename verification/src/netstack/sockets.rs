//! The sockets and the interface of `smoltcp`, as far as this stack uses them.
//!
//! A socket set is modelled by the map from its handles to what each socket
//! holds, an interface by its addresses and default gateways. The functions
//! below are the only places where the two are touched.

use vstd::prelude::*;

use crate::addr::{Cidr, Endpoint, IpAddress};
#[allow(unused_imports)]
use crate::addr::{assignable_v4, assignable_v6, is_unspecified};

verus! {

/// The state of a TCP connection.
#[derive(Clone, Copy, Debug, PartialEq, Eq, Structural)]
pub enum TcpPhase {
    Closed,
    Listen,
    SynSent,
    SynReceived,
    Established,
    FinWait1,
    FinWait2,
    CloseWait,
    Closing,
    LastAck,
    TimeWait,
}

/// Why a socket could not be opened.
#[derive(Clone, Copy, Debug, PartialEq, Eq, Structural)]
pub enum OpenError {
    InvalidState,
    Unaddressable,
}

/// What a TCP socket holds.
#[verifier::ext_equal]
pub struct TcpView {
    pub phase: TcpPhase,
    /// Accepted for sending and not yet acknowledged.
    pub tx: Seq<u8>,
    pub tx_capacity: nat,
    /// Received in order and not yet read.
    pub rx: Seq<u8>,
    pub rx_capacity: nat,
    pub nagle: bool,
    pub cubic: bool,
    pub keep_alive_millis: Option<u64>,
    pub timeout_millis: Option<u64>,
    pub remote: Option<Endpoint>,
    pub local_port: Option<u16>,
}

/// What a UDP socket holds.
#[verifier::ext_equal]
pub struct UdpView {
    pub port: u16,
    /// Received datagrams, oldest first, each with its sender.
    pub rx: Seq<(Endpoint, Seq<u8>)>,
    /// Datagrams waiting to be sent, oldest first, each with its destination.
    pub tx: Seq<(Endpoint, Seq<u8>)>,
}

#[verifier::ext_equal]
pub enum SocketView {
    Tcp(TcpView),
    Udp(UdpView),
}

#[verifier::external_type_specification]
#[verifier::external_body]
pub struct ExSocketSet<'a>(smoltcp::iface::SocketSet<'a>);

#[verifier::external_type_specification]
#[verifier::external_body]
pub struct ExSocketHandle(smoltcp::iface::SocketHandle);

#[verifier::external_type_specification]
#[verifier::external_body]
pub struct ExInterface(smoltcp::iface::Interface);

/// The sockets a set holds, by handle.
pub uninterp spec fn sockets_of(set: smoltcp::iface::SocketSet<'static>) -> Map<
    smoltcp::iface::SocketHandle,
    SocketView,
>;

/// The lengths of the datagrams that the send buffer of each UDP socket of a set
/// has room for. It goes by how many datagrams wait there, how long they are and
/// where the buffer wraps.
pub uninterp spec fn udp_room(set: smoltcp::iface::SocketSet<'static>) -> Map<
    smoltcp::iface::SocketHandle,
    Set<nat>,
>;

/// Whether the handle names a TCP socket of the set.
pub open spec fn has_tcp(
    set: smoltcp::iface::SocketSet<'static>,
    h: smoltcp::iface::SocketHandle,
) -> bool {
    sockets_of(set).dom().contains(h) && sockets_of(set)[h] is Tcp
}

/// Whether the handle names a UDP socket of the set.
pub open spec fn has_udp(
    set: smoltcp::iface::SocketSet<'static>,
    h: smoltcp::iface::SocketHandle,
) -> bool {
    sockets_of(set).dom().contains(h) && sockets_of(set)[h] is Udp
}

pub open spec fn tcp_at(
    set: smoltcp::iface::SocketSet<'static>,
    h: smoltcp::iface::SocketHandle,
) -> TcpView {
    sockets_of(set)[h]->Tcp_0
}

pub open spec fn udp_at(
    set: smoltcp::iface::SocketSet<'static>,
    h: smoltcp::iface::SocketHandle,
) -> UdpView {
    sockets_of(set)[h]->Udp_0
}

/// The set with one TCP socket in another state.
pub open spec fn with_tcp(
    m: Map<smoltcp::iface::SocketHandle, SocketView>,
    h: smoltcp::iface::SocketHandle,
    v: TcpView,
) -> Map<smoltcp::iface::SocketHandle, SocketView> {
    m.insert(h, SocketView::Tcp(v))
}

/// The set with one UDP socket in another state.
pub open spec fn with_udp(
    m: Map<smoltcp::iface::SocketHandle, SocketView>,
    h: smoltcp::iface::SocketHandle,
    v: UdpView,
) -> Map<smoltcp::iface::SocketHandle, SocketView> {
    m.insert(h, SocketView::Udp(v))
}

/// A TCP socket as it is created.
pub open spec fn fresh_tcp(rx_capacity: nat, tx_capacity: nat) -> TcpView {
    TcpView {
        phase: TcpPhase::Closed,
        tx: Seq::empty(),
        tx_capacity,
        rx: Seq::empty(),
        rx_capacity,
        nagle: true,
        cubic: true,
        keep_alive_millis: None,
        timeout_millis: None,
        remote: None,
        local_port: None,
    }
}

/// Whether a socket in this state accepts bytes to send.
pub open spec fn may_send(phase: TcpPhase) -> bool {
    phase is Established || phase is CloseWait
}

/// The state after the send half has been closed.
pub open spec fn closed_phase(phase: TcpPhase) -> TcpPhase {
    match phase {
        TcpPhase::Listen | TcpPhase::SynSent => TcpPhase::Closed,
        TcpPhase::SynReceived | TcpPhase::Established => TcpPhase::FinWait1,
        TcpPhase::CloseWait => TcpPhase::LastAck,
        other => other,
    }
}

/// How many of `len` bytes a socket takes.
pub open spec fn accepted(v: TcpView, len: nat) -> nat {
    if len <= v.tx_capacity - v.tx.len() {
        len
    } else {
        (v.tx_capacity - v.tx.len()) as nat
    }
}

/// The answer of an interface with these addresses to a connect from a closed
/// socket. An IPv6 source address can always be chosen; an IPv4 one only among
/// the interface's own.
pub open spec fn connect_answer(addrs: Seq<Cidr>, remote: Endpoint, local_port: u16) -> Result<
    (),
    OpenError,
> {
    if remote.port == 0 || is_unspecified(remote.ip) || local_port == 0 || (remote.ip is V4
        && !exists|i: int| 0 <= i < addrs.len() && (#[trigger] addrs[i]) is V4) {
        Err(OpenError::Unaddressable)
    } else {
        Ok(())
    }
}

/// What an interface routes with.
#[verifier::ext_equal]
pub struct InterfaceView {
    pub addrs: Seq<Cidr>,
    pub v4_gateway: Option<u32>,
    pub v6_gateway: Option<u128>,
    /// The number of routes in the table, the default ones counted.
    pub routes: nat,
}

/// The addresses and routes an interface holds.
pub uninterp spec fn interface_of(iface: smoltcp::iface::Interface) -> InterfaceView;

/// How many addresses an interface can hold.
pub open spec fn addr_slots() -> nat {
    2
}

/// How many routes an interface can hold.
pub open spec fn route_slots() -> nat {
    2
}

/// Whether an interface may hold the address.
pub open spec fn holdable(cidr: Cidr) -> bool {
    match cidr {
        Cidr::V4(ip, prefix) => assignable_v4(ip) && prefix <= 32,
        Cidr::V6(ip, prefix) => assignable_v6(ip) && prefix <= 128,
    }
}

/// The routes once the default IPv4 one has been replaced, where the table has
/// room.
pub open spec fn with_v4_route(was: InterfaceView, gateway: u32) -> InterfaceView {
    let left = if was.v4_gateway is Some {
        was.routes - 1
    } else {
        was.routes as int
    };
    if left < route_slots() {
        InterfaceView { v4_gateway: Some(gateway), routes: (left + 1) as nat, ..was }
    } else {
        InterfaceView { v4_gateway: None, routes: left as nat, ..was }
    }
}

/// The routes once the default IPv6 one has been replaced, where the table has
/// room.
pub open spec fn with_v6_route(was: InterfaceView, gateway: u128) -> InterfaceView {
    let left = if was.v6_gateway is Some {
        was.routes - 1
    } else {
        was.routes as int
    };
    if left < route_slots() {
        InterfaceView { v6_gateway: Some(gateway), routes: (left + 1) as nat, ..was }
    } else {
        InterfaceView { v6_gateway: None, routes: left as nat, ..was }
    }
}

/// `smoltcp::iface::SocketSet::new` over an empty growable store: the set holds
/// nothing.
#[verifier::external_body]
pub(crate) fn empty_set() -> (set: smoltcp::iface::SocketSet<'static>)
    ensures
        forall|h: smoltcp::iface::SocketHandle| !sockets_of(set).dom().contains(h),
{
    smoltcp::iface::SocketSet::new(Vec::new())
}

/// `smoltcp::socket::tcp::Socket::new` and `SocketSet::add`: a closed socket
/// with empty buffers of the given sizes under a handle the set did not use. A
/// receive buffer over a gigabyte is refused by a panic.
#[verifier::external_body]
pub(crate) fn add_tcp(
    set: &mut smoltcp::iface::SocketSet<'static>,
    rx_capacity: usize,
    tx_capacity: usize,
) -> (h: smoltcp::iface::SocketHandle)
    requires
        rx_capacity <= 0x4000_0000,
    ensures
        !sockets_of(*old(set)).dom().contains(h),
        sockets_of(*final(set)) == with_tcp(
            sockets_of(*old(set)),
            h,
            fresh_tcp(rx_capacity as nat, tx_capacity as nat),
        ),
{
    set.add(smoltcp::socket::tcp::Socket::new(
        smoltcp::socket::tcp::SocketBuffer::new(vec![0u8; rx_capacity]),
        smoltcp::socket::tcp::SocketBuffer::new(vec![0u8; tx_capacity]),
    ))
}

/// `smoltcp::socket::tcp::Socket::set_nagle_enabled`.
#[verifier::external_body]
pub(crate) fn set_nagle_enabled(
    set: &mut smoltcp::iface::SocketSet<'static>,
    h: smoltcp::iface::SocketHandle,
    enabled: bool,
)
    requires
        has_tcp(*old(set), h),
    ensures
        sockets_of(*final(set)) == with_tcp(
            sockets_of(*old(set)),
            h,
            (TcpView { nagle: enabled, ..tcp_at(*old(set), h) }),
        ),
{
    set.get_mut::<smoltcp::socket::tcp::Socket>(h).set_nagle_enabled(enabled);
}

/// `smoltcp::socket::tcp::Socket::set_congestion_control` with CUBIC.
#[verifier::external_body]
pub(crate) fn set_cubic(
    set: &mut smoltcp::iface::SocketSet<'static>,
    h: smoltcp::iface::SocketHandle,
)
    requires
        has_tcp(*old(set), h),
    ensures
        sockets_of(*final(set)) == with_tcp(
            sockets_of(*old(set)),
            h,
            (TcpView { cubic: true, ..tcp_at(*old(set), h) }),
        ),
{
    set.get_mut::<smoltcp::socket::tcp::Socket>(h).set_congestion_control(
        smoltcp::socket::tcp::CongestionControl::Cubic,
    );
}

/// `smoltcp::socket::tcp::Socket::set_keep_alive`. The interval is held in
/// microseconds, so its milliseconds must leave room for that.
#[verifier::external_body]
pub(crate) fn set_keep_alive(
    set: &mut smoltcp::iface::SocketSet<'static>,
    h: smoltcp::iface::SocketHandle,
    millis: u64,
)
    requires
        has_tcp(*old(set), h),
        millis * 1000 <= u64::MAX,
    ensures
        sockets_of(*final(set)) == with_tcp(
            sockets_of(*old(set)),
            h,
            (TcpView { keep_alive_millis: Some(millis), ..tcp_at(*old(set), h) }),
        ),
{
    let interval = smoltcp::time::Duration::from_millis(millis);
    set.get_mut::<smoltcp::socket::tcp::Socket>(h).set_keep_alive(Some(interval));
}

/// `smoltcp::socket::tcp::Socket::set_timeout`. The duration is held in
/// microseconds, so its milliseconds must leave room for that.
#[verifier::external_body]
pub(crate) fn set_timeout(
    set: &mut smoltcp::iface::SocketSet<'static>,
    h: smoltcp::iface::SocketHandle,
    millis: u64,
)
    requires
        has_tcp(*old(set), h),
        millis * 1000 <= u64::MAX,
    ensures
        sockets_of(*final(set)) == with_tcp(
            sockets_of(*old(set)),
            h,
            (TcpView { timeout_millis: Some(millis), ..tcp_at(*old(set), h) }),
        ),
{
    let duration = smoltcp::time::Duration::from_millis(millis);
    set.get_mut::<smoltcp::socket::tcp::Socket>(h).set_timeout(Some(duration));
}

/// `smoltcp::socket::tcp::Socket::connect` on a closed socket. Where it
/// succeeds the buffers are empty and the first segment is owed; where it fails
/// the socket is as it was. The interface's addresses and routes stay.
#[verifier::external_body]
pub(crate) fn connect(
    iface: &mut smoltcp::iface::Interface,
    set: &mut smoltcp::iface::SocketSet<'static>,
    h: smoltcp::iface::SocketHandle,
    remote: Endpoint,
    local_port: u16,
) -> (r: Result<(), OpenError>)
    requires
        has_tcp(*old(set), h),
        tcp_at(*old(set), h).phase is Closed,
    ensures
        interface_of(*final(iface)) == interface_of(*old(iface)),
        r == connect_answer(interface_of(*old(iface)).addrs, remote, local_port),
        r is Err ==> sockets_of(*final(set)) == sockets_of(*old(set)),
        r is Ok ==> sockets_of(*final(set)) == with_tcp(
            sockets_of(*old(set)),
            h,
            (TcpView {
                phase: TcpPhase::SynSent,
                tx: Seq::empty(),
                rx: Seq::empty(),
                remote: Some(remote),
                local_port: Some(local_port),
                ..tcp_at(*old(set), h)
            }),
        ),
{
    let addr = match remote.ip {
        IpAddress::V4(ip) => smoltcp::wire::IpAddress::Ipv4(ip.into()),
        IpAddress::V6(ip) => smoltcp::wire::IpAddress::Ipv6(ip.into()),
    };
    let socket = set.get_mut::<smoltcp::socket::tcp::Socket>(h);
    match socket.connect(iface.context(), (addr, remote.port), local_port) {
        Ok(()) => Ok(()),
        Err(smoltcp::socket::tcp::ConnectError::InvalidState) => Err(OpenError::InvalidState),
        Err(smoltcp::socket::tcp::ConnectError::Unaddressable) => Err(OpenError::Unaddressable),
    }
}

/// `smoltcp::socket::tcp::Socket::state`.
#[verifier::external_body]
pub(crate) fn phase(
    set: &smoltcp::iface::SocketSet<'static>,
    h: smoltcp::iface::SocketHandle,
) -> (r: TcpPhase)
    requires
        has_tcp(*set, h),
    ensures
        r == tcp_at(*set, h).phase,
{
    match set.get::<smoltcp::socket::tcp::Socket>(h).state() {
        smoltcp::socket::tcp::State::Closed => TcpPhase::Closed,
        smoltcp::socket::tcp::State::Listen => TcpPhase::Listen,
        smoltcp::socket::tcp::State::SynSent => TcpPhase::SynSent,
        smoltcp::socket::tcp::State::SynReceived => TcpPhase::SynReceived,
        smoltcp::socket::tcp::State::Established => TcpPhase::Established,
        smoltcp::socket::tcp::State::FinWait1 => TcpPhase::FinWait1,
        smoltcp::socket::tcp::State::FinWait2 => TcpPhase::FinWait2,
        smoltcp::socket::tcp::State::CloseWait => TcpPhase::CloseWait,
        smoltcp::socket::tcp::State::Closing => TcpPhase::Closing,
        smoltcp::socket::tcp::State::LastAck => TcpPhase::LastAck,
        smoltcp::socket::tcp::State::TimeWait => TcpPhase::TimeWait,
    }
}

/// `smoltcp::socket::tcp::Socket::can_send`: the send half is open and its
/// buffer is not full.
#[verifier::external_body]
pub(crate) fn can_send(
    set: &smoltcp::iface::SocketSet<'static>,
    h: smoltcp::iface::SocketHandle,
) -> (r: bool)
    requires
        has_tcp(*set, h),
    ensures
        r == (may_send(tcp_at(*set, h).phase) && tcp_at(*set, h).tx.len() < tcp_at(
            *set,
            h,
        ).tx_capacity),
{
    set.get::<smoltcp::socket::tcp::Socket>(h).can_send()
}

/// `smoltcp::socket::tcp::Socket::send_slice`: where the send half is open, as
/// many leading bytes as fit are queued and counted; else nothing is.
#[verifier::external_body]
pub(crate) fn send_slice(
    set: &mut smoltcp::iface::SocketSet<'static>,
    h: smoltcp::iface::SocketHandle,
    data: &[u8],
) -> (r: Option<usize>)
    requires
        has_tcp(*old(set), h),
    ensures
        r is Some == may_send(tcp_at(*old(set), h).phase),
        r is None ==> sockets_of(*final(set)) == sockets_of(*old(set)),
        r is Some ==> {
            &&& r->0 == accepted(tcp_at(*old(set), h), data@.len())
            &&& sockets_of(*final(set)) == with_tcp(
                sockets_of(*old(set)),
                h,
                (TcpView {
                    tx: tcp_at(*old(set), h).tx + data@.take(r->0 as int),
                    ..tcp_at(*old(set), h)
                }),
            )
        },
{
    set.get_mut::<smoltcp::socket::tcp::Socket>(h).send_slice(data).ok()
}

/// `smoltcp::socket::tcp::Socket::send_queue`: the bytes accepted and not yet
/// acknowledged.
#[verifier::external_body]
pub(crate) fn send_queue(
    set: &smoltcp::iface::SocketSet<'static>,
    h: smoltcp::iface::SocketHandle,
) -> (r: usize)
    requires
        has_tcp(*set, h),
    ensures
        r == tcp_at(*set, h).tx.len(),
{
    set.get::<smoltcp::socket::tcp::Socket>(h).send_queue()
}

/// `smoltcp::socket::tcp::Socket::can_recv`: something has been received and
/// not read.
#[verifier::external_body]
pub(crate) fn can_recv(
    set: &smoltcp::iface::SocketSet<'static>,
    h: smoltcp::iface::SocketHandle,
) -> (r: bool)
    requires
        has_tcp(*set, h),
    ensures
        r == (tcp_at(*set, h).rx.len() > 0),
{
    set.get::<smoltcp::socket::tcp::Socket>(h).can_recv()
}

/// A copy of everything in the slice, with its length.
pub fn take_all(buf: &[u8]) -> (r: (usize, Vec<u8>))
    ensures
        r.0 == buf@.len(),
        r.1@ == buf@,
{
    let mut v: Vec<u8> = Vec::new();
    v.extend_from_slice(buf);
    (buf.len(), v)
}

/// `smoltcp::socket::tcp::Socket::recv`, reading the whole slice it offers:
/// where anything is waiting, a non-empty leading part of it is handed out and
/// leaves the socket. How long that part is depends on where the buffer wraps,
/// which is not stated.
#[verifier::external_body]
pub(crate) fn recv(
    set: &mut smoltcp::iface::SocketSet<'static>,
    h: smoltcp::iface::SocketHandle,
) -> (r: Option<Vec<u8>>)
    requires
        has_tcp(*old(set), h),
    ensures
        tcp_at(*old(set), h).rx.len() > 0 ==> r is Some && r->0@.len() > 0,
        r is None ==> sockets_of(*final(set)) == sockets_of(*old(set)),
        r is Some ==> {
            &&& r->0@.len() <= tcp_at(*old(set), h).rx.len()
            &&& r->0@ == tcp_at(*old(set), h).rx.take(r->0@.len() as int)
            &&& sockets_of(*final(set)) == with_tcp(
                sockets_of(*old(set)),
                h,
                (TcpView {
                    rx: tcp_at(*old(set), h).rx.skip(r->0@.len() as int),
                    ..tcp_at(*old(set), h)
                }),
            )
        },
{
    set.get_mut::<smoltcp::socket::tcp::Socket>(h).recv(|buf| take_all(buf)).ok()
}

/// `smoltcp::socket::tcp::Socket::close`: the send half is closed, the buffers
/// stay.
#[verifier::external_body]
pub(crate) fn close(
    set: &mut smoltcp::iface::SocketSet<'static>,
    h: smoltcp::iface::SocketHandle,
)
    requires
        has_tcp(*old(set), h),
    ensures
        sockets_of(*final(set)) == with_tcp(
            sockets_of(*old(set)),
            h,
            (TcpView {
                phase: closed_phase(tcp_at(*old(set), h).phase),
                ..tcp_at(*old(set), h)
            }),
        ),
{
    set.get_mut::<smoltcp::socket::tcp::Socket>(h).close();
}

/// `smoltcp::socket::tcp::Socket::abort`: the socket is closed at once, the
/// buffers stay.
#[verifier::external_body]
pub(crate) fn abort(
    set: &mut smoltcp::iface::SocketSet<'static>,
    h: smoltcp::iface::SocketHandle,
)
    requires
        has_tcp(*old(set), h),
    ensures
        sockets_of(*final(set)) == with_tcp(
            sockets_of(*old(set)),
            h,
            (TcpView { phase: TcpPhase::Closed, ..tcp_at(*old(set), h) }),
        ),
{
    set.get_mut::<smoltcp::socket::tcp::Socket>(h).abort();
}

/// `smoltcp::iface::SocketSet::remove`.
#[verifier::external_body]
pub(crate) fn remove(
    set: &mut smoltcp::iface::SocketSet<'static>,
    h: smoltcp::iface::SocketHandle,
)
    requires
        sockets_of(*old(set)).dom().contains(h),
    ensures
        sockets_of(*final(set)) == sockets_of(*old(set)).remove(h),
{
    set.remove(h);
}

/// `smoltcp::socket::udp::Socket::new` and `SocketSet::add`: an unbound socket
/// that holds no datagram, under a handle the set did not use. Its two buffers
/// hold up to `packets` datagrams of `bytes` bytes together each, so that one
/// datagram of up to `bytes` bytes has room wherever `packets` is not zero.
#[verifier::external_body]
pub(crate) fn add_udp(
    set: &mut smoltcp::iface::SocketSet<'static>,
    packets: usize,
    bytes: usize,
) -> (h: smoltcp::iface::SocketHandle)
    ensures
        !sockets_of(*old(set)).dom().contains(h),
        sockets_of(*final(set)) == with_udp(
            sockets_of(*old(set)),
            h,
            (UdpView { port: 0, rx: Seq::empty(), tx: Seq::empty() }),
        ),
        packets > 0 ==> forall|n: nat|
            n <= bytes ==> #[trigger] udp_room(*final(set))[h].contains(n),
{
    let meta = smoltcp::socket::udp::PacketMetadata::EMPTY;
    set.add(smoltcp::socket::udp::Socket::new(
        smoltcp::socket::udp::PacketBuffer::new(vec![meta; packets], vec![0u8; bytes]),
        smoltcp::socket::udp::PacketBuffer::new(vec![meta; packets], vec![0u8; bytes]),
    ))
}

/// `smoltcp::socket::udp::Socket::bind` to a port on every address: refused for
/// port zero, and for a socket that is bound already. The buffers stay as they
/// are.
#[verifier::external_body]
pub(crate) fn bind(
    set: &mut smoltcp::iface::SocketSet<'static>,
    h: smoltcp::iface::SocketHandle,
    port: u16,
) -> (r: Result<(), OpenError>)
    requires
        has_udp(*old(set), h),
    ensures
        r == (if port == 0 {
            Err::<(), OpenError>(OpenError::Unaddressable)
        } else if udp_at(*old(set), h).port != 0 {
            Err(OpenError::InvalidState)
        } else {
            Ok(())
        }),
        r is Err ==> sockets_of(*final(set)) == sockets_of(*old(set)),
        r is Ok ==> sockets_of(*final(set)) == with_udp(
            sockets_of(*old(set)),
            h,
            (UdpView { port, ..udp_at(*old(set), h) }),
        ),
        udp_room(*final(set)) == udp_room(*old(set)),
{
    match set.get_mut::<smoltcp::socket::udp::Socket>(h).bind(port) {
        Ok(()) => Ok(()),
        Err(smoltcp::socket::udp::BindError::InvalidState) => Err(OpenError::InvalidState),
        Err(smoltcp::socket::udp::BindError::Unaddressable) => Err(OpenError::Unaddressable),
    }
}

/// `smoltcp::socket::udp::Socket::send_slice`: the datagram is queued behind
/// the others, or refused and nothing that waits changes. It is refused if the
/// socket is unbound, if the destination has no address or port, or if the send
/// buffer has no room for a datagram of that length, and in no other case.
#[verifier::external_body]
pub(crate) fn udp_send_slice(
    set: &mut smoltcp::iface::SocketSet<'static>,
    h: smoltcp::iface::SocketHandle,
    data: &[u8],
    dst: Endpoint,
) -> (r: bool)
    requires
        has_udp(*old(set), h),
    ensures
        r == (udp_at(*old(set), h).port != 0 && dst.port != 0 && !is_unspecified(dst.ip)
            && udp_room(*old(set))[h].contains(data@.len())),
        !r ==> sockets_of(*final(set)) == sockets_of(*old(set)),
        r ==> sockets_of(*final(set)) == with_udp(
            sockets_of(*old(set)),
            h,
            (UdpView { tx: udp_at(*old(set), h).tx.push((dst, data@)), ..udp_at(*old(set), h) }),
        ),
{
    let addr = match dst.ip {
        IpAddress::V4(ip) => smoltcp::wire::IpAddress::Ipv4(ip.into()),
        IpAddress::V6(ip) => smoltcp::wire::IpAddress::Ipv6(ip.into()),
    };
    set.get_mut::<smoltcp::socket::udp::Socket>(h).send_slice(data, (addr, dst.port)).is_ok()
}

/// `smoltcp::socket::udp::Socket::can_recv`: true while a datagram is waiting.
/// It may also be true of a buffer that holds only the filler before a wrap.
#[verifier::external_body]
pub(crate) fn udp_can_recv(
    set: &smoltcp::iface::SocketSet<'static>,
    h: smoltcp::iface::SocketHandle,
) -> (r: bool)
    requires
        has_udp(*set, h),
    ensures
        udp_at(*set, h).rx.len() > 0 ==> r,
{
    set.get::<smoltcp::socket::udp::Socket>(h).can_recv()
}

/// `smoltcp::socket::udp::Socket::recv`: the oldest datagram with its sender
/// leaves the socket; without one the socket holds what it held.
#[verifier::external_body]
pub(crate) fn udp_recv(
    set: &mut smoltcp::iface::SocketSet<'static>,
    h: smoltcp::iface::SocketHandle,
) -> (r: Option<(Endpoint, Vec<u8>)>)
    requires
        has_udp(*old(set), h),
    ensures
        r is Some == (udp_at(*old(set), h).rx.len() > 0),
        r is None ==> sockets_of(*final(set)) == sockets_of(*old(set)),
        r is Some ==> {
            &&& r matches Some(got) && (got.0, got.1@) == udp_at(*old(set), h).rx[0]
            &&& sockets_of(*final(set)) == with_udp(
                sockets_of(*old(set)),
                h,
                (UdpView { rx: udp_at(*old(set), h).rx.skip(1), ..udp_at(*old(set), h) }),
            )
        },
{
    let (data, meta) = set.get_mut::<smoltcp::socket::udp::Socket>(h).recv().ok()?;
    let ip = match meta.endpoint.addr {
        smoltcp::wire::IpAddress::Ipv4(ip) => IpAddress::V4(ip.into()),
        smoltcp::wire::IpAddress::Ipv6(ip) => IpAddress::V6(ip.into()),
    };
    Some((Endpoint { ip, port: meta.endpoint.port }, data.to_vec()))
}

/// `smoltcp::iface::Interface::ip_addrs`. The interface has checked each
/// address when it was set.
#[verifier::external_body]
pub(crate) fn ip_addrs(iface: &smoltcp::iface::Interface) -> (r: Vec<Cidr>)
    ensures
        r@ == interface_of(*iface).addrs,
        forall|i: int| 0 <= i < r@.len() ==> holdable(#[trigger] r@[i]),
{
    iface.ip_addrs().iter().map(|cidr| match cidr {
        smoltcp::wire::IpCidr::Ipv4(c) => Cidr::V4(c.address().into(), c.prefix_len()),
        smoltcp::wire::IpCidr::Ipv6(c) => Cidr::V6(c.address().into(), c.prefix_len()),
    }).collect()
}

/// `smoltcp::iface::Interface::update_ip_addrs`, emptying the list.
#[verifier::external_body]
pub(crate) fn clear_addrs(iface: &mut smoltcp::iface::Interface)
    ensures
        interface_of(*final(iface)) == (InterfaceView {
            addrs: Seq::empty(),
            ..interface_of(*old(iface))
        }),
{
    iface.update_ip_addrs(|addrs| addrs.clear());
}

/// `smoltcp::iface::Interface::update_ip_addrs`, appending one address. The
/// list has two places and stays as it is when both are taken. An address that
/// no interface may own, or a prefix longer than the address, is refused by a
/// panic.
#[verifier::external_body]
pub(crate) fn push_addr(iface: &mut smoltcp::iface::Interface, cidr: Cidr)
    requires
        holdable(cidr),
    ensures
        interface_of(*final(iface)) == (InterfaceView {
            addrs: if interface_of(*old(iface)).addrs.len() < addr_slots() {
                interface_of(*old(iface)).addrs.push(cidr)
            } else {
                interface_of(*old(iface)).addrs
            },
            ..interface_of(*old(iface))
        }),
{
    let cidr = match cidr {
        Cidr::V4(ip, p) => smoltcp::wire::IpCidr::new(smoltcp::wire::IpAddress::Ipv4(ip.into()), p),
        Cidr::V6(ip, p) => smoltcp::wire::IpCidr::new(smoltcp::wire::IpAddress::Ipv6(ip.into()), p),
    };
    iface.update_ip_addrs(|addrs| {
        let _ = addrs.push(cidr);
    });
}

/// `smoltcp::iface::Routes::add_default_ipv4_route`: the old default route goes
/// and the new one is added where the table has room.
#[verifier::external_body]
pub(crate) fn add_default_ipv4_route(iface: &mut smoltcp::iface::Interface, gateway: u32)
    ensures
        interface_of(*final(iface)) == with_v4_route(interface_of(*old(iface)), gateway),
{
    let _ = iface.routes_mut().add_default_ipv4_route(gateway.into());
}

/// `smoltcp::iface::Routes::add_default_ipv6_route`: the old default route goes
/// and the new one is added where the table has room.
#[verifier::external_body]
pub(crate) fn add_default_ipv6_route(iface: &mut smoltcp::iface::Interface, gateway: u128)
    ensures
        interface_of(*final(iface)) == with_v6_route(interface_of(*old(iface)), gateway),
{
    let _ = iface.routes_mut().add_default_ipv6_route(gateway.into());
}

} // verus!
