//! The stack itself: its flows, the data handed to them and the commands that
//! open them.

use std::collections::HashMap;
use vstd::prelude::*;

use super::device::StackDevice;
use super::flow::TcpState;
#[allow(unused_imports)]
use super::flow::FlowView;
use super::sockets;
#[allow(unused_imports)]
use super::sockets::{has_tcp, has_udp, sockets_of, udp_at, udp_room, with_udp, UdpView};
use crate::addr::Endpoint;
#[allow(unused_imports)]
use crate::addr::is_unspecified;
use crate::sysprofile::Tuning;

verus! {

broadcast use vstd::std_specs::hash::group_hash_axioms;

/// How long a TCP flow may take for what, in nanoseconds.
#[derive(Debug, Clone, Copy, PartialEq, Eq, Structural)]
pub struct TcpLimits {
    /// A connect that nobody answers.
    pub connect: u64,
    /// The interval between probes of an idle flow.
    pub keepalive: u64,
    /// A peer that answers nothing.
    pub dead_peer: u64,
    /// A flow without an application whose peer does not close.
    pub orphan_linger: u64,
}

/// A UDP flow.
pub struct UdpState {
    pub handle: smoltcp::iface::SocketHandle,
}

/// What the application hands to a flow.
pub enum DataIn {
    Tcp(usize, Vec<u8>),
    TcpClose(usize),
    Udp(usize, Endpoint, Vec<u8>),
    UdpClose(usize),
}

/// The same, with the bytes as a sequence.
#[verifier::ext_equal]
pub enum DataView {
    Tcp(usize, Seq<u8>),
    TcpClose(usize),
    Udp(usize, Endpoint, Seq<u8>),
    UdpClose(usize),
}

impl View for DataIn {
    type V = DataView;

    open spec fn view(&self) -> DataView {
        match *self {
            DataIn::Tcp(id, data) => DataView::Tcp(id, data@),
            DataIn::TcpClose(id) => DataView::TcpClose(id),
            DataIn::Udp(id, dst, data) => DataView::Udp(id, dst, data@),
            DataIn::UdpClose(id) => DataView::UdpClose(id),
        }
    }
}

impl DataView {
    /// The flow it is for.
    pub open spec fn id(self) -> usize {
        match self {
            DataView::Tcp(id, _) => id,
            DataView::TcpClose(id) => id,
            DataView::Udp(id, _, _) => id,
            DataView::UdpClose(id) => id,
        }
    }

    /// How many bytes it carries.
    pub open spec fn size(self) -> nat {
        match self {
            DataView::Tcp(_, data) => data.len(),
            DataView::Udp(_, _, data) => data.len(),
            _ => 0,
        }
    }
}

pub fn data_in_id(d: &DataIn) -> (id: usize)
    ensures
        id == d@.id(),
{
    match d {
        DataIn::Tcp(id, _) => *id,
        DataIn::TcpClose(id) => *id,
        DataIn::Udp(id, _, _) => *id,
        DataIn::UdpClose(id) => *id,
    }
}

pub fn data_in_bytes(d: &DataIn) -> (n: usize)
    ensures
        n == d@.size(),
{
    match d {
        DataIn::Tcp(_, data) => data.len(),
        DataIn::Udp(_, _, data) => data.len(),
        _ => 0,
    }
}

/// The stack.
pub struct NetStack {
    pub iface: smoltcp::iface::Interface,
    pub device: StackDevice,
    pub sockets: smoltcp::iface::SocketSet<'static>,
    pub tcp_conns: HashMap<usize, TcpState>,
    pub udp_conns: HashMap<usize, UdpState>,
    pub next_id: usize,
    pub next_port: u16,
    pub tcp_limits: TcpLimits,
    pub tuning: Tuning,
}

/// How many bytes a flow may have pending.
pub open spec fn pending_limit(tuning: Tuning) -> usize {
    let twice = 2 * tuning.netstack_tcp_tx_buf;
    if twice > usize::MAX {
        usize::MAX
    } else if twice < 65536 {
        65536
    } else {
        twice as usize
    }
}

pub fn max_tcp_pending(tuning: &Tuning) -> (r: usize)
    ensures
        r == pending_limit(*tuning),
{
    let twice: usize = match tuning.netstack_tcp_tx_buf.checked_mul(2) {
        Some(n) => n,
        None => usize::MAX,
    };
    if twice < 65536 {
        65536
    } else {
        twice
    }
}

impl NetStack {
    /// Every flow has a socket of its own kind to itself, and a number that has
    /// been given out.
    pub open spec fn wf(&self) -> bool {
        &&& forall|id: usize| #[trigger]
            self.tcp_conns@.dom().contains(id) ==> id < self.next_id && has_tcp(
                self.sockets,
                self.tcp_conns@[id].handle,
            )
        &&& forall|id: usize| #[trigger]
            self.udp_conns@.dom().contains(id) ==> id < self.next_id && has_udp(
                self.sockets,
                self.udp_conns@[id].handle,
            )
        &&& forall|a: usize, b: usize|
            #![trigger self.tcp_conns@[a], self.tcp_conns@[b]]
            self.tcp_conns@.dom().contains(a) && self.tcp_conns@.dom().contains(b) && a != b
                ==> self.tcp_conns@[a].handle != self.tcp_conns@[b].handle
        &&& forall|a: usize, b: usize|
            #![trigger self.udp_conns@[a], self.udp_conns@[b]]
            self.udp_conns@.dom().contains(a) && self.udp_conns@.dom().contains(b) && a != b
                ==> self.udp_conns@[a].handle != self.udp_conns@[b].handle
        &&& self.tuning.netstack_tcp_rx_buf <= 0x4000_0000
    }

    /// The TCP flows by number.
    pub open spec fn flows(&self) -> Map<usize, FlowView> {
        self.tcp_conns@.map_values(|st: TcpState| st@)
    }

    /// What neither data nor a pass over the flows touches.
    pub open spec fn same_setup(&self, other: &NetStack) -> bool {
        &&& self.iface == other.iface
        &&& self.next_id == other.next_id
        &&& self.next_port == other.next_port
        &&& self.tcp_limits == other.tcp_limits
        &&& self.tuning == other.tuning
    }
}

/// The flow after the application handed it bytes it has room for.
pub open spec fn with_pending(f: FlowView, pending: Seq<u8>) -> FlowView {
    FlowView { pending, ..f }
}

/// What is left of a chunk offered to a flow with this much pending: `None`
/// when all of it fits, all of it when the flow is full, else what does not
/// fit.
pub open spec fn left_of_chunk(id: usize, data: Seq<u8>, pending: nat, max: nat) -> Option<
    DataView,
> {
    if pending >= max {
        Some(DataView::Tcp(id, data))
    } else if pending + data.len() <= max {
        None
    } else {
        Some(DataView::Tcp(id, data.skip(max - pending)))
    }
}

/// What a chunk offered to a flow with these bytes pending leaves pending.
pub open spec fn pending_with_chunk(data: Seq<u8>, pending: Seq<u8>, max: nat) -> Seq<u8> {
    if pending.len() >= max {
        pending
    } else if pending.len() + data.len() <= max {
        pending + data
    } else {
        pending + data.take(max - pending.len())
    }
}

/// What comes back of data offered to the TCP flows.
pub open spec fn refused(flows: Map<usize, FlowView>, d: DataView, max: nat) -> Option<DataView> {
    match d {
        DataView::Tcp(id, data) => if flows.dom().contains(id) {
            left_of_chunk(id, data, flows[id].pending.len(), max)
        } else {
            None
        },
        _ => None,
    }
}

/// The TCP flows after data was offered to them.
pub open spec fn offered(
    flows: Map<usize, FlowView>,
    d: DataView,
    max: nat,
) -> Map<usize, FlowView> {
    match d {
        DataView::Tcp(id, data) => if flows.dom().contains(id) {
            flows.insert(
                id,
                with_pending(flows[id], pending_with_chunk(data, flows[id].pending, max)),
            )
        } else {
            flows
        },
        DataView::TcpClose(id) => if flows.dom().contains(id) {
            flows.insert(id, FlowView { half_closed: true, ..flows[id] })
        } else {
            flows
        },
        _ => flows,
    }
}

/// Whether a UDP socket takes a datagram: it is bound, the destination is one,
/// and there is room.
pub open spec fn can_queue(
    set: smoltcp::iface::SocketSet<'static>,
    h: smoltcp::iface::SocketHandle,
    dst: Endpoint,
    data: Seq<u8>,
) -> bool {
    &&& udp_at(set, h).port != 0
    &&& dst.port != 0
    &&& !is_unspecified(dst.ip)
    &&& udp_room(set)[h].contains(data.len())
}

/// Whether data offered to the UDP flows took their sockets from `was` to
/// `now`: a datagram is queued behind the others where it can be sent and has
/// room, else it is dropped, and a close takes the flow and its socket away. TCP
/// data touches neither.
pub open spec fn udp_offered(was: &NetStack, now: &NetStack, d: DataView) -> bool {
    match d {
        DataView::Udp(id, dst, data) => {
            let h = was.udp_conns@[id].handle;
            let v = udp_at(was.sockets, h);
            &&& now.udp_conns@ == was.udp_conns@
            &&& sockets_of(now.sockets) == if was.udp_conns@.dom().contains(id) && can_queue(
                was.sockets,
                h,
                dst,
                data,
            ) {
                with_udp(
                    sockets_of(was.sockets),
                    h,
                    UdpView { tx: v.tx.push((dst, data)), ..v },
                )
            } else {
                sockets_of(was.sockets)
            }
        },
        DataView::UdpClose(id) => {
            &&& now.udp_conns@ == was.udp_conns@.remove(id)
            &&& sockets_of(now.sockets) == if was.udp_conns@.dom().contains(id) {
                sockets_of(was.sockets).remove(was.udp_conns@[id].handle)
            } else {
                sockets_of(was.sockets)
            }
        },
        _ => now.udp_conns@ == was.udp_conns@ && sockets_of(now.sockets) == sockets_of(
            was.sockets,
        ),
    }
}

/// The flows keep their sockets.
pub open spec fn same_handles(was: &NetStack, now: &NetStack) -> bool {
    &&& was.tcp_conns@.dom() == now.tcp_conns@.dom()
    &&& forall|id: usize|
        was.tcp_conns@.dom().contains(id) ==> (#[trigger] now.tcp_conns@[id]).handle
            == was.tcp_conns@[id].handle
}

/// A flow that was taken out, changed and put back is the only one that
/// changed.
pub(crate) proof fn one_flow_changed(was: &NetStack, now: &NetStack, id: usize)
    requires
        was.tcp_conns@.dom().contains(id),
        now.tcp_conns@ == was.tcp_conns@.remove(id).insert(id, now.tcp_conns@[id]),
    ensures
        now.tcp_conns@ == was.tcp_conns@.insert(id, now.tcp_conns@[id]),
        now.tcp_conns@.dom() == was.tcp_conns@.dom(),
        now.flows() == was.flows().insert(id, now.tcp_conns@[id]@),
{
    assert(now.tcp_conns@ =~= was.tcp_conns@.insert(id, now.tcp_conns@[id]));
    assert(now.tcp_conns@.dom() =~= was.tcp_conns@.dom());
    assert(now.flows() =~= was.flows().insert(id, now.tcp_conns@[id]@));
}

/// Places data with its flow. What the flow has no room for comes back.
pub fn try_handle_data(s: &mut NetStack, d: DataIn) -> (back: Option<DataIn>)
    requires
        old(s).wf(),
    ensures
        final(s).wf(),
        final(s).same_setup(old(s)),
        final(s).device == old(s).device,
        same_handles(old(s), final(s)),
        final(s).flows() == offered(old(s).flows(), d@, pending_limit(old(s).tuning) as nat),
        udp_offered(old(s), final(s), d@),
        match back {
            Some(b) => Some(b@),
            None => None,
        } == refused(old(s).flows(), d@, pending_limit(old(s).tuning) as nat),
{
    let ghost was = *s;
    match d {
        DataIn::Tcp(id, data) => {
            let max: usize = max_tcp_pending(&s.tuning);
            let mut back: Option<DataIn> = None;
            let ghost chunk = data@;
            if let Some(st) = s.tcp_conns.remove(&id) {
                let mut st = st;
                if st.pending.len() >= max {
                    back = Some(DataIn::Tcp(id, data));
                } else {
                    let space: usize = max - st.pending.len();
                    if data.len() <= space {
                        st.pending.extend_from_slice(data.as_slice());
                    } else {
                        let mut data = data;
                        let rest = data.split_off(space);
                        st.pending.extend_from_slice(data.as_slice());
                        back = Some(DataIn::Tcp(id, rest));
                    }
                }
                s.tcp_conns.insert(id, st);
                proof {
                    one_flow_changed(&was, s, id);
                    let f = was.flows()[id];
                    assert(s.tcp_conns@[id]@ =~= with_pending(
                        f,
                        pending_with_chunk(chunk, f.pending, max as nat),
                    ));
                }
            } else {
                assert(s.tcp_conns@ =~= was.tcp_conns@);
            }
            back
        },
        DataIn::TcpClose(id) => {
            if let Some(st) = s.tcp_conns.remove(&id) {
                let mut st = st;
                st.half_closed = true;
                s.tcp_conns.insert(id, st);
                proof {
                    one_flow_changed(&was, s, id);
                }
            } else {
                assert(s.tcp_conns@ =~= was.tcp_conns@);
            }
            None
        },
        DataIn::Udp(id, dst, data) => {
            if let Some(st) = s.udp_conns.get(&id) {
                let _ = sockets::udp_send_slice(&mut s.sockets, st.handle, data.as_slice(), dst);
            }
            None
        },
        DataIn::UdpClose(id) => {
            if let Some(st) = s.udp_conns.remove(&id) {
                sockets::remove(&mut s.sockets, st.handle);
            }
            None
        },
    }
}

} // verus!
