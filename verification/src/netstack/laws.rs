//! What holds of every flow.

use vstd::prelude::*;

#[allow(unused_imports)]
use super::cmd::udp_opened;
#[allow(unused_imports)]
use super::credit::MIN_FLOW_QUEUE_BYTES;
#[allow(unused_imports)]
use super::flow::{
    acknowledged,
    after_feed,
    clamped_budget,
    connected,
    downlinked,
    drains,
    elapsed,
    flaps,
    joined,
    judged,
    observed,
    pass_end,
    published,
    socket_after_feed,
    stalls,
    uplink_step,
    verdict,
    AppSide,
    DownlinkReport,
    FlowView,
    Measured,
    ReapReason,
    Verdict,
    STALL_FLAP_WINDOW,
    TCP_DRAIN_STALL_TIMEOUT,
};
#[allow(unused_imports)]
use super::reap::peer_is_gone;
#[allow(unused_imports)]
use super::sockets::{sockets_of, udp_at, udp_room, TcpPhase, TcpView};
#[allow(unused_imports)]
use super::stack::{offered, pending_limit, refused, udp_offered, DataView, NetStack};
#[allow(unused_imports)]
use crate::addr::{is_unspecified, Endpoint, IpAddress};
#[allow(unused_imports)]
use crate::sysprofile::Tuning;

verus! {

/// Feeding a socket neither loses, repeats nor reorders a byte: what the socket
/// holds and what is pending are the same bytes before and after.
pub proof fn feeding_keeps_the_stream(f: FlowView, v: TcpView, now: u64)
    requires
        v.tx.len() <= v.tx_capacity,
    ensures
        socket_after_feed(f, v).tx + after_feed(f, v, now).pending == v.tx + f.pending,
        socket_after_feed(f, v).tx.len() <= v.tx_capacity,
{
    assert(socket_after_feed(f, v).tx + after_feed(f, v, now).pending =~= v.tx + f.pending);
}

/// What the application is given, followed by what stays unread, is what was
/// received, in order.
pub proof fn delivery_keeps_the_stream(
    f: FlowView,
    g: FlowView,
    v: TcpView,
    w: TcpView,
    m: Measured,
    wanted: usize,
    tx_buf: usize,
    side: AppSide,
    now: u64,
    linger: u64,
    r: DownlinkReport,
)
    requires
        downlinked(f, g, v, w, m, wanted, tx_buf, side, now, linger, r),
    ensures
        joined(r.chunks@) + w.rx == v.rx,
{
}

/// The count of acknowledged bytes never moves back and never passes the count
/// of accepted ones.
pub proof fn acknowledged_bytes_only_grow(f: FlowView, queued: usize, now: u64)
    requires
        f.acked_high <= f.accepted_total,
    ensures
        f.acked_high <= observed(f, queued, now).acked_high,
        observed(f, queued, now).acked_high <= f.accepted_total,
{
}

/// A flow whose peer acknowledges bytes is never reset for stalling, however
/// full its queue is.
pub proof fn a_draining_flow_is_never_reset(f: FlowView, queued: usize, now: u64)
    requires
        acknowledged(f, queued as nat) > f.acked_high,
    ensures
        !flaps(f, queued as nat, now),
        !peer_is_gone(observed(f, queued, now), now),
        !observed(f, queued, now).drain_warned,
{
}

/// A flow that stalls for the second time inside the window is reset.
pub proof fn a_second_stall_resets(f: FlowView, queued: usize, now: u64)
    requires
        stalls(f, queued as nat, now),
        f.stall_count >= 1,
        elapsed(f.stall_mark, now) < STALL_FLAP_WINDOW,
    ensures
        flaps(f, queued as nat, now),
{
}

/// A flow that holds bytes of which nothing is acknowledged is reported before
/// it is declared dead.
pub proof fn a_stall_is_reported_before_the_reset(f: FlowView, queued: usize, now: u64)
    requires
        queued > 0,
        !drains(f, queued as nat),
        elapsed(f.last_drain, now) >= TCP_DRAIN_STALL_TIMEOUT,
    ensures
        observed(f, queued, now).drain_warned,
{
}

/// The budget of a flow lies between the floor and what its socket can hold.
pub proof fn budgets_are_bounded(wanted: usize, tx_buf: usize)
    ensures
        MIN_FLOW_QUEUE_BYTES <= clamped_budget(wanted, tx_buf),
        clamped_budget(wanted, tx_buf) <= tx_buf || clamped_budget(wanted, tx_buf)
            == MIN_FLOW_QUEUE_BYTES,
{
}

/// The credit that a flow publishes never takes an acknowledgement back.
pub proof fn published_acknowledgements_only_grow(
    f: FlowView,
    m: Measured,
    wanted: usize,
    tx_buf: usize,
)
    ensures
        f.credit.acked <= published(f, m, wanted, tx_buf).credit.acked,
        m.acked <= published(f, m, wanted, tx_buf).credit.acked,
{
}

/// A connect that nobody answers fails at its deadline instead of hanging.
pub proof fn an_unanswered_connect_fails(f: FlowView, v: TcpView, side: AppSide, now: u64)
    requires
        !f.established,
        !f.aborted,
        !connected(v.phase),
        now >= f.connect_deadline,
    ensures
        uplink_step(f, v, side, now) is Reaped,
{
}

/// A flow that has been connected once is never reaped for its connect.
pub proof fn a_connected_flow_stays_connected(f: FlowView, v: TcpView, side: AppSide, now: u64)
    requires
        f.established,
        !f.aborted,
    ensures
        uplink_step(f, v, side, now) is Served,
        judged(f, v.phase, side, now).established,
{
}

/// The caller of a connect is told of it once.
pub proof fn a_connect_is_announced_once(
    f: FlowView,
    phase: TcpPhase,
    later: TcpPhase,
    side: AppSide,
    now: u64,
    then: u64,
)
    requires
        verdict(f, phase, side.abandoned, now) == (Verdict::Serve { announce: true }),
    ensures
        verdict(judged(f, phase, side, now), later, side.abandoned, then) == (Verdict::Serve {
            announce: false,
        }),
{
}

/// A connected flow whose socket has been reset leaves the stack on the next
/// pass over it.
pub proof fn a_reset_flow_leaves(f: FlowView, left: nat, side: AppSide, now: u64, linger: u64)
    requires
        f.established,
        !side.closed,
    ensures
        pass_end(f, TcpPhase::Closed, left, side, now, linger).reaped,
{
}

/// A flow without an application whose peer never closes is reset when its time
/// is up, and dropped on the pass after that.
pub proof fn an_orphan_is_reset(
    f: FlowView,
    phase: TcpPhase,
    left: nat,
    side: AppSide,
    now: u64,
    linger: u64,
    then: u64,
)
    requires
        side.closed,
        f.orphaned_at matches Some(t) && now >= t + linger,
    ensures
        ({
            let end = pass_end(f, phase, left, side, now, linger);
            &&& end.phase is Closed
            &&& end.flow.aborted
            &&& verdict(end.flow, end.phase, side.abandoned, then) == Verdict::Reap(
                ReapReason::Aborted,
            )
        }),
{
}

/// A UDP flow that was just opened takes a datagram of up to the size of its
/// buffer, for every destination that is one.
pub proof fn a_new_udp_flow_takes_a_datagram(
    was: &NetStack,
    opened: &NetStack,
    after: &NetStack,
    id: usize,
    dst: Endpoint,
    data: Seq<u8>,
)
    requires
        udp_opened(was, opened, Ok(id)),
        udp_offered(opened, after, DataView::Udp(id, dst, data)),
        dst.port != 0,
        !is_unspecified(dst.ip),
        data.len() <= was.tuning.netstack_udp_buf,
    ensures
        udp_at(after.sockets, opened.udp_conns@[id].handle).tx == seq![(dst, data)],
{
    let h = opened.udp_conns@[id].handle;
    assert(udp_room(opened.sockets)[h].contains(data.len()));
    assert(udp_at(after.sockets, h).tx =~= seq![(dst, data)]);
}

/// A flow may have twice its send buffer pending, and 64 KiB at least.
pub proof fn a_flow_may_have_twice_its_buffer_pending(tuning: Tuning)
    requires
        2 * tuning.netstack_tcp_tx_buf <= usize::MAX,
    ensures
        pending_limit(tuning) >= 65536,
        pending_limit(tuning) >= 2 * tuning.netstack_tcp_tx_buf,
        pending_limit(tuning) == 65536 || pending_limit(tuning) == 2 * tuning.netstack_tcp_tx_buf,
{
}

/// A flow takes as much of what it is offered as it has room for, the first
/// bytes first, and what comes back is exactly the rest.
pub proof fn a_flow_takes_what_it_has_room_for(
    flows: Map<usize, FlowView>,
    id: usize,
    data: Seq<u8>,
    max: nat,
)
    requires
        flows.dom().contains(id),
    ensures
        ({
            let d = DataView::Tcp(id, data);
            let before = flows[id].pending;
            let after = offered(flows, d, max)[id].pending;
            let back = match refused(flows, d, max) {
                Some(DataView::Tcp(_, rest)) => rest,
                _ => Seq::<u8>::empty(),
            };
            &&& after + back == before + data
            &&& before.len() <= after.len()
            &&& before.len() <= max ==> after.len() <= max
            &&& before.len() >= max ==> after == before
            &&& refused(flows, d, max) is None || after.len() >= max
            &&& refused(flows, d, max) matches Some(b) ==> b.id() == id && b is Tcp
            &&& offered(flows, d, max).dom() == flows.dom()
        }),
{
    let d = DataView::Tcp(id, data);
    let before = flows[id].pending;
    let after = offered(flows, d, max)[id].pending;
    let back = match refused(flows, d, max) {
        Some(DataView::Tcp(_, rest)) => rest,
        _ => Seq::<u8>::empty(),
    };
    assert(after + back =~= before + data);
    assert(offered(flows, d, max).dom() =~= flows.dom());
}

/// What is offered to one flow touches no other, and what is offered to a flow
/// that is gone touches none and does not come back.
pub proof fn an_offer_touches_its_own_flow(flows: Map<usize, FlowView>, d: DataView, max: nat)
    ensures
        offered(flows, d, max).dom() == flows.dom(),
        forall|other: usize|
            #![trigger offered(flows, d, max)[other]]
            flows.dom().contains(other) && other != d.id() ==> offered(flows, d, max)[other]
                == flows[other],
        !flows.dom().contains(d.id()) ==> refused(flows, d, max) is None,
        d is Udp || d is UdpClose ==> offered(flows, d, max) == flows && refused(flows, d, max)
            is None,
{
    assert(offered(flows, d, max).dom() =~= flows.dom());
}

/// A close of the application half closes its flow and drops nothing that is
/// pending.
pub proof fn a_close_keeps_what_is_pending(flows: Map<usize, FlowView>, id: usize, max: nat)
    requires
        flows.dom().contains(id),
    ensures
        ({
            let f = offered(flows, DataView::TcpClose(id), max)[id];
            &&& f.half_closed
            &&& f.pending == flows[id].pending
            &&& f.credit == flows[id].credit
            &&& f.established == flows[id].established
            &&& !flows[id].aborted ==> !f.aborted
        }),
        refused(flows, DataView::TcpClose(id), max) is None,
{
}

/// A datagram goes behind those that wait where its socket is bound, it has a
/// destination and there is room; otherwise it is dropped and nothing changes. A
/// close takes the flow and its socket away and no other.
pub proof fn a_datagram_is_queued_or_dropped(
    was: &NetStack,
    now: &NetStack,
    id: usize,
    dst: Endpoint,
    data: Seq<u8>,
)
    requires
        was.wf(),
        udp_offered(was, now, DataView::Udp(id, dst, data)),
    ensures
        now.udp_conns@ == was.udp_conns@,
        was.udp_conns@.dom().contains(id) ==> {
            let h = was.udp_conns@[id].handle;
            let before = udp_at(was.sockets, h);
            let after = udp_at(now.sockets, h);
            &&& after.port == before.port
            &&& after.rx == before.rx
            &&& before.port != 0 && dst.port != 0 && dst.ip != IpAddress::V4(0) && dst.ip
                != IpAddress::V6(0) && udp_room(was.sockets)[h].contains(data.len()) ==> after.tx
                == before.tx.push((dst, data))
            &&& before.port == 0 || dst.port == 0 || dst.ip == IpAddress::V4(0) || dst.ip
                == IpAddress::V6(0) || !udp_room(was.sockets)[h].contains(data.len()) ==> after.tx
                == before.tx
        },
        !was.udp_conns@.dom().contains(id) ==> sockets_of(now.sockets) == sockets_of(was.sockets),
{
}

/// Data of a TCP flow touches no UDP flow and no socket, and a close of a UDP
/// flow takes that flow and its socket away and no other.
pub proof fn only_udp_data_touches_udp(was: &NetStack, now: &NetStack, d: DataView)
    requires
        was.wf(),
        udp_offered(was, now, d),
    ensures
        d is Tcp || d is TcpClose ==> now.udp_conns@ == was.udp_conns@ && sockets_of(now.sockets)
            == sockets_of(was.sockets),
        d matches DataView::UdpClose(id) ==> {
            &&& !now.udp_conns@.dom().contains(id)
            &&& was.udp_conns@.dom().contains(id) ==> !sockets_of(now.sockets).dom().contains(
                was.udp_conns@[id].handle,
            )
            &&& forall|other: usize|
                #![trigger now.udp_conns@[other]]
                other != id && was.udp_conns@.dom().contains(other) ==> now.udp_conns@.dom().contains(
                    other,
                ) && now.udp_conns@[other] == was.udp_conns@[other] && udp_at(
                    now.sockets,
                    was.udp_conns@[other].handle,
                ) == udp_at(was.sockets, was.udp_conns@[other].handle)
        },
{
    if let DataView::UdpClose(id) = d {
        assert forall|other: usize|
            #![trigger now.udp_conns@[other]]
            other != id && was.udp_conns@.dom().contains(other) implies now.udp_conns@.dom().contains(
            other,
        ) && now.udp_conns@[other] == was.udp_conns@[other] && udp_at(
            now.sockets,
            was.udp_conns@[other].handle,
        ) == udp_at(was.sockets, was.udp_conns@[other].handle) by {
            if was.udp_conns@.dom().contains(id) {
                assert(was.udp_conns@[id].handle != was.udp_conns@[other].handle);
            }
        }
    }
}

} // verus!
