//! One pass over the UDP flows.

use vstd::prelude::*;

use super::flow::MAX_RECV_CHUNKS;
use super::sockets;
#[allow(unused_imports)]
use super::sockets::{has_tcp, has_udp, sockets_of, tcp_at, udp_at, with_udp, UdpView};
use super::stack::NetStack;
use crate::addr::Endpoint;

verus! {

broadcast use vstd::std_specs::hash::group_hash_axioms;

/// The queue that an application reads a flow's datagrams from.
#[derive(Clone, Copy, Debug, PartialEq, Eq, Structural)]
pub struct QueueSide {
    /// How many datagrams it has room for.
    pub room: usize,
    pub closed: bool,
}

/// What a pass over a UDP flow came to.
pub struct UdpReport {
    /// What the application is to be given, each with its sender, in order.
    pub datagrams: Vec<(Endpoint, Vec<u8>)>,
    /// The application's queue was full.
    pub backpressured: bool,
    /// The application is gone, and the flow with it.
    pub reaped: bool,
}

/// How many of `waiting` datagrams a pass hands out.
pub open spec fn handed_out(waiting: nat, side: QueueSide) -> nat {
    if side.closed {
        0
    } else if waiting <= side.room && waiting <= MAX_RECV_CHUNKS {
        waiting
    } else if side.room <= MAX_RECV_CHUNKS {
        side.room as nat
    } else {
        MAX_RECV_CHUNKS as nat
    }
}

/// Whether these are the datagrams, with their senders.
pub open spec fn datagrams_are(got: Seq<(Endpoint, Vec<u8>)>, want: Seq<(Endpoint, Seq<u8>)>) -> bool {
    &&& got.len() == want.len()
    &&& forall|i: int|
        0 <= i < got.len() ==> (#[trigger] got[i]).0 == want[i].0 && got[i].1@ == want[i].1
}

/// Whether a pass over the UDP flow had this outcome.
pub open spec fn udp_outcome(
    was: &NetStack,
    now: &NetStack,
    id: usize,
    side: QueueSide,
    report: UdpReport,
) -> bool {
    let h = was.udp_conns@[id].handle;
    let v = udp_at(was.sockets, h);
    let n = handed_out(v.rx.len(), side);
    &&& datagrams_are(report.datagrams@, v.rx.take(n as int))
    &&& report.backpressured == (!side.closed && side.room < MAX_RECV_CHUNKS && v.rx.len()
        >= side.room)
    &&& report.reaped == side.closed
    &&& side.closed ==> !now.udp_conns@.dom().contains(id) && !sockets_of(
        now.sockets,
    ).dom().contains(h)
    &&& !side.closed ==> udp_now(was, now, id, UdpView { rx: v.rx.skip(n as int), ..v })
}

/// The flow is still there, on its socket, which holds this.
pub open spec fn udp_now(was: &NetStack, now: &NetStack, id: usize, v: UdpView) -> bool {
    let h = was.udp_conns@[id].handle;
    &&& now.udp_conns@.dom().contains(id)
    &&& now.udp_conns@[id].handle == h
    &&& has_udp(now.sockets, h)
    &&& udp_at(now.sockets, h) == v
}

/// What serving the UDP flow `id` leaves alone: everything but that flow and
/// its socket.
pub open spec fn only_udp_flow(was: &NetStack, now: &NetStack, id: usize) -> bool {
    let h = was.udp_conns@[id].handle;
    &&& now.same_setup(was)
    &&& now.device == was.device
    &&& now.tcp_conns == was.tcp_conns
    &&& now.udp_conns@.remove(id) == was.udp_conns@.remove(id)
    &&& sockets_of(now.sockets).remove(h) == sockets_of(was.sockets).remove(h)
}

/// Hands out the datagrams of one flow.
pub fn serve_udp_flow(s: &mut NetStack, id: usize, side: QueueSide) -> (report: UdpReport)
    requires
        old(s).wf(),
        old(s).udp_conns@.dom().contains(id),
    ensures
        final(s).wf(),
        only_udp_flow(old(s), final(s), id),
        udp_outcome(old(s), final(s), id, side, report),
{
    let ghost was = *s;
    let mut datagrams: Vec<(Endpoint, Vec<u8>)> = Vec::new();
    match s.udp_conns.remove(&id) {
        None => UdpReport { datagrams, backpressured: false, reaped: false },
        Some(st) => {
            let ghost h = st.handle;
            let ghost v = udp_at(s.sockets, h);
            assert(v.rx.take(0) =~= Seq::empty());
            if side.closed {
                sockets::remove(&mut s.sockets, st.handle);
                assert(s.udp_conns@.remove(id) =~= was.udp_conns@.remove(id));
                assert(sockets_of(s.sockets).remove(h) =~= sockets_of(was.sockets).remove(h));
                return UdpReport { datagrams, backpressured: false, reaped: true };
            }
            let mut drained = false;
            proof {
                assert(v.rx.skip(0) =~= v.rx);
                assert(with_udp(sockets_of(was.sockets), h, v) =~= sockets_of(was.sockets));
            }
            while !drained && datagrams.len() < MAX_RECV_CHUNKS && datagrams.len() < side.room
                invariant
                    h == st.handle,
                    has_udp(s.sockets, h),
                    v == udp_at(was.sockets, h),
                    datagrams@.len() <= v.rx.len(),
                    datagrams@.len() <= MAX_RECV_CHUNKS,
                    datagrams@.len() <= side.room,
                    datagrams_are(datagrams@, v.rx.take(datagrams@.len() as int)),
                    sockets_of(s.sockets) == with_udp(
                        sockets_of(was.sockets),
                        h,
                        (UdpView { rx: v.rx.skip(datagrams@.len() as int), ..v }),
                    ),
                    drained ==> datagrams@.len() == v.rx.len(),
                    s.same_setup(&was),
                    s.device == was.device,
                    s.tcp_conns == was.tcp_conns,
                    s.udp_conns@ == was.udp_conns@.remove(id),
                decreases
                    v.rx.len() - datagrams@.len(),
                    if drained {
                        0int
                    } else {
                        1int
                    },
            {
                let ghost n = datagrams@.len() as int;
                if !sockets::udp_can_recv(&s.sockets, st.handle) {
                    drained = true;
                } else {
                    match sockets::udp_recv(&mut s.sockets, st.handle) {
                        Some(got) => {
                            assert(v.rx.skip(n)[0] == v.rx[n]);
                            assert(v.rx.skip(n).skip(1) =~= v.rx.skip(n + 1));
                            datagrams.push(got);
                            assert(with_udp(
                                with_udp(
                                    sockets_of(was.sockets),
                                    h,
                                    (UdpView { rx: v.rx.skip(n), ..v }),
                                ),
                                h,
                                (UdpView { rx: v.rx.skip(n + 1), ..v }),
                            ) =~= with_udp(
                                sockets_of(was.sockets),
                                h,
                                (UdpView { rx: v.rx.skip(n + 1), ..v }),
                            ));
                        },
                        None => {
                            drained = true;
                        },
                    }
                }
            }
            let backpressured = datagrams.len() < MAX_RECV_CHUNKS && datagrams.len() == side.room;
            s.udp_conns.insert(id, st);
            assert(s.udp_conns@.remove(id) =~= was.udp_conns@.remove(id));
            assert(s.udp_conns@.dom() =~= was.udp_conns@.dom());
            assert(sockets_of(s.sockets).remove(h) =~= sockets_of(was.sockets).remove(h));
            UdpReport { datagrams, backpressured, reaped: false }
        },
    }
}

/// What a pass over the UDP flows leaves alone.
pub open spec fn beside_udp(was: &NetStack, now: &NetStack) -> bool {
    &&& now.same_setup(was)
    &&& now.device == was.device
    &&& now.tcp_conns == was.tcp_conns
    &&& forall|h: smoltcp::iface::SocketHandle| #[trigger]
        has_tcp(was.sockets, h) ==> has_tcp(now.sockets, h) && tcp_at(now.sockets, h) == tcp_at(
            was.sockets,
            h,
        )
}

/// The UDP flow and its socket are as they were.
pub open spec fn udp_kept(was: &NetStack, now: &NetStack, id: usize) -> bool {
    udp_now(was, now, id, udp_at(was.sockets, was.udp_conns@[id].handle))
}

proof fn udp_now_stays(
    was: &NetStack,
    mid: &NetStack,
    now: &NetStack,
    id: usize,
    served: usize,
    v: UdpView,
)
    requires
        mid.wf(),
        udp_now(was, mid, id, v),
        mid.udp_conns@.dom().contains(served),
        only_udp_flow(mid, now, served),
        id != served,
    ensures
        udp_now(was, now, id, v),
{
    let h = mid.udp_conns@[id].handle;
    let other = mid.udp_conns@[served].handle;
    assert(h != other);
    assert(mid.udp_conns@.remove(served).dom().contains(id));
    assert(now.udp_conns@.remove(served)[id] == mid.udp_conns@.remove(served)[id]);
    assert(sockets_of(mid.sockets).remove(other).dom().contains(h));
    assert(sockets_of(now.sockets).remove(other)[h] == sockets_of(mid.sockets).remove(other)[h]);
}

/// Serving one flow keeps the outcome of another.
proof fn udp_outcome_stays(
    was: &NetStack,
    mid: &NetStack,
    now: &NetStack,
    id: usize,
    served: usize,
    side: QueueSide,
    report: UdpReport,
)
    requires
        mid.wf(),
        udp_outcome(was, mid, id, side, report),
        mid.udp_conns@.dom().contains(served),
        only_udp_flow(mid, now, served),
        id != served,
    ensures
        udp_outcome(was, now, id, side, report),
{
    let h = was.udp_conns@[id].handle;
    let v = udp_at(was.sockets, h);
    if side.closed {
        let other = mid.udp_conns@[served].handle;
        assert(has_udp(mid.sockets, other));
        assert(h != other);
        assert(!now.udp_conns@.remove(served).dom().contains(id));
        assert(!sockets_of(now.sockets).remove(other).dom().contains(h));
    } else {
        let n = handed_out(v.rx.len(), side);
        udp_now_stays(was, mid, now, id, served, UdpView { rx: v.rx.skip(n as int), ..v });
    }
}

proof fn beside_udp_stays(was: &NetStack, mid: &NetStack, now: &NetStack, served: usize)
    requires
        mid.wf(),
        beside_udp(was, mid),
        mid.udp_conns@.dom().contains(served),
        only_udp_flow(mid, now, served),
    ensures
        beside_udp(was, now),
{
    let other = mid.udp_conns@[served].handle;
    assert(has_udp(mid.sockets, other));
    assert forall|h: smoltcp::iface::SocketHandle| #[trigger]
        has_tcp(was.sockets, h) implies has_tcp(now.sockets, h) && tcp_at(now.sockets, h)
        == tcp_at(was.sockets, h) by {
        assert(h != other);
        assert(sockets_of(mid.sockets).remove(other).dom().contains(h));
        assert(sockets_of(now.sockets).remove(other)[h] == sockets_of(mid.sockets).remove(
            other,
        )[h]);
    }
}

/// Whether every entry names a UDP flow of the stack, none twice.
pub open spec fn names_udp_flows(s: &NetStack, sides: Seq<(usize, QueueSide)>) -> bool {
    &&& forall|i: int|
        0 <= i < sides.len() ==> s.udp_conns@.dom().contains((#[trigger] sides[i]).0)
    &&& forall|i: int, j: int|
        0 <= i < j < sides.len() ==> (#[trigger] sides[i]).0 != (#[trigger] sides[j]).0
}

/// Whether the list has an entry for the flow.
pub open spec fn names_udp(sides: Seq<(usize, QueueSide)>, id: usize) -> bool {
    exists|i: int| 0 <= i < sides.len() && (#[trigger] sides[i]).0 == id
}

/// One pass over the listed UDP flows. Each is served by itself. Also tells
/// whether the queue of any application was full.
pub fn service_udp(s: &mut NetStack, sides: &Vec<(usize, QueueSide)>) -> (r: (
    Vec<UdpReport>,
    bool,
))
    requires
        old(s).wf(),
        names_udp_flows(old(s), sides@),
    ensures
        final(s).wf(),
        beside_udp(old(s), final(s)),
        r.0@.len() == sides@.len(),
        forall|i: int|
            0 <= i < sides@.len() ==> udp_outcome(
                old(s),
                final(s),
                sides@[i].0,
                sides@[i].1,
                #[trigger] r.0@[i],
            ),
        forall|id: usize| #[trigger]
            old(s).udp_conns@.dom().contains(id) && !names_udp(sides@, id) ==> udp_kept(
                old(s),
                final(s),
                id,
            ),
        r.1 <==> exists|i: int| 0 <= i < r.0@.len() && (#[trigger] r.0@[i]).backpressured,
{
    let mut reports: Vec<UdpReport> = Vec::new();
    let mut backpressured = false;
    let mut i: usize = 0;
    while i < sides.len()
        invariant
            i <= sides.len(),
            s.wf(),
            old(s).wf(),
            names_udp_flows(old(s), sides@),
            beside_udp(old(s), s),
            reports@.len() == i,
            forall|j: int|
                0 <= j < i ==> udp_outcome(
                    old(s),
                    s,
                    sides@[j].0,
                    sides@[j].1,
                    #[trigger] reports@[j],
                ),
            forall|id: usize| #[trigger]
                old(s).udp_conns@.dom().contains(id) && !names_udp(sides@.take(i as int), id)
                    ==> udp_kept(old(s), s, id),
            backpressured <==> exists|j: int|
                0 <= j < reports@.len() && (#[trigger] reports@[j]).backpressured,
        decreases sides.len() - i,
    {
        let ghost mid = *s;
        let ghost before = reports@;
        let (id, side) = sides[i];
        proof {
            assert(old(s).udp_conns@.dom().contains(sides@[i as int].0));
            assert(!names_udp(sides@.take(i as int), id)) by {
                if names_udp(sides@.take(i as int), id) {
                    let j = choose|j: int|
                        0 <= j < i && (#[trigger] sides@.take(i as int)[j]).0 == id;
                    assert(sides@[j].0 == sides@[i as int].0);
                }
            }
            assert(udp_kept(old(s), &mid, id));
        }
        let report = serve_udp_flow(s, id, side);
        if report.backpressured {
            backpressured = true;
        }
        reports.push(report);
        proof {
            beside_udp_stays(old(s), &mid, s, id);
            assert forall|j: int| 0 <= j < i + 1 implies udp_outcome(
                old(s),
                s,
                sides@[j].0,
                sides@[j].1,
                #[trigger] reports@[j],
            ) by {
                if j < i {
                    assert(before[j] == reports@[j]);
                    assert(sides@[j].0 != sides@[i as int].0);
                    udp_outcome_stays(
                        old(s),
                        &mid,
                        s,
                        sides@[j].0,
                        id,
                        sides@[j].1,
                        reports@[j],
                    );
                }
            }
            assert forall|x: usize| #[trigger]
                old(s).udp_conns@.dom().contains(x) && !names_udp(
                    sides@.take(i + 1),
                    x,
                ) implies udp_kept(old(s), s, x) by {
                assert(sides@.take(i + 1)[i as int].0 == id);
                assert(!names_udp(sides@.take(i as int), x)) by {
                    if names_udp(sides@.take(i as int), x) {
                        let j = choose|j: int|
                            0 <= j < i && (#[trigger] sides@.take(i as int)[j]).0 == x;
                        assert(sides@.take(i + 1)[j].0 == x);
                    }
                }
                udp_now_stays(
                    old(s),
                    &mid,
                    s,
                    x,
                    id,
                    udp_at(old(s).sockets, old(s).udp_conns@[x].handle),
                );
            }
            assert(forall|j: int| 0 <= j < before.len() ==> before[j] == reports@[j]);
            assert(reports@[i as int] == report);
        }
        i = i + 1;
    }
    assert(sides@.take(i as int) =~= sides@);
    (reports, backpressured)
}

/// An application is given the oldest datagrams, in order, each with its sender:
/// at most 128 and no more than it has room for, and nothing is kept from it
/// while it has room. One that went away takes its flow with it.
pub proof fn the_oldest_datagrams_are_handed_out(
    was: &NetStack,
    now: &NetStack,
    id: usize,
    side: QueueSide,
    report: UdpReport,
)
    requires
        udp_outcome(was, now, id, side, report),
    ensures
        ({
            let rx = udp_at(was.sockets, was.udp_conns@[id].handle).rx;
            let n = report.datagrams@.len();
            &&& n <= rx.len()
            &&& n <= 128
            &&& forall|i: int|
                0 <= i < n ==> (#[trigger] report.datagrams@[i]).0 == rx[i].0
                    && report.datagrams@[i].1@ == rx[i].1
            &&& report.reaped <==> side.closed
            &&& side.closed ==> n == 0 && !report.backpressured && !now.udp_conns@.dom().contains(
                id,
            ) && !sockets_of(now.sockets).dom().contains(was.udp_conns@[id].handle)
            &&& !side.closed ==> {
                let left = udp_at(now.sockets, was.udp_conns@[id].handle).rx;
                &&& n <= side.room
                &&& n < 128 && n < side.room ==> left.len() == 0
                &&& left == rx.skip(n as int)
                &&& now.udp_conns@.dom().contains(id)
                &&& report.backpressured <==> n == side.room && side.room < 128
            }
        }),
{
}

} // verus!
