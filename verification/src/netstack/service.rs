//! One pass over the flows: sockets are fed, peers judged, and what was
//! received handed out.

use vstd::prelude::*;

use super::flow::{AppSide, DownlinkReport, Measured, UplinkStep};
#[allow(unused_imports)]
use super::flow::{downlinked, uplink_step, uplinked, uplinked_socket, FlowView};
use super::sockets;
#[allow(unused_imports)]
use super::sockets::{has_tcp, has_udp, sockets_of, tcp_at, udp_at, TcpView};
use super::stack::NetStack;
#[allow(unused_imports)]
use super::stack::one_flow_changed;

verus! {

broadcast use vstd::std_specs::hash::group_hash_axioms;

/// What serving the flow `id` leaves alone: everything but that flow and its
/// socket.
pub open spec fn only_flow(was: &NetStack, now: &NetStack, id: usize) -> bool {
    let h = was.tcp_conns@[id].handle;
    &&& now.same_setup(was)
    &&& now.device == was.device
    &&& now.udp_conns == was.udp_conns
    &&& now.tcp_conns@.remove(id) == was.tcp_conns@.remove(id)
    &&& sockets_of(now.sockets).remove(h) == sockets_of(was.sockets).remove(h)
}

/// The flow and its socket are gone.
pub open spec fn flow_gone(was: &NetStack, now: &NetStack, id: usize) -> bool {
    &&& !now.tcp_conns@.dom().contains(id)
    &&& !sockets_of(now.sockets).dom().contains(was.tcp_conns@[id].handle)
}

/// The flow is still there, on its socket, in this state.
pub open spec fn flow_now(
    was: &NetStack,
    now: &NetStack,
    id: usize,
    f: FlowView,
    v: TcpView,
) -> bool {
    let h = was.tcp_conns@[id].handle;
    &&& now.tcp_conns@.dom().contains(id)
    &&& now.tcp_conns@[id].handle == h
    &&& now.tcp_conns@[id]@ == f
    &&& has_tcp(now.sockets, h)
    &&& tcp_at(now.sockets, h) == v
}

/// Whether the first half of a pass over the flow had this outcome.
pub open spec fn uplink_outcome(
    was: &NetStack,
    now: &NetStack,
    id: usize,
    side: AppSide,
    time: u64,
    step: UplinkStep,
) -> bool {
    let f = was.tcp_conns@[id]@;
    let v = tcp_at(was.sockets, was.tcp_conns@[id].handle);
    &&& step == uplink_step(f, v, side, time)
    &&& step is Reaped ==> flow_gone(was, now, id)
    &&& step !is Reaped ==> flow_now(
        was,
        now,
        id,
        uplinked(f, v, side, time),
        uplinked_socket(f, v, side, time),
    )
}

/// Serves the first half of a pass to one flow.
pub fn uplink_flow(s: &mut NetStack, id: usize, side: AppSide, time: u64) -> (step: UplinkStep)
    requires
        old(s).wf(),
        old(s).tcp_conns@.dom().contains(id),
    ensures
        final(s).wf(),
        only_flow(old(s), final(s), id),
        uplink_outcome(old(s), final(s), id, side, time, step),
{
    let ghost was = *s;
    let ghost h = s.tcp_conns@[id].handle;
    match s.tcp_conns.remove(&id) {
        Some(st) => {
            let mut st = st;
            let step = st.uplink(&mut s.sockets, side, time);
            match step {
                UplinkStep::Reaped(_) => {
                    sockets::remove(&mut s.sockets, st.handle);
                },
                _ => {
                    s.tcp_conns.insert(id, st);
                    proof {
                        one_flow_changed(&was, s, id);
                    }
                },
            }
            assert(s.tcp_conns@.remove(id) =~= was.tcp_conns@.remove(id));
            assert(sockets_of(s.sockets).remove(h) =~= sockets_of(was.sockets).remove(h));
            step
        },
        None => UplinkStep::Waiting,
    }
}

/// Whether the second half of a pass over the flow had this outcome.
pub open spec fn downlink_outcome(
    was: &NetStack,
    now: &NetStack,
    id: usize,
    measured: Measured,
    wanted: usize,
    side: AppSide,
    time: u64,
    report: DownlinkReport,
) -> bool {
    let f = was.tcp_conns@[id]@;
    let v = tcp_at(was.sockets, was.tcp_conns@[id].handle);
    exists|g: FlowView, w: TcpView|
        {
            &&& #[trigger] downlinked(
                f,
                g,
                v,
                w,
                measured,
                wanted,
                was.tuning.netstack_tcp_tx_buf,
                side,
                time,
                was.tcp_limits.orphan_linger,
                report,
            )
            &&& report.reaped ==> flow_gone(was, now, id)
            &&& !report.reaped ==> flow_now(was, now, id, g, w)
        }
}

/// Serves the second half of a pass to one connected flow.
pub fn downlink_flow(
    s: &mut NetStack,
    id: usize,
    measured: Measured,
    wanted: usize,
    side: AppSide,
    time: u64,
) -> (report: DownlinkReport)
    requires
        old(s).wf(),
        old(s).tcp_conns@.dom().contains(id),
    ensures
        final(s).wf(),
        only_flow(old(s), final(s), id),
        downlink_outcome(old(s), final(s), id, measured, wanted, side, time, report),
{
    let ghost was = *s;
    let ghost h = s.tcp_conns@[id].handle;
    match s.tcp_conns.remove(&id) {
        Some(st) => {
            let mut st = st;
            let tx_buf: usize = s.tuning.netstack_tcp_tx_buf;
            let linger: u64 = s.tcp_limits.orphan_linger;
            let report = st.downlink(
                &mut s.sockets,
                measured,
                wanted,
                tx_buf,
                side,
                time,
                linger,
            );
            let ghost g = st@;
            let ghost w = tcp_at(s.sockets, h);
            if report.reaped {
                sockets::remove(&mut s.sockets, st.handle);
            } else {
                s.tcp_conns.insert(id, st);
                proof {
                    one_flow_changed(&was, s, id);
                }
            }
            assert(s.tcp_conns@.remove(id) =~= was.tcp_conns@.remove(id));
            assert(sockets_of(s.sockets).remove(h) =~= sockets_of(was.sockets).remove(h));
            assert(downlinked(
                was.tcp_conns@[id]@,
                g,
                tcp_at(was.sockets, h),
                w,
                measured,
                wanted,
                tx_buf,
                side,
                time,
                linger,
                report,
            ));
            report
        },
        None => DownlinkReport { chunks: Vec::new(), backpressured: false, reaped: false },
    }
}

/// What a pass over the TCP flows leaves alone.
pub open spec fn beside_tcp(was: &NetStack, now: &NetStack) -> bool {
    &&& now.same_setup(was)
    &&& now.device == was.device
    &&& now.udp_conns == was.udp_conns
    &&& forall|h: smoltcp::iface::SocketHandle| #[trigger]
        has_udp(was.sockets, h) ==> has_udp(now.sockets, h) && udp_at(now.sockets, h) == udp_at(
            was.sockets,
            h,
        )
}

/// The flow and its socket are as they were.
pub open spec fn flow_kept(was: &NetStack, now: &NetStack, id: usize) -> bool {
    flow_now(
        was,
        now,
        id,
        was.tcp_conns@[id]@,
        tcp_at(was.sockets, was.tcp_conns@[id].handle),
    )
}

/// Serving one flow keeps the state of another.
proof fn flow_now_stays(
    was: &NetStack,
    mid: &NetStack,
    now: &NetStack,
    id: usize,
    served: usize,
    f: FlowView,
    v: TcpView,
)
    requires
        mid.wf(),
        flow_now(was, mid, id, f, v),
        mid.tcp_conns@.dom().contains(served),
        only_flow(mid, now, served),
        id != served,
    ensures
        flow_now(was, now, id, f, v),
{
    let h = mid.tcp_conns@[id].handle;
    let other = mid.tcp_conns@[served].handle;
    assert(h != other);
    assert(mid.tcp_conns@.remove(served).dom().contains(id));
    assert(now.tcp_conns@.remove(served).dom().contains(id));
    assert(now.tcp_conns@.remove(served)[id] == mid.tcp_conns@.remove(served)[id]);
    assert(sockets_of(mid.sockets).remove(other).dom().contains(h));
    assert(sockets_of(now.sockets).remove(other)[h] == sockets_of(mid.sockets).remove(other)[h]);
}

/// Serving one flow brings no other back.
proof fn flow_gone_stays(
    was: &NetStack,
    mid: &NetStack,
    now: &NetStack,
    id: usize,
    served: usize,
)
    requires
        mid.wf(),
        flow_gone(was, mid, id),
        mid.tcp_conns@.dom().contains(served),
        only_flow(mid, now, served),
        id != served,
    ensures
        flow_gone(was, now, id),
{
    let h = was.tcp_conns@[id].handle;
    let other = mid.tcp_conns@[served].handle;
    assert(has_tcp(mid.sockets, other));
    assert(h != other);
    assert(!now.tcp_conns@.remove(served).dom().contains(id));
    assert(!sockets_of(now.sockets).remove(other).dom().contains(h));
}

proof fn beside_tcp_stays(was: &NetStack, mid: &NetStack, now: &NetStack, served: usize)
    requires
        mid.wf(),
        beside_tcp(was, mid),
        mid.tcp_conns@.dom().contains(served),
        only_flow(mid, now, served),
    ensures
        beside_tcp(was, now),
{
    let other = mid.tcp_conns@[served].handle;
    assert(has_tcp(mid.sockets, other));
    assert forall|h: smoltcp::iface::SocketHandle| #[trigger]
        has_udp(was.sockets, h) implies has_udp(now.sockets, h) && udp_at(now.sockets, h)
        == udp_at(was.sockets, h) by {
        assert(udp_at(mid.sockets, h) == udp_at(was.sockets, h));
        assert(h != other);
        assert(sockets_of(mid.sockets).remove(other).dom().contains(h));
        assert(sockets_of(now.sockets).remove(other)[h] == sockets_of(mid.sockets).remove(
            other,
        )[h]);
    }
}

/// Whether every entry names a flow of the stack, none twice.
pub open spec fn names_flows(s: &NetStack, sides: Seq<(usize, AppSide)>) -> bool {
    &&& forall|i: int|
        0 <= i < sides.len() ==> s.tcp_conns@.dom().contains((#[trigger] sides[i]).0)
    &&& forall|i: int, j: int|
        0 <= i < j < sides.len() ==> (#[trigger] sides[i]).0 != (#[trigger] sides[j]).0
}

/// Whether the list has an entry for the flow.
pub open spec fn names(sides: Seq<(usize, AppSide)>, id: usize) -> bool {
    exists|i: int| 0 <= i < sides.len() && (#[trigger] sides[i]).0 == id
}

/// The first half of a pass over the listed flows. Each is served by itself:
/// what becomes of it depends on nothing but it, its socket and its
/// application.
pub fn service_tcp_uplink(s: &mut NetStack, sides: &Vec<(usize, AppSide)>, time: u64) -> (steps:
    Vec<UplinkStep>)
    requires
        old(s).wf(),
        names_flows(old(s), sides@),
    ensures
        final(s).wf(),
        beside_tcp(old(s), final(s)),
        steps@.len() == sides@.len(),
        forall|i: int|
            0 <= i < sides@.len() ==> uplink_outcome(
                old(s),
                final(s),
                sides@[i].0,
                sides@[i].1,
                time,
                #[trigger] steps@[i],
            ),
        forall|id: usize| #[trigger]
            old(s).tcp_conns@.dom().contains(id) && !names(sides@, id) ==> flow_kept(
                old(s),
                final(s),
                id,
            ),
{
    let mut steps: Vec<UplinkStep> = Vec::new();
    let mut i: usize = 0;
    while i < sides.len()
        invariant
            i <= sides.len(),
            s.wf(),
            old(s).wf(),
            names_flows(old(s), sides@),
            beside_tcp(old(s), s),
            steps@.len() == i,
            forall|j: int|
                0 <= j < i ==> uplink_outcome(
                    old(s),
                    s,
                    sides@[j].0,
                    sides@[j].1,
                    time,
                    #[trigger] steps@[j],
                ),
            forall|id: usize| #[trigger]
                old(s).tcp_conns@.dom().contains(id) && !names(sides@.take(i as int), id)
                    ==> flow_kept(old(s), s, id),
        decreases sides.len() - i,
    {
        let ghost mid = *s;
        let (id, side) = sides[i];
        proof {
            assert(old(s).tcp_conns@.dom().contains(sides@[i as int].0));
            assert(!names(sides@.take(i as int), id)) by {
                if names(sides@.take(i as int), id) {
                    let j = choose|j: int|
                        0 <= j < i && (#[trigger] sides@.take(i as int)[j]).0 == id;
                    assert(sides@[j].0 == sides@[i as int].0);
                }
            }
            assert(flow_kept(old(s), &mid, id));
        }
        let step = uplink_flow(s, id, side, time);
        steps.push(step);
        proof {
            beside_tcp_stays(old(s), &mid, s, id);
            assert forall|j: int| 0 <= j < i + 1 implies uplink_outcome(
                old(s),
                s,
                sides@[j].0,
                sides@[j].1,
                time,
                #[trigger] steps@[j],
            ) by {
                if j < i {
                    let x = sides@[j].0;
                    assert(x != id) by {
                        assert(sides@[j].0 != sides@[i as int].0);
                    }
                    let f = old(s).tcp_conns@[x]@;
                    let v = tcp_at(old(s).sockets, old(s).tcp_conns@[x].handle);
                    if steps@[j] is Reaped {
                        flow_gone_stays(old(s), &mid, s, x, id);
                    } else {
                        flow_now_stays(
                            old(s),
                            &mid,
                            s,
                            x,
                            id,
                            uplinked(f, v, sides@[j].1, time),
                            uplinked_socket(f, v, sides@[j].1, time),
                        );
                    }
                }
            }
            assert forall|x: usize| #[trigger]
                old(s).tcp_conns@.dom().contains(x) && !names(
                    sides@.take(i + 1),
                    x,
                ) implies flow_kept(old(s), s, x) by {
                assert(sides@.take(i + 1)[i as int].0 == id);
                assert(!names(sides@.take(i as int), x)) by {
                    if names(sides@.take(i as int), x) {
                        let j = choose|j: int|
                            0 <= j < i && (#[trigger] sides@.take(i as int)[j]).0 == x;
                        assert(sides@.take(i + 1)[j].0 == x);
                    }
                }
                flow_now_stays(
                    old(s),
                    &mid,
                    s,
                    x,
                    id,
                    old(s).tcp_conns@[x]@,
                    tcp_at(old(s).sockets, old(s).tcp_conns@[x].handle),
                );
            }
        }
        i = i + 1;
    }
    assert(sides@.take(i as int) =~= sides@);
    steps
}

/// What the second half of a pass needs to know of a flow.
#[derive(Clone, Copy, Debug, PartialEq, Eq, Structural)]
pub struct Turn {
    pub id: usize,
    pub side: AppSide,
    pub measured: Measured,
    /// The bytes that the measured drain rate moves in
    /// [`UPLINK_QUEUE_BUDGET`](super::flow::UPLINK_QUEUE_BUDGET).
    pub wanted: usize,
}

/// Whether every turn is that of a flow of the stack, none twice.
pub open spec fn turns_of_flows(s: &NetStack, turns: Seq<Turn>) -> bool {
    &&& forall|i: int|
        0 <= i < turns.len() ==> s.tcp_conns@.dom().contains((#[trigger] turns[i]).id)
    &&& forall|i: int, j: int|
        0 <= i < j < turns.len() ==> (#[trigger] turns[i]).id != (#[trigger] turns[j]).id
}

/// Whether the flow has a turn.
pub open spec fn has_turn(turns: Seq<Turn>, id: usize) -> bool {
    exists|i: int| 0 <= i < turns.len() && (#[trigger] turns[i]).id == id
}

/// The second half of a pass over the connected flows. Each is served by
/// itself. Also tells whether the queue of any application was full.
pub fn service_tcp_downlink(s: &mut NetStack, turns: &Vec<Turn>, time: u64) -> (r: (
    Vec<DownlinkReport>,
    bool,
))
    requires
        old(s).wf(),
        turns_of_flows(old(s), turns@),
    ensures
        final(s).wf(),
        beside_tcp(old(s), final(s)),
        r.0@.len() == turns@.len(),
        forall|i: int|
            0 <= i < turns@.len() ==> downlink_outcome(
                old(s),
                final(s),
                turns@[i].id,
                turns@[i].measured,
                turns@[i].wanted,
                turns@[i].side,
                time,
                #[trigger] r.0@[i],
            ),
        forall|id: usize| #[trigger]
            old(s).tcp_conns@.dom().contains(id) && !has_turn(turns@, id) ==> flow_kept(
                old(s),
                final(s),
                id,
            ),
        r.1 <==> exists|i: int| 0 <= i < r.0@.len() && (#[trigger] r.0@[i]).backpressured,
{
    let mut reports: Vec<DownlinkReport> = Vec::new();
    let mut backpressured = false;
    let mut i: usize = 0;
    while i < turns.len()
        invariant
            i <= turns.len(),
            s.wf(),
            old(s).wf(),
            turns_of_flows(old(s), turns@),
            beside_tcp(old(s), s),
            reports@.len() == i,
            forall|j: int|
                0 <= j < i ==> downlink_outcome(
                    old(s),
                    s,
                    turns@[j].id,
                    turns@[j].measured,
                    turns@[j].wanted,
                    turns@[j].side,
                    time,
                    #[trigger] reports@[j],
                ),
            forall|id: usize| #[trigger]
                old(s).tcp_conns@.dom().contains(id) && !has_turn(turns@.take(i as int), id)
                    ==> flow_kept(old(s), s, id),
            backpressured <==> exists|j: int|
                0 <= j < reports@.len() && (#[trigger] reports@[j]).backpressured,
        decreases turns.len() - i,
    {
        let ghost mid = *s;
        let ghost before = reports@;
        let turn = turns[i];
        let id: usize = turn.id;
        proof {
            assert(old(s).tcp_conns@.dom().contains(turns@[i as int].id));
            assert(!has_turn(turns@.take(i as int), id)) by {
                if has_turn(turns@.take(i as int), id) {
                    let j = choose|j: int|
                        0 <= j < i && (#[trigger] turns@.take(i as int)[j]).id == id;
                    assert(turns@[j].id == turns@[i as int].id);
                }
            }
            assert(flow_kept(old(s), &mid, id));
        }
        let report = downlink_flow(s, id, turn.measured, turn.wanted, turn.side, time);
        if report.backpressured {
            backpressured = true;
        }
        reports.push(report);
        proof {
            beside_tcp_stays(old(s), &mid, s, id);
            assert forall|j: int| 0 <= j < i + 1 implies downlink_outcome(
                old(s),
                s,
                turns@[j].id,
                turns@[j].measured,
                turns@[j].wanted,
                turns@[j].side,
                time,
                #[trigger] reports@[j],
            ) by {
                if j < i {
                    assert(before[j] == reports@[j]);
                    assert(turns@[j].id != turns@[i as int].id);
                    downlink_outcome_stays(old(s), &mid, s, turns@[j], time, reports@[j], id);
                } else {
                    downlink_of_kept(old(s), &mid, s, turns@[j], time, reports@[j]);
                }
            }
            assert forall|x: usize| #[trigger]
                old(s).tcp_conns@.dom().contains(x) && !has_turn(
                    turns@.take(i + 1),
                    x,
                ) implies flow_kept(old(s), s, x) by {
                assert(turns@.take(i + 1)[i as int].id == id);
                assert(!has_turn(turns@.take(i as int), x)) by {
                    if has_turn(turns@.take(i as int), x) {
                        let j = choose|j: int|
                            0 <= j < i && (#[trigger] turns@.take(i as int)[j]).id == x;
                        assert(turns@.take(i + 1)[j].id == x);
                    }
                }
                flow_now_stays(
                    old(s),
                    &mid,
                    s,
                    x,
                    id,
                    old(s).tcp_conns@[x]@,
                    tcp_at(old(s).sockets, old(s).tcp_conns@[x].handle),
                );
            }
            assert(forall|j: int| 0 <= j < before.len() ==> before[j] == reports@[j]);
            assert(reports@[i as int] == report);
        }
        i = i + 1;
    }
    assert(turns@.take(i as int) =~= turns@);
    (reports, backpressured)
}

/// Serving one flow keeps the outcome of another.
proof fn downlink_outcome_stays(
    was: &NetStack,
    mid: &NetStack,
    now: &NetStack,
    turn: Turn,
    time: u64,
    report: DownlinkReport,
    served: usize,
)
    requires
        mid.wf(),
        downlink_outcome(
            was,
            mid,
            turn.id,
            turn.measured,
            turn.wanted,
            turn.side,
            time,
            report,
        ),
        mid.tcp_conns@.dom().contains(served),
        only_flow(mid, now, served),
        turn.id != served,
    ensures
        downlink_outcome(
            was,
            now,
            turn.id,
            turn.measured,
            turn.wanted,
            turn.side,
            time,
            report,
        ),
{
    let f = was.tcp_conns@[turn.id]@;
    let v = tcp_at(was.sockets, was.tcp_conns@[turn.id].handle);
    let (g, w) = choose|g: FlowView, w: TcpView|
        {
            &&& #[trigger] downlinked(
                f,
                g,
                v,
                w,
                turn.measured,
                turn.wanted,
                was.tuning.netstack_tcp_tx_buf,
                turn.side,
                time,
                was.tcp_limits.orphan_linger,
                report,
            )
            &&& report.reaped ==> flow_gone(was, mid, turn.id)
            &&& !report.reaped ==> flow_now(was, mid, turn.id, g, w)
        };
    if report.reaped {
        flow_gone_stays(was, mid, now, turn.id, served);
    } else {
        flow_now_stays(was, mid, now, turn.id, served, g, w);
    }
}

/// The outcome for a flow that nothing had touched before its turn.
proof fn downlink_of_kept(
    was: &NetStack,
    mid: &NetStack,
    now: &NetStack,
    turn: Turn,
    time: u64,
    report: DownlinkReport,
)
    requires
        flow_kept(was, mid, turn.id),
        mid.same_setup(was),
        downlink_outcome(
            mid,
            now,
            turn.id,
            turn.measured,
            turn.wanted,
            turn.side,
            time,
            report,
        ),
    ensures
        downlink_outcome(
            was,
            now,
            turn.id,
            turn.measured,
            turn.wanted,
            turn.side,
            time,
            report,
        ),
{
    let f = mid.tcp_conns@[turn.id]@;
    let v = tcp_at(mid.sockets, mid.tcp_conns@[turn.id].handle);
    let (g, w) = choose|g: FlowView, w: TcpView|
        {
            &&& #[trigger] downlinked(
                f,
                g,
                v,
                w,
                turn.measured,
                turn.wanted,
                mid.tuning.netstack_tcp_tx_buf,
                turn.side,
                time,
                mid.tcp_limits.orphan_linger,
                report,
            )
            &&& report.reaped ==> flow_gone(mid, now, turn.id)
            &&& !report.reaped ==> flow_now(mid, now, turn.id, g, w)
        };
    assert(downlinked(
        f,
        g,
        v,
        w,
        turn.measured,
        turn.wanted,
        was.tuning.netstack_tcp_tx_buf,
        turn.side,
        time,
        was.tcp_limits.orphan_linger,
        report,
    ));
}

} // verus!
