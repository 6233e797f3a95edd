//! Resetting flows whose peer is gone.

use vstd::prelude::*;

use super::backlog::Backlog;
#[allow(unused_imports)]
use super::backlog::{the_others_wait, waits, without, without_both};
use super::flow::{elapsed_nanos, TCP_DRAIN_STALL_TIMEOUT, TCP_WEDGE_TIMEOUT};
#[allow(unused_imports)]
use super::flow::{elapsed, reset_view, FlowView};
use super::keys::{key_list, member_list};
#[allow(unused_imports)]
use super::keys::{contains_after_push, lists, next_in_list, pushed_to_list};
#[allow(unused_imports)]
use super::sockets::{has_tcp, sockets_of, tcp_at, SocketView, TcpPhase, TcpView};
use super::stack::NetStack;
#[allow(unused_imports)]
use super::stack::{one_flow_changed, same_handles, DataView};

verus! {

broadcast use vstd::std_specs::hash::group_hash_axioms;

/// A flow that holds queued bytes of which nothing has been acknowledged for
/// [`TCP_DRAIN_STALL_TIMEOUT`].
pub open spec fn peer_is_gone(f: FlowView, now: u64) -> bool {
    f.send_queue_high > 0 && elapsed(f.last_drain, now) >= TCP_DRAIN_STALL_TIMEOUT
}

/// A flow that has taken nothing for [`TCP_WEDGE_TIMEOUT`].
pub open spec fn takes_nothing(f: FlowView, now: u64) -> bool {
    elapsed(f.last_progress, now) >= TCP_WEDGE_TIMEOUT
}

/// The flows whose peer acknowledges nothing.
pub open spec fn dead_flows(flows: Map<usize, FlowView>, now: u64) -> Set<usize> {
    Set::new(|id: usize| flows.dom().contains(id) && peer_is_gone(flows[id], now))
}

/// The flows with data waiting that are gone or take nothing.
pub open spec fn wedged_flows(
    flows: Map<usize, FlowView>,
    q: Seq<DataView>,
    now: u64,
) -> Set<usize> {
    Set::new(
        |id: usize|
            waits(q, id) && (flows.dom().contains(id) ==> takes_nothing(flows[id], now)),
    )
}

/// The flows with these of them reset.
pub open spec fn with_resets(flows: Map<usize, FlowView>, gone: Set<usize>) -> Map<
    usize,
    FlowView,
> {
    Map::new(
        |id: usize| flows.dom().contains(id),
        |id: usize|
            if gone.contains(id) {
                reset_view(flows[id])
            } else {
                flows[id]
            },
    )
}

/// Whether the socket belongs to one of these flows.
pub open spec fn socket_of_one(
    s: &NetStack,
    gone: Set<usize>,
    h: smoltcp::iface::SocketHandle,
) -> bool {
    exists|id: usize|
        gone.contains(id) && s.tcp_conns@.dom().contains(id) && (#[trigger] s.tcp_conns@[id]).handle
            == h
}

/// The sockets of these flows are aborted and no other is touched.
pub open spec fn sockets_reset(was: &NetStack, now: &NetStack, gone: Set<usize>) -> bool {
    &&& sockets_of(now.sockets).dom() == sockets_of(was.sockets).dom()
    &&& forall|h: smoltcp::iface::SocketHandle| #[trigger]
        sockets_of(was.sockets).dom().contains(h) ==> sockets_of(now.sockets)[h] == (
        if socket_of_one(was, gone, h) {
            SocketView::Tcp(TcpView { phase: TcpPhase::Closed, ..tcp_at(was.sockets, h) })
        } else {
            sockets_of(was.sockets)[h]
        })
}

/// Whether resetting exactly these flows took the stack from `was` to `now`.
pub open spec fn resets(was: &NetStack, now: &NetStack, gone: Set<usize>) -> bool {
    &&& now.same_setup(was)
    &&& now.device == was.device
    &&& now.udp_conns == was.udp_conns
    &&& same_handles(was, now)
    &&& now.flows() == with_resets(was.flows(), gone)
    &&& sockets_reset(was, now, gone)
}

/// Resets one flow.
fn reset_flow(s: &mut NetStack, id: usize)
    requires
        old(s).wf(),
        old(s).tcp_conns@.dom().contains(id),
    ensures
        final(s).wf(),
        resets(old(s), final(s), set![id]),
{
    let ghost was = *s;
    if let Some(st) = s.tcp_conns.remove(&id) {
        let mut st = st;
        st.reset(&mut s.sockets);
        s.tcp_conns.insert(id, st);
        proof {
            one_flow_changed(&was, s, id);
            assert(s.flows() =~= with_resets(was.flows(), set![id]));
            assert(sockets_of(s.sockets).dom() =~= sockets_of(was.sockets).dom());
            let h = was.tcp_conns@[id].handle;
            assert(socket_of_one(&was, set![id], h));
        }
    }
}

proof fn resets_compose(a: &NetStack, b: &NetStack, c: &NetStack, first: Set<usize>, then: Set<usize>)
    requires
        a.wf(),
        b.wf(),
        resets(a, b, first),
        resets(b, c, then),
    ensures
        resets(a, c, first.union(then)),
{
    assert(c.flows() =~= with_resets(a.flows(), first.union(then)));
    assert forall|h: smoltcp::iface::SocketHandle| #[trigger]
        sockets_of(a.sockets).dom().contains(h) implies sockets_of(c.sockets)[h] == (
    if socket_of_one(a, first.union(then), h) {
        SocketView::Tcp(TcpView { phase: TcpPhase::Closed, ..tcp_at(a.sockets, h) })
    } else {
        sockets_of(a.sockets)[h]
    }) by {
        assert(sockets_of(b.sockets).dom().contains(h));
        if socket_of_one(a, first, h) {
            let id = choose|id: usize|
                first.contains(id) && a.tcp_conns@.dom().contains(id) && (
                #[trigger] a.tcp_conns@[id]).handle == h;
            assert(first.union(then).contains(id));
            assert(socket_of_one(a, first.union(then), h));
        }
        if socket_of_one(b, then, h) {
            let id = choose|id: usize|
                then.contains(id) && b.tcp_conns@.dom().contains(id) && (
                #[trigger] b.tcp_conns@[id]).handle == h;
            assert(a.tcp_conns@[id].handle == h);
            assert(first.union(then).contains(id));
            assert(socket_of_one(a, first.union(then), h));
            assert(has_tcp(a.sockets, h));
        }
        if socket_of_one(a, first.union(then), h) {
            let id = choose|id: usize|
                first.union(then).contains(id) && a.tcp_conns@.dom().contains(id) && (
                #[trigger] a.tcp_conns@[id]).handle == h;
            assert(b.tcp_conns@[id].handle == h);
            if first.contains(id) {
                assert(socket_of_one(a, first, h));
            } else {
                assert(socket_of_one(b, then, h));
            }
        }
    }
}

proof fn nothing_reset(s: &NetStack)
    ensures
        resets(s, s, Set::empty()),
{
    assert(s.flows() =~= with_resets(s.flows(), Set::empty()));
}

/// Resets these flows and drops what waits for them.
fn reset_listed(s: &mut NetStack, backlog: &mut Backlog, ids: &Vec<usize>)
    requires
        old(s).wf(),
        old(backlog).wf(),
    ensures
        final(s).wf(),
        final(backlog).wf(),
        resets(old(s), final(s), ids@.to_set()),
        final(backlog).queued() == without(old(backlog).queued(), ids@.to_set()),
{
    let ghost q0 = backlog.queued();
    proof {
        nothing_reset(s);
        without_none(q0);
        assert(ids@.take(0).to_set() =~= Set::<usize>::empty());
    }
    let mut i: usize = 0;
    while i < ids.len()
        invariant
            i <= ids.len(),
            old(s).wf(),
            s.wf(),
            backlog.wf(),
            resets(old(s), s, ids@.take(i as int).to_set()),
            backlog.queued() == without(q0, ids@.take(i as int).to_set()),
        decreases ids.len() - i,
    {
        let id: usize = ids[i];
        let ghost before = ids@.take(i as int);
        let ghost mid = *s;
        if s.tcp_conns.contains_key(&id) {
            reset_flow(s, id);
        } else {
            proof {
                no_such_flow(s, id);
            }
        }
        backlog.purge(id);
        proof {
            resets_compose(old(s), &mid, s, before.to_set(), set![id]);
            without_both(q0, before.to_set(), set![id]);
            assert(ids@.take(i + 1) =~= before.push(id));
            assert forall|x: usize|
                ids@.take(i + 1).to_set().contains(x) <==> before.to_set().union(
                    set![id],
                ).contains(x) by {
                contains_after_push(before, id, x);
            }
            assert(ids@.take(i + 1).to_set() =~= before.to_set().union(set![id]));
        }
        i = i + 1;
    }
    assert(ids@.take(i as int) =~= ids@);
}

/// The flows whose peer acknowledges nothing.
fn dead_list(s: &NetStack, now: u64) -> (r: Vec<usize>)
    ensures
        lists(r@, dead_flows(s.flows(), now)),
{
    let ids = key_list(&s.tcp_conns);
    let mut found: Vec<usize> = Vec::new();
    let mut i: usize = 0;
    while i < ids.len()
        invariant
            i <= ids.len(),
            lists(ids@, s.tcp_conns@.dom()),
            found@.no_duplicates(),
            forall|id: usize| #[trigger]
                found@.contains(id) <==> dead_flows(s.flows(), now).contains(id) && ids@.take(
                    i as int,
                ).contains(id),
        decreases ids.len() - i,
    {
        let id: usize = ids[i];
        let ghost before = found@;
        proof {
            next_in_list(ids@, i as int);
            assert(ids@.contains(id));
        }
        if let Some(st) = s.tcp_conns.get(&id) {
            if st.send_queue_high > 0 && elapsed_nanos(st.last_drain, now)
                >= TCP_DRAIN_STALL_TIMEOUT {
                found.push(id);
                proof {
                    pushed_to_list(before, id);
                }
            }
        }
        i = i + 1;
    }
    assert(ids@.take(i as int) =~= ids@);
    found
}

/// The flows with data waiting that are gone or take nothing.
fn wedged_list(s: &NetStack, backlog: &Backlog, now: u64) -> (r: Vec<usize>)
    requires
        backlog.wf(),
    ensures
        lists(r@, wedged_flows(s.flows(), backlog.queued(), now)),
{
    let ids = member_list(&backlog.blocked);
    let ghost wedged = wedged_flows(s.flows(), backlog.queued(), now);
    let mut found: Vec<usize> = Vec::new();
    let mut i: usize = 0;
    while i < ids.len()
        invariant
            i <= ids.len(),
            backlog.wf(),
            wedged == wedged_flows(s.flows(), backlog.queued(), now),
            lists(ids@, backlog.blocked@),
            found@.no_duplicates(),
            forall|id: usize| #[trigger]
                found@.contains(id) <==> wedged.contains(id) && ids@.take(i as int).contains(id),
        decreases ids.len() - i,
    {
        let id: usize = ids[i];
        let ghost before = found@;
        proof {
            next_in_list(ids@, i as int);
            assert(ids@.contains(id));
            assert(backlog.blocked@.contains(id));
        }
        let wedged_now = match s.tcp_conns.get(&id) {
            Some(st) => elapsed_nanos(st.last_progress, now) >= TCP_WEDGE_TIMEOUT,
            None => true,
        };
        if wedged_now {
            found.push(id);
            proof {
                pushed_to_list(before, id);
            }
        }
        i = i + 1;
    }
    proof {
        assert forall|id: usize| wedged.contains(id) implies ids@.contains(id) by {
            assert(backlog.blocked@.contains(id));
        }
    }
    assert(ids@.take(i as int) =~= ids@);
    found
}

/// Whether resetting what is dead or wedged took the stack and what waits from
/// the first state to the last, with these two groups.
pub open spec fn reaped(
    was: &NetStack,
    was_waiting: Seq<DataView>,
    time: u64,
    now: &NetStack,
    now_waiting: Seq<DataView>,
    r: (Seq<usize>, Seq<usize>),
) -> bool {
    let dead = dead_flows(was.flows(), time);
    let wedged = wedged_flows(was.flows(), was_waiting, time).difference(dead);
    &&& lists(r.0, dead)
    &&& lists(r.1, wedged)
    &&& resets(was, now, dead.union(wedged))
    &&& now_waiting == without(was_waiting, dead.union(wedged))
}

/// Resets the flows whose peer acknowledges nothing, and then those with data
/// still waiting that are gone or take nothing. What waits for them is dropped.
/// Returns the two groups.
pub fn reap_wedged(s: &mut NetStack, backlog: &mut Backlog, now: u64) -> (r: (
    Vec<usize>,
    Vec<usize>,
))
    requires
        old(s).wf(),
        old(backlog).wf(),
    ensures
        final(s).wf(),
        final(backlog).wf(),
        reaped(
            old(s),
            old(backlog).queued(),
            now,
            final(s),
            final(backlog).queued(),
            (r.0@, r.1@),
        ),
{
    let ghost q0 = backlog.queued();
    let ghost dead = dead_flows(s.flows(), now);
    let stalled = dead_list(s, now);
    assert(stalled@.to_set() =~= dead);
    reset_listed(s, backlog, &stalled);
    let ghost mid = *s;
    let ghost q1 = backlog.queued();
    let wedged = wedged_list(s, backlog, now);
    proof {
        the_others_wait(q0, dead);
        assert(wedged_flows(mid.flows(), q1, now) =~= wedged_flows(
            old(s).flows(),
            q0,
            now,
        ).difference(dead));
        assert(wedged@.to_set() =~= wedged_flows(mid.flows(), q1, now));
    }
    reset_listed(s, backlog, &wedged);
    proof {
        resets_compose(old(s), &mid, s, dead, wedged@.to_set());
        without_both(q0, dead, wedged@.to_set());
    }
    (stalled, wedged)
}

/// Resetting a flow that is not there changes nothing.
proof fn no_such_flow(s: &NetStack, id: usize)
    requires
        !s.tcp_conns@.dom().contains(id),
    ensures
        resets(s, s, set![id]),
{
    assert(s.flows() =~= with_resets(s.flows(), set![id]));
}

proof fn without_none(q: Seq<DataView>)
    ensures
        without(q, Set::empty()) == q,
    decreases q.len(),
{
    if q.len() > 0 {
        without_none(q.drop_last());
        assert(q.drop_last().push(q.last()) =~= q);
    }
}

/// A flow that is reset has nothing pending, its writer is released, its socket
/// is closed and nothing waits for it any more. It is one that held bytes without
/// a sign of life for eight seconds, or one for which data waits and that took
/// nothing for half a minute.
pub proof fn a_flow_is_reset_for_cause(
    was: &NetStack,
    was_waiting: Seq<DataView>,
    time: u64,
    now: &NetStack,
    now_waiting: Seq<DataView>,
    r: (Seq<usize>, Seq<usize>),
    id: usize,
)
    requires
        was.wf(),
        reaped(was, was_waiting, time, now, now_waiting, r),
        was.tcp_conns@.dom().contains(id),
    ensures
        ({
            let f = was.tcp_conns@[id]@;
            let h = was.tcp_conns@[id].handle;
            let silent = f.send_queue_high > 0 && f.last_drain + 8_000_000_000 <= time;
            let stuck = waits(was_waiting, id) && f.last_progress + 30_000_000_000 <= time;
            &&& r.0.contains(id) <==> silent
            &&& r.1.contains(id) <==> stuck && !silent
            &&& silent || stuck ==> {
                &&& now.tcp_conns@[id]@.pending.len() == 0
                &&& now.tcp_conns@[id]@.credit.closed
                &&& tcp_at(now.sockets, h).phase is Closed
                &&& !waits(now_waiting, id)
            }
            &&& !silent && !stuck ==> {
                &&& now.tcp_conns@[id]@ == f
                &&& tcp_at(now.sockets, h) == tcp_at(was.sockets, h)
                &&& waits(now_waiting, id) == waits(was_waiting, id)
            }
        }),
{
    let f = was.tcp_conns@[id]@;
    let h = was.tcp_conns@[id].handle;
    let dead = dead_flows(was.flows(), time);
    let wedged = wedged_flows(was.flows(), was_waiting, time).difference(dead);
    let gone = dead.union(wedged);
    assert(was.flows()[id] == f);
    assert(was.flows().dom().contains(id));
    the_others_wait(was_waiting, gone);
    assert(now.flows()[id] == with_resets(was.flows(), gone)[id]);
    assert(now.flows()[id] == now.tcp_conns@[id]@);
    assert(has_tcp(was.sockets, h));
    assert(sockets_of(was.sockets).dom().contains(h));
    assert(dead.contains(id) <==> r.0.contains(id)) by {
        assert(r.0.to_set().contains(id) <==> r.0.contains(id));
    }
    assert(wedged.contains(id) <==> r.1.contains(id)) by {
        assert(r.1.to_set().contains(id) <==> r.1.contains(id));
    }
    if gone.contains(id) {
        assert(socket_of_one(was, gone, h));
    } else if socket_of_one(was, gone, h) {
        let other = choose|other: usize|
            gone.contains(other) && was.tcp_conns@.dom().contains(other) && (
            #[trigger] was.tcp_conns@[other]).handle == h;
        assert(was.tcp_conns@[id].handle == h);
    }
}

} // verus!
