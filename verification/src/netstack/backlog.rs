//! Data that a flow could not take yet.
//!
//! The queue is one, but ordered for each flow: while a flow has anything
//! waiting, everything else for that flow queues behind it, and every other
//! flow is served.

use std::collections::HashSet;
use std::collections::VecDeque;
use vstd::prelude::*;

#[allow(unused_imports)]
use super::flow::FlowView;
#[allow(unused_imports)]
use super::sockets::{has_tcp, has_udp, tcp_at};
use super::stack::{data_in_bytes, data_in_id, try_handle_data, DataIn, NetStack};
#[allow(unused_imports)]
use super::stack::{
    offered,
    pending_limit,
    refused,
    same_handles,
    udp_offered,
    DataView,
};

verus! {

broadcast use vstd::std_specs::hash::group_hash_axioms;

/// How much may wait before no more is accepted from the applications.
pub const MAX_BACKLOG_BYTES: usize = 524288;

pub struct Backlog {
    pub queue: VecDeque<DataIn>,
    /// The flows that have something waiting.
    pub blocked: HashSet<usize>,
    pub bytes: usize,
}

/// Whether something waits for the flow.
pub open spec fn waits(q: Seq<DataView>, id: usize) -> bool {
    exists|i: int| 0 <= i < q.len() && (#[trigger] q[i]).id() == id
}

/// The bytes that wait.
pub open spec fn bytes_of(q: Seq<DataView>) -> nat
    decreases q.len(),
{
    if q.len() == 0 {
        0
    } else {
        bytes_of(q.drop_last()) + q.last().size()
    }
}

/// The number as a `usize`, or the largest one.
pub open spec fn capped(n: nat) -> usize {
    if n <= usize::MAX {
        n as usize
    } else {
        usize::MAX
    }
}

/// What waits for other flows than these, in order.
pub open spec fn without(q: Seq<DataView>, ids: Set<usize>) -> Seq<DataView>
    decreases q.len(),
{
    if q.len() == 0 {
        Seq::empty()
    } else if ids.contains(q.last().id()) {
        without(q.drop_last(), ids)
    } else {
        without(q.drop_last(), ids).push(q.last())
    }
}

/// The flows and what still waits after one pass over the queue: each entry is
/// offered to its flow unless an earlier one for that flow was refused.
pub open spec fn drained(
    flows: Map<usize, FlowView>,
    q: Seq<DataView>,
    max: nat,
) -> (Map<usize, FlowView>, Seq<DataView>)
    decreases q.len(),
{
    if q.len() == 0 {
        (flows, Seq::empty())
    } else {
        let (served, kept) = drained(flows, q.drop_last(), max);
        let d = q.last();
        if waits(kept, d.id()) {
            (served, kept.push(d))
        } else {
            match refused(served, d, max) {
                Some(back) => (offered(served, d, max), kept.push(back)),
                None => (offered(served, d, max), kept),
            }
        }
    }
}

proof fn waits_after_push(q: Seq<DataView>, d: DataView)
    ensures
        forall|id: usize| #[trigger] waits(q.push(d), id) <==> waits(q, id) || d.id() == id,
{
    assert forall|id: usize| #[trigger] waits(q.push(d), id) <==> waits(q, id) || d.id() == id by {
        if waits(q, id) {
            let i = choose|i: int| 0 <= i < q.len() && (#[trigger] q[i]).id() == id;
            assert(q.push(d)[i] == q[i]);
        }
        if d.id() == id {
            assert(q.push(d)[q.len() as int] == d);
        }
        if waits(q.push(d), id) {
            let i = choose|i: int| 0 <= i < q.push(d).len() && (#[trigger] q.push(d)[i]).id() == id;
            if i < q.len() {
                assert(q[i].id() == id);
            }
        }
    }
}

/// What is left after a removal waits for exactly the flows that were not
/// removed.
pub proof fn the_others_wait(q: Seq<DataView>, gone: Set<usize>)
    ensures
        forall|id: usize| #[trigger]
            waits(without(q, gone), id) <==> waits(q, id) && !gone.contains(id),
    decreases q.len(),
{
    if q.len() > 0 {
        the_others_wait(q.drop_last(), gone);
        assert(q =~= q.drop_last().push(q.last()));
        waits_after_push(q.drop_last(), q.last());
        waits_after_push(without(q.drop_last(), gone), q.last());
    }
}

/// Removing some flows and then others removes them all.
pub(crate) proof fn without_both(q: Seq<DataView>, a: Set<usize>, b: Set<usize>)
    ensures
        without(without(q, a), b) == without(q, a.union(b)),
    decreases q.len(),
{
    if q.len() > 0 {
        without_both(q.drop_last(), a, b);
        let w = without(q.drop_last(), a);
        assert(w.push(q.last()).drop_last() =~= w);
    }
}

impl Backlog {
    /// What waits, in order.
    pub open spec fn queued(&self) -> Seq<DataView> {
        self.queue@.map_values(|d: DataIn| d@)
    }

    /// The set of blocked flows and the count of bytes are those of the queue.
    pub open spec fn wf(&self) -> bool {
        &&& forall|id: usize| #[trigger] self.blocked@.contains(id) <==> waits(self.queued(), id)
        &&& self.bytes == capped(bytes_of(self.queued()))
    }

    pub fn new() -> (r: Self)
        ensures
            r.wf(),
            r.queued() == Seq::<DataView>::empty(),
    {
        let r = Backlog { queue: VecDeque::new(), blocked: HashSet::new(), bytes: 0 };
        assert(r.queued() =~= Seq::<DataView>::empty());
        r
    }

    pub fn is_empty(&self) -> (r: bool)
        ensures
            r == (self.queued().len() == 0),
    {
        self.queue.len() == 0
    }

    pub fn holds(&self, id: usize) -> (r: bool)
        requires
            self.wf(),
        ensures
            r == waits(self.queued(), id),
    {
        self.blocked.contains(&id)
    }

    /// Queues the data behind everything else.
    pub fn push(&mut self, d: DataIn)
        requires
            old(self).wf(),
        ensures
            final(self).wf(),
            final(self).queued() == old(self).queued().push(d@),
    {
        let ghost before = self.queued();
        let ghost v = d@;
        self.bytes = self.bytes.saturating_add(data_in_bytes(&d));
        self.blocked.insert(data_in_id(&d));
        self.queue.push_back(d);
        proof {
            assert(self.queued() =~= before.push(v));
            assert(before.push(v).drop_last() =~= before);
            waits_after_push(before, v);
        }
    }

    /// Drops everything that waits for the flow.
    pub fn purge(&mut self, id: usize)
        requires
            old(self).wf(),
        ensures
            final(self).wf(),
            final(self).queued() == without(old(self).queued(), set![id]),
    {
        let ghost before = self.queued();
        let mut kept: VecDeque<DataIn> = VecDeque::new();
        let mut bytes: usize = 0;
        let ghost mut done: int = 0;
        while self.queue.len() > 0
            invariant
                0 <= done <= before.len(),
                self.queued() == before.skip(done),
                self.blocked@ == old(self).blocked@,
                kept@.map_values(|d: DataIn| d@) == without(before.take(done), set![id]),
                bytes == capped(bytes_of(without(before.take(done), set![id]))),
            decreases self.queue@.len(),
        {
            let ghost q = self.queued();
            let ghost held = self.queue@;
            assert(q.len() == held.len() && q.len() == before.len() - done);
            if let Some(d) = self.queue.pop_front() {
                proof {
                    assert(q[0] == before[done]);
                    assert(self.queue@ =~= held.skip(1));
                    assert forall|i: int| 0 <= i < self.queue@.len() implies self.queued()[i]
                        == before.skip(done + 1)[i] by {
                        assert(self.queued()[i] == q[i + 1]);
                    }
                    assert(self.queued() =~= before.skip(done + 1));
                    assert(before.take(done + 1).drop_last() =~= before.take(done));
                }
                if data_in_id(&d) != id {
                    let ghost k = kept@.map_values(|d: DataIn| d@);
                    let ghost v = d@;
                    bytes = bytes.saturating_add(data_in_bytes(&d));
                    kept.push_back(d);
                    assert(kept@.map_values(|d: DataIn| d@) =~= k.push(v));
                    assert(k.push(v).drop_last() =~= k);
                }
                proof {
                    done = done + 1;
                }
            }
        }
        assert(before.take(done) =~= before);
        self.queue = kept;
        self.blocked.remove(&id);
        self.bytes = bytes;
        proof {
            the_others_wait(before, set![id]);
        }
    }
}

/// The sockets of the TCP flows are as they were, and no UDP flow appeared.
pub open spec fn tcp_sockets_kept(was: &NetStack, now: &NetStack) -> bool {
    &&& forall|h: smoltcp::iface::SocketHandle|
        has_tcp(was.sockets, h) ==> has_tcp(now.sockets, h) && #[trigger] tcp_at(now.sockets, h)
            == tcp_at(was.sockets, h)
    &&& now.udp_conns@.submap_of(was.udp_conns@)
}

/// What two steps keep, they keep together.
pub(crate) proof fn tcp_sockets_stay_kept(was: &NetStack, mid: &NetStack, now: &NetStack)
    requires
        tcp_sockets_kept(was, mid),
        tcp_sockets_kept(mid, now),
    ensures
        tcp_sockets_kept(was, now),
{
    assert forall|h: smoltcp::iface::SocketHandle| has_tcp(was.sockets, h) implies has_tcp(
        now.sockets,
        h,
    ) && #[trigger] tcp_at(now.sockets, h) == tcp_at(was.sockets, h) by {
        assert(tcp_at(mid.sockets, h) == tcp_at(was.sockets, h));
    }
    submaps_of_submaps(was.udp_conns@, mid.udp_conns@, now.udp_conns@);
}

proof fn submaps_of_submaps<K, V>(a: Map<K, V>, b: Map<K, V>, c: Map<K, V>)
    requires
        b.submap_of(a),
        c.submap_of(b),
    ensures
        c.submap_of(a),
{
    assert forall|k: K| #[trigger] c.dom().contains(k) implies #[trigger] a.dom().contains(k)
        && c[k] == a[k] by {
        assert(b.dom().contains(k));
        assert(a.dom().contains(k));
    }
}

proof fn offering_keeps_tcp_sockets(was: &NetStack, now: &NetStack, d: DataView)
    requires
        was.wf(),
        udp_offered(was, now, d),
    ensures
        tcp_sockets_kept(was, now),
{
    assert forall|h: smoltcp::iface::SocketHandle| has_tcp(was.sockets, h) implies has_tcp(
        now.sockets,
        h,
    ) && #[trigger] tcp_at(now.sockets, h) == tcp_at(was.sockets, h) by {
        if let DataView::UdpClose(id) = d {
            if was.udp_conns@.dom().contains(id) {
                assert(has_udp(was.sockets, was.udp_conns@[id].handle));
            }
        }
        if let DataView::Udp(id, _, _) = d {
            if was.udp_conns@.dom().contains(id) {
                assert(has_udp(was.sockets, was.udp_conns@[id].handle));
            }
        }
    }
}

/// Whether placing one piece of data took the stack and what waits from one
/// state to the other: it queues behind what waits for its flow, or else is
/// offered to the flow, and what the flow refuses is queued.
pub open spec fn ingested(
    was: &NetStack,
    was_waiting: Seq<DataView>,
    now: &NetStack,
    now_waiting: Seq<DataView>,
    d: DataView,
) -> bool {
    &&& now.same_setup(was)
    &&& now.device == was.device
    &&& same_handles(was, now)
    &&& waits(was_waiting, d.id()) ==> {
        &&& *now == *was
        &&& now_waiting == was_waiting.push(d)
    }
    &&& !waits(was_waiting, d.id()) ==> {
        let max = pending_limit(was.tuning) as nat;
        &&& now.flows() == offered(was.flows(), d, max)
        &&& udp_offered(was, now, d)
        &&& now_waiting == match refused(was.flows(), d, max) {
            Some(back) => was_waiting.push(back),
            None => was_waiting,
        }
    }
}

/// Whether a row of data was placed, one piece after the other.
pub open spec fn all_ingested(
    states: Seq<NetStack>,
    waiting: Seq<Seq<DataView>>,
    data: Seq<DataView>,
) -> bool {
    &&& states.len() == data.len() + 1
    &&& waiting.len() == data.len() + 1
    &&& forall|i: int|
        0 <= i < data.len() ==> ingested(
            &states[i],
            waiting[i],
            &states[i + 1],
            waiting[i + 1],
            #[trigger] data[i],
        )
}

/// Whether placing this data, one piece after the other, leads from one state to
/// the other.
pub open spec fn placed(
    was: &NetStack,
    was_waiting: Seq<DataView>,
    now: &NetStack,
    now_waiting: Seq<DataView>,
    data: Seq<DataView>,
) -> bool {
    exists|states: Seq<NetStack>, waiting: Seq<Seq<DataView>>|
        {
            &&& states.first() == *was
            &&& waiting.first() == was_waiting
            &&& states.last() == *now
            &&& waiting.last() == now_waiting
            &&& #[trigger] all_ingested(states, waiting, data)
        }
}

pub(crate) proof fn nothing_placed(s: &NetStack, q: Seq<DataView>)
    ensures
        placed(s, q, s, q, Seq::empty()),
{
    assert(all_ingested(seq![*s], seq![q], Seq::empty()));
}

pub(crate) proof fn one_more_placed(
    was: &NetStack,
    was_waiting: Seq<DataView>,
    mid: &NetStack,
    mid_waiting: Seq<DataView>,
    now: &NetStack,
    now_waiting: Seq<DataView>,
    data: Seq<DataView>,
    d: DataView,
)
    requires
        placed(was, was_waiting, mid, mid_waiting, data),
        ingested(mid, mid_waiting, now, now_waiting, d),
    ensures
        placed(was, was_waiting, now, now_waiting, data.push(d)),
{
    let (states, waiting) = choose|states: Seq<NetStack>, waiting: Seq<Seq<DataView>>|
        {
            &&& states.first() == *was
            &&& waiting.first() == was_waiting
            &&& states.last() == *mid
            &&& waiting.last() == mid_waiting
            &&& #[trigger] all_ingested(states, waiting, data)
        };
    let ss = states.push(*now);
    let ws = waiting.push(now_waiting);
    assert forall|i: int| 0 <= i < data.push(d).len() implies ingested(
        &ss[i],
        ws[i],
        &ss[i + 1],
        ws[i + 1],
        #[trigger] data.push(d)[i],
    ) by {
        assert(ss[i] == states[i] && ws[i] == waiting[i]);
        if i < data.len() {
            assert(data.push(d)[i] == data[i]);
            assert(ss[i + 1] == states[i + 1] && ws[i + 1] == waiting[i + 1]);
        }
    }
    assert(all_ingested(ss, ws, data.push(d)));
}

/// Places one piece of data, behind what already waits for the same flow.
pub fn ingest(s: &mut NetStack, backlog: &mut Backlog, d: DataIn)
    requires
        old(s).wf(),
        old(backlog).wf(),
    ensures
        final(s).wf(),
        final(backlog).wf(),
        ingested(old(s), old(backlog).queued(), final(s), final(backlog).queued(), d@),
        tcp_sockets_kept(old(s), final(s)),
{
    if backlog.holds(data_in_id(&d)) {
        backlog.push(d);
        return;
    }
    let ghost v = d@;
    let back = try_handle_data(s, d);
    proof {
        offering_keeps_tcp_sockets(old(s), s, v);
    }
    if let Some(back) = back {
        backlog.push(back);
    }
}

/// One pass over the backlog. A flow that refuses its head entry keeps the rest
/// of its own entries queued; every other flow is served.
pub fn drain_backlog(s: &mut NetStack, backlog: &mut Backlog)
    requires
        old(s).wf(),
        old(backlog).wf(),
    ensures
        final(s).wf(),
        final(backlog).wf(),
        final(s).same_setup(old(s)),
        final(s).device == old(s).device,
        same_handles(old(s), final(s)),
        tcp_sockets_kept(old(s), final(s)),
        placed(
            old(s),
            Seq::empty(),
            final(s),
            final(backlog).queued(),
            old(backlog).queued(),
        ),
        (final(s).flows(), final(backlog).queued()) == drained(
            old(s).flows(),
            old(backlog).queued(),
            pending_limit(old(s).tuning) as nat,
        ),
{
    let ghost flows = s.flows();
    let ghost max = pending_limit(s.tuning) as nat;
    let ghost before = backlog.queued();
    let ghost mut done: int = 0;
    let mut kept = Backlog::new();
    assert(before.skip(0) =~= before);
    assert(before.take(0) =~= Seq::<DataView>::empty());
    proof {
        nothing_placed(s, kept.queued());
    }
    while backlog.queue.len() > 0
        invariant
            0 <= done <= before.len(),
            s.wf(),
            kept.wf(),
            s.same_setup(old(s)),
            max == pending_limit(old(s).tuning) as nat,
            s.device == old(s).device,
            same_handles(old(s), s),
            tcp_sockets_kept(old(s), s),
            backlog.queued() == before.skip(done),
            (s.flows(), kept.queued()) == drained(flows, before.take(done), max),
            placed(old(s), Seq::empty(), s, kept.queued(), before.take(done)),
        decreases backlog.queue@.len(),
    {
        let ghost q = backlog.queued();
        let ghost held = backlog.queue@;
        assert(q.len() == held.len() && q.len() == before.len() - done);
        if let Some(d) = backlog.queue.pop_front() {
            proof {
                assert(q[0] == before[done]);
                assert(backlog.queue@ =~= held.skip(1));
                assert forall|i: int| 0 <= i < backlog.queue@.len() implies backlog.queued()[i]
                    == before.skip(done + 1)[i] by {
                    assert(backlog.queued()[i] == q[i + 1]);
                }
                assert(backlog.queued() =~= before.skip(done + 1));
                assert(before.take(done + 1).drop_last() =~= before.take(done));
                assert(before.take(done + 1).last() == d@);
            }
            let ghost mid = *s;
            let ghost mid_waiting = kept.queued();
            let ghost v = d@;
            ingest(s, &mut kept, d);
            proof {
                tcp_sockets_stay_kept(old(s), &mid, s);
                one_more_placed(
                    old(s),
                    Seq::empty(),
                    &mid,
                    mid_waiting,
                    s,
                    kept.queued(),
                    before.take(done),
                    v,
                );
                assert(before.take(done).push(v) =~= before.take(done + 1));
                done = done + 1;
            }
        }
    }
    assert(before.take(done) =~= before);
    *backlog = kept;
}

/// The bytes that this piece of data adds to the stream of a TCP flow.
pub open spec fn stream_bytes(d: DataView, id: usize) -> Seq<u8> {
    match d {
        DataView::Tcp(to, data) => if to == id {
            data
        } else {
            Seq::empty()
        },
        _ => Seq::empty(),
    }
}

/// The bytes that wait for a TCP flow, in order.
pub open spec fn waiting_bytes(q: Seq<DataView>, id: usize) -> Seq<u8>
    decreases q.len(),
{
    if q.len() == 0 {
        Seq::empty()
    } else {
        waiting_bytes(q.drop_last(), id) + stream_bytes(q.last(), id)
    }
}

/// Everything the application has handed to a TCP flow that its socket has not
/// taken: what the flow has pending, then what waits in the backlog.
pub open spec fn stream(flows: Map<usize, FlowView>, q: Seq<DataView>, id: usize) -> Seq<u8> {
    flows[id].pending + waiting_bytes(q, id)
}

proof fn nothing_waits(q: Seq<DataView>, id: usize)
    requires
        !waits(q, id),
    ensures
        waiting_bytes(q, id) == Seq::<u8>::empty(),
    decreases q.len(),
{
    if q.len() > 0 {
        assert forall|i: int| 0 <= i < q.drop_last().len() implies (#[trigger] q.drop_last()[i]).id()
            != id by {
            assert(q[i].id() != id);
        }
        nothing_waits(q.drop_last(), id);
        assert(q[q.len() - 1].id() != id);
        assert(waiting_bytes(q, id) =~= Seq::<u8>::empty());
    }
}

/// Offering data to a flow for which nothing waits extends its stream by
/// exactly that data, whether the flow takes it or it comes back to wait, and
/// leaves the stream of every other flow alone.
pub proof fn offering_extends_the_stream(
    flows: Map<usize, FlowView>,
    q: Seq<DataView>,
    d: DataView,
    max: nat,
    id: usize,
)
    requires
        flows.dom().contains(id),
        !waits(q, d.id()),
    ensures
        stream(
            offered(flows, d, max),
            match refused(flows, d, max) {
                Some(back) => q.push(back),
                None => q,
            },
            id,
        ) == stream(flows, q, id) + stream_bytes(d, id),
{
    let after = offered(flows, d, max);
    let left = match refused(flows, d, max) {
        Some(back) => q.push(back),
        None => q,
    };
    if let Some(back) = refused(flows, d, max) {
        assert(q.push(back).drop_last() =~= q);
        assert(waiting_bytes(left, id) == waiting_bytes(q, id) + stream_bytes(back, id));
    }
    if d.id() == id {
        nothing_waits(q, id);
    }
    assert(stream(after, left, id) =~= stream(flows, q, id) + stream_bytes(d, id));
}

/// Queueing data behind what waits for its flow extends the stream by exactly
/// that data.
pub proof fn queueing_extends_the_stream(
    flows: Map<usize, FlowView>,
    q: Seq<DataView>,
    d: DataView,
    id: usize,
)
    ensures
        stream(flows, q.push(d), id) == stream(flows, q, id) + stream_bytes(d, id),
{
    assert(q.push(d).drop_last() =~= q);
    assert(stream(flows, q.push(d), id) =~= stream(flows, q, id) + stream_bytes(d, id));
}

/// A pass over the backlog neither loses, repeats nor reorders a byte of any
/// TCP flow.
pub proof fn draining_keeps_the_stream(
    flows: Map<usize, FlowView>,
    q: Seq<DataView>,
    max: nat,
    id: usize,
)
    requires
        flows.dom().contains(id),
    ensures
        drained(flows, q, max).0.dom() == flows.dom(),
        stream(drained(flows, q, max).0, drained(flows, q, max).1, id) == stream(flows, q, id),
    decreases q.len(),
{
    if q.len() > 0 {
        let d = q.last();
        draining_keeps_the_stream(flows, q.drop_last(), max, id);
        let (served, kept) = drained(flows, q.drop_last(), max);
        assert(q =~= q.drop_last().push(d));
        queueing_extends_the_stream(flows, q.drop_last(), d, id);
        if waits(kept, d.id()) {
            queueing_extends_the_stream(served, kept, d, id);
        } else {
            offering_extends_the_stream(served, kept, d, max, id);
            assert(offered(served, d, max).dom() =~= served.dom());
        }
    } else {
        assert(drained(flows, q, max).1 =~= q);
    }
}

/// After a pass over the backlog, data of a TCP flow waits only if the flow
/// has as much pending as it may have.
pub proof fn only_full_flows_wait(
    flows: Map<usize, FlowView>,
    q: Seq<DataView>,
    max: nat,
    id: usize,
)
    requires
        flows.dom().contains(id),
        waits(drained(flows, q, max).1, id),
    ensures
        drained(flows, q, max).0[id].pending.len() >= max,
    decreases q.len(),
{
    if q.len() > 0 {
        let d = q.last();
        let (served, kept) = drained(flows, q.drop_last(), max);
        draining_keeps_the_stream(flows, q.drop_last(), max, id);
        waits_after_push(kept, d);
        if let Some(back) = refused(served, d, max) {
            waits_after_push(kept, back);
        }
        if waits(kept, id) {
            only_full_flows_wait(flows, q.drop_last(), max, id);
        }
    }
}

/// A flow that cannot take another byte does not hold up a flow that can: data
/// for a flow with room and nothing waiting goes to that flow at once and in
/// full, whatever waits for others.
pub proof fn a_full_flow_blocks_no_other(
    flows: Map<usize, FlowView>,
    q: Seq<DataView>,
    id: usize,
    data: Seq<u8>,
    max: nat,
)
    requires
        flows.dom().contains(id),
        !waits(q, id),
        flows[id].pending.len() < max,
        flows[id].pending.len() + data.len() <= max,
    ensures
        refused(flows, DataView::Tcp(id, data), max) is None,
        offered(flows, DataView::Tcp(id, data), max)[id].pending == flows[id].pending + data,
        forall|other: usize|
            flows.dom().contains(other) && other != id ==> #[trigger] offered(
                flows,
                DataView::Tcp(id, data),
                max,
            )[other] == flows[other],
{
}

/// Dropping what waits for some flows goes piece by piece: each piece for one of
/// them goes, and each other stays in its place.
pub proof fn dropping_goes_piece_by_piece(q: Seq<DataView>, d: DataView, ids: Set<usize>)
    ensures
        without(Seq::empty(), ids).len() == 0,
        ids.contains(d.id()) ==> without(q.push(d), ids) == without(q, ids),
        !ids.contains(d.id()) ==> without(q.push(d), ids) == without(q, ids).push(d),
{
    assert(q.push(d).drop_last() =~= q);
}

/// What waits is counted byte by byte, up to the largest count there is.
pub proof fn waiting_bytes_add_up(q: Seq<DataView>, id: usize, data: Seq<u8>)
    ensures
        bytes_of(Seq::empty()) == 0,
        bytes_of(q.push(DataView::Tcp(id, data))) == bytes_of(q) + data.len(),
        bytes_of(q.push(DataView::TcpClose(id))) == bytes_of(q),
        bytes_of(q) <= usize::MAX ==> capped(bytes_of(q)) == bytes_of(q),
        bytes_of(q) > usize::MAX ==> capped(bytes_of(q)) == usize::MAX,
{
    assert(q.push(DataView::Tcp(id, data)).drop_last() =~= q);
    assert(q.push(DataView::TcpClose(id)).drop_last() =~= q);
}

/// Data never overtakes data: where something waits for a flow, more for it goes
/// behind that and the flow is left alone; where nothing waits, it is offered to
/// the flow at once, and only what the flow has no room for waits.
pub proof fn data_never_overtakes(
    was: &NetStack,
    was_waiting: Seq<DataView>,
    now: &NetStack,
    now_waiting: Seq<DataView>,
    id: usize,
    data: Seq<u8>,
)
    requires
        ingested(was, was_waiting, now, now_waiting, DataView::Tcp(id, data)),
        was.flows().dom().contains(id),
    ensures
        waits(was_waiting, id) ==> {
            &&& now_waiting == was_waiting.push(DataView::Tcp(id, data))
            &&& now.flows()[id] == was.flows()[id]
        },
        !waits(was_waiting, id) && was.flows()[id].pending.len() + data.len() <= 65536 ==> {
            &&& now_waiting == was_waiting || was.flows()[id].pending.len() >= 65536
            &&& was.flows()[id].pending.len() < 65536 ==> now.flows()[id].pending
                == was.flows()[id].pending + data
        },
        stream(now.flows(), now_waiting, id) == stream(was.flows(), was_waiting, id) + data,
{
    let d = DataView::Tcp(id, data);
    if waits(was_waiting, id) {
        queueing_extends_the_stream(was.flows(), was_waiting, d, id);
    } else {
        offering_extends_the_stream(
            was.flows(),
            was_waiting,
            d,
            pending_limit(was.tuning) as nat,
            id,
        );
    }
}

} // verus!
