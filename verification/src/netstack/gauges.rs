//! What the data plane reports of its flows.

use vstd::prelude::*;

use super::flow::{elapsed_nanos, TCP_DRAIN_STALL_WARN};
#[allow(unused_imports)]
use super::flow::{elapsed, larger, FlowView};
use super::keys::key_list;
#[allow(unused_imports)]
use super::keys::lists;
use super::sockets;
#[allow(unused_imports)]
use super::sockets::tcp_at;
use super::stack::NetStack;
#[allow(unused_imports)]
use super::stack::{one_flow_changed, same_handles};

verus! {

broadcast use vstd::std_specs::hash::group_hash_axioms;

/// The state of the flows at the end of a window.
#[derive(Clone, Copy, Debug, PartialEq, Eq, Structural)]
pub struct Gauges {
    /// Bytes that the sockets hold unacknowledged, and the most of any flow.
    pub send_queued: usize,
    pub send_worst: usize,
    /// The longest that a flow with queued bytes has had nothing acknowledged,
    /// and how many flows are reported for that.
    pub worst_stall: u64,
    pub stalled_flows: usize,
    /// The high-water marks of the window over all flows, and the largest
    /// budget.
    pub outstanding_peak: usize,
    pub pending_peak: usize,
    pub send_queue_peak: usize,
    pub budget: usize,
}

pub open spec fn no_gauges() -> Gauges {
    Gauges {
        send_queued: 0,
        send_worst: 0,
        worst_stall: 0,
        stalled_flows: 0,
        outstanding_peak: 0,
        pending_peak: 0,
        send_queue_peak: 0,
        budget: 0,
    }
}

/// The gauges with one more flow in them.
pub open spec fn gauged(g: Gauges, f: FlowView, queued: usize, now: u64) -> Gauges {
    let idle = elapsed(f.last_drain, now);
    Gauges {
        send_queued: super::device::capped_sum(g.send_queued, queued),
        send_worst: larger(g.send_worst as int, queued as int) as usize,
        worst_stall: if f.send_queue_high == 0 {
            g.worst_stall
        } else {
            larger(g.worst_stall as int, idle) as u64
        },
        stalled_flows: if f.send_queue_high > 0 && idle >= TCP_DRAIN_STALL_WARN {
            super::device::capped_sum(g.stalled_flows, 1)
        } else {
            g.stalled_flows
        },
        outstanding_peak: larger(g.outstanding_peak as int, f.outstanding_peak as int) as usize,
        pending_peak: larger(g.pending_peak as int, f.pending_peak as int) as usize,
        send_queue_peak: larger(g.send_queue_peak as int, f.send_queue_peak as int) as usize,
        budget: larger(g.budget as int, f.uplink_budget as int) as usize,
    }
}

/// The gauges of the listed flows.
pub open spec fn gauges_of(s: &NetStack, ids: Seq<usize>, now: u64) -> Gauges
    decreases ids.len(),
{
    if ids.len() == 0 {
        no_gauges()
    } else {
        let st = s.tcp_conns@[ids.last()];
        gauged(
            gauges_of(s, ids.drop_last(), now),
            st@,
            tcp_at(s.sockets, st.handle).tx.len() as usize,
            now,
        )
    }
}

/// The flow at the start of a window.
pub open spec fn with_peaks_cleared(f: FlowView) -> FlowView {
    FlowView { outstanding_peak: 0, pending_peak: 0, send_queue_peak: 0, ..f }
}

fn max_usize(a: usize, b: usize) -> (r: usize)
    ensures
        r == larger(a as int, b as int),
{
    if a < b {
        b
    } else {
        a
    }
}

/// Reads the gauges of all flows.
pub fn read_gauges(s: &NetStack, now: u64) -> (g: Gauges)
    requires
        s.wf(),
    ensures
        exists|ids: Seq<usize>|
            lists(ids, s.tcp_conns@.dom()) && g == #[trigger] gauges_of(s, ids, now),
{
    let ids = key_list(&s.tcp_conns);
    let mut g = Gauges {
        send_queued: 0,
        send_worst: 0,
        worst_stall: 0,
        stalled_flows: 0,
        outstanding_peak: 0,
        pending_peak: 0,
        send_queue_peak: 0,
        budget: 0,
    };
    let mut i: usize = 0;
    while i < ids.len()
        invariant
            i <= ids.len(),
            s.wf(),
            lists(ids@, s.tcp_conns@.dom()),
            g == gauges_of(s, ids@.take(i as int), now),
        decreases ids.len() - i,
    {
        let id: usize = ids[i];
        assert(ids@.contains(id));
        assert(s.tcp_conns@.dom().contains(id));
        assert(ids@.take(i + 1).drop_last() =~= ids@.take(i as int));
        if let Some(st) = s.tcp_conns.get(&id) {
            let queued: usize = sockets::send_queue(&s.sockets, st.handle);
            g.send_queued = g.send_queued.saturating_add(queued);
            g.send_worst = max_usize(g.send_worst, queued);
            if st.send_queue_high > 0 {
                let idle: u64 = elapsed_nanos(st.last_drain, now);
                if idle >= TCP_DRAIN_STALL_WARN {
                    g.stalled_flows = g.stalled_flows.saturating_add(1);
                }
                if idle > g.worst_stall {
                    g.worst_stall = idle;
                }
            }
            g.outstanding_peak = max_usize(g.outstanding_peak, st.outstanding_peak);
            g.pending_peak = max_usize(g.pending_peak, st.pending_peak);
            g.send_queue_peak = max_usize(g.send_queue_peak, st.send_queue_peak);
            g.budget = max_usize(g.budget, st.uplink_budget);
        }
        i = i + 1;
    }
    assert(ids@.take(i as int) =~= ids@);
    g
}

/// Begins a new window: the high-water marks of the flows and of the device
/// start again.
pub fn clear_peaks(s: &mut NetStack)
    requires
        old(s).wf(),
    ensures
        final(s).wf(),
        final(s).same_setup(old(s)),
        same_handles(old(s), final(s)),
        final(s).udp_conns == old(s).udp_conns,
        final(s).sockets == old(s).sockets,
        final(s).flows() == old(s).flows().map_values(|f: FlowView| with_peaks_cleared(f)),
        final(s).device == (super::device::StackDevice {
            tx_peak: old(s).device.tx@.len() as usize,
            tx_stalls: 0,
            ..old(s).device
        }),
{
    let ids = key_list(&s.tcp_conns);
    let ghost flows0 = s.flows();
    let mut i: usize = 0;
    while i < ids.len()
        invariant
            i <= ids.len(),
            s.wf(),
            lists(ids@, old(s).tcp_conns@.dom()),
            flows0 == old(s).flows(),
            s.same_setup(old(s)),
            same_handles(old(s), s),
            s.udp_conns == old(s).udp_conns,
            s.sockets == old(s).sockets,
            s.device == old(s).device,
            forall|id: usize| #[trigger]
                flows0.dom().contains(id) ==> s.tcp_conns@[id]@ == (if ids@.take(
                    i as int,
                ).contains(id) {
                    with_peaks_cleared(flows0[id])
                } else {
                    flows0[id]
                }),
        decreases ids.len() - i,
    {
        let id: usize = ids[i];
        let ghost was = *s;
        assert(ids@.contains(id));
        assert(old(s).tcp_conns@.dom().contains(id));
        assert(flows0.dom().contains(id));
        proof {
            super::keys::next_in_list(ids@, i as int);
        }
        if let Some(st) = s.tcp_conns.remove(&id) {
            let mut st = st;
            st.outstanding_peak = 0;
            st.pending_peak = 0;
            st.send_queue_peak = 0;
            s.tcp_conns.insert(id, st);
            proof {
                one_flow_changed(&was, s, id);
            }
        }
        i = i + 1;
    }
    proof {
        assert(ids@.take(i as int) =~= ids@);
        assert forall|id: usize| #[trigger] flows0.dom().contains(id) implies s.tcp_conns@[id]@
            == with_peaks_cleared(flows0[id]) by {
            assert(old(s).tcp_conns@.dom().contains(id));
        }
        assert(s.flows() =~= flows0.map_values(|f: FlowView| with_peaks_cleared(f)));
    }
    s.device.tx_peak = s.device.tx.len();
    s.device.tx_stalls = 0;
}

/// A gauge of the flows holds the most that any of them has, and the sums are
/// sums: one more flow adds its bytes, counts as stalled when it has held bytes
/// for three seconds without an acknowledgement, and moves no mark down.
pub proof fn one_more_flow_is_gauged(g: Gauges, f: FlowView, queued: usize, now: u64)
    requires
        f.last_drain <= now,
        g.send_queued + queued <= usize::MAX,
        g.stalled_flows < usize::MAX,
    ensures
        ({
            let h = gauged(g, f, queued, now);
            &&& h.send_queued == g.send_queued + queued
            &&& h.send_worst >= g.send_worst && h.send_worst >= queued
            &&& h.send_worst == g.send_worst || h.send_worst == queued
            &&& h.stalled_flows == g.stalled_flows + (if f.send_queue_high > 0 && f.last_drain
                + 3_000_000_000 <= now {
                1int
            } else {
                0
            })
            &&& f.send_queue_high == 0 ==> h.worst_stall == g.worst_stall
            &&& f.send_queue_high > 0 ==> h.worst_stall >= g.worst_stall && h.worst_stall >= now
                - f.last_drain && (h.worst_stall == g.worst_stall || h.worst_stall == now
                - f.last_drain)
            &&& h.outstanding_peak >= g.outstanding_peak && h.outstanding_peak >= f.outstanding_peak
            &&& h.outstanding_peak == g.outstanding_peak || h.outstanding_peak
                == f.outstanding_peak
            &&& h.pending_peak >= g.pending_peak && h.pending_peak >= f.pending_peak
            &&& h.pending_peak == g.pending_peak || h.pending_peak == f.pending_peak
            &&& h.send_queue_peak >= g.send_queue_peak && h.send_queue_peak >= f.send_queue_peak
            &&& h.send_queue_peak == g.send_queue_peak || h.send_queue_peak == f.send_queue_peak
            &&& h.budget >= g.budget && h.budget >= f.uplink_budget
            &&& h.budget == g.budget || h.budget == f.uplink_budget
        }),
{
}

/// A stack without flows has nothing to show, and the marks of a flow begin each
/// window from nothing while all else of it stays.
pub proof fn gauges_begin_from_nothing(s: &NetStack, f: FlowView, now: u64)
    ensures
        gauges_of(s, Seq::empty(), now).send_queued == 0,
        gauges_of(s, Seq::empty(), now).send_worst == 0,
        gauges_of(s, Seq::empty(), now).worst_stall == 0,
        gauges_of(s, Seq::empty(), now).stalled_flows == 0,
        gauges_of(s, Seq::empty(), now).outstanding_peak == 0,
        gauges_of(s, Seq::empty(), now).pending_peak == 0,
        gauges_of(s, Seq::empty(), now).send_queue_peak == 0,
        gauges_of(s, Seq::empty(), now).budget == 0,
        with_peaks_cleared(f).outstanding_peak == 0,
        with_peaks_cleared(f).pending_peak == 0,
        with_peaks_cleared(f).send_queue_peak == 0,
        with_peaks_cleared(f).pending == f.pending,
        with_peaks_cleared(f).last_drain == f.last_drain,
        with_peaks_cleared(f).acked_high == f.acked_high,
        with_peaks_cleared(f).credit == f.credit,
        with_peaks_cleared(f).uplink_budget == f.uplink_budget,
{
}

} // verus!
