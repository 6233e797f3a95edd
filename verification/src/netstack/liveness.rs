//! What tells a flow that is alive from one that is dead.

use vstd::prelude::*;

#[allow(unused_imports)]
use super::flow::{
    downlinked,
    measurement,
    observed,
    AppSide,
    DownlinkReport,
    FlowView,
    Measured,
    StallNote,
    RATE_SAMPLE_WINDOW,
    UPLINK_QUEUE_BUDGET,
};
#[allow(unused_imports)]
use super::reap::{dead_flows, peer_is_gone, wedged_flows, with_resets};
#[allow(unused_imports)]
use super::sockets::TcpView;
#[allow(unused_imports)]
use super::stack::DataView;

verus! {

/// One look at the drainage of a flow: the flow just before it, the bytes that
/// its socket held, and the time.
pub ghost struct Look {
    pub flow: FlowView,
    pub queued: usize,
    pub now: u64,
}

impl Look {
    /// The flow just after the look.
    pub open spec fn after(self) -> FlowView {
        observed(self.flow, self.queued, self.now)
    }

    /// Whether the peer showed itself: nothing was queued, or more had been
    /// acknowledged than ever before.
    pub open spec fn sees_life(self) -> bool {
        self.queued == 0 || self.flow.accepted_total - self.queued > self.flow.acked_high
    }
}

/// Whether these looks follow one another on one flow: the time does not run
/// back, and what the peer is judged by is left alone in between.
pub open spec fn follow(looks: Seq<Look>) -> bool
    decreases looks.len(),
{
    looks.len() > 1 ==> {
        let one = looks[looks.len() - 2];
        let next = looks.last();
        &&& follow(looks.drop_last())
        &&& one.now <= next.now
        &&& next.flow.last_drain == one.after().last_drain
        &&& next.flow.acked_high == one.after().acked_high
    }
}

/// A flow with nothing queued is alive: a look that finds its socket empty makes
/// the time of the look its last sign of life, and the flow is neither reported
/// as stalled nor reset.
pub proof fn an_empty_queue_is_a_sign_of_life(f: FlowView, now: u64)
    ensures
        observed(f, 0, now).last_drain == now,
        !observed(f, 0, now).drain_warned,
        !(measurement(f, 0, now).note is Stalled),
        !measurement(f, 0, now).flap_reset,
        forall|then: u64|
            then < now + 8_000_000_000 ==> !#[trigger] peer_is_gone(observed(f, 0, now), then),
{
}

/// An acknowledgement is a sign of life, however much is still queued.
pub proof fn an_acknowledgement_is_a_sign_of_life(f: FlowView, queued: usize, now: u64)
    requires
        f.accepted_total - queued > f.acked_high,
    ensures
        observed(f, queued, now).last_drain == now,
        observed(f, queued, now).acked_high == f.accepted_total - queued,
        !observed(f, queued, now).drain_warned,
        !(measurement(f, queued, now).note is Stalled),
        !measurement(f, queued, now).flap_reset,
{
}

/// Nothing else is: while bytes are queued and no more of them are acknowledged
/// than before, the last sign of life stays where it was.
pub proof fn silence_is_no_sign_of_life(f: FlowView, queued: usize, now: u64)
    requires
        queued > 0,
        f.accepted_total - queued <= f.acked_high,
    ensures
        observed(f, queued, now).last_drain == f.last_drain,
        observed(f, queued, now).acked_high == f.acked_high,
        f.drain_warned ==> observed(f, queued, now).drain_warned,
        !(measurement(f, queued, now).note is Recovered),
{
}

/// A look that saw life is remembered by every later one.
proof fn life_is_remembered(looks: Seq<Look>, i: int)
    requires
        follow(looks),
        0 <= i < looks.len(),
        looks[i].sees_life(),
    ensures
        looks[i].now <= looks.last().after().last_drain,
        looks[i].now <= looks.last().now,
    decreases looks.len(),
{
    let last = looks.last();
    if last.sees_life() {
        if last.queued == 0 {
            an_empty_queue_is_a_sign_of_life(last.flow, last.now);
        } else {
            an_acknowledgement_is_a_sign_of_life(last.flow, last.queued, last.now);
        }
    } else {
        silence_is_no_sign_of_life(last.flow, last.queued, last.now);
    }
    if i < looks.len() - 1 {
        assert(looks.drop_last()[i] == looks[i]);
        life_is_remembered(looks.drop_last(), i);
    }
}

/// No flow is declared dead unless it held queued bytes, with none newly
/// acknowledged, on every look of the last eight seconds.
pub proof fn only_a_silent_flow_is_declared_dead(looks: Seq<Look>, now: u64)
    requires
        looks.len() > 0,
        follow(looks),
        peer_is_gone(looks.last().after(), now),
    ensures
        looks.last().queued > 0,
        forall|i: int|
            #![trigger looks[i]]
            0 <= i < looks.len() && now < looks[i].now + 8_000_000_000 ==> looks[i].queued > 0
                && looks[i].flow.accepted_total - looks[i].queued <= looks[i].flow.acked_high,
{
    assert forall|i: int|
        #![trigger looks[i]]
        0 <= i < looks.len() && now < looks[i].now + 8_000_000_000 implies looks[i].queued > 0
        && looks[i].flow.accepted_total - looks[i].queued <= looks[i].flow.acked_high by {
        if looks[i].sees_life() {
            life_is_remembered(looks, i);
        }
    }
}

/// A flow that held queued bytes, with none newly acknowledged, on every look
/// for eight seconds is declared dead.
pub proof fn a_silent_flow_is_declared_dead(looks: Seq<Look>, now: u64)
    requires
        looks.len() > 0,
        follow(looks),
        forall|i: int|
            #![trigger looks[i]]
            0 <= i < looks.len() ==> looks[i].queued > 0 && looks[i].flow.accepted_total
                - looks[i].queued <= looks[i].flow.acked_high,
        looks[0].flow.last_drain + 8_000_000_000 <= now,
    ensures
        looks.last().after().last_drain == looks[0].flow.last_drain,
        peer_is_gone(looks.last().after(), now),
    decreases looks.len(),
{
    let last = looks.last();
    assert(last == looks[looks.len() - 1]);
    silence_is_no_sign_of_life(last.flow, last.queued, last.now);
    if looks.len() > 1 {
        let before = looks.drop_last();
        assert forall|i: int| #![trigger before[i]] 0 <= i < before.len() implies before[i].queued
            > 0 && before[i].flow.accepted_total - before[i].queued <= before[i].flow.acked_high by {
            assert(before[i] == looks[i]);
        }
        assert(before[0] == looks[0]);
        assert(before.last() == looks[looks.len() - 2]);
        a_silent_flow_is_declared_dead(before, now);
    }
}

/// The rest of a pass leaves alone what the peer is judged by.
pub proof fn only_a_look_judges_the_peer(
    f: FlowView,
    g: FlowView,
    v: TcpView,
    w: TcpView,
    m: Measured,
    wanted: usize,
    tx_buf: usize,
    side: AppSide,
    now: u64,
    linger: u64,
    r: DownlinkReport,
)
    requires
        downlinked(f, g, v, w, m, wanted, tx_buf, side, now, linger, r),
    ensures
        g.last_drain == f.last_drain,
        g.acked_high == f.acked_high,
        g.accepted_total == f.accepted_total,
        g.send_queue_high == f.send_queue_high,
        g.stall_mark == f.stall_mark,
        !m.flap_reset ==> g.drain_warned == f.drain_warned && g.stall_count == f.stall_count,
        m.flap_reset ==> !g.drain_warned && g.stall_count == 0,
{
}

/// The dead flows are those that hold queued bytes and gave their last sign of
/// life eight seconds ago or earlier.
pub proof fn a_dead_flow_was_silent_for_eight_seconds(
    flows: Map<usize, FlowView>,
    id: usize,
    now: u64,
)
    requires
        flows.dom().contains(id),
    ensures
        dead_flows(flows, now).contains(id) <==> flows[id].send_queue_high > 0
            && flows[id].last_drain + 8_000_000_000 <= now,
{
}

/// A flow that is declared dead stays so until it is looked at again.
pub proof fn the_dead_stay_dead(f: FlowView, now: u64, then: u64)
    requires
        peer_is_gone(f, now),
        now <= then,
    ensures
        peer_is_gone(f, then),
{
}

/// A flow is wedged only where data waits for it, and then when it is not there
/// or took nothing for half a minute.
pub proof fn a_wedged_flow_took_nothing_for_half_a_minute(
    flows: Map<usize, FlowView>,
    q: Seq<DataView>,
    id: usize,
    now: u64,
)
    ensures
        wedged_flows(flows, q, now).contains(id) ==> exists|i: int|
            0 <= i < q.len() && (#[trigger] q[i]).id() == id,
        flows.dom().contains(id) && flows[id].last_progress + 30_000_000_000 > now
            ==> !wedged_flows(flows, q, now).contains(id),
        (exists|i: int| 0 <= i < q.len() && (#[trigger] q[i]).id() == id) && (
        !flows.dom().contains(id) || flows[id].last_progress + 30_000_000_000 <= now)
            ==> wedged_flows(flows, q, now).contains(id),
{
}

/// Resetting flows drops what they had pending and releases their writers; the
/// other flows are left alone, and none comes or goes.
pub proof fn a_reset_touches_no_other_flow(flows: Map<usize, FlowView>, gone: Set<usize>)
    ensures
        with_resets(flows, gone).dom() == flows.dom(),
        forall|id: usize|
            #![trigger with_resets(flows, gone)[id]]
            flows.dom().contains(id) && !gone.contains(id) ==> with_resets(flows, gone)[id]
                == flows[id],
        forall|id: usize|
            #![trigger with_resets(flows, gone)[id]]
            flows.dom().contains(id) && gone.contains(id) ==> {
                let f = with_resets(flows, gone)[id];
                &&& f.pending.len() == 0
                &&& f.credit.closed
                &&& f.credit.acked == flows[id].credit.acked
                &&& f.established == flows[id].established
                &&& f.connect_waiting == flows[id].connect_waiting
                &&& !flows[id].aborted ==> !f.aborted
            },
{
    assert(with_resets(flows, gone).dom() =~= flows.dom());
}

/// Every byte that the socket took is either still queued or acknowledged.
pub proof fn bytes_are_queued_or_acknowledged(f: FlowView, queued: usize, now: u64)
    requires
        queued <= f.accepted_total,
    ensures
        measurement(f, queued, now).acked + queued == f.accepted_total,
        measurement(f, queued, now).queued == queued,
        observed(f, queued, now).send_queue_high == queued,
        observed(f, queued, now).accepted_total == f.accepted_total,
        observed(f, queued, now).pending == f.pending,
        observed(f, queued, now).credit == f.credit,
{
}

/// A stall is reported once it has lasted three seconds, with how long it has
/// lasted, and once only.
pub proof fn a_stall_is_reported_once(f: FlowView, queued: usize, now: u64)
    requires
        queued > 0,
        f.accepted_total - queued <= f.acked_high,
    ensures
        now < f.last_drain + 3_000_000_000 ==> measurement(f, queued, now).note
            == StallNote::Nothing,
        f.drain_warned ==> measurement(f, queued, now).note == StallNote::Nothing,
        !f.drain_warned && f.last_drain + 3_000_000_000 <= now ==> {
            &&& measurement(f, queued, now).note == (StallNote::Stalled {
                idle: (now - f.last_drain) as u64,
            })
            &&& observed(f, queued, now).drain_warned
            &&& observed(f, queued, now).stall_mark == now
        },
        forall|q: usize, then: u64|
            observed(f, queued, now).drain_warned ==> !((#[trigger] measurement(
                observed(f, queued, now),
                q,
                then,
            )).note is Stalled),
{
}

/// The end of a stall that was reported is reported with how long it lasted; the
/// end of one that was not is not.
pub proof fn a_recovery_is_reported(f: FlowView, queued: usize, now: u64)
    requires
        queued == 0 || f.accepted_total - queued > f.acked_high,
        f.last_drain <= now,
    ensures
        f.drain_warned ==> measurement(f, queued, now).note == (StallNote::Recovered {
            after: (now - f.last_drain) as u64,
        }),
        !f.drain_warned ==> measurement(f, queued, now).note == StallNote::Nothing,
{
}

/// The first stall of a flow does not reset it, and neither does one that comes
/// a minute after the one before; the second inside a minute does.
pub proof fn a_flow_may_stall_once_a_minute(
    f: FlowView,
    queued: usize,
    now: u64,
    g: FlowView,
    held: usize,
    then: u64,
)
    requires
        measurement(f, queued, now).note is Stalled,
        g.stall_count == observed(f, queued, now).stall_count,
        g.stall_mark == observed(f, queued, now).stall_mark,
        measurement(g, held, then).note is Stalled,
        now <= then,
    ensures
        f.stall_count == 0 ==> !measurement(f, queued, now).flap_reset,
        then < now + 60_000_000_000 ==> measurement(g, held, then).flap_reset,
        now + 60_000_000_000 <= then ==> !measurement(g, held, then).flap_reset,
{
}

/// A flow is reset for stalling only on a look that reports a stall.
pub proof fn only_a_stall_resets(f: FlowView, queued: usize, now: u64)
    ensures
        measurement(f, queued, now).flap_reset ==> {
            &&& measurement(f, queued, now).note is Stalled
            &&& f.stall_count >= 1
            &&& now < f.stall_mark + 60_000_000_000
        },
        !(measurement(f, queued, now).note is Stalled) ==> {
            &&& observed(f, queued, now).stall_count == f.stall_count
            &&& observed(f, queued, now).stall_mark == f.stall_mark
        },
{
}

/// The rate of a flow is sampled every half second, and the samples leave out
/// no byte and no moment: each begins where the one before it ended.
pub proof fn samples_follow_one_another(
    f: FlowView,
    queued: usize,
    now: u64,
    g: FlowView,
    held: usize,
    then: u64,
)
    requires
        f.rate_mark + 500_000_000 <= now,
        g.rate_mark == observed(f, queued, now).rate_mark,
        g.rate_base == observed(f, queued, now).rate_base,
        now <= then,
    ensures
        measurement(f, queued, now).sample matches Some(s) && s.nanos == now - f.rate_mark,
        then < now + 500_000_000 ==> {
            &&& measurement(g, held, then).sample is None
            &&& observed(g, held, then).rate_mark == g.rate_mark
            &&& observed(g, held, then).rate_base == g.rate_base
        },
        now + 500_000_000 <= then ==> (measurement(g, held, then).sample matches Some(s)
            && s.nanos == then - now && (measurement(f, queued, now).acked <= measurement(
            g,
            held,
            then,
        ).acked ==> s.moved == measurement(g, held, then).acked - measurement(
            f,
            queued,
            now,
        ).acked)),
{
}

/// Judging a peer knows no absolute time: moving the clock moves nothing else.
pub proof fn drainage_does_not_depend_on_the_clock(
    f: FlowView,
    g: FlowView,
    queued: usize,
    now: u64,
    by: u64,
)
    requires
        f.last_drain <= now,
        f.stall_mark <= now,
        f.rate_mark <= now,
        now + by <= u64::MAX,
        g == (FlowView {
            last_drain: (f.last_drain + by) as u64,
            stall_mark: (f.stall_mark + by) as u64,
            rate_mark: (f.rate_mark + by) as u64,
            ..f
        }),
    ensures
        measurement(g, queued, (now + by) as u64) == measurement(f, queued, now),
        observed(g, queued, (now + by) as u64).last_drain == observed(f, queued, now).last_drain
            + by,
        observed(g, queued, (now + by) as u64).drain_warned == observed(f, queued, now).drain_warned,
        observed(g, queued, (now + by) as u64).stall_count == observed(f, queued, now).stall_count,
{
}

/// Half a second of a flow's own rate is what it may queue, measured over half a
/// second.
pub proof fn a_flow_may_queue_half_a_second()
    ensures
        UPLINK_QUEUE_BUDGET * 2 == 1_000_000_000,
        RATE_SAMPLE_WINDOW * 2 == 1_000_000_000,
{
}

} // verus!
