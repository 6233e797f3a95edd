//! What a pass over a flow does to it, to its socket and to its application.

use vstd::prelude::*;

#[allow(unused_imports)]
use super::flow::{
    downlinked,
    joined,
    uplink_step,
    uplinked,
    uplinked_socket,
    AppSide,
    DownlinkReport,
    FlowView,
    Measured,
    ReapReason,
    UplinkStep,
};
#[allow(unused_imports)]
use super::service::{downlink_outcome, uplink_outcome};
#[allow(unused_imports)]
use super::sockets::{sockets_of, tcp_at, TcpView};
#[allow(unused_imports)]
use super::stack::NetStack;

verus! {

/// A flow that was reset leaves on its next pass, whatever its socket says.
pub proof fn a_reset_flow_is_dropped(f: FlowView, v: TcpView, side: AppSide, now: u64)
    ensures
        uplink_step(f, v, side, now) == UplinkStep::Reaped(ReapReason::Aborted) <==> f.aborted,
{
}

/// A connect that was answered is served, and its caller told where one waits.
pub proof fn an_answered_connect_is_served(f: FlowView, v: TcpView, side: AppSide, now: u64)
    requires
        !f.aborted,
        !f.established,
        v.phase is Established || v.phase is CloseWait,
    ensures
        uplink_step(f, v, side, now) matches UplinkStep::Served { announce, .. } && announce
            == f.connect_waiting,
        uplinked(f, v, side, now).established,
        !uplinked(f, v, side, now).connect_waiting,
{
}

/// A connect whose socket is over was refused.
pub proof fn a_refused_connect_is_told(f: FlowView, v: TcpView, side: AppSide, now: u64)
    requires
        !f.aborted,
        !f.established,
        v.phase is Closed || v.phase is TimeWait,
    ensures
        uplink_step(f, v, side, now) == UplinkStep::Reaped(ReapReason::Refused),
        uplinked_socket(f, v, side, now) == v,
{
}

/// A connect that is neither answered nor refused waits while somebody waits
/// for it and its deadline has not come, and times out otherwise.
pub proof fn a_connect_waits_for_its_deadline(f: FlowView, v: TcpView, side: AppSide, now: u64)
    requires
        !f.aborted,
        !f.established,
        !(v.phase is Established),
        !(v.phase is CloseWait),
        !(v.phase is Closed),
        !(v.phase is TimeWait),
    ensures
        f.connect_waiting && !side.abandoned && now < f.connect_deadline ==> uplink_step(
            f,
            v,
            side,
            now,
        ) == UplinkStep::Waiting,
        !f.connect_waiting || side.abandoned || f.connect_deadline <= now ==> uplink_step(
            f,
            v,
            side,
            now,
        ) == UplinkStep::Reaped(ReapReason::TimedOut),
        uplinked_socket(f, v, side, now) == v,
        !uplinked(f, v, side, now).established,
        uplinked(f, v, side, now).connect_waiting == f.connect_waiting,
{
}

/// A connected flow is served on every pass, and nobody is told of it again.
pub proof fn a_connected_flow_is_served(f: FlowView, v: TcpView, side: AppSide, now: u64)
    requires
        !f.aborted,
        f.established,
    ensures
        uplink_step(f, v, side, now) matches UplinkStep::Served { announce, .. } && !announce,
        uplinked(f, v, side, now).established,
{
}

/// A flow that leaves releases its writer at once; one that stays does not.
pub proof fn a_flow_that_leaves_releases_its_writer(
    f: FlowView,
    v: TcpView,
    side: AppSide,
    now: u64,
)
    ensures
        uplink_step(f, v, side, now) is Reaped ==> uplinked(f, v, side, now).credit.closed,
        !(uplink_step(f, v, side, now) is Reaped) ==> uplinked(f, v, side, now).credit.closed
            == f.credit.closed,
        uplinked(f, v, side, now).credit.sent == side.sent,
        uplinked(f, v, side, now).credit.acked == f.credit.acked,
        uplinked(f, v, side, now).credit.cap == f.credit.cap,
{
}

/// A socket that may send is fed until nothing is pending or it is full, and
/// the bytes that moved are counted. Neither a byte nor their order is lost.
pub proof fn a_socket_is_fed_until_it_is_full(f: FlowView, v: TcpView, side: AppSide, now: u64)
    requires
        uplink_step(f, v, side, now) is Served,
        v.phase is Established || v.phase is CloseWait,
        v.tx.len() <= v.tx_capacity,
        f.accepted_total + f.pending.len() <= u64::MAX,
    ensures
        ({
            let g = uplinked(f, v, side, now);
            let w = uplinked_socket(f, v, side, now);
            &&& w.tx + g.pending == v.tx + f.pending
            &&& g.pending.len() == 0 || w.tx.len() == v.tx_capacity
            &&& w.tx.len() <= v.tx_capacity
            &&& v.tx.len() <= w.tx.len()
            &&& g.accepted_total - f.accepted_total == w.tx.len() - v.tx.len()
        }),
{
    let g = uplinked(f, v, side, now);
    let w = uplinked_socket(f, v, side, now);
    assert(w.tx + g.pending =~= v.tx + f.pending);
}

/// A socket that may not send is not fed.
pub proof fn a_closed_socket_is_not_fed(f: FlowView, v: TcpView, side: AppSide, now: u64)
    requires
        !(v.phase is Established),
        !(v.phase is CloseWait),
    ensures
        uplinked(f, v, side, now).pending == f.pending,
        uplinked(f, v, side, now).accepted_total == f.accepted_total,
        uplinked_socket(f, v, side, now) == v,
{
    assert(f.pending.skip(0) =~= f.pending);
    assert(v.tx + f.pending.take(0) =~= v.tx);
}

/// A served flow makes progress when it has nothing pending or moves a byte,
/// and only then.
pub proof fn progress_is_a_byte_moved_or_none_pending(
    f: FlowView,
    v: TcpView,
    side: AppSide,
    now: u64,
)
    requires
        uplink_step(f, v, side, now) is Served,
        v.tx.len() <= v.tx_capacity,
    ensures
        ({
            let g = uplinked(f, v, side, now);
            let moved = f.pending.len() - g.pending.len();
            &&& f.pending.len() == 0 || moved > 0 ==> g.last_progress == now
            &&& f.pending.len() > 0 && moved == 0 ==> g.last_progress == f.last_progress
        }),
{
}

/// Feeding touches nothing of a socket but what it is to send.
pub proof fn feeding_only_fills_the_send_queue(f: FlowView, v: TcpView, side: AppSide, now: u64)
    ensures
        uplinked_socket(f, v, side, now) == (TcpView {
            tx: uplinked_socket(f, v, side, now).tx,
            ..v
        }),
{
}

/// What a pass leaves of a flow is measured after its socket has been fed.
pub proof fn drainage_is_measured_after_feeding(f: FlowView, v: TcpView, side: AppSide, now: u64)
    requires
        v.tx.len() <= v.tx_capacity <= usize::MAX,
    ensures
        uplink_step(f, v, side, now) matches UplinkStep::Served { measured, .. } ==> {
            &&& measured.queued == uplinked_socket(f, v, side, now).tx.len()
            &&& uplinked(f, v, side, now).send_queue_high == measured.queued
            &&& measured.queued <= uplinked(f, v, side, now).accepted_total ==> measured.acked
                + measured.queued == uplinked(f, v, side, now).accepted_total
        },
{
}

/// The budget that is published is the one that the drain rate asks for, kept
/// between 48 KiB and what the socket can hold.
pub proof fn a_budget_is_what_the_rate_asks_for(
    f: FlowView,
    g: FlowView,
    v: TcpView,
    w: TcpView,
    m: Measured,
    wanted: usize,
    tx_buf: usize,
    side: AppSide,
    now: u64,
    linger: u64,
    r: DownlinkReport,
)
    requires
        downlinked(f, g, v, w, m, wanted, tx_buf, side, now, linger, r),
    ensures
        g.credit.cap == g.uplink_budget,
        49152 <= g.uplink_budget,
        49152 <= wanted <= tx_buf ==> g.uplink_budget == wanted,
        wanted < 49152 ==> g.uplink_budget == 49152,
        wanted > tx_buf && 49152 <= tx_buf ==> g.uplink_budget == tx_buf,
        tx_buf < 49152 ==> g.uplink_budget == 49152,
{
}

/// The writer is shown every acknowledgement, and none is taken back. What it
/// has handed over is its own to count.
pub proof fn a_writer_sees_what_was_acknowledged(
    f: FlowView,
    g: FlowView,
    v: TcpView,
    w: TcpView,
    m: Measured,
    wanted: usize,
    tx_buf: usize,
    side: AppSide,
    now: u64,
    linger: u64,
    r: DownlinkReport,
)
    requires
        downlinked(f, g, v, w, m, wanted, tx_buf, side, now, linger, r),
    ensures
        m.acked >= f.credit.acked ==> g.credit.acked == m.acked,
        m.acked < f.credit.acked ==> g.credit.acked == f.credit.acked,
        g.credit.sent == f.credit.sent,
{
}

/// The high-water marks hold the most that any pass of the window saw.
pub proof fn high_water_marks_rise_to_what_was_seen(
    f: FlowView,
    g: FlowView,
    v: TcpView,
    w: TcpView,
    m: Measured,
    wanted: usize,
    tx_buf: usize,
    side: AppSide,
    now: u64,
    linger: u64,
    r: DownlinkReport,
)
    requires
        downlinked(f, g, v, w, m, wanted, tx_buf, side, now, linger, r),
        f.pending.len() <= usize::MAX,
    ensures
        g.pending_peak >= f.pending_peak,
        g.pending_peak >= f.pending.len(),
        g.pending_peak == f.pending_peak || g.pending_peak == f.pending.len(),
        g.send_queue_peak >= f.send_queue_peak,
        g.send_queue_peak >= m.queued,
        g.send_queue_peak == f.send_queue_peak || g.send_queue_peak == m.queued,
        g.outstanding_peak >= f.outstanding_peak,
        ({
            let unacknowledged = g.credit.sent - g.credit.acked;
            &&& unacknowledged <= usize::MAX ==> g.outstanding_peak >= unacknowledged
            &&& g.outstanding_peak > f.outstanding_peak && unacknowledged <= usize::MAX
                ==> g.outstanding_peak == unacknowledged
        }),
{
}

/// A flow that stalls again and again is cut off: its socket is closed, what it
/// had pending is dropped and its writer released.
pub proof fn a_flow_that_flaps_is_cut_off(
    f: FlowView,
    g: FlowView,
    v: TcpView,
    w: TcpView,
    m: Measured,
    wanted: usize,
    tx_buf: usize,
    side: AppSide,
    now: u64,
    linger: u64,
    r: DownlinkReport,
)
    requires
        downlinked(f, g, v, w, m, wanted, tx_buf, side, now, linger, r),
        m.flap_reset,
    ensures
        w.phase is Closed,
        g.pending.len() == 0,
        g.credit.closed,
        f.established && !side.closed ==> r.reaped,
{
}

/// An application that has finished sending closes its half once its last byte
/// has been taken, and not before; one that has not finished keeps it open.
pub proof fn the_last_byte_goes_before_the_close(
    f: FlowView,
    g: FlowView,
    v: TcpView,
    w: TcpView,
    m: Measured,
    wanted: usize,
    tx_buf: usize,
    side: AppSide,
    now: u64,
    linger: u64,
    r: DownlinkReport,
)
    requires
        downlinked(f, g, v, w, m, wanted, tx_buf, side, now, linger, r),
        !m.flap_reset,
        !side.closed,
        v.phase is Established,
    ensures
        f.half_closed && f.pending.len() == 0 ==> w.phase is FinWait1,
        !f.half_closed || f.pending.len() > 0 ==> w.phase is Established,
        g.pending == f.pending,
        !r.reaped,
{
}

/// A peer that has closed is answered, and a socket in any other state that is
/// not over is left to its peer.
pub proof fn a_close_of_the_peer_is_answered(
    f: FlowView,
    g: FlowView,
    v: TcpView,
    w: TcpView,
    m: Measured,
    wanted: usize,
    tx_buf: usize,
    side: AppSide,
    now: u64,
    linger: u64,
    r: DownlinkReport,
)
    requires
        downlinked(f, g, v, w, m, wanted, tx_buf, side, now, linger, r),
        !m.flap_reset,
        !side.closed,
    ensures
        v.phase is CloseWait ==> w.phase is LastAck,
        v.phase is FinWait1 || v.phase is FinWait2 || v.phase is LastAck || v.phase is Closing
            || v.phase is TimeWait || v.phase is Closed ==> w.phase == v.phase,
        v.phase is TimeWait ==> g.pending.len() == 0,
        !(v.phase is TimeWait) ==> g.pending == f.pending,
{
}

/// A connected flow whose socket is over leaves and releases its writer; no
/// other does.
pub proof fn a_flow_leaves_when_its_socket_is_over(
    f: FlowView,
    g: FlowView,
    v: TcpView,
    w: TcpView,
    m: Measured,
    wanted: usize,
    tx_buf: usize,
    side: AppSide,
    now: u64,
    linger: u64,
    r: DownlinkReport,
)
    requires
        downlinked(f, g, v, w, m, wanted, tx_buf, side, now, linger, r),
    ensures
        r.reaped ==> f.established && (w.phase is Closed || w.phase is TimeWait) && g.credit.closed
            && !(g.aborted && !f.aborted),
        !side.closed && f.established && (w.phase is Closed || w.phase is TimeWait) ==> r.reaped,
        !r.reaped && !m.flap_reset ==> g.credit.closed == f.credit.closed,
        g.established == f.established,
        g.half_closed == f.half_closed,
        g.connect_waiting == f.connect_waiting,
{
}

/// An application that went away is remembered from the first pass that found
/// it gone. While it is there the flow is no orphan and is not reset for one.
pub proof fn an_orphan_is_dated_once(
    f: FlowView,
    g: FlowView,
    v: TcpView,
    w: TcpView,
    m: Measured,
    wanted: usize,
    tx_buf: usize,
    side: AppSide,
    now: u64,
    linger: u64,
    r: DownlinkReport,
)
    requires
        downlinked(f, g, v, w, m, wanted, tx_buf, side, now, linger, r),
    ensures
        side.closed && f.orphaned_at is Some ==> g.orphaned_at == f.orphaned_at,
        side.closed && f.orphaned_at is None ==> g.orphaned_at == Some(now),
        !side.closed ==> g.orphaned_at == f.orphaned_at && g.aborted == f.aborted,
{
}

/// An orphan is reset when it holds data that nobody will read or when its peer
/// has had its time; before that its socket is closed in order.
pub proof fn an_orphan_has_its_time(
    f: FlowView,
    g: FlowView,
    v: TcpView,
    w: TcpView,
    m: Measured,
    wanted: usize,
    tx_buf: usize,
    side: AppSide,
    now: u64,
    linger: u64,
    r: DownlinkReport,
    since: u64,
)
    requires
        downlinked(f, g, v, w, m, wanted, tx_buf, side, now, linger, r),
        side.closed,
        g.orphaned_at == Some(since),
        since <= now,
        !m.flap_reset,
    ensures
        w.rx == v.rx,
        v.rx.len() > 0 || since + linger <= now ==> g.aborted && w.phase is Closed && !r.reaped,
        v.rx.len() == 0 && now < since + linger ==> {
            &&& g.aborted == f.aborted
            &&& v.phase is Established ==> w.phase is FinWait1
            &&& v.phase is CloseWait ==> w.phase is LastAck
            &&& v.phase is FinWait2 ==> w.phase is FinWait2
        },
{
    assert(joined(r.chunks@) =~= Seq::<u8>::empty());
    assert(w.rx =~= v.rx);
}

/// The first of several chunks holds the first bytes.
proof fn the_first_chunk_leads(chunks: Seq<Vec<u8>>)
    requires
        chunks.len() > 0,
    ensures
        chunks[0]@.len() <= joined(chunks).len(),
        joined(chunks).take(chunks[0]@.len() as int) == chunks[0]@,
    decreases chunks.len(),
{
    if chunks.len() == 1 {
        assert(joined(chunks.drop_last()) =~= Seq::<u8>::empty());
        assert(joined(chunks) =~= chunks[0]@);
        assert(joined(chunks).take(chunks[0]@.len() as int) =~= chunks[0]@);
    } else {
        the_first_chunk_leads(chunks.drop_last());
        let head = joined(chunks.drop_last());
        let n = chunks[0]@.len() as int;
        assert(joined(chunks).take(n) =~= head.take(n));
    }
}

/// An application is given at most 128 chunks on a pass and no more than it has
/// room for, none of them empty, and nothing is kept from it while it has room.
/// The first of them begins with the first byte that was received, and the last
/// ends where what stays unread begins.
pub proof fn an_application_gets_what_it_has_room_for(
    f: FlowView,
    g: FlowView,
    v: TcpView,
    w: TcpView,
    m: Measured,
    wanted: usize,
    tx_buf: usize,
    side: AppSide,
    now: u64,
    linger: u64,
    r: DownlinkReport,
)
    requires
        downlinked(f, g, v, w, m, wanted, tx_buf, side, now, linger, r),
        !side.closed,
    ensures
        r.chunks@.len() <= 128,
        r.chunks@.len() <= side.room,
        forall|i: int| 0 <= i < r.chunks@.len() ==> (#[trigger] r.chunks@[i])@.len() > 0,
        side.room > 0 && v.rx.len() > 0 ==> r.chunks@.len() > 0,
        r.chunks@.len() < 128 && r.chunks@.len() < side.room ==> w.rx.len() == 0,
        r.chunks@.len() == 0 ==> w.rx == v.rx,
        r.chunks@.len() > 0 ==> {
            let first = r.chunks@[0]@;
            let last = r.chunks@.last()@;
            &&& first.len() <= v.rx.len()
            &&& v.rx.take(first.len() as int) == first
            &&& last.len() + w.rx.len() <= v.rx.len()
            &&& v.rx.skip(v.rx.len() - w.rx.len() - last.len()) == last + w.rx
        },
        r.backpressured <==> r.chunks@.len() == side.room && side.room < 128,
{
    if r.chunks@.len() > 0 {
        the_first_chunk_leads(r.chunks@);
        let first = r.chunks@[0]@;
        let last = r.chunks@.last()@;
        let all = joined(r.chunks@);
        assert(all == joined(r.chunks@.drop_last()) + last);
        assert(v.rx =~= all + w.rx);
        assert(v.rx.take(first.len() as int) =~= all.take(first.len() as int));
        assert(v.rx.skip(v.rx.len() - w.rx.len() - last.len()) =~= last + w.rx);
    } else {
        assert(joined(r.chunks@) =~= Seq::<u8>::empty());
        assert(w.rx =~= v.rx);
    }
}

/// An application that went away is given nothing and holds nothing back.
pub proof fn an_absent_application_gets_nothing(
    f: FlowView,
    g: FlowView,
    v: TcpView,
    w: TcpView,
    m: Measured,
    wanted: usize,
    tx_buf: usize,
    side: AppSide,
    now: u64,
    linger: u64,
    r: DownlinkReport,
)
    requires
        downlinked(f, g, v, w, m, wanted, tx_buf, side, now, linger, r),
        side.closed,
    ensures
        r.chunks@.len() == 0,
        w.rx == v.rx,
        !r.backpressured,
{
    assert(joined(r.chunks@) =~= Seq::<u8>::empty());
    assert(w.rx =~= v.rx);
}

/// The second half of a pass leaves alone what the socket is to send and how it
/// was set up.
pub proof fn what_is_to_be_sent_stays(
    f: FlowView,
    g: FlowView,
    v: TcpView,
    w: TcpView,
    m: Measured,
    wanted: usize,
    tx_buf: usize,
    side: AppSide,
    now: u64,
    linger: u64,
    r: DownlinkReport,
)
    requires
        downlinked(f, g, v, w, m, wanted, tx_buf, side, now, linger, r),
    ensures
        w.tx == v.tx,
        w.tx_capacity == v.tx_capacity,
        w.nagle == v.nagle,
        w.keep_alive_millis == v.keep_alive_millis,
        w.timeout_millis == v.timeout_millis,
        w.remote == v.remote,
        w.local_port == v.local_port,
        g.last_progress == f.last_progress,
        g.connect_deadline == f.connect_deadline,
{
}

/// The count of bytes that the socket took never falls.
pub proof fn accepted_bytes_only_grow(f: FlowView, v: TcpView, side: AppSide, now: u64)
    requires
        v.tx.len() <= v.tx_capacity,
    ensures
        uplinked(f, v, side, now).accepted_total >= f.accepted_total,
        uplinked_socket(f, v, side, now).tx.len() >= v.tx.len(),
{
}

/// A flow that is reaped is gone with its socket; any other is there afterwards,
/// on the same socket, as the pass left it.
pub proof fn a_flow_goes_with_its_socket(
    was: &NetStack,
    now: &NetStack,
    id: usize,
    side: AppSide,
    time: u64,
    step: UplinkStep,
)
    requires
        uplink_outcome(was, now, id, side, time, step),
    ensures
        ({
            let h = was.tcp_conns@[id].handle;
            let f = was.tcp_conns@[id]@;
            let v = tcp_at(was.sockets, h);
            &&& step is Reaped ==> !now.tcp_conns@.dom().contains(id) && !sockets_of(
                now.sockets,
            ).dom().contains(h)
            &&& !(step is Reaped) ==> {
                &&& now.tcp_conns@.dom().contains(id)
                &&& now.tcp_conns@[id].handle == h
                &&& now.tcp_conns@[id]@ == uplinked(f, v, side, time)
                &&& tcp_at(now.sockets, h) == uplinked_socket(f, v, side, time)
            }
        }),
{
}

/// The same of the second half of a pass, which goes by the host's buffer and the
/// time that orphans are given.
pub proof fn a_flow_that_is_over_goes_with_its_socket(
    was: &NetStack,
    now: &NetStack,
    id: usize,
    measured: Measured,
    wanted: usize,
    side: AppSide,
    time: u64,
    report: DownlinkReport,
)
    requires
        downlink_outcome(was, now, id, measured, wanted, side, time, report),
    ensures
        ({
            let h = was.tcp_conns@[id].handle;
            &&& report.reaped ==> !now.tcp_conns@.dom().contains(id) && !sockets_of(
                now.sockets,
            ).dom().contains(h)
            &&& !report.reaped ==> {
                &&& now.tcp_conns@.dom().contains(id)
                &&& now.tcp_conns@[id].handle == h
                &&& downlinked(
                    was.tcp_conns@[id]@,
                    now.tcp_conns@[id]@,
                    tcp_at(was.sockets, h),
                    tcp_at(now.sockets, h),
                    measured,
                    wanted,
                    was.tuning.netstack_tcp_tx_buf,
                    side,
                    time,
                    was.tcp_limits.orphan_linger,
                    report,
                )
            }
        }),
{
}

} // verus!
