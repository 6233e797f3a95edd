//! One TCP flow: what it owes its socket, how it judges its peer, and when it
//! ends.

use vstd::prelude::*;

use super::credit::{FlowCredit, MIN_FLOW_QUEUE_BYTES};
use super::sockets;
use super::sockets::TcpPhase;
#[allow(unused_imports)]
use super::sockets::{
    accepted,
    closed_phase,
    has_tcp,
    may_send,
    sockets_of,
    tcp_at,
    with_tcp,
    SocketView,
    TcpView,
};

verus! {

/// How many chunks one pass hands to the application of one flow.
pub const MAX_RECV_CHUNKS: usize = 128;

/// How long a flow may accept nothing at all before it is reset, in
/// nanoseconds.
pub const TCP_WEDGE_TIMEOUT: u64 = 30_000_000_000;

/// How long a flow may hold queued bytes without one of them being
/// acknowledged before it is declared dead, in nanoseconds.
pub const TCP_DRAIN_STALL_TIMEOUT: u64 = 8_000_000_000;

/// When a flow that does not drain starts being reported, in nanoseconds.
pub const TCP_DRAIN_STALL_WARN: u64 = 3_000_000_000;

/// How much standing queue an upload may build, as time, in nanoseconds.
pub const UPLINK_QUEUE_BUDGET: u64 = 500_000_000;

/// How often the drain rate of a flow is measured, in nanoseconds.
pub const RATE_SAMPLE_WINDOW: u64 = 500_000_000;

/// The window over which repeated stalls of one flow are counted, in
/// nanoseconds.
pub const STALL_FLAP_WINDOW: u64 = 60_000_000_000;

/// How many stalls inside [`STALL_FLAP_WINDOW`] reset a flow even though each
/// of them recovered.
pub const STALL_FLAP_LIMIT: u32 = 2;

/// The time from `since` to `now`, and none where `now` is earlier.
pub open spec fn elapsed(since: u64, now: u64) -> int {
    if now >= since {
        now - since
    } else {
        0
    }
}

/// `a - b`, and zero where that is negative.
pub open spec fn less(a: int, b: int) -> int {
    if a >= b {
        a - b
    } else {
        0
    }
}

/// A flow. Times are nanoseconds on one clock.
pub struct TcpState {
    pub handle: smoltcp::iface::SocketHandle,
    /// Whether the caller of the connect is still owed an answer.
    pub connect_waiting: bool,
    /// Bytes from the application that the socket has not taken yet.
    pub pending: Vec<u8>,
    pub established: bool,
    pub half_closed: bool,
    /// When an unanswered connect gives up.
    pub connect_deadline: u64,
    /// When the application went away.
    pub orphaned_at: Option<u64>,
    /// Set once the flow has been reset; the next pass reaps it.
    pub aborted: bool,
    /// The last time the flow took some of its pending bytes.
    pub last_progress: u64,
    /// The length of the socket's send queue as of the last pass.
    pub send_queue_high: usize,
    /// Bytes handed to the socket since the flow opened.
    pub accepted_total: u64,
    /// Bytes the peer has acknowledged. It can only advance when the far end
    /// received something, so it tells a full queue from a dead one.
    pub acked_high: u64,
    /// The last time the peer acknowledged anything.
    pub last_drain: u64,
    /// Set while the flow is reported as not draining.
    pub drain_warned: bool,
    pub credit: FlowCredit,
    /// The start of the current rate sample, and what was acknowledged then.
    pub rate_mark: u64,
    pub rate_base: u64,
    /// The budget published on the last pass.
    pub uplink_budget: usize,
    pub outstanding_peak: usize,
    pub pending_peak: usize,
    pub send_queue_peak: usize,
    /// Stalls inside the current [`STALL_FLAP_WINDOW`], and when the last one
    /// was noticed.
    pub stall_count: u32,
    pub stall_mark: u64,
}

/// A flow without its handle, with its pending bytes as a sequence.
#[verifier::ext_equal]
pub struct FlowView {
    pub connect_waiting: bool,
    pub pending: Seq<u8>,
    pub established: bool,
    pub half_closed: bool,
    pub connect_deadline: u64,
    pub orphaned_at: Option<u64>,
    pub aborted: bool,
    pub last_progress: u64,
    pub send_queue_high: usize,
    pub accepted_total: u64,
    pub acked_high: u64,
    pub last_drain: u64,
    pub drain_warned: bool,
    pub credit: FlowCredit,
    pub rate_mark: u64,
    pub rate_base: u64,
    pub uplink_budget: usize,
    pub outstanding_peak: usize,
    pub pending_peak: usize,
    pub send_queue_peak: usize,
    pub stall_count: u32,
    pub stall_mark: u64,
}

impl View for TcpState {
    type V = FlowView;

    open spec fn view(&self) -> FlowView {
        FlowView {
            connect_waiting: self.connect_waiting,
            pending: self.pending@,
            established: self.established,
            half_closed: self.half_closed,
            connect_deadline: self.connect_deadline,
            orphaned_at: self.orphaned_at,
            aborted: self.aborted,
            last_progress: self.last_progress,
            send_queue_high: self.send_queue_high,
            accepted_total: self.accepted_total,
            acked_high: self.acked_high,
            last_drain: self.last_drain,
            drain_warned: self.drain_warned,
            credit: self.credit,
            rate_mark: self.rate_mark,
            rate_base: self.rate_base,
            uplink_budget: self.uplink_budget,
            outstanding_peak: self.outstanding_peak,
            pending_peak: self.pending_peak,
            send_queue_peak: self.send_queue_peak,
            stall_count: self.stall_count,
            stall_mark: self.stall_mark,
        }
    }
}

/// A flow whose connect has just been started.
pub open spec fn opening_flow(now: u64, deadline: u64) -> FlowView {
    FlowView {
        connect_waiting: true,
        pending: Seq::empty(),
        established: false,
        half_closed: false,
        connect_deadline: deadline,
        orphaned_at: None,
        aborted: false,
        last_progress: now,
        send_queue_high: 0,
        accepted_total: 0,
        acked_high: 0,
        last_drain: now,
        drain_warned: false,
        credit: FlowCredit { sent: 0, acked: 0, cap: MIN_FLOW_QUEUE_BYTES, closed: false },
        rate_mark: now,
        rate_base: 0,
        uplink_budget: MIN_FLOW_QUEUE_BYTES,
        outstanding_peak: 0,
        pending_peak: 0,
        send_queue_peak: 0,
        stall_count: 0,
        stall_mark: now,
    }
}

/// What the application's end of a flow looks like at the start of a pass.
#[derive(Clone, Copy, Debug, PartialEq, Eq, Structural)]
pub struct AppSide {
    /// Whether the caller of the connect has stopped waiting for it.
    pub abandoned: bool,
    /// Bytes the application has handed over, ever.
    pub sent: u64,
    /// How many chunks its queue has room for.
    pub room: usize,
    /// Whether its queue has been closed.
    pub closed: bool,
}

/// Why a flow left the stack.
#[derive(Clone, Copy, Debug, PartialEq, Eq, Structural)]
pub enum ReapReason {
    /// It was reset on an earlier pass.
    Aborted,
    /// The peer refused the connect.
    Refused,
    /// Nobody answered the connect, or nobody waits for the answer any more.
    TimedOut,
}

/// What to do with a flow, judged by its connect.
#[derive(Clone, Copy, Debug, PartialEq, Eq, Structural)]
pub enum Verdict {
    Reap(ReapReason),
    /// The connect is still under way.
    Wait,
    /// The flow is connected; `announce` on the pass on which the caller of the
    /// connect is to be told.
    Serve { announce: bool },
}

pub open spec fn connected(phase: TcpPhase) -> bool {
    phase is Established || phase is CloseWait
}

pub open spec fn over(phase: TcpPhase) -> bool {
    phase is Closed || phase is TimeWait
}

/// The judgement of a flow by its connect.
pub open spec fn verdict(f: FlowView, phase: TcpPhase, abandoned: bool, now: u64) -> Verdict {
    if f.aborted {
        Verdict::Reap(ReapReason::Aborted)
    } else if f.established || connected(phase) {
        Verdict::Serve { announce: !f.established && f.connect_waiting }
    } else if over(phase) {
        Verdict::Reap(ReapReason::Refused)
    } else if !f.connect_waiting || abandoned || now >= f.connect_deadline {
        Verdict::Reap(ReapReason::TimedOut)
    } else {
        Verdict::Wait
    }
}

/// The flow after that judgement.
pub open spec fn judged(f: FlowView, phase: TcpPhase, side: AppSide, now: u64) -> FlowView {
    match verdict(f, phase, side.abandoned, now) {
        Verdict::Serve { announce } => FlowView {
            established: true,
            connect_waiting: f.connect_waiting && !announce,
            credit: FlowCredit { sent: side.sent, ..f.credit },
            ..f
        },
        Verdict::Wait => FlowView {
            credit: FlowCredit { sent: side.sent, ..f.credit },
            ..f
        },
        Verdict::Reap(_) => FlowView {
            credit: FlowCredit { sent: side.sent, closed: true, ..f.credit },
            ..f
        },
    }
}

/// How many of the pending bytes the socket takes now.
pub open spec fn fed(f: FlowView, v: TcpView) -> nat {
    if may_send(v.phase) && v.tx.len() < v.tx_capacity {
        accepted(v, f.pending.len())
    } else {
        0
    }
}

/// The flow after its socket has taken what it takes.
pub open spec fn after_feed(f: FlowView, v: TcpView, now: u64) -> FlowView {
    let n = fed(f, v);
    FlowView {
        pending: f.pending.skip(n as int),
        last_progress: if f.pending.len() == 0 || n > 0 {
            now
        } else {
            f.last_progress
        },
        accepted_total: if f.accepted_total + n <= u64::MAX {
            (f.accepted_total + n) as u64
        } else {
            u64::MAX
        },
        ..f
    }
}

/// The socket after it has taken what it takes: the leading pending bytes, in
/// order, behind what it held.
pub open spec fn socket_after_feed(f: FlowView, v: TcpView) -> TcpView {
    TcpView { tx: v.tx + f.pending.take(fed(f, v) as int), ..v }
}

/// What the peer has acknowledged of a flow whose socket still holds `queued`
/// bytes.
pub open spec fn acknowledged(f: FlowView, queued: nat) -> u64 {
    less(f.accepted_total as int, queued as int) as u64
}

/// Whether the peer has shown itself since the last pass: nothing is queued, or
/// more is acknowledged than ever before.
pub open spec fn drains(f: FlowView, queued: nat) -> bool {
    queued == 0 || acknowledged(f, queued) > f.acked_high
}

/// Whether a stall begins to be reported on this pass.
pub open spec fn stalls(f: FlowView, queued: nat, now: u64) -> bool {
    !drains(f, queued) && !f.drain_warned && elapsed(f.last_drain, now) >= TCP_DRAIN_STALL_WARN
}

/// The stalls counted when one begins on this pass.
pub open spec fn stalls_counted(f: FlowView, now: u64) -> int {
    let before = if elapsed(f.stall_mark, now) >= STALL_FLAP_WINDOW {
        0
    } else {
        f.stall_count
    };
    if before == u32::MAX {
        before as int
    } else {
        before + 1
    }
}

/// Whether the flow has stalled too often to be kept.
pub open spec fn flaps(f: FlowView, queued: nat, now: u64) -> bool {
    stalls(f, queued, now) && stalls_counted(f, now) >= STALL_FLAP_LIMIT
}

/// Whether a rate sample ends on this pass.
pub open spec fn sampled(f: FlowView, now: u64) -> bool {
    elapsed(f.rate_mark, now) >= RATE_SAMPLE_WINDOW
}

/// The flow after its drainage has been looked at.
pub open spec fn observed(f: FlowView, queued: usize, now: u64) -> FlowView {
    let acked = acknowledged(f, queued as nat);
    let alive = drains(f, queued as nat);
    let stall = stalls(f, queued as nat, now);
    FlowView {
        last_drain: if alive {
            now
        } else {
            f.last_drain
        },
        acked_high: if alive {
            acked
        } else {
            f.acked_high
        },
        drain_warned: !alive && (f.drain_warned || stall),
        stall_count: if stall {
            stalls_counted(f, now) as u32
        } else {
            f.stall_count
        },
        stall_mark: if stall {
            now
        } else {
            f.stall_mark
        },
        send_queue_high: queued,
        rate_mark: if sampled(f, now) {
            now
        } else {
            f.rate_mark
        },
        rate_base: if sampled(f, now) {
            acked
        } else {
            f.rate_base
        },
        ..f
    }
}

/// Bytes acknowledged over a stretch of time.
#[derive(Clone, Copy, Debug, PartialEq, Eq, Structural)]
pub struct RateSample {
    pub moved: u64,
    pub nanos: u64,
}

/// What there is to report of a flow's drainage.
#[derive(Clone, Copy, Debug, PartialEq, Eq, Structural)]
pub enum StallNote {
    Nothing,
    /// It drains again, after this long.
    Recovered { after: u64 },
    /// Nothing has been acknowledged for this long.
    Stalled { idle: u64 },
}

/// What a pass learnt of a flow's drainage.
#[derive(Clone, Copy, Debug, PartialEq, Eq, Structural)]
pub struct Measured {
    pub queued: usize,
    pub acked: u64,
    /// The flow is to be reset for stalling again and again.
    pub flap_reset: bool,
    pub sample: Option<RateSample>,
    pub note: StallNote,
}

/// What a look at the drainage of a flow finds.
pub open spec fn measurement(f: FlowView, queued: usize, now: u64) -> Measured {
    let acked = acknowledged(f, queued as nat);
    Measured {
        queued,
        acked,
        flap_reset: flaps(f, queued as nat, now),
        sample: if sampled(f, now) {
            Some(
                RateSample {
                    moved: less(acked as int, f.rate_base as int) as u64,
                    nanos: elapsed(f.rate_mark, now) as u64,
                },
            )
        } else {
            None
        },
        note: if drains(f, queued as nat) && f.drain_warned {
            StallNote::Recovered { after: elapsed(f.last_drain, now) as u64 }
        } else if stalls(f, queued as nat, now) {
            StallNote::Stalled { idle: elapsed(f.last_drain, now) as u64 }
        } else {
            StallNote::Nothing
        },
    }
}

/// The budget of a flow whose drain rate asks for `wanted` bytes: never below
/// the floor and never above what the socket could hold anyway.
pub open spec fn clamped_budget(wanted: usize, tx_buf: usize) -> usize {
    let ceiling = if tx_buf < MIN_FLOW_QUEUE_BYTES {
        MIN_FLOW_QUEUE_BYTES
    } else {
        tx_buf
    };
    if wanted < MIN_FLOW_QUEUE_BYTES {
        MIN_FLOW_QUEUE_BYTES
    } else if wanted > ceiling {
        ceiling
    } else {
        wanted
    }
}

/// The larger of the two.
pub open spec fn larger(a: int, b: int) -> int {
    if a < b {
        b
    } else {
        a
    }
}

/// The flow after its budget has been published and its high-water marks taken.
pub open spec fn published(f: FlowView, m: Measured, wanted: usize, tx_buf: usize) -> FlowView {
    let budget = clamped_budget(wanted, tx_buf);
    let credit = FlowCredit {
        acked: larger(f.credit.acked as int, m.acked as int) as u64,
        cap: budget,
        ..f.credit
    };
    let outstanding = if credit.in_flight() > usize::MAX {
        usize::MAX as int
    } else {
        credit.in_flight()
    };
    FlowView {
        uplink_budget: budget,
        credit,
        outstanding_peak: larger(f.outstanding_peak as int, outstanding) as usize,
        pending_peak: larger(f.pending_peak as int, f.pending.len() as int) as usize,
        send_queue_peak: larger(f.send_queue_peak as int, m.queued as int) as usize,
        ..f
    }
}

/// A flow that has just been reset: nothing is pending and its writer is
/// released.
pub open spec fn reset_view(f: FlowView) -> FlowView {
    FlowView {
        pending: Seq::empty(),
        credit: FlowCredit { closed: true, ..f.credit },
        ..f
    }
}

/// The flow after the reset that repeated stalls bring.
pub open spec fn after_flap(f: FlowView, m: Measured) -> FlowView {
    if m.flap_reset {
        FlowView { stall_count: 0, drain_warned: false, ..reset_view(f) }
    } else {
        f
    }
}

/// The state of the socket once the flow's own closing has been passed on: a
/// reset closes it, and so does the application once nothing is pending.
pub open spec fn phase_before_delivery(f: FlowView, m: Measured, phase: TcpPhase) -> TcpPhase {
    let p = if m.flap_reset {
        TcpPhase::Closed
    } else {
        phase
    };
    if f.half_closed && f.pending.len() == 0 {
        closed_phase(p)
    } else {
        p
    }
}

/// The bytes of the chunks, in order.
pub open spec fn joined(chunks: Seq<Vec<u8>>) -> Seq<u8>
    decreases chunks.len(),
{
    if chunks.len() == 0 {
        Seq::empty()
    } else {
        joined(chunks.drop_last()) + chunks.last()@
    }
}

/// Whether these chunks are a delivery of what was received: they are its
/// leading bytes in order, no more of them than there is room for, and nothing
/// is left behind while there is room for more.
pub open spec fn delivery(
    chunks: Seq<Vec<u8>>,
    was: Seq<u8>,
    left: Seq<u8>,
    side: AppSide,
) -> bool {
    &&& joined(chunks) + left == was
    &&& forall|i: int| 0 <= i < chunks.len() ==> (#[trigger] chunks[i])@.len() > 0
    &&& chunks.len() <= MAX_RECV_CHUNKS
    &&& side.closed ==> chunks.len() == 0
    &&& !side.closed ==> chunks.len() <= side.room
    &&& !side.closed && chunks.len() < side.room && chunks.len() < MAX_RECV_CHUNKS ==> left.len()
        == 0
}

/// Whether the application's queue is what ended a delivery of this many
/// chunks.
pub open spec fn held_back(delivered: nat, side: AppSide) -> bool {
    !side.closed && delivered == side.room && delivered < MAX_RECV_CHUNKS
}

/// Whether a flow without an application is reset now: it has data nobody will
/// read, or its peer has had its time to close.
pub open spec fn abandons(f: FlowView, left: nat, now: u64, linger: u64) -> bool {
    left > 0 || elapsed(orphaned_since(f, now), now) >= linger
}

/// When the application of the flow went away, if that is noticed at `now`.
pub open spec fn orphaned_since(f: FlowView, now: u64) -> u64 {
    match f.orphaned_at {
        Some(t) => t,
        None => now,
    }
}

/// The end of a pass over one flow.
pub ghost struct PassEnd {
    pub flow: FlowView,
    pub phase: TcpPhase,
    /// The flow leaves the stack.
    pub reaped: bool,
}

/// How a pass ends for a flow whose socket is in this state with `left` bytes
/// unread.
pub open spec fn pass_end(
    f: FlowView,
    phase: TcpPhase,
    left: nat,
    side: AppSide,
    now: u64,
    linger: u64,
) -> PassEnd {
    let g = if side.closed {
        FlowView { orphaned_at: Some(orphaned_since(f, now)), ..f }
    } else {
        f
    };
    if side.closed && abandons(f, left, now, linger) {
        PassEnd {
            flow: FlowView { aborted: true, ..g },
            phase: TcpPhase::Closed,
            reaped: false,
        }
    } else {
        let p = if side.closed {
            closed_phase(phase)
        } else {
            phase
        };
        PassEnd {
            flow: if p is TimeWait {
                FlowView { pending: Seq::empty(), ..g }
            } else {
                g
            },
            phase: if p is CloseWait {
                TcpPhase::LastAck
            } else {
                p
            },
            reaped: over(p) && f.established,
        }
    }
}

/// What the first half of a pass over a flow came to.
#[derive(Clone, Copy, Debug, PartialEq, Eq, Structural)]
pub enum UplinkStep {
    /// The flow and its socket are to be dropped.
    Reaped(ReapReason),
    /// The connect is still under way.
    Waiting,
    /// The flow is connected and was served.
    Served { announce: bool, measured: Measured },
}

pub open spec fn uplink_step(f: FlowView, v: TcpView, side: AppSide, now: u64) -> UplinkStep {
    match verdict(f, v.phase, side.abandoned, now) {
        Verdict::Reap(why) => UplinkStep::Reaped(why),
        Verdict::Wait => UplinkStep::Waiting,
        Verdict::Serve { announce } => UplinkStep::Served {
            announce,
            measured: measurement(
                after_feed(judged(f, v.phase, side, now), v, now),
                socket_after_feed(f, v).tx.len() as usize,
                now,
            ),
        },
    }
}

/// The flow after the first half of a pass.
pub open spec fn uplinked(f: FlowView, v: TcpView, side: AppSide, now: u64) -> FlowView {
    let g = judged(f, v.phase, side, now);
    if verdict(f, v.phase, side.abandoned, now) is Serve {
        observed(after_feed(g, v, now), socket_after_feed(f, v).tx.len() as usize, now)
    } else {
        g
    }
}

/// The socket of a flow after the first half of a pass.
pub open spec fn uplinked_socket(f: FlowView, v: TcpView, side: AppSide, now: u64) -> TcpView {
    if verdict(f, v.phase, side.abandoned, now) is Serve {
        socket_after_feed(f, v)
    } else {
        v
    }
}

/// What the second half of a pass over a flow came to.
pub struct DownlinkReport {
    /// What the application is to be given, in order.
    pub chunks: Vec<Vec<u8>>,
    /// The application's queue was full.
    pub backpressured: bool,
    /// The flow is over: it and its socket are to be dropped.
    pub reaped: bool,
}

/// Whether the second half of a pass took a flow from `f` to `g` and its socket
/// from `v` to `w`.
pub open spec fn downlinked(
    f: FlowView,
    g: FlowView,
    v: TcpView,
    w: TcpView,
    m: Measured,
    wanted: usize,
    tx_buf: usize,
    side: AppSide,
    now: u64,
    linger: u64,
    r: DownlinkReport,
) -> bool {
    let served = after_flap(published(f, m, wanted, tx_buf), m);
    let phase = phase_before_delivery(served, m, v.phase);
    let end = pass_end(served, phase, w.rx.len(), side, now, linger);
    &&& delivery(r.chunks@, v.rx, w.rx, side)
    &&& r.backpressured == held_back(r.chunks@.len(), side)
    &&& r.reaped == end.reaped
    &&& w == (TcpView { phase: end.phase, rx: w.rx, ..v })
    &&& g == (if end.reaped {
        FlowView { credit: FlowCredit { closed: true, ..end.flow.credit }, ..end.flow }
    } else {
        end.flow
    })
}

pub fn elapsed_nanos(since: u64, now: u64) -> (r: u64)
    ensures
        r == elapsed(since, now),
{
    now.saturating_sub(since)
}

/// Writing back what a socket already holds changes nothing.
proof fn same_socket(m: Map<smoltcp::iface::SocketHandle, SocketView>, h: smoltcp::iface::SocketHandle)
    requires
        m.dom().contains(h),
        m[h] is Tcp,
    ensures
        with_tcp(m, h, m[h]->Tcp_0) == m,
{
    assert(with_tcp(m, h, m[h]->Tcp_0) =~= m);
}

/// Two changes to one socket are the second one.
proof fn last_write_wins(
    m: Map<smoltcp::iface::SocketHandle, SocketView>,
    h: smoltcp::iface::SocketHandle,
    v: TcpView,
    w: TcpView,
)
    ensures
        with_tcp(with_tcp(m, h, v), h, w) == with_tcp(m, h, w),
{
    assert(with_tcp(with_tcp(m, h, v), h, w) =~= with_tcp(m, h, w));
}

impl TcpState {
    /// A flow whose connect has just been started on the socket.
    pub fn opening(handle: smoltcp::iface::SocketHandle, now: u64, deadline: u64) -> (r: Self)
        ensures
            r.handle == handle,
            r@ == opening_flow(now, deadline),
    {
        TcpState {
            handle,
            connect_waiting: true,
            pending: Vec::new(),
            established: false,
            half_closed: false,
            connect_deadline: deadline,
            orphaned_at: None,
            aborted: false,
            last_progress: now,
            send_queue_high: 0,
            accepted_total: 0,
            acked_high: 0,
            last_drain: now,
            drain_warned: false,
            credit: FlowCredit::new(),
            rate_mark: now,
            rate_base: 0,
            uplink_budget: MIN_FLOW_QUEUE_BYTES,
            outstanding_peak: 0,
            pending_peak: 0,
            send_queue_peak: 0,
            stall_count: 0,
            stall_mark: now,
        }
    }

    /// Judges the flow by its connect.
    pub fn judge(&mut self, phase: TcpPhase, side: AppSide, now: u64) -> (r: Verdict)
        ensures
            r == verdict(old(self)@, phase, side.abandoned, now),
            final(self)@ == judged(old(self)@, phase, side, now),
            final(self).handle == old(self).handle,
    {
        self.credit.sent = side.sent;
        if self.aborted {
            self.credit.close();
            return Verdict::Reap(ReapReason::Aborted);
        }
        let connected = phase == TcpPhase::Established || phase == TcpPhase::CloseWait;
        let mut announce = false;
        if !self.established && connected {
            self.established = true;
            announce = self.connect_waiting;
            self.connect_waiting = false;
        }
        if self.established {
            return Verdict::Serve { announce };
        }
        if phase == TcpPhase::Closed || phase == TcpPhase::TimeWait {
            self.credit.close();
            return Verdict::Reap(ReapReason::Refused);
        }
        if !self.connect_waiting || side.abandoned || now >= self.connect_deadline {
            self.credit.close();
            return Verdict::Reap(ReapReason::TimedOut);
        }
        Verdict::Wait
    }

    /// Hands the socket as many pending bytes as it takes.
    pub fn feed(&mut self, set: &mut smoltcp::iface::SocketSet<'static>, now: u64)
        requires
            has_tcp(*old(set), old(self).handle),
        ensures
            final(self)@ == after_feed(old(self)@, tcp_at(*old(set), old(self).handle), now),
            final(self).handle == old(self).handle,
            sockets_of(*final(set)) == with_tcp(
                sockets_of(*old(set)),
                old(self).handle,
                socket_after_feed(old(self)@, tcp_at(*old(set), old(self).handle)),
            ),
    {
        let ghost h = self.handle;
        let ghost v = tcp_at(*set, h);
        let ghost p = self.pending@;
        proof {
            same_socket(sockets_of(*set), h);
            assert(p.take(0) =~= Seq::empty());
            assert(p.skip(0) =~= p);
            assert(v.tx + p.take(0) =~= v.tx);
        }
        if self.pending.len() == 0 {
            self.last_progress = now;
        } else if sockets::can_send(set, self.handle) {
            let taken: usize = match sockets::send_slice(set, self.handle, self.pending.as_slice()) {
                Some(n) => n,
                None => 0,
            };
            if taken > 0 {
                self.last_progress = now;
                self.accepted_total = self.accepted_total.saturating_add(taken as u64);
                self.pending = self.pending.split_off(taken);
                assert(self.pending@ =~= p.skip(taken as int));
            }
        }
    }

    /// Looks at how the flow drains, given what its socket still holds.
    pub fn observe(&mut self, queued: usize, now: u64) -> (r: Measured)
        ensures
            r == measurement(old(self)@, queued, now),
            final(self)@ == observed(old(self)@, queued, now),
            final(self).handle == old(self).handle,
    {
        let acked: u64 = self.accepted_total.saturating_sub(queued as u64);
        let idle: u64 = elapsed_nanos(self.last_drain, now);
        let mut note = StallNote::Nothing;
        let mut flap_reset = false;
        if queued == 0 || acked > self.acked_high {
            self.last_drain = now;
            self.acked_high = acked;
            if self.drain_warned {
                self.drain_warned = false;
                note = StallNote::Recovered { after: idle };
            }
        } else if !self.drain_warned && idle >= TCP_DRAIN_STALL_WARN {
            self.drain_warned = true;
            note = StallNote::Stalled { idle };
            if elapsed_nanos(self.stall_mark, now) >= STALL_FLAP_WINDOW {
                self.stall_count = 0;
            }
            self.stall_mark = now;
            self.stall_count = self.stall_count.saturating_add(1);
            flap_reset = self.stall_count >= STALL_FLAP_LIMIT;
        }
        self.send_queue_high = queued;
        let mut sample = None;
        let nanos: u64 = elapsed_nanos(self.rate_mark, now);
        if nanos >= RATE_SAMPLE_WINDOW {
            sample = Some(RateSample { moved: acked.saturating_sub(self.rate_base), nanos });
            self.rate_mark = now;
            self.rate_base = acked;
        }
        Measured { queued, acked, flap_reset, sample, note }
    }

    /// Publishes the budget that the drain rate asks for, and takes the
    /// high-water marks.
    pub fn publish(&mut self, m: Measured, wanted: usize, tx_buf: usize)
        ensures
            final(self)@ == published(old(self)@, m, wanted, tx_buf),
            final(self).handle == old(self).handle,
    {
        let ceiling: usize = if tx_buf < MIN_FLOW_QUEUE_BYTES {
            MIN_FLOW_QUEUE_BYTES
        } else {
            tx_buf
        };
        let budget: usize = if wanted < MIN_FLOW_QUEUE_BYTES {
            MIN_FLOW_QUEUE_BYTES
        } else if wanted > ceiling {
            ceiling
        } else {
            wanted
        };
        self.uplink_budget = budget;
        self.credit.publish(m.acked, budget);
        let in_flight: u64 = self.credit.outstanding();
        let outstanding: usize = if in_flight > usize::MAX as u64 {
            usize::MAX
        } else {
            in_flight as usize
        };
        if outstanding > self.outstanding_peak {
            self.outstanding_peak = outstanding;
        }
        if self.pending.len() > self.pending_peak {
            self.pending_peak = self.pending.len();
        }
        if m.queued > self.send_queue_peak {
            self.send_queue_peak = m.queued;
        }
    }

    /// Drops what is pending, releases the writer and aborts the socket.
    pub fn reset(&mut self, set: &mut smoltcp::iface::SocketSet<'static>)
        requires
            has_tcp(*old(set), old(self).handle),
        ensures
            final(self)@ == reset_view(old(self)@),
            final(self).handle == old(self).handle,
            sockets_of(*final(set)) == with_tcp(
                sockets_of(*old(set)),
                old(self).handle,
                (TcpView { phase: TcpPhase::Closed, ..tcp_at(*old(set), old(self).handle) }),
            ),
    {
        self.pending.clear();
        self.credit.close();
        sockets::abort(set, self.handle);
    }

    /// Hands out what the socket has received, as far as the application has
    /// room for it.
    pub fn deliver(
        &self,
        set: &mut smoltcp::iface::SocketSet<'static>,
        side: AppSide,
    ) -> (chunks: Vec<Vec<u8>>)
        requires
            has_tcp(*old(set), self.handle),
        ensures
            has_tcp(*final(set), self.handle),
            sockets_of(*final(set)) == with_tcp(
                sockets_of(*old(set)),
                self.handle,
                (TcpView {
                    rx: tcp_at(*final(set), self.handle).rx,
                    ..tcp_at(*old(set), self.handle)
                }),
            ),
            delivery(
                chunks@,
                tcp_at(*old(set), self.handle).rx,
                tcp_at(*final(set), self.handle).rx,
                side,
            ),
    {
        let ghost m0 = sockets_of(*set);
        let ghost h = self.handle;
        let ghost v0 = tcp_at(*set, h);
        let mut chunks: Vec<Vec<u8>> = Vec::new();
        proof {
            same_socket(m0, h);
            assert(joined(chunks@) + v0.rx =~= v0.rx);
        }
        if side.closed {
            return chunks;
        }
        let mut drained = false;
        while !drained && chunks.len() < MAX_RECV_CHUNKS && chunks.len() < side.room
            invariant
                has_tcp(*set, h),
                h == self.handle,
                sockets_of(*set) == with_tcp(m0, h, (TcpView { rx: tcp_at(*set, h).rx, ..v0 })),
                joined(chunks@) + tcp_at(*set, h).rx == v0.rx,
                forall|i: int| 0 <= i < chunks@.len() ==> (#[trigger] chunks@[i])@.len() > 0,
                chunks.len() <= MAX_RECV_CHUNKS,
                chunks.len() <= side.room,
                drained ==> tcp_at(*set, h).rx.len() == 0,
            decreases
                if drained {
                    0int
                } else {
                    1 + tcp_at(*set, h).rx.len() as int
                },
        {
            if !sockets::can_recv(set, self.handle) {
                drained = true;
            } else {
                let ghost was = *set;
                let ghost before = chunks@;
                match sockets::recv(set, self.handle) {
                    Some(chunk) => {
                        let ghost c = chunk@;
                        chunks.push(chunk);
                        proof {
                            let r = tcp_at(was, h).rx;
                            assert(c + r.skip(c.len() as int) =~= r);
                            assert(chunks@.drop_last() =~= before);
                            assert(joined(chunks@) == joined(before) + c);
                            assert(joined(chunks@) + tcp_at(*set, h).rx =~= joined(before) + r);
                            last_write_wins(m0, h, tcp_at(was, h), tcp_at(*set, h));
                        }
                    },
                    None => {
                        drained = true;
                    },
                }
            }
        }
        chunks
    }

    /// Ends a pass over the flow and tells whether it leaves the stack.
    pub fn settle(
        &mut self,
        set: &mut smoltcp::iface::SocketSet<'static>,
        side: AppSide,
        now: u64,
        linger: u64,
    ) -> (reaped: bool)
        requires
            has_tcp(*old(set), old(self).handle),
        ensures
            ({
                let v = tcp_at(*old(set), old(self).handle);
                let end = pass_end(old(self)@, v.phase, v.rx.len(), side, now, linger);
                &&& reaped == end.reaped
                &&& final(self)@ == (if reaped {
                    FlowView { credit: FlowCredit { closed: true, ..end.flow.credit }, ..end.flow }
                } else {
                    end.flow
                })
                &&& sockets_of(*final(set)) == with_tcp(
                    sockets_of(*old(set)),
                    old(self).handle,
                    (TcpView { phase: end.phase, ..v }),
                )
            }),
            final(self).handle == old(self).handle,
    {
        let ghost m0 = sockets_of(*set);
        let ghost h = self.handle;
        let ghost v0 = tcp_at(*set, h);
        proof {
            same_socket(m0, h);
        }
        if side.closed {
            let since: u64 = match self.orphaned_at {
                Some(t) => t,
                None => now,
            };
            self.orphaned_at = Some(since);
            if sockets::can_recv(set, self.handle) || elapsed_nanos(since, now) >= linger {
                if sockets::phase(set, self.handle) != TcpPhase::Closed {
                    sockets::abort(set, self.handle);
                }
                self.aborted = true;
                return false;
            }
            sockets::close(set, self.handle);
        }
        let ghost v1 = tcp_at(*set, h);
        let phase = sockets::phase(set, self.handle);
        if phase == TcpPhase::CloseWait {
            sockets::close(set, self.handle);
            proof {
                last_write_wins(m0, h, v1, tcp_at(*set, h));
            }
        }
        if phase == TcpPhase::TimeWait {
            self.pending.clear();
        }
        let reaped = (phase == TcpPhase::Closed || phase == TcpPhase::TimeWait) && self.established;
        if reaped {
            self.credit.close();
        }
        reaped
    }

    /// The first half of a pass over the flow: the connect is judged, the
    /// socket is fed and its drainage measured.
    pub fn uplink(
        &mut self,
        set: &mut smoltcp::iface::SocketSet<'static>,
        side: AppSide,
        now: u64,
    ) -> (r: UplinkStep)
        requires
            has_tcp(*old(set), old(self).handle),
        ensures
            r == uplink_step(old(self)@, tcp_at(*old(set), old(self).handle), side, now),
            final(self)@ == uplinked(old(self)@, tcp_at(*old(set), old(self).handle), side, now),
            final(self).handle == old(self).handle,
            sockets_of(*final(set)) == with_tcp(
                sockets_of(*old(set)),
                old(self).handle,
                uplinked_socket(old(self)@, tcp_at(*old(set), old(self).handle), side, now),
            ),
    {
        proof {
            same_socket(sockets_of(*set), self.handle);
        }
        let phase = sockets::phase(set, self.handle);
        match self.judge(phase, side, now) {
            Verdict::Reap(why) => UplinkStep::Reaped(why),
            Verdict::Wait => UplinkStep::Waiting,
            Verdict::Serve { announce } => {
                self.feed(set, now);
                let queued: usize = sockets::send_queue(set, self.handle);
                let measured = self.observe(queued, now);
                UplinkStep::Served { announce, measured }
            },
        }
    }

    /// Resets a flow that stalls again and again, and closes the socket of one
    /// whose application has finished once nothing is pending.
    pub fn pass_on_close(
        &mut self,
        set: &mut smoltcp::iface::SocketSet<'static>,
        measured: Measured,
    )
        requires
            has_tcp(*old(set), old(self).handle),
        ensures
            final(self)@ == after_flap(old(self)@, measured),
            final(self).handle == old(self).handle,
            sockets_of(*final(set)) == with_tcp(
                sockets_of(*old(set)),
                old(self).handle,
                (TcpView {
                    phase: phase_before_delivery(
                        after_flap(old(self)@, measured),
                        measured,
                        tcp_at(*old(set), old(self).handle).phase,
                    ),
                    ..tcp_at(*old(set), old(self).handle)
                }),
            ),
    {
        let ghost m0 = sockets_of(*set);
        let ghost h = self.handle;
        proof {
            same_socket(m0, h);
        }
        if measured.flap_reset {
            self.stall_count = 0;
            self.drain_warned = false;
            self.reset(set);
        }
        let ghost v1 = tcp_at(*set, h);
        if self.half_closed && self.pending.len() == 0 {
            sockets::close(set, self.handle);
            proof {
                last_write_wins(m0, h, v1, tcp_at(*set, h));
            }
        }
    }

    /// The second half of a pass over a connected flow: its budget is
    /// published, what it received is handed out, and its end is noticed.
    pub fn downlink(
        &mut self,
        set: &mut smoltcp::iface::SocketSet<'static>,
        measured: Measured,
        wanted: usize,
        tx_buf: usize,
        side: AppSide,
        now: u64,
        linger: u64,
    ) -> (r: DownlinkReport)
        requires
            has_tcp(*old(set), old(self).handle),
        ensures
            downlinked(
                old(self)@,
                final(self)@,
                tcp_at(*old(set), old(self).handle),
                tcp_at(*final(set), old(self).handle),
                measured,
                wanted,
                tx_buf,
                side,
                now,
                linger,
                r,
            ),
            final(self).handle == old(self).handle,
            sockets_of(*final(set)) == with_tcp(
                sockets_of(*old(set)),
                old(self).handle,
                tcp_at(*final(set), old(self).handle),
            ),
    {
        let ghost m0 = sockets_of(*set);
        let ghost h = self.handle;
        let ghost v0 = tcp_at(*set, h);
        proof {
            same_socket(m0, h);
        }
        self.publish(measured, wanted, tx_buf);
        self.pass_on_close(set, measured);
        let ghost v2 = tcp_at(*set, h);
        let chunks = self.deliver(set, side);
        let ghost v3 = tcp_at(*set, h);
        proof {
            last_write_wins(m0, h, v2, v3);
        }
        let backpressured = !side.closed && chunks.len() == side.room && chunks.len()
            < MAX_RECV_CHUNKS;
        let reaped = self.settle(set, side, now, linger);
        proof {
            last_write_wins(m0, h, v3, tcp_at(*set, h));
        }
        DownlinkReport { chunks, backpressured, reaped }
    }
}

} // verus!
