//! When the stack reports itself, which queue it visits first, and how long it
//! may sleep.

use vstd::prelude::*;

use super::backlog::Backlog;
#[allow(unused_imports)]
use super::backlog::MAX_BACKLOG_BYTES;
use super::cmd::{Cmd, CmdOutcome};
#[allow(unused_imports)]
use super::device::capped_sum;
use super::flow::elapsed_nanos;
#[allow(unused_imports)]
use super::flow::elapsed;
use super::queues::{
    drain_app_data,
    drain_cmds,
    drain_inbound,
    MAX_APP_INGEST_PER_TICK,
    MAX_CMD_PER_TICK,
    MAX_INGEST_PER_TICK,
};
#[allow(unused_imports)]
use super::queues::{app_data_taken, cmds_taken, inbound_emptied, inbound_taken};
use super::stack::{DataIn, NetStack};
#[allow(unused_imports)]
use crate::channel::{cmd_queue, data_queue, packet_queue};

verus! {

/// How long the applications may make no progress, while the tunnel does,
/// before that is reported, in nanoseconds.
pub const STARVATION_REPORT_AFTER: u64 = 2_000_000_000;

/// The least time between two such reports, in nanoseconds.
pub const STARVATION_REPORT_GAP: u64 = 10_000_000_000;

/// How busy the tunnel must be for such a report.
pub const STARVATION_MIN_INBOUND: usize = 32;

/// How long to wait before trying again where a queue was full, in nanoseconds.
pub const BACKPRESSURE_RETRY: u64 = 2_000_000;

/// How many more dropped packets bring the next report of them.
pub const DROP_REPORT_STEP: usize = 512;

/// The longest sleep while there are flows, in nanoseconds.
pub const MAX_IDLE_TICK: u64 = 250_000_000;

/// The time between two reports of the data plane, in nanoseconds.
pub const TELEMETRY_INTERVAL: u64 = 15_000_000_000;

/// The time to the first of them, in nanoseconds.
pub const TELEMETRY_FIRST: u64 = 2_000_000_000;

/// What the stack remembers from pass to pass.
#[derive(Clone, Copy, Debug, PartialEq, Eq, Structural)]
pub struct Schedule {
    /// Whether the tunnel is visited before the applications on the next pass.
    pub tunnel_first: bool,
    pub last_app_progress: u64,
    pub last_starvation_report: u64,
    pub last_telemetry: u64,
    pub win_in: usize,
    pub win_app: usize,
    pub win_dropped: usize,
    pub tx_dropped: usize,
    pub next_drop_report: usize,
}

/// `now - by`, and `now` where that would be before the clock began.
pub open spec fn backdated(now: u64, by: u64) -> u64 {
    if now >= by {
        (now - by) as u64
    } else {
        now
    }
}

fn backdate(now: u64, by: u64) -> (r: u64)
    ensures
        r == backdated(now, by),
{
    if now >= by {
        now - by
    } else {
        now
    }
}

/// Whether idle applications are worth a report.
pub open spec fn starving(
    s: Schedule,
    moved_in: usize,
    moved_app: usize,
    backlog_empty: bool,
    now: u64,
) -> bool {
    &&& moved_app == 0
    &&& moved_in >= STARVATION_MIN_INBOUND
    &&& !backlog_empty
    &&& elapsed(s.last_app_progress, now) >= STARVATION_REPORT_AFTER
    &&& elapsed(s.last_starvation_report, now) >= STARVATION_REPORT_GAP
}

/// One pass over the queues.
pub struct QueuePass {
    pub moved_in: usize,
    pub moved_app: usize,
    pub outcomes: Vec<(u64, CmdOutcome)>,
    /// One of the queues is gone: the stack is to end.
    pub closed: bool,
}

/// The queues of a stack.
pub ghost struct Queues {
    pub inbound: tokio::sync::mpsc::Receiver<Vec<u8>>,
    pub data: tokio::sync::mpsc::Receiver<DataIn>,
    pub cmds: tokio::sync::mpsc::Receiver<(Cmd, u64)>,
}

/// Whether a pass over the queues went from the first state over the two in the
/// middle to the last: the tunnel and the applications in one order or the
/// other, then the commands, each emptied within its own budget. `closed` tells
/// which of the three queues is gone.
pub open spec fn queues_served(
    tunnel_first: bool,
    was: (&NetStack, &Backlog, Queues),
    mid: (&NetStack, &NetStack),
    now: (&NetStack, &Backlog, Queues),
    time: u64,
    r: QueuePass,
    closed: (bool, bool, bool),
) -> bool {
    let (before_tunnel, after_tunnel) = if tunnel_first {
        (was.0, mid.0)
    } else {
        (mid.0, mid.1)
    };
    let (before_data, after_data) = if tunnel_first {
        (mid.0, mid.1)
    } else {
        (was.0, mid.0)
    };
    &&& from_tunnel(
        before_tunnel,
        was.2.inbound,
        after_tunnel,
        now.2.inbound,
        (r.moved_in, closed.0),
    )
    &&& app_data_taken(
        before_data,
        was.1,
        was.2.data,
        after_data,
        now.1,
        now.2.data,
        MAX_APP_INGEST_PER_TICK,
        (r.moved_app, closed.1),
    )
    &&& cmds_taken(
        mid.1,
        was.2.cmds,
        now.0,
        now.2.cmds,
        MAX_CMD_PER_TICK,
        time,
        r.outcomes@,
        closed.2,
    )
    &&& r.closed == (closed.0 || closed.1 || closed.2)
}

/// Whether the stack took packets from the tunnel with this outcome.
pub open spec fn from_tunnel(
    was: &NetStack,
    was_queue: tokio::sync::mpsc::Receiver<Vec<u8>>,
    now: &NetStack,
    now_queue: tokio::sync::mpsc::Receiver<Vec<u8>>,
    r: (usize, bool),
) -> bool {
    &&& inbound_taken(&was.device, &now.device, MAX_INGEST_PER_TICK, r)
    &&& inbound_emptied(
        was_queue,
        now_queue,
        &was.device,
        &now.device,
        MAX_INGEST_PER_TICK,
        r.1,
    )
    &&& *now == (NetStack { device: now.device, ..*was })
}

/// The smaller of the two.
pub open spec fn at_most(n: nat, budget: usize) -> int {
    if n < budget {
        n as int
    } else {
        budget as int
    }
}

/// Every pass serves every queue within the budget of that queue, however full
/// the others are and whatever waits to go out: what waits is taken up to the
/// budget. Only a backlog at its bound holds the applications back. A tunnel or a
/// giver of commands that is gone ends the stack.
pub proof fn every_queue_is_served(
    tunnel_first: bool,
    was: (&NetStack, &Backlog, Queues),
    mid: (&NetStack, &NetStack),
    now: (&NetStack, &Backlog, Queues),
    time: u64,
    r: QueuePass,
    closed: (bool, bool, bool),
)
    requires
        queues_served(tunnel_first, was, mid, now, time, r, closed),
    ensures
        at_most(packet_queue(was.2.inbound).waiting.len(), MAX_INGEST_PER_TICK) <= r.moved_in
            <= MAX_INGEST_PER_TICK,
        r.moved_app <= MAX_APP_INGEST_PER_TICK,
        now.1.bytes < MAX_BACKLOG_BYTES ==> at_most(
            data_queue(was.2.data).waiting.len(),
            MAX_APP_INGEST_PER_TICK,
        ) <= r.moved_app,
        at_most(cmd_queue(was.2.cmds).waiting.len(), MAX_CMD_PER_TICK) <= r.outcomes@.len()
            <= MAX_CMD_PER_TICK,
        packet_queue(now.2.inbound).over || cmd_queue(now.2.cmds).over ==> r.closed,
{
}

/// Whether counting dropped packets took the schedule from `was` to `now`, and
/// what is to be reported of them.
pub open spec fn drops_noted(
    was: Schedule,
    dropped: usize,
    now: Schedule,
    report: Option<usize>,
) -> bool {
    let total = capped_sum(was.tx_dropped, dropped);
    let due = dropped > 0 && total >= was.next_drop_report;
    &&& report == (if due {
        Some(total)
    } else {
        None
    })
    &&& now == (Schedule {
        tx_dropped: total,
        next_drop_report: if due {
            capped_sum(total, DROP_REPORT_STEP)
        } else {
            was.next_drop_report
        },
        ..was
    })
}

/// Whether counting what a pass moved took the schedule from `was` to `after`,
/// and what is to be reported of idle applications.
pub open spec fn pass_noted(
    was: Schedule,
    moved_in: usize,
    moved_app: usize,
    dropped: usize,
    backlog_empty: bool,
    now: u64,
    after: Schedule,
    report: Option<u64>,
) -> bool {
    let due = starving(was, moved_in, moved_app, backlog_empty, now);
    &&& report == (if due {
        Some(elapsed(was.last_app_progress, now) as u64)
    } else {
        None
    })
    &&& after == (Schedule {
        last_app_progress: if moved_app > 0 {
            now
        } else {
            was.last_app_progress
        },
        last_starvation_report: if due {
            now
        } else {
            was.last_starvation_report
        },
        win_in: capped_sum(was.win_in, moved_in),
        win_app: capped_sum(was.win_app, moved_app),
        win_dropped: capped_sum(was.win_dropped, dropped),
        ..was
    })
}

/// The schedule once data of an application woke the stack.
pub open spec fn woken(was: Schedule, now: u64) -> Schedule {
    Schedule { last_app_progress: now, ..was }
}

/// The schedule at the start of the next window of the report.
pub open spec fn window_begun(was: Schedule, now: u64) -> Schedule {
    Schedule { last_telemetry: now, win_in: 0, win_app: 0, win_dropped: 0, ..was }
}

/// The schedule once a pass has had its turn: on the next one the other goes
/// first.
pub open spec fn turn_taken(was: Schedule) -> Schedule {
    Schedule { tunnel_first: !was.tunnel_first, ..was }
}

impl Schedule {
    pub fn new(now: u64) -> (r: Self)
        ensures
            r == (Schedule {
                tunnel_first: false,
                last_app_progress: now,
                last_starvation_report: backdated(now, STARVATION_REPORT_GAP),
                last_telemetry: backdated(now, (TELEMETRY_INTERVAL - TELEMETRY_FIRST) as u64),
                win_in: 0,
                win_app: 0,
                win_dropped: 0,
                tx_dropped: 0,
                next_drop_report: DROP_REPORT_STEP,
            }),
    {
        Schedule {
            tunnel_first: false,
            last_app_progress: now,
            last_starvation_report: backdate(now, STARVATION_REPORT_GAP),
            last_telemetry: backdate(now, TELEMETRY_INTERVAL - TELEMETRY_FIRST),
            win_in: 0,
            win_app: 0,
            win_dropped: 0,
            tx_dropped: 0,
            next_drop_report: DROP_REPORT_STEP,
        }
    }

    /// Counts dropped packets, and tells the total when it is to be reported.
    pub fn note_drops(&mut self, dropped: usize) -> (report: Option<usize>)
        ensures
            drops_noted(*old(self), dropped, *final(self), report),
    {
        self.tx_dropped = self.tx_dropped.saturating_add(dropped);
        if dropped > 0 && self.tx_dropped >= self.next_drop_report {
            self.next_drop_report = self.tx_dropped.saturating_add(DROP_REPORT_STEP);
            return Some(self.tx_dropped);
        }
        None
    }

    /// Empties every queue within its own budget. The applications and the
    /// tunnel take turns at being first.
    pub fn serve_queues(
        &mut self,
        s: &mut NetStack,
        backlog: &mut Backlog,
        data_in: &mut tokio::sync::mpsc::Receiver<DataIn>,
        inbound: &mut tokio::sync::mpsc::Receiver<Vec<u8>>,
        cmds: &mut tokio::sync::mpsc::Receiver<(Cmd, u64)>,
        now: u64,
    ) -> (r: QueuePass)
        requires
            old(s).wf(),
            old(backlog).wf(),
            old(s).next_id + MAX_CMD_PER_TICK <= usize::MAX,
            now + old(s).tcp_limits.connect <= u64::MAX,
        ensures
            final(s).wf(),
            final(backlog).wf(),
            *final(self) == turn_taken(*old(self)),
            exists|a: NetStack, b: NetStack, closed: (bool, bool, bool)| #[trigger]
                queues_served(
                    old(self).tunnel_first,
                    (
                        old(s),
                        old(backlog),
                        (Queues { inbound: *old(inbound), data: *old(data_in), cmds: *old(cmds) }),
                    ),
                    (&a, &b),
                    (
                        final(s),
                        final(backlog),
                        (Queues {
                            inbound: *final(inbound),
                            data: *final(data_in),
                            cmds: *final(cmds),
                        }),
                    ),
                    now,
                    r,
                    closed,
                ),
    {
        let mut moved_in: usize = 0;
        let mut moved_app: usize = 0;
        let mut app_gone = false;
        let mut tunnel_gone = false;
        if self.tunnel_first {
            let (n, done) = drain_inbound(&mut s.device, inbound, MAX_INGEST_PER_TICK);
            moved_in = n;
            tunnel_gone = done;
        } else {
            let (n, done) = drain_app_data(s, backlog, data_in, MAX_APP_INGEST_PER_TICK);
            moved_app = n;
            app_gone = done;
        }
        let ghost a = *s;
        if self.tunnel_first {
            let (n, done) = drain_app_data(s, backlog, data_in, MAX_APP_INGEST_PER_TICK);
            moved_app = n;
            app_gone = done;
        } else {
            let (n, done) = drain_inbound(&mut s.device, inbound, MAX_INGEST_PER_TICK);
            moved_in = n;
            tunnel_gone = done;
        }
        let ghost b = *s;
        let (outcomes, done) = drain_cmds(s, cmds, MAX_CMD_PER_TICK, now);
        let closed = app_gone || tunnel_gone || done;
        let r = QueuePass { moved_in, moved_app, outcomes, closed };
        assert(queues_served(
            self.tunnel_first,
            (
                old(s),
                old(backlog),
                Queues { inbound: *old(inbound), data: *old(data_in), cmds: *old(cmds) },
            ),
            (&a, &b),
            (
                final(s),
                final(backlog),
                Queues { inbound: *final(inbound), data: *final(data_in), cmds: *final(cmds) },
            ),
            now,
            r,
            (tunnel_gone, app_gone, done),
        ));
        self.tunnel_first = !self.tunnel_first;
        r
    }

    /// Data of an application arrived while the stack slept.
    pub fn woken_by_app(&mut self, now: u64)
        ensures
            *final(self) == woken(*old(self), now),
    {
        self.last_app_progress = now;
    }

    /// Counts what a pass moved, and tells for how long the applications have
    /// been idle when that is to be reported.
    pub fn note_pass(
        &mut self,
        moved_in: usize,
        moved_app: usize,
        dropped: usize,
        backlog_empty: bool,
        now: u64,
    ) -> (report: Option<u64>)
        ensures
            pass_noted(
                *old(self),
                moved_in,
                moved_app,
                dropped,
                backlog_empty,
                now,
                *final(self),
                report,
            ),
    {
        let mut report: Option<u64> = None;
        if moved_app > 0 {
            self.last_app_progress = now;
        } else {
            let idle: u64 = elapsed_nanos(self.last_app_progress, now);
            if moved_in >= STARVATION_MIN_INBOUND && !backlog_empty && idle
                >= STARVATION_REPORT_AFTER && elapsed_nanos(self.last_starvation_report, now)
                >= STARVATION_REPORT_GAP {
                self.last_starvation_report = now;
                report = Some(idle);
            }
        }
        self.win_in = self.win_in.saturating_add(moved_in);
        self.win_app = self.win_app.saturating_add(moved_app);
        self.win_dropped = self.win_dropped.saturating_add(dropped);
        report
    }

    /// Whether the data plane is to report itself now.
    pub fn telemetry_due(&self, now: u64) -> (r: bool)
        ensures
            r == (elapsed(self.last_telemetry, now) >= TELEMETRY_INTERVAL),
    {
        elapsed_nanos(self.last_telemetry, now) >= TELEMETRY_INTERVAL
    }

    /// Begins the next window of the report.
    pub fn telemetry_done(&mut self, now: u64)
        ensures
            *final(self) == window_begun(*old(self), now),
    {
        self.last_telemetry = now;
        self.win_in = 0;
        self.win_app = 0;
        self.win_dropped = 0;
    }
}

/// How long the stack may sleep after a pass that moved nothing: a short while
/// when a queue was full, else until its timers are due, which without flows
/// may be for good.
pub open spec fn sleep_for(busy: bool, polled: Option<u64>, idle: bool) -> Option<u64> {
    if busy {
        Some(BACKPRESSURE_RETRY)
    } else if idle {
        polled
    } else {
        match polled {
            Some(d) => if d < MAX_IDLE_TICK {
                Some(d)
            } else {
                Some(MAX_IDLE_TICK)
            },
            None => Some(MAX_IDLE_TICK),
        }
    }
}

/// How long to sleep after a pass that moved nothing. `polled` is when the
/// timers are due and `idle` that there is no flow.
pub fn next_delay(busy: bool, polled: Option<u64>, idle: bool) -> (r: Option<u64>)
    ensures
        r == sleep_for(busy, polled, idle),
{
    if busy {
        return Some(BACKPRESSURE_RETRY);
    }
    if idle {
        return polled;
    }
    match polled {
        Some(d) => if d < MAX_IDLE_TICK {
            Some(d)
        } else {
            Some(MAX_IDLE_TICK)
        },
        None => Some(MAX_IDLE_TICK),
    }
}

/// While there are flows the stack never sleeps longer than [`MAX_IDLE_TICK`],
/// so that no deadline of a flow passes unnoticed for longer.
pub proof fn flows_are_visited_in_time(busy: bool, polled: Option<u64>)
    ensures
        sleep_for(busy, polled, false) matches Some(d) && d <= MAX_IDLE_TICK,
{
}

/// The first report of the data plane comes [`TELEMETRY_FIRST`] after the
/// start.
pub proof fn first_telemetry_comes_early(start: u64, now: u64)
    requires
        start >= TELEMETRY_INTERVAL,
        now >= start,
    ensures
        elapsed(backdated(start, (TELEMETRY_INTERVAL - TELEMETRY_FIRST) as u64), now)
            >= TELEMETRY_INTERVAL <==> now - start >= TELEMETRY_FIRST,
{
}

/// The tunnel and the applications take turns at being first, so neither of them
/// is first on two passes in a row.
pub proof fn turns_are_taken(was: Schedule)
    ensures
        turn_taken(was).tunnel_first != was.tunnel_first,
        turn_taken(turn_taken(was)) == was,
{
}

/// No pass takes more than 512 packets from the tunnel, 512 pieces of data from
/// the applications and 64 commands; what waits beyond that stays for the next.
/// With half a mebibyte in the backlog nothing is taken from the applications.
pub proof fn a_pass_is_bounded(
    tunnel_first: bool,
    was: (&NetStack, &Backlog, Queues),
    mid: (&NetStack, &NetStack),
    now: (&NetStack, &Backlog, Queues),
    time: u64,
    r: QueuePass,
    closed: (bool, bool, bool),
)
    requires
        queues_served(tunnel_first, was, mid, now, time, r, closed),
    ensures
        r.moved_in <= 512,
        packet_queue(was.2.inbound).waiting.len() <= 512 ==> packet_queue(
            was.2.inbound,
        ).waiting.len() <= r.moved_in,
        packet_queue(was.2.inbound).waiting.len() > 512 ==> r.moved_in == 512,
        r.moved_app <= 512,
        was.1.bytes >= 524_288 ==> r.moved_app == 0,
        now.1.bytes < 524_288 && data_queue(was.2.data).waiting.len() <= 512 ==> data_queue(
            was.2.data,
        ).waiting.len() <= r.moved_app,
        now.1.bytes < 524_288 && data_queue(was.2.data).waiting.len() > 512 ==> r.moved_app == 512,
        r.outcomes@.len() <= 64,
        cmd_queue(was.2.cmds).waiting.len() <= 64 ==> cmd_queue(was.2.cmds).waiting.len()
            <= r.outcomes@.len(),
        cmd_queue(was.2.cmds).waiting.len() > 64 ==> r.outcomes@.len() == 64,
        r.closed <==> closed.0 || closed.1 || closed.2,
        packet_queue(now.2.inbound).over ==> r.closed,
        cmd_queue(now.2.cmds).over ==> r.closed,
        was.1.bytes < 524_288 && data_queue(now.2.data).over ==> r.closed,
        r.closed ==> packet_queue(now.2.inbound).over || data_queue(now.2.data).over || cmd_queue(
            now.2.cmds,
        ).over,
{
}

/// Idle applications are reported when the tunnel moved at least 32 packets on
/// the pass, data waits for a flow, nothing has moved for two seconds and the
/// last report is ten seconds back; with how long they have been idle.
pub proof fn starving_applications_are_reported(
    was: Schedule,
    moved_in: usize,
    moved_app: usize,
    dropped: usize,
    backlog_empty: bool,
    now: u64,
    after: Schedule,
    report: Option<u64>,
)
    requires
        pass_noted(was, moved_in, moved_app, dropped, backlog_empty, now, after, report),
        was.last_app_progress <= now,
        was.last_starvation_report <= now,
    ensures
        report is Some <==> moved_app == 0 && moved_in >= 32 && !backlog_empty
            && was.last_app_progress + 2_000_000_000 <= now && was.last_starvation_report
            + 10_000_000_000 <= now,
        report matches Some(idle) ==> was.last_app_progress + idle == now
            && after.last_starvation_report == now,
        report is None ==> after.last_starvation_report == was.last_starvation_report,
        moved_app > 0 ==> after.last_app_progress == now,
        moved_app == 0 ==> after.last_app_progress == was.last_app_progress,
{
}

/// Two reports of idle applications are ten seconds apart or more.
pub proof fn reports_of_starvation_keep_their_distance(
    was: Schedule,
    moved_in: usize,
    dropped: usize,
    now: u64,
    mid: Schedule,
    report: Option<u64>,
    then_in: usize,
    then_app: usize,
    then_dropped: usize,
    then_empty: bool,
    then: u64,
    after: Schedule,
    second: Option<u64>,
)
    requires
        pass_noted(was, moved_in, 0, dropped, false, now, mid, report),
        pass_noted(mid, then_in, then_app, then_dropped, then_empty, then, after, second),
        report is Some,
        second is Some,
    ensures
        then >= now + 10_000_000_000,
{
}

/// A window counts what its passes moved and dropped, and the next begins from
/// nothing.
pub proof fn a_window_adds_up(
    was: Schedule,
    moved_in: usize,
    moved_app: usize,
    dropped: usize,
    backlog_empty: bool,
    now: u64,
    after: Schedule,
    report: Option<u64>,
)
    requires
        pass_noted(was, moved_in, moved_app, dropped, backlog_empty, now, after, report),
        was.win_in + moved_in <= usize::MAX,
        was.win_app + moved_app <= usize::MAX,
        was.win_dropped + dropped <= usize::MAX,
    ensures
        after.win_in == was.win_in + moved_in,
        after.win_app == was.win_app + moved_app,
        after.win_dropped == was.win_dropped + dropped,
        window_begun(after, now).win_in == 0,
        window_begun(after, now).win_app == 0,
        window_begun(after, now).win_dropped == 0,
        window_begun(after, now).last_telemetry == now,
        window_begun(after, now).last_app_progress == after.last_app_progress,
        window_begun(after, now).tx_dropped == after.tx_dropped,
{
}

/// Dropped packets are counted, and reported in total when 512 more of them have
/// come since the last report.
pub proof fn drops_are_reported_every_so_often(
    was: Schedule,
    dropped: usize,
    now: Schedule,
    report: Option<usize>,
)
    requires
        drops_noted(was, dropped, now, report),
        was.tx_dropped + dropped + 512 <= usize::MAX,
    ensures
        now.tx_dropped == was.tx_dropped + dropped,
        report is Some <==> dropped > 0 && was.tx_dropped + dropped >= was.next_drop_report,
        report matches Some(total) ==> total == now.tx_dropped && now.next_drop_report
            == now.tx_dropped + 512,
        report is None ==> now.next_drop_report == was.next_drop_report,
{
}

/// A schedule begins with nothing counted and the applications first. The first
/// report of the data plane is due two seconds later, that of dropped packets at
/// 512 of them, and one of idle applications may come at once.
pub proof fn a_schedule_begins_afresh(start: u64, now: u64, s: Schedule, due: bool)
    requires
        start >= 13_000_000_000,
        start <= now,
        call_ensures(Schedule::new, (start,), s),
        call_ensures(Schedule::telemetry_due, (&s, now), due),
    ensures
        !s.tunnel_first,
        s.last_app_progress == start,
        s.last_starvation_report + 10_000_000_000 == start,
        s.win_in == 0,
        s.win_app == 0,
        s.win_dropped == 0,
        s.tx_dropped == 0,
        s.next_drop_report == 512,
        due <==> start + 2_000_000_000 <= now,
{
}

/// The data plane reports itself every fifteen seconds.
pub proof fn the_data_plane_reports_every_fifteen_seconds(
    was: Schedule,
    done: u64,
    now: u64,
    due: bool,
)
    requires
        done <= now,
        call_ensures(Schedule::telemetry_due, (&window_begun(was, done), now), due),
    ensures
        due <==> done + 15_000_000_000 <= now,
{
}

/// A full queue is tried again after two milliseconds. Otherwise the stack
/// sleeps until its timers are due, but while there are flows for no longer than
/// a quarter of a second, and without flows and timers for good.
pub proof fn the_stack_sleeps_until_something_is_due(polled: Option<u64>)
    ensures
        sleep_for(true, polled, true) == Some(2_000_000u64),
        sleep_for(true, polled, false) == Some(2_000_000u64),
        sleep_for(false, polled, true) == polled,
        polled is None ==> sleep_for(false, polled, false) == Some(250_000_000u64),
        polled matches Some(d) ==> (sleep_for(false, polled, false) matches Some(r) && r <= d && r
            <= 250_000_000 && (r == d || r == 250_000_000)),
{
}

/// Data of an application is progress: for two seconds after it no idle
/// applications are reported.
pub proof fn waking_is_progress(
    was: Schedule,
    woken_at: u64,
    moved_in: usize,
    moved_app: usize,
    dropped: usize,
    backlog_empty: bool,
    now: u64,
    after: Schedule,
    report: Option<u64>,
)
    requires
        pass_noted(
            woken(was, woken_at),
            moved_in,
            moved_app,
            dropped,
            backlog_empty,
            now,
            after,
            report,
        ),
        now < woken_at + 2_000_000_000,
    ensures
        report is None,
        after.tx_dropped == was.tx_dropped,
        after.last_telemetry == was.last_telemetry,
        after.last_starvation_report == was.last_starvation_report,
{
}

} // verus!
