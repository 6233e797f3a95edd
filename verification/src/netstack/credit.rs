//! Uplink admission: how much unacknowledged data one flow may have inside the
//! stack.

use vstd::prelude::*;

verus! {

/// The least a flow may queue, so that a flow whose rate is not known yet can
/// keep a congestion window full.
pub const MIN_FLOW_QUEUE_BYTES: usize = 49152;

/// How long one admission may be held back, in nanoseconds.
pub const CREDIT_WAIT_MAX: u64 = 20_000_000_000;

/// How long a writer over budget waits before it asks again, in nanoseconds.
pub const CREDIT_WAIT_STEP: u64 = 2_000_000;

/// The account of one flow. The writer adds to `sent`; the stack publishes the
/// rest.
#[derive(Clone, Copy, Debug, PartialEq, Eq, Structural)]
pub struct FlowCredit {
    /// Bytes handed to the stack for this flow, ever.
    pub sent: u64,
    /// Bytes the peer has acknowledged.
    pub acked: u64,
    /// The budget in bytes.
    pub cap: usize,
    /// Set when the flow is gone, so that a waiting writer is released at once.
    pub closed: bool,
}

/// What a writer that asks for room is told.
#[derive(Clone, Copy, Debug, PartialEq, Eq, Structural)]
pub enum Admission {
    /// The bytes are accounted for and may be handed over.
    Granted,
    /// Ask again after [`CREDIT_WAIT_STEP`].
    Wait,
}

impl FlowCredit {
    /// Bytes handed over and not acknowledged.
    pub open spec fn in_flight(&self) -> int {
        if self.sent >= self.acked {
            self.sent - self.acked
        } else {
            0
        }
    }

    /// Whether `len` more bytes may enter now: the flow is gone, its pipe is
    /// empty, or the bytes stay inside the budget. The largest budget there is
    /// bounds nothing.
    pub open spec fn admits(&self, len: usize) -> bool {
        self.closed || self.in_flight() == 0 || self.in_flight() + len <= self.cap || self.cap
            == u64::MAX
    }

    /// The account once this has been published of it.
    pub open spec fn with_published(&self, acked: u64, cap: usize) -> Self {
        FlowCredit {
            acked: if acked > self.acked {
                acked
            } else {
                self.acked
            },
            cap: if cap < MIN_FLOW_QUEUE_BYTES {
                MIN_FLOW_QUEUE_BYTES
            } else {
                cap
            },
            ..*self
        }
    }

    /// What a writer is told that asks for room after having waited so long, and
    /// the account after it.
    pub open spec fn asked(&self, len: usize, waited: u64, next: &Self, r: Admission) -> bool {
        &&& r is Granted <==> self.admits(len) || waited >= CREDIT_WAIT_MAX
        &&& r is Wait ==> *next == *self
        &&& r is Granted ==> *next == (FlowCredit {
            sent: ((self.sent + len) % 0x1_0000_0000_0000_0000) as u64,
            ..*self
        })
    }

    pub fn new() -> (r: Self)
        ensures
            r == (FlowCredit { sent: 0, acked: 0, cap: MIN_FLOW_QUEUE_BYTES, closed: false }),
    {
        FlowCredit { sent: 0, acked: 0, cap: MIN_FLOW_QUEUE_BYTES, closed: false }
    }

    /// Bytes in flight for this flow: queued anywhere and not acknowledged.
    pub fn outstanding(&self) -> (r: u64)
        ensures
            r == self.in_flight(),
    {
        self.sent.saturating_sub(self.acked)
    }

    pub fn budget(&self) -> (r: usize)
        ensures
            r == self.cap,
    {
        self.cap
    }

    /// Records what the peer has acknowledged and the budget. The acknowledged
    /// count never moves back and the budget never falls below
    /// [`MIN_FLOW_QUEUE_BYTES`].
    pub fn publish(&mut self, acked: u64, cap: usize)
        ensures
            *final(self) == old(self).with_published(acked, cap),
    {
        if acked > self.acked {
            self.acked = acked;
        }
        self.cap = if cap < MIN_FLOW_QUEUE_BYTES {
            MIN_FLOW_QUEUE_BYTES
        } else {
            cap
        };
    }

    pub fn close(&mut self)
        ensures
            *final(self) == (FlowCredit { closed: true, ..*old(self) }),
    {
        self.closed = true;
    }

    /// One round of the wait for room. The bytes are accounted for exactly when
    /// they are granted, which is when they are admitted or the wait has lasted
    /// [`CREDIT_WAIT_MAX`]; until then nothing changes.
    pub fn reserve(&mut self, len: usize, waited: u64) -> (r: Admission)
        ensures
            old(self).asked(len, waited, final(self), r),
    {
        let out: u64 = self.outstanding();
        let fits = out == 0 || out.saturating_add(len as u64) <= self.cap as u64;
        if !(self.closed || fits || waited >= CREDIT_WAIT_MAX) {
            return Admission::Wait;
        }
        self.sent = self.sent.wrapping_add(len as u64);
        Admission::Granted
    }
}

/// A writer that is granted room on a live flow before its wait ran out never
/// has more than the budget in flight, unless its pipe was empty.
pub proof fn granted_bytes_stay_inside_the_budget(
    before: FlowCredit,
    after: FlowCredit,
    len: usize,
)
    requires
        before.admits(len),
        !before.closed,
        before.sent >= before.acked,
        before.sent + len <= u64::MAX,
        after.sent == before.sent + len,
        after.acked == before.acked,
        after.cap == before.cap,
    ensures
        after.in_flight() == before.in_flight() + len,
        before.in_flight() > 0 && before.cap < u64::MAX ==> after.in_flight() <= after.cap,
{
}

/// A writer on a live flow waits exactly while it has unacknowledged bytes and
/// its new ones would take it over the budget, and for no longer than twenty
/// seconds; until then nothing is counted.
pub proof fn a_writer_over_budget_waits(
    was: FlowCredit,
    len: usize,
    waited: u64,
    next: FlowCredit,
    r: Admission,
)
    requires
        was.asked(len, waited, &next, r),
        !was.closed,
        was.acked <= was.sent,
        was.cap < u64::MAX,
    ensures
        r is Wait <==> was.acked < was.sent && was.sent - was.acked + len > was.cap && waited
            < 20_000_000_000,
        r is Wait ==> next == was,
        r is Granted && was.sent + len <= u64::MAX ==> next.sent == was.sent + len,
        next.acked == was.acked,
        next.cap == was.cap,
        next.closed == was.closed,
{
}

/// A writer with nothing in flight is let through with as much as it has, and so
/// is one whose flow is gone.
pub proof fn an_empty_pipe_takes_anything(
    was: FlowCredit,
    len: usize,
    waited: u64,
    next: FlowCredit,
    r: Admission,
)
    requires
        was.asked(len, waited, &next, r),
        was.sent <= was.acked || was.closed,
    ensures
        r is Granted,
{
}

/// Asking for less, after a longer wait, or on a larger budget is never refused
/// where asking for more was granted.
pub proof fn less_is_granted_where_more_is(
    was: FlowCredit,
    other: FlowCredit,
    len: usize,
    fewer: usize,
    waited: u64,
    longer: u64,
    next: FlowCredit,
    r: Admission,
    other_next: FlowCredit,
    s: Admission,
)
    requires
        was.asked(len, waited, &next, r),
        other.asked(fewer, longer, &other_next, s),
        r is Granted,
        fewer <= len,
        waited <= longer,
        other.sent == was.sent,
        other.closed == was.closed,
        was.acked <= other.acked,
        was.cap <= other.cap,
    ensures
        s is Granted,
{
}

/// What is published of a flow never takes an acknowledgement back, gives it at
/// least 48 KiB of budget and otherwise what it says, and leaves the writer's own
/// count alone.
pub proof fn what_is_published_is_seen(was: FlowCredit, acked: u64, cap: usize)
    ensures
        was.with_published(acked, cap).acked >= was.acked,
        was.with_published(acked, cap).acked >= acked,
        was.with_published(acked, cap).acked == acked || was.with_published(acked, cap).acked
            == was.acked,
        cap >= 49152 ==> was.with_published(acked, cap).cap == cap,
        cap < 49152 ==> was.with_published(acked, cap).cap == 49152,
        was.with_published(acked, cap).sent == was.sent,
        was.with_published(acked, cap).closed == was.closed,
{
}

/// A new account has nothing in flight and a budget of 48 KiB.
pub proof fn an_account_begins_empty(c: FlowCredit, out: u64, budget: usize)
    requires
        call_ensures(FlowCredit::new, (), c),
        call_ensures(FlowCredit::outstanding, (&c,), out),
        call_ensures(FlowCredit::budget, (&c,), budget),
    ensures
        !c.closed,
        c.sent == 0,
        c.acked == 0,
        out == 0,
        budget == 49152,
{
}

/// What is in flight is what was handed over and not acknowledged.
pub proof fn in_flight_is_sent_and_not_acknowledged(c: FlowCredit, out: u64)
    requires
        call_ensures(FlowCredit::outstanding, (&c,), out),
    ensures
        c.acked <= c.sent ==> out + c.acked == c.sent,
        c.sent < c.acked ==> out == 0,
{
}

/// A writer that waits asks again five hundred times a second.
pub proof fn a_waiting_writer_asks_again_soon()
    ensures
        CREDIT_WAIT_STEP * 500 == 1_000_000_000,
{
}

} // verus!
