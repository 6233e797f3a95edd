//! Trying an endpoint: a handshake, and then packets that come back.

use vstd::prelude::*;

use super::packet::{inject_client_id, strip_client_id};
#[allow(unused_imports)]
use super::packet::{is_plain, marked, no_mark};
use super::session::{
    decapsulate,
    encapsulate,
    update_timers,
    Outcome,
    SessionKeys,
    DATA_OVERHEAD,
    MAX_PACKET,
};
#[allow(unused_imports)]
use super::session::{
    after_encapsulate,
    after_flush_one,
    all_passed_on,
    carries,
    datagram_heard,
    fits,
    flushed_one,
    fresh,
    gave,
    given_by,
    is_initiation,
    marked_data,
    marked_initiation,
    marked_message,
    timers_looked_at,
    tunn_of,
    TunnView,
};
use crate::netstack::flow::elapsed_nanos;
#[allow(unused_imports)]
use crate::netstack::flow::elapsed;

verus! {

/// When the first message is sent again, after the start, in nanoseconds.
pub const FIRST_RETRY: u64 = 750_000_000;

pub const SECOND_RETRY: u64 = 2_000_000_000;

/// How many packets must come back.
pub const DATAPLANE_REQUIRED_SUCCESSES: u32 = 2;

/// The least time between a probe and the one after it is answered, in
/// nanoseconds.
pub const DATAPLANE_PROBE_GAP: u64 = 600_000_000;

/// When a probe that was not answered is sent again, in nanoseconds.
pub const PROBE_RESEND: u64 = 700_000_000;

/// A handshake being tried.
pub struct Handshake {
    pub tunn: boringtun::noise::Tunn,
    pub client_id: [u8; 3],
    /// The first message, for sending it again.
    pub init_packet: Vec<u8>,
    pub retry_index: usize,
    pub start: u64,
    pub deadline: u64,
}

/// What a datagram meant for the handshake.
#[derive(Debug, PartialEq, Eq)]
pub enum Step {
    /// Nothing.
    Continue,
    /// The peer has answered; this is to be sent to it, if anything.
    Complete(Option<Vec<u8>>),
}

/// When the message is sent again for the `n`-th time.
pub open spec fn retry_delay(n: usize) -> Option<u64> {
    if n == 0 {
        Some(FIRST_RETRY)
    } else if n == 1 {
        Some(SECOND_RETRY)
    } else {
        None
    }
}

/// What a tick of the clock asks for.
pub struct HandshakeTick {
    /// Send the first message again.
    pub resend: bool,
    /// Then send this.
    pub send: Option<Vec<u8>>,
    /// Then give up.
    pub failed: Option<boringtun::noise::errors::WireGuardError>,
}

/// The step that an outcome means: the handshake is complete when the session
/// takes the datagram, with or without an answer.
pub open spec fn step_of(first: Outcome, mark: Seq<u8>, r: Step) -> bool {
    match first {
        Outcome::Done => r == Step::Complete(None),
        Outcome::Network(p) => r matches Step::Complete(Some(sent)) && sent@ == marked(p@, mark),
        _ => r is Continue,
    }
}

/// Marks what is to be sent, and tells what the outcome means for a handshake.
pub fn handshake_step(first: Outcome, client_id: &[u8; 3]) -> (r: Step)
    ensures
        step_of(first, client_id@, r),
{
    match first {
        Outcome::Done => Step::Complete(None),
        Outcome::Network(p) => {
            let mut p = p;
            inject_client_id(&mut p, client_id);
            Step::Complete(Some(p))
        },
        _ => Step::Continue,
    }
}

impl Handshake {
    pub open spec fn wf(&self) -> bool {
        fits(tunn_of(self.tunn))
    }

    /// Whether this is a handshake that has just been started.
    pub open spec fn begun(
        &self,
        keys: SessionKeys,
        client_id: [u8; 3],
        start: u64,
        timeout: u64,
    ) -> bool {
        &&& self.wf()
        &&& tunn_of(self.tunn) == after_encapsulate(fresh(keys), Seq::empty())
        &&& self.client_id == client_id
        &&& marked_initiation(self.init_packet@, client_id@)
        &&& given_by(self.tunn).said.len() == 1
        &&& self.init_packet@ == marked(given_by(self.tunn).said[0], client_id@)
        &&& given_by(self.tunn).opened.len() == 0
        &&& self.retry_index == 0
        &&& self.start == start
        &&& self.deadline == start + timeout
    }

    /// Starts a handshake with a session of these keys. The first message is
    /// the one to send.
    pub fn begin(
        keys: &SessionKeys,
        client_id: [u8; 3],
        start: u64,
        timeout: u64,
        scratch: &mut Vec<u8>,
    ) -> (r: Option<Self>)
        requires
            old(scratch)@.len() == MAX_PACKET,
            start + timeout <= u64::MAX,
        ensures
            final(scratch)@.len() == MAX_PACKET,
            r matches Some(h) && h.begun(*keys, client_id, start, timeout),
    {
        let mut tunn = keys.fresh_session();
        let nothing: [u8; 0] = [];
        assert(nothing@ =~= Seq::<u8>::empty());
        match encapsulate(&mut tunn, nothing.as_slice(), scratch) {
            Outcome::Network(p) => {
                let ghost plain = p@;
                let mut p = p;
                inject_client_id(&mut p, &client_id);
                assert(is_initiation(plain) && p@ == marked(plain, client_id@));
                Some(
                    Handshake {
                        tunn,
                        client_id,
                        init_packet: p,
                        retry_index: 0,
                        start,
                        deadline: start + timeout,
                    },
                )
            },
            _ => None,
        }
    }

    /// How long there is left, or that there is none.
    pub fn remaining(&self, now: u64) -> (r: Option<u64>)
        ensures
            r == (if now >= self.deadline {
                None
            } else {
                Some((self.deadline - now) as u64)
            }),
    {
        if now >= self.deadline {
            None
        } else {
            Some(self.deadline - now)
        }
    }

    /// A datagram arrived.
    pub fn on_datagram(&mut self, datagram: Vec<u8>, scratch: &mut Vec<u8>) -> (r: Step)
        requires
            old(self).wf(),
            datagram@.len() <= MAX_PACKET,
            old(scratch)@.len() == MAX_PACKET,
        ensures
            final(scratch)@.len() == MAX_PACKET,
            final(self).wf(),
            final(self).same_but_session(old(self)),
            datagram@.len() > 0 ==> datagram_heard(
                tunn_of(old(self).tunn),
                tunn_of(final(self).tunn),
                marked(datagram@, no_mark()),
            ),
            datagram@.len() == 0 ==> r is Continue && *final(self) == *old(self),
            r matches Step::Complete(Some(p)) ==> marked_message(p@, old(self).client_id@),
            all_passed_on(
                given_by(old(self).tunn).said,
                given_by(final(self).tunn).said,
                match r {
                    Step::Complete(Some(p)) => seq![p],
                    _ => Seq::empty(),
                },
                old(self).client_id@,
            ),
            r is Complete ==> given_by(final(self).tunn).opened == given_by(old(self).tunn).opened,
            datagram@.len() > 0 ==> exists|first: Outcome|
                {
                    &&& gave(given_by(old(self).tunn), given_by(final(self).tunn), first)
                    &&& #[trigger] step_of(first, old(self).client_id@, r)
                },
    {
        if datagram.len() == 0 {
            return Step::Continue;
        }
        let mut datagram = datagram;
        strip_client_id(&mut datagram);
        let first = decapsulate(&mut self.tunn, datagram.as_slice(), scratch);
        let ghost outcome = first;
        assert(outcome is Network ==> is_plain(outcome->Network_0@));
        let r = handshake_step(first, &self.client_id);
        assert(step_of(outcome, self.client_id@, r));
        r
    }

    /// Nothing but the session may have changed.
    pub open spec fn same_but_session(&self, other: &Self) -> bool {
        &&& self.client_id == other.client_id
        &&& self.init_packet == other.init_packet
        &&& self.retry_index == other.retry_index
        &&& self.start == other.start
        &&& self.deadline == other.deadline
    }

    /// Whether the first message is due again.
    pub open spec fn resends(&self, now: u64) -> bool {
        retry_delay(self.retry_index) matches Some(delay) && elapsed(self.start, now) >= delay
    }

    /// Whether a look at the timers that came to `timers` had this result: what
    /// they give is marked, and a repeated first message is counted.
    pub open spec fn timers_heeded(
        &self,
        timers: Outcome,
        now: u64,
        after: &Self,
        r: HandshakeTick,
    ) -> bool {
        &&& after.client_id == self.client_id
        &&& after.init_packet == self.init_packet
        &&& after.start == self.start
        &&& after.deadline == self.deadline
        &&& r.resend == self.resends(now)
        &&& after.retry_index == (if r.resend {
            self.retry_index + 1
        } else {
            self.retry_index as int
        })
        &&& match timers {
            Outcome::Network(p) => {
                &&& r.failed is None
                &&& r.send matches Some(sent)
                &&& sent@ == marked(p@, self.client_id@)
            },
            Outcome::Refused(e) => r.send is None && r.failed == Some(e),
            _ => r.send is None && r.failed is None,
        }
    }

    /// Marks what the timers give, once that is known, and counts a repeated
    /// first message.
    pub fn after_timers(&mut self, timers: Outcome, now: u64) -> (r: HandshakeTick)
        requires
            old(self).wf(),
        ensures
            final(self).wf(),
            final(self).tunn == old(self).tunn,
            old(self).timers_heeded(timers, now, final(self), r),
    {
        let mut resend = false;
        let delay: Option<u64> = if self.retry_index == 0 {
            Some(FIRST_RETRY)
        } else if self.retry_index == 1 {
            Some(SECOND_RETRY)
        } else {
            None
        };
        if let Some(delay) = delay {
            if elapsed_nanos(self.start, now) >= delay {
                self.retry_index = self.retry_index + 1;
                resend = true;
            }
        }
        match timers {
            Outcome::Network(p) => {
                let mut p = p;
                inject_client_id(&mut p, &self.client_id);
                HandshakeTick { resend, send: Some(p), failed: None }
            },
            Outcome::Refused(e) => HandshakeTick { resend, send: None, failed: Some(e) },
            _ => HandshakeTick { resend, send: None, failed: None },
        }
    }

    /// A tick of the clock.
    pub fn on_tick(&mut self, now: u64, scratch: &mut Vec<u8>) -> (r: HandshakeTick)
        requires
            old(self).wf(),
            old(scratch)@.len() == MAX_PACKET,
        ensures
            final(scratch)@.len() == MAX_PACKET,
            final(self).wf(),
            r.send matches Some(p) ==> marked_message(p@, old(self).client_id@),
            all_passed_on(
                given_by(old(self).tunn).said,
                given_by(final(self).tunn).said,
                match r.send {
                    Some(p) => seq![p],
                    None => Seq::empty(),
                },
                old(self).client_id@,
            ),
            given_by(final(self).tunn).opened == given_by(old(self).tunn).opened,
            exists|timers: Outcome|
                {
                    &&& timers_looked_at(tunn_of(old(self).tunn), tunn_of(final(self).tunn), timers)
                    &&& gave(given_by(old(self).tunn), given_by(final(self).tunn), timers)
                    &&& #[trigger] old(self).timers_heeded(timers, now, final(self), r)
                },
    {
        let ghost was = tunn_of(self.tunn);
        let timers = update_timers(&mut self.tunn, scratch);
        let ghost due = timers;
        let ghost mid = tunn_of(self.tunn);
        assert(due is Network ==> is_plain(due->Network_0@));
        let r = self.after_timers(timers, now);
        assert(timers_looked_at(was, mid, due));
        assert(old(self).timers_heeded(due, now, final(self), r));
        r
    }
}

/// The message is sent again at most twice: the third time nothing is due.
pub proof fn the_first_message_is_sent_three_times(h: Handshake, now: u64)
    requires
        h.retry_index >= 2,
    ensures
        !h.resends(now),
{
}

/// What to send for a probe.
pub enum Sealed {
    /// Nothing; the session keeps the probe.
    Nothing,
    Send(Vec<u8>),
    Refused(boringtun::noise::errors::WireGuardError),
}

/// What sealing the probe gives: with keys the marked probe, without them the
/// start of a handshake where none is under way.
pub open spec fn probe_sealed(v: TunnView, probe: Seq<u8>, mark: Seq<u8>, r: Sealed) -> bool {
    if v.live {
        r matches Sealed::Send(p) && marked_data(p@, probe.len(), mark)
    } else if v.handshaking {
        r is Nothing
    } else {
        r matches Sealed::Send(p) && marked_initiation(p@, mark)
    }
}

/// Seals and marks a probe.
pub fn seal_probe(
    t: &mut boringtun::noise::Tunn,
    client_id: &[u8; 3],
    probe: &Vec<u8>,
    scratch: &mut Vec<u8>,
) -> (r: Sealed)
    requires
        fits(tunn_of(*old(t))),
        probe@.len() + DATA_OVERHEAD <= MAX_PACKET,
        old(scratch)@.len() == MAX_PACKET,
    ensures
        final(scratch)@.len() == MAX_PACKET,
        fits(tunn_of(*final(t))),
        tunn_of(*final(t)) == after_encapsulate(tunn_of(*old(t)), probe@),
        probe_sealed(tunn_of(*old(t)), probe@, client_id@, r),
        all_passed_on(
            given_by(*old(t)).said,
            given_by(*final(t)).said,
            match r {
                Sealed::Send(p) => seq![p],
                _ => Seq::empty(),
            },
            client_id@,
        ),
        given_by(*final(t)).opened == given_by(*old(t)).opened,
{
    let ghost was = tunn_of(*t);
    match encapsulate(t, probe.as_slice(), scratch) {
        Outcome::Network(p) => {
            let ghost plain = p@;
            let mut p = p;
            inject_client_id(&mut p, client_id);
            proof {
                assert(p@ == marked(plain, client_id@));
                if was.live {
                    assert(carries(plain, probe@.len()));
                } else {
                    assert(is_initiation(plain));
                }
            }
            Sealed::Send(p)
        },
        Outcome::Refused(e) => Sealed::Refused(e),
        _ => Sealed::Nothing,
    }
}

/// The data plane being tried: probes go out until enough of them came back.
#[derive(Clone, Copy, Debug, PartialEq, Eq, Structural)]
pub struct Dataplane {
    pub successes: u32,
    pub last_probe_at: u64,
    pub resend_at: u64,
    pub start: u64,
    pub deadline: u64,
}

/// What the clock asks for.
#[derive(Clone, Copy, Debug, PartialEq, Eq, Structural)]
pub enum DataplaneWait {
    /// The time is up.
    TimedOut,
    /// Send a probe first if told so, then wait this long for a datagram.
    Wait { resend: bool, nanos: u64 },
}

/// What a datagram meant for the data plane.
#[derive(Debug, PartialEq, Eq)]
pub enum DataplaneStep {
    /// Nothing.
    Continue,
    /// Send this.
    Send(Vec<u8>),
    /// A packet came back, and more are needed: send a probe.
    Confirmed,
    /// Enough packets came back, this long after the start.
    Verified(u64),
}

/// The smaller of the two.
pub open spec fn sooner(a: int, b: int) -> int {
    if a < b {
        a
    } else {
        b
    }
}

impl Dataplane {
    /// The first probe has been sent.
    pub fn begin(start: u64, deadline: u64, now: u64) -> (r: Self)
        requires
            now + PROBE_RESEND <= u64::MAX,
        ensures
            r == (Dataplane {
                successes: 0,
                last_probe_at: now,
                resend_at: (now + PROBE_RESEND) as u64,
                start,
                deadline,
            }),
    {
        Dataplane {
            successes: 0,
            last_probe_at: now,
            resend_at: now + PROBE_RESEND,
            start,
            deadline,
        }
    }

    /// What the clock asks for, and the trial after it.
    pub open spec fn clock_read(&self, now: u64, next: &Self, r: DataplaneWait) -> bool {
        let resend = now >= self.resend_at;
        if now >= self.deadline {
            r is TimedOut && *next == *self
        } else {
            &&& *next == (if resend {
                Dataplane {
                    last_probe_at: now,
                    resend_at: (now + PROBE_RESEND) as u64,
                    ..*self
                }
            } else {
                *self
            })
            &&& r == (DataplaneWait::Wait {
                resend,
                nanos: sooner(self.deadline - now, next.resend_at - now) as u64,
            })
        }
    }

    /// Looks at the clock.
    pub fn poll(&mut self, now: u64) -> (r: DataplaneWait)
        requires
            now + PROBE_RESEND <= u64::MAX,
        ensures
            old(self).clock_read(now, final(self), r),
    {
        if now >= self.deadline {
            return DataplaneWait::TimedOut;
        }
        let mut resend = false;
        if now >= self.resend_at {
            resend = true;
            self.last_probe_at = now;
            self.resend_at = now + PROBE_RESEND;
        }
        let left: u64 = self.deadline - now;
        let due: u64 = self.resend_at - now;
        let nanos: u64 = if left < due {
            left
        } else {
            due
        };
        DataplaneWait::Wait { resend, nanos }
    }

    /// What an outcome means for the data plane: only a packet for the stack
    /// counts, and the last one needed ends the trial.
    pub open spec fn outcome_counts(
        &self,
        first: Outcome,
        mark: Seq<u8>,
        now: u64,
        next: &Self,
        r: DataplaneStep,
    ) -> bool {
        match first {
            Outcome::Tunnel(_) => {
                let enough = self.successes + 1 >= DATAPLANE_REQUIRED_SUCCESSES;
                let at = if now as int >= self.last_probe_at + DATAPLANE_PROBE_GAP {
                    now as int
                } else {
                    self.last_probe_at + DATAPLANE_PROBE_GAP
                };
                &&& r == (if enough {
                    DataplaneStep::Verified(elapsed(self.start, now) as u64)
                } else {
                    DataplaneStep::Confirmed
                })
                &&& *next == (if enough {
                    Dataplane { successes: (self.successes + 1) as u32, ..*self }
                } else {
                    Dataplane {
                        successes: (self.successes + 1) as u32,
                        last_probe_at: at as u64,
                        resend_at: (at + PROBE_RESEND) as u64,
                        ..*self
                    }
                })
            },
            Outcome::Network(p) => {
                &&& *next == *self
                &&& r matches DataplaneStep::Send(sent)
                &&& sent@ == marked(p@, mark)
            },
            _ => *next == *self && r is Continue,
        }
    }

    /// Counts an outcome.
    pub fn on_outcome(&mut self, first: Outcome, client_id: &[u8; 3], now: u64) -> (r:
        DataplaneStep)
        requires
            old(self).successes < DATAPLANE_REQUIRED_SUCCESSES,
            now + DATAPLANE_PROBE_GAP + PROBE_RESEND <= u64::MAX,
            old(self).last_probe_at + DATAPLANE_PROBE_GAP + PROBE_RESEND <= u64::MAX,
        ensures
            old(self).outcome_counts(first, client_id@, now, final(self), r),
    {
        match first {
            Outcome::Tunnel(_) => {
                self.successes = self.successes + 1;
                if self.successes >= DATAPLANE_REQUIRED_SUCCESSES {
                    return DataplaneStep::Verified(elapsed_nanos(self.start, now));
                }
                let gap_end: u64 = self.last_probe_at + DATAPLANE_PROBE_GAP;
                let next_at: u64 = if now >= gap_end {
                    now
                } else {
                    gap_end
                };
                self.last_probe_at = next_at;
                self.resend_at = next_at + PROBE_RESEND;
                DataplaneStep::Confirmed
            },
            Outcome::Network(p) => {
                let mut p = p;
                inject_client_id(&mut p, client_id);
                DataplaneStep::Send(p)
            },
            _ => DataplaneStep::Continue,
        }
    }

    /// A datagram arrived.
    pub fn on_datagram(
        &mut self,
        t: &mut boringtun::noise::Tunn,
        datagram: Vec<u8>,
        client_id: &[u8; 3],
        now: u64,
        scratch: &mut Vec<u8>,
    ) -> (r: DataplaneStep)
        requires
            fits(tunn_of(*old(t))),
            datagram@.len() <= MAX_PACKET,
            old(scratch)@.len() == MAX_PACKET,
            old(self).successes < DATAPLANE_REQUIRED_SUCCESSES,
            now + DATAPLANE_PROBE_GAP + PROBE_RESEND <= u64::MAX,
            old(self).last_probe_at + DATAPLANE_PROBE_GAP + PROBE_RESEND <= u64::MAX,
        ensures
            final(scratch)@.len() == MAX_PACKET,
            fits(tunn_of(*final(t))),
            r matches DataplaneStep::Send(p) ==> marked_message(p@, client_id@),
            all_passed_on(
                given_by(*old(t)).said,
                given_by(*final(t)).said,
                match r {
                    DataplaneStep::Send(p) => seq![p],
                    _ => Seq::empty(),
                },
                client_id@,
            ),
            given_by(*final(t)).opened.len() == given_by(*old(t)).opened.len() + (if r is Confirmed
                || r is Verified {
                1int
            } else {
                0
            }),
            datagram@.len() > 0 ==> datagram_heard(
                tunn_of(*old(t)),
                tunn_of(*final(t)),
                marked(datagram@, no_mark()),
            ),
            datagram@.len() == 0 ==> tunn_of(*final(t)) == after_flush_one(tunn_of(*old(t))),
            exists|first: Outcome|
                {
                    &&& datagram@.len() == 0 ==> flushed_one(tunn_of(*old(t)), first)
                    &&& gave(given_by(*old(t)), given_by(*final(t)), first)
                    &&& #[trigger] old(self).outcome_counts(
                        first,
                        client_id@,
                        now,
                        final(self),
                        r,
                    )
                },
    {
        let mut datagram = datagram;
        strip_client_id(&mut datagram);
        let ghost was = tunn_of(*t);
        let first = decapsulate(t, datagram.as_slice(), scratch);
        let ghost outcome = first;
        proof {
            assert(outcome is Network ==> is_plain(outcome->Network_0@));
            if datagram@.len() == 0 {
                super::session::fits_after_flush(was);
            }
        }
        let r = self.on_outcome(first, client_id, now);
        assert(old(self).outcome_counts(outcome, client_id@, now, final(self), r));
        r
    }
}

/// An endpoint is verified by exactly as many packets as are required, no
/// message or refusal counting for one.
pub proof fn only_packets_verify(
    d: Dataplane,
    next: Dataplane,
    first: Outcome,
    mark: Seq<u8>,
    now: u64,
    r: DataplaneStep,
)
    requires
        d.successes < DATAPLANE_REQUIRED_SUCCESSES,
        d.outcome_counts(first, mark, now, &next, r),
    ensures
        next.successes == d.successes + (if first is Tunnel {
            1int
        } else {
            0
        }),
        r is Verified <==> next.successes == DATAPLANE_REQUIRED_SUCCESSES,
{
}

} // verus!
