//! The running tunnel: what its reader, its writer, its timer and its health
//! check decide.

use vstd::prelude::*;

use super::packet::inject_client_id;
#[allow(unused_imports)]
use super::packet::{is_plain, marked};
use super::session::{encapsulate, update_timers, Outcome, SessionKeys, DATA_OVERHEAD, MAX_PACKET};
#[allow(unused_imports)]
use super::session::{
    after_encapsulate,
    all_passed_on,
    fits,
    fresh,
    gave,
    given_by,
    is_initiation,
    marked_data,
    marked_initiation,
    marked_message,
    one_more_passed_on,
    setup_of,
    timers_looked_at,
    tunn_of,
    TunnView,
};
use crate::channel::{try_recv_packet, Received};
#[allow(unused_imports)]
use crate::channel::{
    all_read,
    all_that_waited_was_read,
    nothing_read,
    one_more_read,
    packets,
    packet_queue,
};
use crate::netstack::flow::elapsed_nanos;
#[allow(unused_imports)]
use crate::netstack::flow::elapsed;
use crate::random::random_range;
use crate::text::{chars_of, parse_number};
#[allow(unused_imports)]
use crate::text::number;

verus! {

/// How often the timers of a session are looked at, in nanoseconds.
pub const TIMER_TICK: u64 = 250_000_000;

/// How many packets are sealed in one go.
pub const MAX_ENCAP_BATCH: usize = 64;

/// How often the writer reports itself, in nanoseconds.
pub const UPLINK_REPORT_INTERVAL: u64 = 15_000_000_000;

/// How many passing errors in a row the reader survives.
pub const MAX_TRANSIENT_RECV_ERRORS: u32 = 64;

/// How long the reader waits after one, in nanoseconds.
pub const TRANSIENT_RECV_BACKOFF: u64 = 50_000_000;

/// How long the reader waits for room in the stack before it drops a packet, in
/// nanoseconds.
pub const INBOUND_HANDOFF_BUDGET: u64 = 20_000_000;

/// How many refused packets in a row ask for a new handshake.
pub const ENCAP_ERRORS_BEFORE_REKEY: u32 = 24;

/// The least time between two handshakes in place, in nanoseconds.
pub const REKEY_MIN_GAP: u64 = 3_000_000_000;

/// How often in a row the peer must be found silent to be declared dead.
pub const STALE_STRIKES_BEFORE_DEATH: u32 = 2;

/// The time between two health checks, and how far it varies, in milliseconds.
pub const WG_HEALTHCHECK_INTERVAL_MILLIS: u64 = 3000;

pub const WG_HEALTHCHECK_JITTER_MILLIS: u64 = 500;

/// What to do after a failed read.
#[derive(Clone, Copy, Debug, PartialEq, Eq, Structural)]
pub enum ReadError {
    /// Wait for [`TRANSIENT_RECV_BACKOFF`] and read again.
    Retry,
    /// The tunnel is over.
    GiveUp,
}

/// The reader's count of passing errors in a row.
#[derive(Clone, Copy, Debug, PartialEq, Eq, Structural)]
pub struct Reader {
    pub transient_errors: u32,
}

/// What a failed read leads to, and the reader after it.
pub open spec fn read_failed(
    was: Reader,
    transient: bool,
    now: Reader,
    r: ReadError,
) -> bool {
    &&& r == (if transient && was.transient_errors < MAX_TRANSIENT_RECV_ERRORS {
        ReadError::Retry
    } else {
        ReadError::GiveUp
    })
    &&& now.transient_errors == (if transient {
        was.transient_errors + 1
    } else {
        was.transient_errors as int
    })
}

impl Reader {
    pub fn new() -> (r: Self)
        ensures
            r == (Reader { transient_errors: 0 }),
    {
        Reader { transient_errors: 0 }
    }

    /// A datagram arrived.
    pub fn on_datagram(&mut self)
        ensures
            *final(self) == (Reader { transient_errors: 0 }),
    {
        self.transient_errors = 0;
    }

    /// A read failed. A passing error is survived up to
    /// [`MAX_TRANSIENT_RECV_ERRORS`] times in a row, any other not at all.
    pub fn on_error(&mut self, transient: bool) -> (r: ReadError)
        requires
            old(self).transient_errors <= MAX_TRANSIENT_RECV_ERRORS,
        ensures
            read_failed(*old(self), transient, *final(self), r),
    {
        if !transient {
            return ReadError::GiveUp;
        }
        self.transient_errors = self.transient_errors + 1;
        if self.transient_errors > MAX_TRANSIENT_RECV_ERRORS {
            ReadError::GiveUp
        } else {
            ReadError::Retry
        }
    }
}

/// Takes what already waits behind the first packet, in order, up to
/// [`MAX_ENCAP_BATCH`] in all. No packet is waited for.
pub fn collect_batch(first: Vec<u8>, rx: &mut tokio::sync::mpsc::Receiver<Vec<u8>>) -> (batch: Vec<
    Vec<u8>,
>)
    ensures
        1 <= batch@.len() <= MAX_ENCAP_BATCH,
        batch@.len() <= 64,
        batch@[0] == first,
        all_read(
            packet_queue(*old(rx)),
            packet_queue(*final(rx)),
            packets(batch@.skip(1)),
        ),
        batch@.len() < MAX_ENCAP_BATCH ==> packet_queue(*old(rx)).waiting.len() < batch@.len(),
{
    let mut batch: Vec<Vec<u8>> = Vec::new();
    batch.push(first);
    let mut empty = false;
    let ghost queue0 = packet_queue(*rx);
    proof {
        nothing_read(queue0);
        assert(packets(batch@.skip(1)) =~= Seq::empty());
    }
    while batch.len() < MAX_ENCAP_BATCH && !empty
        invariant
            1 <= batch@.len() <= MAX_ENCAP_BATCH,
            batch@[0] == first,
            queue0 == packet_queue(*old(rx)),
            all_read(
                queue0,
                packet_queue(*rx),
                packets(batch@.skip(1)),
            ),
            empty ==> queue0.waiting.len() < batch@.len(),
        decreases
            MAX_ENCAP_BATCH - batch@.len(),
            if empty {
                0int
            } else {
                1int
            },
    {
        let ghost queue = *rx;
        let ghost got = packets(batch@.skip(1));
        match try_recv_packet(rx) {
            Received::Message(packet) => {
                let ghost p = packet@;
                batch.push(packet);
                proof {
                    one_more_read(
                        queue0,
                        packet_queue(queue),
                        packet_queue(*rx),
                        got,
                        p,
                    );
                    assert(packets(batch@.skip(1)) =~= got.push(p));
                }
            },
            _ => {
                empty = true;
                proof {
                    all_that_waited_was_read(
                        queue0,
                        packet_queue(queue),
                        packet_queue(*rx),
                        got,
                    );
                }
            },
        }
    }
    batch
}

/// The session after the packets were sealed one after the other.
pub open spec fn after_batch(v: TunnView, batch: Seq<Vec<u8>>) -> TunnView
    decreases batch.len(),
{
    if batch.len() == 0 {
        v
    } else {
        after_encapsulate(after_batch(v, batch.drop_last()), batch.last()@)
    }
}

/// Whether these are the messages that sealing the packets gives: with keys one
/// for each in order; without, the start of a handshake if none is under way.
pub open spec fn batch_sealed(
    v: TunnView,
    batch: Seq<Vec<u8>>,
    wire: Seq<Vec<u8>>,
    mark: Seq<u8>,
) -> bool {
    if v.live {
        &&& wire.len() == batch.len()
        &&& forall|i: int|
            0 <= i < wire.len() ==> marked_data(
                (#[trigger] wire[i])@,
                batch[i]@.len(),
                mark,
            )
    } else if v.handshaking || batch.len() == 0 {
        wire.len() == 0
    } else {
        wire.len() == 1 && marked_initiation(wire[0]@, mark)
    }
}

proof fn batch_keeps_the_rest(v: TunnView, batch: Seq<Vec<u8>>)
    ensures
        after_batch(v, batch).setup == v.setup,
        after_batch(v, batch).live == v.live,
        v.live ==> after_batch(v, batch) == (TunnView {
            sealed: v.sealed + packets(batch),
            ..v
        }),
        !v.live ==> after_batch(v, batch).sealed == v.sealed,
        !v.live ==> after_batch(v, batch).handshaking == (v.handshaking || batch.len() > 0),
    decreases batch.len(),
{
    if batch.len() > 0 {
        batch_keeps_the_rest(v, batch.drop_last());
        assert(packets(batch) =~= packets(batch.drop_last()).push(batch.last()@));
        assert(v.sealed + packets(batch) =~= (v.sealed + packets(batch.drop_last())).push(
            batch.last()@,
        ));
    } else {
        assert(v.sealed + packets(batch) =~= v.sealed);
    }
}

proof fn fits_after_encapsulate(v: TunnView, src: Seq<u8>)
    requires
        fits(v),
        src.len() + DATA_OVERHEAD <= MAX_PACKET,
    ensures
        fits(after_encapsulate(v, src)),
{
}

/// The writer's count of refused packets in a row.
#[derive(Clone, Copy, Debug, PartialEq, Eq, Structural)]
pub struct Writer {
    pub encap_errors: u32,
}

/// Whether counting what a session made of a packet took the writer from `was`
/// to `now`, and asks for a new handshake or not.
pub open spec fn outcome_noted(was: Writer, outcome: Outcome, now: Writer, rekey: bool) -> bool {
    match outcome {
        Outcome::Done => !rekey && now.encap_errors == 0,
        Outcome::Network(_) => !rekey && now.encap_errors == 0,
        Outcome::Tunnel(_) => !rekey && now == was,
        Outcome::Refused(_) => {
            &&& now.encap_errors == (if was.encap_errors < u32::MAX {
                was.encap_errors + 1
            } else {
                u32::MAX as int
            })
            &&& rekey == (now.encap_errors >= ENCAP_ERRORS_BEFORE_REKEY)
        },
    }
}

impl Writer {
    pub fn new() -> (r: Self)
        ensures
            r == (Writer { encap_errors: 0 }),
    {
        Writer { encap_errors: 0 }
    }

    /// Counts what a session made of a packet, and tells whether a new handshake
    /// is to be asked for.
    pub fn note(&mut self, outcome: &Outcome) -> (rekey: bool)
        ensures
            outcome_noted(*old(self), *outcome, *final(self), rekey),
    {
        match outcome {
            Outcome::Done => {
                self.encap_errors = 0;
                false
            },
            Outcome::Network(_) => {
                self.encap_errors = 0;
                false
            },
            Outcome::Tunnel(_) => false,
            Outcome::Refused(_) => {
                self.encap_errors = self.encap_errors.saturating_add(1);
                self.encap_errors >= ENCAP_ERRORS_BEFORE_REKEY
            },
        }
    }

    /// Seals a batch of packets. Returns the marked messages for the peer, and
    /// whether a new handshake is to be asked for, which a session that has
    /// room for its packets gives no cause for.
    pub fn seal_batch(
        &mut self,
        t: &mut boringtun::noise::Tunn,
        batch: &Vec<Vec<u8>>,
        client_id: &[u8; 3],
        scratch: &mut Vec<u8>,
    ) -> (r: (Vec<Vec<u8>>, bool))
        requires
            fits(tunn_of(*old(t))),
            old(scratch)@.len() == MAX_PACKET,
            forall|i: int|
                0 <= i < batch@.len() ==> (#[trigger] batch@[i])@.len() + DATA_OVERHEAD
                    <= MAX_PACKET,
        ensures
            final(scratch)@.len() == MAX_PACKET,
            fits(tunn_of(*final(t))),
            tunn_of(*final(t)) == after_batch(tunn_of(*old(t)), batch@),
            tunn_of(*old(t)).live ==> tunn_of(*final(t)).sealed == tunn_of(*old(t)).sealed
                + packets(batch@),
            batch_sealed(tunn_of(*old(t)), batch@, r.0@, client_id@),
            all_passed_on(given_by(*old(t)).said, given_by(*final(t)).said, r.0@, client_id@),
            given_by(*final(t)).opened == given_by(*old(t)).opened,
            !r.1,
            batch@.len() > 0 ==> final(self).encap_errors == 0,
            batch@.len() == 0 ==> *final(self) == *old(self),
    {
        let ghost was = tunn_of(*t);
        let mut wire: Vec<Vec<u8>> = Vec::new();
        let mut rekey = false;
        let mut i: usize = 0;
        assert(batch@.take(0) =~= Seq::empty());
        while i < batch.len()
            invariant
                i <= batch@.len(),
                scratch@.len() == MAX_PACKET,
                forall|j: int|
                    0 <= j < batch@.len() ==> (#[trigger] batch@[j])@.len() + DATA_OVERHEAD
                        <= MAX_PACKET,
                fits(tunn_of(*t)),
                tunn_of(*t) == after_batch(was, batch@.take(i as int)),
                batch_sealed(was, batch@.take(i as int), wire@, client_id@),
                all_passed_on(given_by(*old(t)).said, given_by(*t).said, wire@, client_id@),
                given_by(*t).opened == given_by(*old(t)).opened,
                !rekey,
                i > 0 ==> self.encap_errors == 0,
                i == 0 ==> *self == *old(self),
            decreases batch@.len() - i,
        {
            let ghost mid = tunn_of(*t);
            let ghost before = wire@;
            let ghost said = given_by(*t).said;
            let ghost head = batch@.take(i as int);
            proof {
                batch_keeps_the_rest(was, head);
                assert(batch@.take(i + 1).drop_last() =~= head);
                fits_after_encapsulate(mid, batch@[i as int]@);
            }
            let outcome = encapsulate(t, batch[i].as_slice(), scratch);
            if self.note(&outcome) {
                rekey = true;
            }
            if let Outcome::Network(p) = outcome {
                let ghost plain = p@;
                let mut p = p;
                inject_client_id(&mut p, client_id);
                wire.push(p);
                proof {
                    assert(p@ == marked(plain, client_id@));
                    one_more_passed_on(given_by(*old(t)).said, said, before, plain, p, client_id@);
                    if was.live {
                        assert(marked_data(p@, batch@[i as int]@.len(), client_id@));
                        assert forall|j: int| 0 <= j < wire@.len() implies marked_data(
                            (#[trigger] wire@[j])@,
                            batch@.take(i + 1)[j]@.len(),
                            client_id@,
                        ) by {
                            if j < i {
                                assert(wire@[j] == before[j]);
                                assert(batch@.take(i + 1)[j] == head[j]);
                            }
                        }
                    } else {
                        assert(marked_initiation(p@, client_id@));
                    }
                }
            }
            i = i + 1;
        }
        assert(batch@.take(i as int) =~= batch@);
        proof {
            batch_keeps_the_rest(was, batch@);
        }
        (wire, rekey)
    }
}

/// What a look at the timers came to.
pub struct Tick {
    /// To be sent to the peer, in order.
    pub outgoing: Vec<Vec<u8>>,
    /// A fresh session would not start a handshake.
    pub unrecoverable: bool,
    /// Why the session asked for new keys, if it did.
    pub expired: Option<boringtun::noise::errors::WireGuardError>,
    /// Whether the session was replaced.
    pub rekeyed: bool,
}

/// The timer's memory of the last handshake in place.
#[derive(Clone, Copy, Debug, PartialEq, Eq, Structural)]
pub struct Rekeying {
    pub last_rekey: u64,
}

/// Whether the session is to be replaced now: that is wanted, or its timers
/// say it has expired, and the last time is long enough ago.
pub open spec fn rekeys(last_rekey: u64, wanted: bool, timers: Outcome, now: u64) -> bool {
    (wanted || timers is Refused) && elapsed(last_rekey, now) >= REKEY_MIN_GAP
}

/// Whether a look at the timers that came to `timers` had this result. A message
/// that is due comes first. A session that is to be replaced is replaced by a
/// fresh one with the same keys, which starts a handshake.
pub open spec fn timers_heeded(
    was: Rekeying,
    session: TunnView,
    timers: Outcome,
    keys: SessionKeys,
    wanted: bool,
    now: u64,
    mark: Seq<u8>,
    after: Rekeying,
    session_after: TunnView,
    r: Tick,
) -> bool {
    let due = if timers is Network {
        1int
    } else {
        0
    };
    &&& r.rekeyed == rekeys(was.last_rekey, wanted, timers, now)
    &&& !r.unrecoverable
    &&& r.expired == (match timers {
        Outcome::Refused(e) => Some(e),
        _ => None,
    })
    &&& after.last_rekey == (if r.rekeyed {
        now
    } else {
        was.last_rekey
    })
    &&& session_after == (if r.rekeyed {
        after_encapsulate(fresh(keys), Seq::empty())
    } else {
        session
    })
    &&& r.outgoing@.len() == due + (if r.rekeyed {
        1int
    } else {
        0
    })
    &&& timers matches Outcome::Network(p) ==> r.outgoing@[0]@ == marked(p@, mark)
    &&& r.rekeyed ==> marked_initiation(r.outgoing@[due]@, mark)
}

impl Rekeying {
    /// The first handshake in place may come at once.
    pub fn new(now: u64) -> (r: Self)
        ensures
            r.last_rekey == (if now >= REKEY_MIN_GAP {
                now - REKEY_MIN_GAP
            } else {
                now as int
            }),
    {
        Rekeying {
            last_rekey: if now >= REKEY_MIN_GAP {
                now - REKEY_MIN_GAP
            } else {
                now
            },
        }
    }

    /// Does what the timers of the session ask for, once that is known.
    pub fn after_timers(
        &mut self,
        t: &mut boringtun::noise::Tunn,
        timers: Outcome,
        keys: &SessionKeys,
        wanted: bool,
        now: u64,
        client_id: &[u8; 3],
        scratch: &mut Vec<u8>,
    ) -> (r: Tick)
        requires
            fits(tunn_of(*old(t))),
            old(scratch)@.len() == MAX_PACKET,
        ensures
            final(scratch)@.len() == MAX_PACKET,
            fits(tunn_of(*final(t))),
            timers_heeded(
                *old(self),
                tunn_of(*old(t)),
                timers,
                *keys,
                wanted,
                now,
                client_id@,
                *final(self),
                tunn_of(*final(t)),
                r,
            ),
            !r.rekeyed ==> given_by(*final(t)) == given_by(*old(t)),
            r.rekeyed ==> {
                &&& given_by(*final(t)).said.len() == 1
                &&& r.outgoing@.last()@ == marked(given_by(*final(t)).said[0], client_id@)
                &&& given_by(*final(t)).opened.len() == 0
            },
    {
        let mut outgoing: Vec<Vec<u8>> = Vec::new();
        let mut want = wanted;
        let mut expired = None;
        let mut unrecoverable = false;
        match timers {
            Outcome::Network(p) => {
                let mut p = p;
                inject_client_id(&mut p, client_id);
                outgoing.push(p);
            },
            Outcome::Refused(e) => {
                want = true;
                expired = Some(e);
            },
            _ => {},
        }
        let mut rekeyed = false;
        if want && elapsed_nanos(self.last_rekey, now) >= REKEY_MIN_GAP {
            rekeyed = true;
            self.last_rekey = now;
            *t = keys.fresh_session();
            let nothing: [u8; 0] = [];
            let started = encapsulate(t, nothing.as_slice(), scratch);
            assert(nothing@ =~= Seq::<u8>::empty());
            match started {
                Outcome::Network(p) => {
                    let ghost plain = p@;
                    let mut p = p;
                    inject_client_id(&mut p, client_id);
                    outgoing.push(p);
                    assert(is_initiation(plain) && p@ == marked(plain, client_id@));
                },
                _ => {
                    unrecoverable = true;
                },
            }
        }
        Tick { outgoing, unrecoverable, expired, rekeyed }
    }

    /// Looks at the timers of the session.
    pub fn tick(
        &mut self,
        t: &mut boringtun::noise::Tunn,
        keys: &SessionKeys,
        wanted: bool,
        now: u64,
        client_id: &[u8; 3],
        scratch: &mut Vec<u8>,
    ) -> (r: Tick)
        requires
            fits(tunn_of(*old(t))),
            old(scratch)@.len() == MAX_PACKET,
        ensures
            final(scratch)@.len() == MAX_PACKET,
            fits(tunn_of(*final(t))),
            forall|i: int|
                0 <= i < r.outgoing@.len() ==> marked_message(
                    (#[trigger] r.outgoing@[i])@,
                    client_id@,
                ),
            !r.rekeyed ==> all_passed_on(
                given_by(*old(t)).said,
                given_by(*final(t)).said,
                r.outgoing@,
                client_id@,
            ) && given_by(*final(t)).opened == given_by(*old(t)).opened && given_by(
                *final(t),
            ).refused == given_by(*old(t)).refused + (if r.expired is Some {
                1int
            } else {
                0
            }),
            r.rekeyed ==> {
                &&& given_by(*final(t)).said.len() == 1
                &&& r.outgoing@.last()@ == marked(given_by(*final(t)).said[0], client_id@)
                &&& given_by(*final(t)).opened.len() == 0
            },
            exists|mid: boringtun::noise::Tunn, timers: Outcome|
                {
                    &&& timers_looked_at(tunn_of(*old(t)), tunn_of(mid), timers)
                    &&& gave(given_by(*old(t)), given_by(mid), timers)
                    &&& #[trigger] timers_heeded(
                        *old(self),
                        tunn_of(mid),
                        timers,
                        *keys,
                        wanted,
                        now,
                        client_id@,
                        *final(self),
                        tunn_of(*final(t)),
                        r,
                    )
                },
    {
        let ghost was = tunn_of(*t);
        let timers = update_timers(t, scratch);
        let ghost due = timers;
        let ghost mid = *t;
        let r = self.after_timers(t, timers, keys, wanted, now, client_id, scratch);
        proof {
            assert forall|i: int| 0 <= i < r.outgoing@.len() implies marked_message(
                (#[trigger] r.outgoing@[i])@,
                client_id@,
            ) by {
                if due is Network && i == 0 {
                    assert(is_plain(due->Network_0@));
                } else {
                    assert(marked_initiation(r.outgoing@[i]@, client_id@));
                    let plain = choose|plain: Seq<u8>|
                        is_initiation(plain) && r.outgoing@[i]@ == #[trigger] marked(
                            plain,
                            client_id@,
                        );
                    assert(is_plain(plain));
                }
            }
            assert(timers_looked_at(was, tunn_of(mid), due));
            assert(timers_heeded(
                *old(self),
                tunn_of(mid),
                due,
                *keys,
                wanted,
                now,
                client_id@,
                *final(self),
                tunn_of(*final(t)),
                r,
            ));
        }
        r
    }
}

/// A session is replaced by one with the same keys, so the peer is the same and
/// the tunnel goes on.
pub proof fn a_replacement_has_the_same_keys(keys: SessionKeys)
    ensures
        after_encapsulate(fresh(keys), Seq::empty()).setup == setup_of(keys, Some(keys.keepalive)),
        after_encapsulate(fresh(keys), Seq::empty()).handshaking,
{
}

/// Two handshakes in place are never closer together than [`REKEY_MIN_GAP`].
pub proof fn handshakes_keep_their_distance(
    first: u64,
    second: u64,
    wanted: bool,
    timers: Outcome,
)
    requires
        rekeys(first, wanted, timers, second),
    ensures
        second >= first + REKEY_MIN_GAP,
{
}

/// What a health check comes to.
#[derive(Clone, Copy, Debug, PartialEq, Eq, Structural)]
pub enum Health {
    /// The session could not be saved.
    Expired,
    /// The peer has been silent for too long.
    Stale { rekey: bool },
    /// Send a probe, and ask for a new handshake or not.
    Probe { rekey: bool },
}

/// How often in a row the peer was found silent.
#[derive(Clone, Copy, Debug, PartialEq, Eq, Structural)]
pub struct Checkup {
    pub strikes: u32,
}

/// The strikes after a check of a peer that has been silent for `idle`.
pub open spec fn strikes_after(strikes: u32, idle: u64, stale: u64) -> u32 {
    if idle < stale {
        0
    } else if strikes == u32::MAX {
        u32::MAX
    } else {
        (strikes + 1) as u32
    }
}

/// What the check comes to. A new handshake is asked for at half the time after
/// which a peer counts as silent.
pub open spec fn health(session_dead: bool, strikes: u32, idle: u64, stale: u64) -> Health {
    if session_dead {
        Health::Expired
    } else if strikes_after(strikes, idle, stale) >= STALE_STRIKES_BEFORE_DEATH {
        Health::Stale { rekey: idle >= stale / 2 }
    } else {
        Health::Probe { rekey: idle >= stale / 2 }
    }
}

impl Checkup {
    pub fn new() -> (r: Self)
        ensures
            r == (Checkup { strikes: 0 }),
    {
        Checkup { strikes: 0 }
    }

    /// Checks a peer from which nothing valid has come for `idle`.
    pub fn check(&mut self, session_dead: bool, idle: u64, stale: u64) -> (r: Health)
        ensures
            r == health(session_dead, old(self).strikes, idle, stale),
            final(self).strikes == (if session_dead {
                old(self).strikes
            } else {
                strikes_after(old(self).strikes, idle, stale)
            }),
    {
        if session_dead {
            return Health::Expired;
        }
        let rekey = idle >= stale / 2;
        if idle >= stale {
            self.strikes = self.strikes.saturating_add(1);
            if self.strikes >= STALE_STRIKES_BEFORE_DEATH {
                return Health::Stale { rekey };
            }
        } else {
            self.strikes = 0;
        }
        Health::Probe { rekey }
    }
}

/// One silent window never ends a tunnel, and two in a row always do.
pub proof fn two_silent_windows_end_a_tunnel(idle: u64, then: u64, stale: u64)
    requires
        idle >= stale,
        then >= stale,
    ensures
        health(false, 0, idle, stale) is Probe,
        health(false, strikes_after(0, idle, stale), then, stale) is Stale,
{
}

/// A valid packet in between starts the count again.
pub proof fn a_sign_of_life_clears_the_strikes(strikes: u32, idle: u64, then: u64, stale: u64)
    requires
        idle < stale,
        then >= stale,
    ensures
        health(false, strikes_after(strikes, idle, stale), then, stale) is Probe,
{
}

/// How long to pause before the next health check, in milliseconds, with this
/// much of the variation.
pub fn pause_with(offset: u64) -> (r: u64)
    requires
        offset <= 2 * WG_HEALTHCHECK_JITTER_MILLIS,
    ensures
        r == WG_HEALTHCHECK_INTERVAL_MILLIS - WG_HEALTHCHECK_JITTER_MILLIS + offset,
{
    WG_HEALTHCHECK_INTERVAL_MILLIS - WG_HEALTHCHECK_JITTER_MILLIS + offset
}

/// How long to pause before the next health check, in milliseconds.
pub fn health_check_pause() -> (r: u64)
    ensures
        WG_HEALTHCHECK_INTERVAL_MILLIS - WG_HEALTHCHECK_JITTER_MILLIS <= r
            <= WG_HEALTHCHECK_INTERVAL_MILLIS + WG_HEALTHCHECK_JITTER_MILLIS,
{
    let offset: u64 = random_range(0, 2 * WG_HEALTHCHECK_JITTER_MILLIS + 1);
    pause_with(offset)
}

/// The silence that a setting allows a peer, in seconds: a positive number, at
/// most a day.
pub open spec fn stale_secs(value: Option<&str>) -> u64 {
    match value {
        None => 20,
        Some(text) => match number(text@, u64::MAX as nat) {
            None => 20,
            Some(n) => if n == 0 {
                20
            } else if n > 86_400 {
                86_400
            } else {
                n as u64
            },
        },
    }
}

/// How long a peer may be silent, in nanoseconds. `value` is the setting for
/// it.
pub fn wg_stale_timeout(value: Option<&str>) -> (r: u64)
    ensures
        r == stale_secs(value) * 1_000_000_000,
{
    let secs: u64 = match value {
        None => 20,
        Some(text) => match parse_number(&chars_of(text), u64::MAX) {
            None => 20,
            Some(n) => if n == 0 {
                20
            } else if n > 86_400 {
                86_400
            } else {
                n
            },
        },
    };
    secs * 1_000_000_000
}

/// What the writer sent since its last report.
#[derive(Clone, Copy, Debug, PartialEq, Eq, Structural)]
pub struct Uplink {
    pub packets: u64,
    pub bytes: u64,
    pub waits: u64,
    pub wait_micros: u64,
    pub worst_micros: u64,
    pub last_report: u64,
}

/// `a + b`, and the largest `u64` where that does not fit.
pub open spec fn plus(a: u64, b: u64) -> u64 {
    if a + b <= u64::MAX {
        (a + b) as u64
    } else {
        u64::MAX
    }
}

/// A report of the writer.
#[derive(Clone, Copy, Debug, PartialEq, Eq, Structural)]
pub struct UplinkReport {
    pub window: u64,
    pub totals: Uplink,
    pub kilobytes_per_second: u64,
}

/// The rate over a window, in kilobytes per second.
pub open spec fn rate(bytes: u64, window: u64) -> u64 {
    let millis = window as int / 1_000_000;
    if millis > 0 {
        (bytes * 1000 / millis / 1024) as u64
    } else {
        0
    }
}

/// The counts with one more packet of this length, and how long the writer
/// waited for it if it did.
pub open spec fn sent_noted(was: Uplink, len: usize, waited: Option<u64>) -> Uplink {
    Uplink {
        packets: plus(was.packets, 1),
        bytes: plus(was.bytes, len as u64),
        waits: match waited {
            Some(_) => plus(was.waits, 1),
            None => was.waits,
        },
        wait_micros: match waited {
            Some(micros) => plus(was.wait_micros, micros),
            None => was.wait_micros,
        },
        worst_micros: match waited {
            Some(micros) => if micros > was.worst_micros {
                micros
            } else {
                was.worst_micros
            },
            None => was.worst_micros,
        },
        ..was
    }
}

/// Whether the writer with these counts reports `r`, and the counts after it.
pub open spec fn reported(was: Uplink, now: u64, after: Uplink, r: Option<UplinkReport>) -> bool {
    let window = elapsed(was.last_report, now);
    if window >= UPLINK_REPORT_INTERVAL {
        &&& r == Some(
            UplinkReport {
                window: window as u64,
                totals: was,
                kilobytes_per_second: rate(was.bytes, window as u64),
            },
        )
        &&& after == (Uplink {
            packets: 0,
            bytes: 0,
            waits: 0,
            wait_micros: 0,
            worst_micros: 0,
            last_report: now,
        })
    } else {
        r is None && after == was
    }
}

impl Uplink {
    pub fn new(now: u64) -> (r: Self)
        ensures
            r == (Uplink {
                packets: 0,
                bytes: 0,
                waits: 0,
                wait_micros: 0,
                worst_micros: 0,
                last_report: now,
            }),
    {
        Uplink {
            packets: 0,
            bytes: 0,
            waits: 0,
            wait_micros: 0,
            worst_micros: 0,
            last_report: now,
        }
    }

    /// Counts a packet that was sent, and how long the writer waited for it if
    /// it did.
    pub fn note_sent(&mut self, len: usize, waited: Option<u64>)
        ensures
            *final(self) == sent_noted(*old(self), len, waited),
    {
        self.packets = self.packets.saturating_add(1);
        self.bytes = self.bytes.saturating_add(len as u64);
        if let Some(micros) = waited {
            self.waits = self.waits.saturating_add(1);
            self.wait_micros = self.wait_micros.saturating_add(micros);
            if micros > self.worst_micros {
                self.worst_micros = micros;
            }
        }
    }

    /// The report of the writer when it is due, after which the counts begin
    /// again.
    pub fn report(&mut self, now: u64) -> (r: Option<UplinkReport>)
        ensures
            reported(*old(self), now, *final(self), r),
    {
        let window: u64 = elapsed_nanos(self.last_report, now);
        if window < UPLINK_REPORT_INTERVAL {
            return None;
        }
        let totals = *self;
        let millis: u64 = window / 1_000_000;
        let per_second: u128 = self.bytes as u128 * 1000 / millis as u128 / 1024;
        proof {
            rate_is_small(self.bytes as int, millis as int);
        }
        *self = Uplink::new(now);
        Some(UplinkReport { window, totals, kilobytes_per_second: per_second as u64 })
    }
}

proof fn rate_is_small(bytes: int, millis: int)
    requires
        0 <= bytes <= u64::MAX,
        millis >= 1,
    ensures
        0 <= bytes * 1000 / millis / 1024 <= u64::MAX,
{
    assert(bytes * 1000 / millis <= bytes * 1000) by (nonlinear_arith)
        requires
            bytes >= 0,
            millis >= 1,
    ;
    assert(bytes * 1000 / millis >= 0) by (nonlinear_arith)
        requires
            bytes >= 0,
            millis >= 1,
    ;
}

} // verus!
