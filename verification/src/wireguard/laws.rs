//! What holds of every tunnel and of every trial of an endpoint.

use vstd::prelude::*;

#[allow(unused_imports)]
use super::errors::{passes, SocketErrorKind};
#[allow(unused_imports)]
use super::packet::{checksum, dns_query, folded, marked, no_mark, word_sum};
#[allow(unused_imports)]
use super::ranges::{in_order, is_among, picked};
#[allow(unused_imports)]
use super::session::{
    all_passed_on,
    datagram_taken,
    is_initiation,
    marked_data,
    marked_initiation,
    tunn_of,
    Outcome,
    SessionKeys,
    Taken,
    TunnView,
};
#[allow(unused_imports)]
use super::tunnel::{
    after_batch,
    batch_sealed,
    health,
    health_check_pause,
    outcome_noted,
    pause_with,
    rate,
    read_failed,
    reported,
    sent_noted,
    stale_secs,
    strikes_after,
    timers_heeded,
    wg_stale_timeout,
    Health,
    ReadError,
    Reader,
    Rekeying,
    Tick,
    Uplink,
    UplinkReport,
    Writer,
    INBOUND_HANDOFF_BUDGET,
    MAX_ENCAP_BATCH,
    TIMER_TICK,
    TRANSIENT_RECV_BACKOFF,
};
#[allow(unused_imports)]
use super::verify::{
    probe_sealed,
    step_of,
    Dataplane,
    DataplaneStep,
    DataplaneWait,
    Handshake,
    HandshakeTick,
    Sealed,
    Step,
};
#[allow(unused_imports)]
use crate::text::number;

verus! {

/// Whenever a new handshake is wanted or the timers refuse, and the last one is
/// three seconds back or more, the session is replaced, however long ago the
/// last one was: by a session with the same keys that has begun a handshake, the
/// start of which is what is sent last.
pub proof fn a_wanted_handshake_happens(
    was: Rekeying,
    session: TunnView,
    timers: Outcome,
    keys: SessionKeys,
    wanted: bool,
    now: u64,
    mark: Seq<u8>,
    after: Rekeying,
    session_after: TunnView,
    r: Tick,
)
    requires
        timers_heeded(was, session, timers, keys, wanted, now, mark, after, session_after, r),
        wanted || timers is Refused,
        was.last_rekey + 3_000_000_000 <= now,
    ensures
        r.rekeyed,
        !r.unrecoverable,
        after.last_rekey == now,
        session_after.handshaking,
        !session_after.live,
        session_after.sealed.len() == 0,
        session_after.setup.private_key == keys.private_key,
        session_after.setup.peer_public == keys.peer_public,
        session_after.setup.preshared == keys.preshared,
        session_after.setup.keepalive == Some(keys.keepalive),
        r.outgoing@.len() > 0,
        marked_initiation(r.outgoing@.last()@, mark),
{
}

/// Nothing else replaces a session: one that nobody wants replaced and whose
/// timers do not refuse stays, and so does one that began less than three
/// seconds ago. All that is sent then is what the timers give.
pub proof fn an_unwanted_handshake_does_not_happen(
    was: Rekeying,
    session: TunnView,
    timers: Outcome,
    keys: SessionKeys,
    wanted: bool,
    now: u64,
    mark: Seq<u8>,
    after: Rekeying,
    session_after: TunnView,
    r: Tick,
)
    requires
        timers_heeded(was, session, timers, keys, wanted, now, mark, after, session_after, r),
        (!wanted && !(timers is Refused)) || now < was.last_rekey + 3_000_000_000,
    ensures
        !r.rekeyed,
        after == was,
        session_after == session,
        timers matches Outcome::Network(p) ==> r.outgoing@.len() == 1 && r.outgoing@[0]@ == marked(
            p@,
            mark,
        ),
        !(timers is Network) ==> r.outgoing@.len() == 0,
        r.expired is Some <==> timers is Refused,
{
}

/// A session that is replaced at one time would be replaced at every later one.
pub proof fn waiting_loses_no_handshake(
    was: Rekeying,
    session: TunnView,
    timers: Outcome,
    keys: SessionKeys,
    wanted: bool,
    now: u64,
    then: u64,
    mark: Seq<u8>,
    after: Rekeying,
    session_after: TunnView,
    r: Tick,
    later: Rekeying,
    session_later: TunnView,
    s: Tick,
)
    requires
        timers_heeded(was, session, timers, keys, wanted, now, mark, after, session_after, r),
        timers_heeded(was, session, timers, keys, wanted, then, mark, later, session_later, s),
        now <= then,
        r.rekeyed,
    ensures
        s.rekeyed,
        session_later == session_after,
{
}

/// A message that the timers give is sent first, marked, whether the session is
/// replaced or not.
pub proof fn what_is_due_is_sent_first(
    was: Rekeying,
    session: TunnView,
    timers: Outcome,
    keys: SessionKeys,
    wanted: bool,
    now: u64,
    mark: Seq<u8>,
    after: Rekeying,
    session_after: TunnView,
    r: Tick,
)
    requires
        timers_heeded(was, session, timers, keys, wanted, now, mark, after, session_after, r),
    ensures
        timers matches Outcome::Network(p) ==> r.outgoing@.len() > 0 && r.outgoing@[0]@ == marked(
            p@,
            mark,
        ),
        r.outgoing@.len() == (if timers is Network {
            1int
        } else {
            0
        }) + (if r.rekeyed {
            1int
        } else {
            0
        }),
{
}

/// The first handshake that is wanted of a tunnel happens at once.
pub proof fn the_first_handshake_may_come_at_once(
    began: u64,
    was: Rekeying,
    session: TunnView,
    timers: Outcome,
    keys: SessionKeys,
    now: u64,
    mark: Seq<u8>,
    after: Rekeying,
    session_after: TunnView,
    r: Tick,
)
    requires
        began >= 3_000_000_000,
        began <= now,
        call_ensures(Rekeying::new, (began,), was),
        timers_heeded(was, session, timers, keys, true, now, mark, after, session_after, r),
    ensures
        r.rekeyed,
{
}

/// A reader survives 64 passing errors in a row and not one more; any other
/// error ends it at once.
pub proof fn passing_errors_are_survived(
    was: Reader,
    transient: bool,
    now: Reader,
    r: ReadError,
)
    requires
        read_failed(was, transient, now, r),
    ensures
        !transient ==> r == ReadError::GiveUp,
        transient ==> now.transient_errors == was.transient_errors + 1,
        transient && now.transient_errors <= 64 ==> r == ReadError::Retry,
        transient && now.transient_errors > 64 ==> r == ReadError::GiveUp,
{
}

/// The errors that pass by themselves are those of the path or the peer, and
/// those of a read that found nothing; a broken socket is none of them.
pub proof fn a_broken_socket_does_not_pass()
    ensures
        passes(SocketErrorKind::ConnectionRefused),
        passes(SocketErrorKind::ConnectionReset),
        passes(SocketErrorKind::ConnectionAborted),
        passes(SocketErrorKind::HostUnreachable),
        passes(SocketErrorKind::NetworkUnreachable),
        passes(SocketErrorKind::Interrupted),
        passes(SocketErrorKind::WouldBlock),
        passes(SocketErrorKind::TimedOut),
        !passes(SocketErrorKind::NotConnected),
        !passes(SocketErrorKind::AddrNotAvailable),
        !passes(SocketErrorKind::PermissionDenied),
        !passes(SocketErrorKind::InvalidInput),
        !passes(SocketErrorKind::Other),
{
}

/// The writers after these outcomes, one after the other.
pub open spec fn writers_follow(writers: Seq<Writer>, asked: Seq<bool>, outcomes: Seq<Outcome>) -> bool {
    &&& writers.len() == outcomes.len() + 1
    &&& asked.len() == outcomes.len()
    &&& forall|i: int, j: int|
        #![trigger writers[i], writers[j]]
        0 <= i < outcomes.len() && j == i + 1 ==> outcome_noted(
            writers[i],
            outcomes[i],
            writers[j],
            asked[i],
        )
}

/// A new handshake is asked for when 24 packets in a row were refused, and again
/// with every one that follows; fewer than 24 ask for none.
pub proof fn refusals_in_a_row_ask_for_a_handshake(
    writers: Seq<Writer>,
    asked: Seq<bool>,
    outcomes: Seq<Outcome>,
    n: int,
)
    requires
        writers_follow(writers, asked, outcomes),
        writers[0].encap_errors == 0,
        forall|i: int| 0 <= i < outcomes.len() ==> (#[trigger] outcomes[i]) is Refused,
        0 < n <= outcomes.len(),
        outcomes.len() < u32::MAX,
    ensures
        writers[n].encap_errors == n,
        asked[n - 1] <==> n >= 24,
    decreases n,
{
    if n > 1 {
        refusals_in_a_row_ask_for_a_handshake(writers, asked, outcomes, n - 1);
    }
    assert(outcomes[n - 1] is Refused);
    assert(outcome_noted(writers[n - 1], outcomes[n - 1], writers[n], asked[n - 1]));
}

/// A packet that is sealed or kept starts the count of refusals again, and one
/// for the stack leaves it alone. None of them asks for a handshake.
pub proof fn a_sealed_packet_clears_the_refusals(
    was: Writer,
    outcome: Outcome,
    now: Writer,
    rekey: bool,
)
    requires
        outcome_noted(was, outcome, now, rekey),
    ensures
        outcome is Done || outcome is Network ==> now.encap_errors == 0,
        outcome is Tunnel ==> now == was,
        rekey ==> outcome is Refused,
{
}

/// Only a session that is over counts as expired.
pub proof fn only_a_dead_session_expires(dead: bool, strikes: u32, idle: u64, stale: u64)
    ensures
        health(dead, strikes, idle, stale) == Health::Expired <==> dead,
{
}

/// A peer that was silent for the whole time on two checks in a row ends the
/// tunnel, and nothing else does; at half of that time a handshake is asked for.
pub proof fn only_two_silent_checks_end_a_tunnel(strikes: u32, idle: u64, stale: u64)
    ensures
        health(false, strikes, idle, stale) is Stale <==> idle >= stale && strikes >= 1,
        health(false, strikes, idle, stale) == (Health::Stale { rekey: true }) || health(
            false,
            strikes,
            idle,
            stale,
        ) == (Health::Probe { rekey: true }) <==> 2 * idle + 1 >= stale,
        idle < stale ==> strikes_after(strikes, idle, stale) == 0,
        idle >= stale && strikes < u32::MAX ==> strikes_after(strikes, idle, stale) == strikes + 1,
        idle >= stale ==> strikes_after(strikes, idle, stale) >= 1,
{
}

/// The pause between two checks varies by half a second round three seconds.
pub proof fn checks_are_three_seconds_apart(offset: u64, r: u64, s: u64)
    requires
        call_ensures(health_check_pause, (), r),
        offset <= 1000,
        call_ensures(pause_with, (offset,), s),
    ensures
        2500 <= r <= 3500,
        s == 2500 + offset,
{
}

/// A peer may be silent for as many seconds as are set, for at most a day, and
/// for twenty seconds where nothing usable is set.
pub proof fn silence_is_allowed_as_set(value: &str, r: u64, none: u64)
    requires
        call_ensures(wg_stale_timeout, (Some(value),), r),
        call_ensures(wg_stale_timeout, (None,), none),
    ensures
        none == 20_000_000_000,
        match number(value@, u64::MAX as nat) {
            None => r == none,
            Some(n) => {
                &&& n == 0 ==> r == none
                &&& 1 <= n <= 86_400 ==> r == n * 1_000_000_000
                &&& n > 86_400 ==> r == 86_400_000_000_000
            },
        },
{
}

/// The counts of the writer add up: a packet is counted once, with its length
/// and with what was waited for it.
pub proof fn what_is_sent_is_counted(was: Uplink, len: usize, waited: Option<u64>)
    requires
        was.packets < u64::MAX,
        was.waits < u64::MAX,
        was.bytes + len <= u64::MAX,
        waited matches Some(micros) ==> was.wait_micros + micros <= u64::MAX,
    ensures
        ({
            let now = sent_noted(was, len, waited);
            &&& now.packets == was.packets + 1
            &&& now.bytes == was.bytes + len
            &&& now.last_report == was.last_report
            &&& match waited {
                None => now.waits == was.waits && now.wait_micros == was.wait_micros
                    && now.worst_micros == was.worst_micros,
                Some(micros) => {
                    &&& now.waits == was.waits + 1
                    &&& now.wait_micros == was.wait_micros + micros
                    &&& now.worst_micros >= micros
                    &&& now.worst_micros >= was.worst_micros
                    &&& now.worst_micros == micros || now.worst_micros == was.worst_micros
                },
            }
        }),
{
}

/// The writer reports itself when fifteen seconds have passed since its last
/// report, with all that it counted since, and then begins again from nothing.
pub proof fn the_writer_reports_every_fifteen_seconds(
    was: Uplink,
    now: u64,
    after: Uplink,
    r: Option<UplinkReport>,
)
    requires
        reported(was, now, after, r),
        was.last_report <= now,
    ensures
        r is Some <==> was.last_report + 15_000_000_000 <= now,
        r is None ==> after == was,
        r matches Some(report) ==> {
            &&& report.totals == was
            &&& report.window == now - was.last_report
            &&& after.last_report == now
            &&& after.packets == 0
            &&& after.bytes == 0
            &&& after.waits == 0
            &&& after.wait_micros == 0
            &&& after.worst_micros == 0
        },
{
}

/// The rate of a report is what was sent over the time it took, in whole
/// kilobytes per second: so many kilobytes fit in it, and no one more does.
pub proof fn a_rate_is_bytes_over_time(bytes: u64, window: u64)
    requires
        window >= 1_000_000,
    ensures
        ({
            let millis = window as int / 1_000_000;
            &&& rate(bytes, window) * 1024 * millis <= bytes * 1000
            &&& bytes * 1000 < (rate(bytes, window) + 1) * 1024 * millis
        }),
{
    let millis = window as int / 1_000_000;
    let b = bytes as int * 1000;
    let q = b / millis;
    assert(q * millis <= b < (q + 1) * millis) by (nonlinear_arith)
        requires
            millis >= 1,
            b >= 0,
            q == b / millis,
    ;
    assert(0 <= q <= b) by (nonlinear_arith)
        requires
            millis >= 1,
            b >= 0,
            q == b / millis,
    ;
    let k = q / 1024;
    assert(k <= u64::MAX);
    assert(rate(bytes, window) == k);
    assert(k * 1024 * millis <= q * millis) by (nonlinear_arith)
        requires
            k * 1024 <= q,
            millis >= 1,
    ;
    assert((q + 1) * millis <= (k + 1) * 1024 * millis) by (nonlinear_arith)
        requires
            q + 1 <= (k + 1) * 1024,
            millis >= 1,
    ;
}

/// A datagram that the session refuses gives nothing and is no sign of life; any
/// other is one.
pub proof fn a_refused_datagram_gives_nothing(
    mid: TunnView,
    now: TunnView,
    first: Outcome,
    mark: Seq<u8>,
    r: Taken,
)
    requires
        datagram_taken(mid, now, first, mark, r),
    ensures
        r.progressed <==> !(first is Refused),
        first is Refused ==> r.to_network@.len() == 0 && r.to_tunnel is None && now == mid,
        r.to_tunnel is Some <==> first is Tunnel,
        r.to_network@.len() > 0 <==> first is Network,
{
}

/// A packet that a datagram carried is handed over as it is.
pub proof fn a_packet_is_handed_over_as_it_is(
    mid: TunnView,
    now: TunnView,
    packet: Vec<u8>,
    mark: Seq<u8>,
    r: Taken,
)
    requires
        datagram_taken(mid, now, Outcome::Tunnel(packet), mark, r),
    ensures
        r.to_tunnel matches Some(p) && p@ == packet@,
        now == mid,
{
}

/// An answer goes out first, and behind it, once there are keys, everything that
/// waited for them, in order and each packet on its own; nothing waits after
/// that.
pub proof fn an_answer_is_followed_by_what_waited(
    mid: TunnView,
    now: TunnView,
    answer: Vec<u8>,
    mark: Seq<u8>,
    r: Taken,
)
    requires
        datagram_taken(mid, now, Outcome::Network(answer), mark, r),
    ensures
        r.to_network@.len() > 0,
        r.to_network@[0]@ == marked(answer@, mark),
        mid.live ==> {
            &&& r.to_network@.len() == 1 + mid.queue.len()
            &&& now.queue.len() == 0
            &&& now.sealed == mid.sealed + mid.queue
            &&& forall|i: int|
                0 <= i < mid.queue.len() ==> marked_data(
                    (#[trigger] r.to_network@[i + 1])@,
                    mid.queue[i].len(),
                    mark,
                )
        },
        !mid.live ==> now.queue.len() == mid.queue.len() && now.sealed == mid.sealed,
{
    if mid.live {
        let sent = r.to_network@.skip(1);
        assert forall|i: int| 0 <= i < mid.queue.len() implies marked_data(
            (#[trigger] r.to_network@[i + 1])@,
            mid.queue[i].len(),
            mark,
        ) by {
            assert(sent[i] == r.to_network@[i + 1]);
        }
        if mid.queue.len() == 0 {
            assert(mid.sealed + mid.queue =~= mid.sealed);
        }
    } else {
        broadcast use vstd::seq_lib::group_to_multiset_ensures;

        if mid.queue.len() > 0 {
            assert(now.queue.len() == now.queue.to_multiset().len());
            assert(mid.queue.len() == mid.queue.to_multiset().len());
        }
    }
}

/// A batch is sealed packet by packet: one message for each, none before there
/// are keys but the start of one handshake.
pub proof fn a_batch_gives_a_message_for_each_packet(
    v: TunnView,
    batch: Seq<Vec<u8>>,
    wire: Seq<Vec<u8>>,
    mark: Seq<u8>,
)
    requires
        batch_sealed(v, batch, wire, mark),
        batch.len() > 0,
    ensures
        v.live ==> wire.len() == batch.len() && forall|i: int|
            0 <= i < batch.len() ==> (#[trigger] wire[i])@.len() == batch[i]@.len() + 32,
        !v.live && v.handshaking ==> wire.len() == 0,
        !v.live && !v.handshaking ==> wire.len() == 1 && wire[0]@.len() == 148,
{
    if v.live {
        assert forall|i: int| 0 <= i < batch.len() implies (#[trigger] wire[i])@.len()
            == batch[i]@.len() + 32 by {
            assert(marked_data(wire[i]@, batch[i]@.len(), mark));
        }
    }
}

/// A mark goes into the second to fourth byte of every message, whatever its
/// type, and of nothing else.
pub proof fn a_mark_is_in_the_reserved_bytes(p: Seq<u8>, mark: Seq<u8>)
    requires
        mark.len() == 3,
    ensures
        marked(p, mark).len() == p.len(),
        p.len() >= 4 && 1 <= p[0] <= 4 ==> marked(p, mark).subrange(1, 4) == mark && marked(
            p,
            mark,
        )[0] == p[0] && marked(p, mark).skip(4) == p.skip(4),
        p.len() < 4 ==> marked(p, mark) == p,
        p.len() >= 4 && (p[0] == 0 || p[0] > 4) ==> marked(p, mark) == p,
{
    if p.len() >= 4 && 1 <= p[0] <= 4 {
        assert(marked(p, mark).subrange(1, 4) =~= mark);
        assert(marked(p, mark).skip(4) =~= p.skip(4));
    }
}

/// Whatever mark a message bears, taking it off leaves the reserved bytes zero,
/// and the last mark put on is the one that it bears.
pub proof fn the_last_mark_stays(p: Seq<u8>, mark: Seq<u8>, other: Seq<u8>)
    requires
        mark.len() == 3,
        other.len() == 3,
    ensures
        marked(marked(p, mark), other) == marked(p, other),
        p.len() >= 4 && 1 <= p[0] <= 4 ==> marked(p, no_mark())[1] == 0 && marked(p, no_mark())[2]
            == 0 && marked(p, no_mark())[3] == 0,
{
    assert(marked(marked(p, mark), other) =~= marked(p, other));
}

/// The sum of a header of odd length is that of the header with a zero behind
/// it.
pub proof fn an_odd_header_is_padded(s: Seq<u8>)
    requires
        s.len() % 2 == 1,
    ensures
        word_sum(s) == word_sum(s.push(0)),
    decreases s.len(),
{
    reveal_with_fuel(word_sum, 3);
    if s.len() >= 3 {
        assert(s.push(0).skip(2) =~= s.skip(2).push(0));
        an_odd_header_is_padded(s.skip(2));
    } else {
        assert(s.push(0).skip(2) =~= Seq::<u8>::empty());
    }
}

/// The sum of a header adds up over its words, the first byte of each being the
/// higher one.
pub proof fn a_sum_adds_up_over_the_words(s: Seq<u8>, a: u8, b: u8)
    ensures
        word_sum(seq![a, b] + s) == a * 256 + b + word_sum(s),
        word_sum(Seq::<u8>::empty()) == 0,
{
    assert((seq![a, b] + s).skip(2) =~= s);
}

/// A question is for one address record of `cloudflare.com`, and only its number
/// is its own.
pub proof fn a_question_is_for_one_address(id: u16)
    ensures
        dns_query(id).len() == 32,
        dns_query(id)[0] * 256 + dns_query(id)[1] == id,
        dns_query(id).subrange(2, 6) == seq![1u8, 0, 0, 1],
        dns_query(id).subrange(6, 12) == seq![0u8, 0, 0, 0, 0, 0],
        dns_query(id).subrange(12, 23) == seq![
            10u8, 'c' as u8, 'l' as u8, 'o' as u8, 'u' as u8, 'd' as u8, 'f' as u8, 'l' as u8,
            'a' as u8, 'r' as u8, 'e' as u8],
        dns_query(id).subrange(23, 28) == seq![3u8, 'c' as u8, 'o' as u8, 'm' as u8, 0],
        dns_query(id).subrange(28, 32) == seq![0u8, 1, 0, 1],
{
}

/// A session that takes a datagram, with an answer or without, completes a
/// handshake; one that refuses it or finds a packet in it does not.
pub proof fn a_datagram_that_is_taken_completes(first: Outcome, mark: Seq<u8>, r: Step)
    requires
        step_of(first, mark, r),
    ensures
        r is Complete <==> first is Done || first is Network,
        first matches Outcome::Network(p) ==> (r matches Step::Complete(Some(sent)) && sent@
            == marked(p@, mark)),
        first is Done ==> r == Step::Complete(None),
{
}

/// The first message goes out again three quarters of a second after the start
/// and two seconds after it, and not a third time.
pub proof fn the_first_message_goes_out_again(
    h: Handshake,
    timers: Outcome,
    now: u64,
    after: Handshake,
    r: HandshakeTick,
)
    requires
        h.timers_heeded(timers, now, &after, r),
        h.start <= now,
    ensures
        h.retry_index == 0 ==> (r.resend <==> h.start + 750_000_000 <= now),
        h.retry_index == 1 ==> (r.resend <==> h.start + 2_000_000_000 <= now),
        h.retry_index >= 2 ==> !r.resend,
        r.resend ==> after.retry_index == h.retry_index + 1,
        !r.resend ==> after.retry_index == h.retry_index,
        after.start == h.start,
        after.deadline == h.deadline,
        after.init_packet == h.init_packet,
        after.client_id == h.client_id,
{
}

/// What the timers of a handshake give is sent, marked, and what they refuse
/// ends it.
pub proof fn refused_timers_end_a_handshake(
    h: Handshake,
    timers: Outcome,
    now: u64,
    after: Handshake,
    r: HandshakeTick,
)
    requires
        h.timers_heeded(timers, now, &after, r),
    ensures
        r.failed is Some <==> timers is Refused,
        r.send is Some <==> timers is Network,
        timers matches Outcome::Network(p) ==> (r.send matches Some(sent) && sent@ == marked(
            p@,
            h.client_id@,
        )),
{
}

/// A handshake has until its deadline, and at every moment before it the rest.
pub proof fn a_handshake_has_until_its_deadline(h: Handshake, now: u64, r: Option<u64>)
    requires
        call_ensures(Handshake::remaining, (&h, now), r),
    ensures
        r is None <==> h.deadline <= now,
        r matches Some(left) ==> left > 0 && now + left == h.deadline,
{
}

/// The time with which an endpoint is verified is the time from the start of its
/// trial to the packet that verified it, and so less than the trial may take
/// where the packet came before the deadline.
pub proof fn the_time_is_from_the_start_to_the_last_packet(
    d: Dataplane,
    next: Dataplane,
    first: Outcome,
    mark: Seq<u8>,
    now: u64,
    r: DataplaneStep,
    time: u64,
)
    requires
        d.outcome_counts(first, mark, now, &next, r),
        r == DataplaneStep::Verified(time),
        d.start <= now,
    ensures
        d.start + time == now,
        now <= d.deadline ==> time <= d.deadline - d.start,
{
}

/// The trial knows no absolute time: where its start, its deadline, the times of
/// its probes and of the packet are all moved by the same amount, it comes to
/// the same, with the same time.
pub proof fn a_trial_does_not_depend_on_the_clock(
    d: Dataplane,
    next: Dataplane,
    moved: Dataplane,
    moved_next: Dataplane,
    packet: Vec<u8>,
    mark: Seq<u8>,
    now: u64,
    by: u64,
    r: DataplaneStep,
    s: DataplaneStep,
)
    requires
        d.outcome_counts(Outcome::Tunnel(packet), mark, now, &next, r),
        moved.outcome_counts(
            Outcome::Tunnel(packet),
            mark,
            (now + by) as u64,
            &moved_next,
            s,
        ),
        moved == (Dataplane {
            last_probe_at: (d.last_probe_at + by) as u64,
            resend_at: (d.resend_at + by) as u64,
            start: (d.start + by) as u64,
            deadline: (d.deadline + by) as u64,
            ..d
        }),
        d.start <= now,
        now + by + 1_300_000_000 <= u64::MAX,
        d.last_probe_at + by + 1_300_000_000 <= u64::MAX,
        d.resend_at + by <= u64::MAX,
        d.start + by <= u64::MAX,
        d.deadline + by <= u64::MAX,
    ensures
        s == r,
        moved_next == (Dataplane {
            last_probe_at: (next.last_probe_at + by) as u64,
            resend_at: (next.resend_at + by) as u64,
            start: (next.start + by) as u64,
            deadline: (next.deadline + by) as u64,
            ..next
        }),
{
}

/// A trial takes two packets: the first is confirmed and asks for another probe,
/// the second verifies the endpoint.
pub proof fn the_second_packet_verifies(
    d: Dataplane,
    mid: Dataplane,
    last: Dataplane,
    one: Vec<u8>,
    two: Vec<u8>,
    mark: Seq<u8>,
    now: u64,
    then: u64,
    r: DataplaneStep,
    s: DataplaneStep,
)
    requires
        d.successes == 0,
        d.outcome_counts(Outcome::Tunnel(one), mark, now, &mid, r),
        mid.outcome_counts(Outcome::Tunnel(two), mark, then, &last, s),
    ensures
        r == DataplaneStep::Confirmed,
        s is Verified,
        mid.start == d.start,
        mid.deadline == d.deadline,
{
}

/// What is no packet counts for nothing: a message is sent on, marked, and the
/// trial stays as it was.
pub proof fn what_is_no_packet_changes_nothing(
    d: Dataplane,
    next: Dataplane,
    first: Outcome,
    mark: Seq<u8>,
    now: u64,
    r: DataplaneStep,
)
    requires
        d.outcome_counts(first, mark, now, &next, r),
        !(first is Tunnel),
    ensures
        next == d,
        first matches Outcome::Network(p) ==> (r matches DataplaneStep::Send(sent) && sent@
            == marked(p@, mark)),
        !(first is Network) ==> r is Continue,
{
}

/// The next probe goes out at once, but not sooner than six tenths of a second
/// after the one before it, and is sent again seven tenths after that.
pub proof fn probes_keep_their_distance(
    d: Dataplane,
    next: Dataplane,
    packet: Vec<u8>,
    mark: Seq<u8>,
    now: u64,
    r: DataplaneStep,
)
    requires
        d.outcome_counts(Outcome::Tunnel(packet), mark, now, &next, r),
        r is Confirmed,
        now + 1_300_000_000 <= u64::MAX,
        d.last_probe_at + 1_300_000_000 <= u64::MAX,
    ensures
        next.last_probe_at >= d.last_probe_at + 600_000_000,
        next.last_probe_at >= now,
        next.last_probe_at == now || next.last_probe_at == d.last_probe_at + 600_000_000,
        next.resend_at == next.last_probe_at + 700_000_000,
{
}

/// A trial is over at its deadline and not before. Until then a probe that was
/// not answered for seven tenths of a second is sent again, and the wait ends
/// exactly when the next one is due or the time is up.
pub proof fn a_trial_waits_for_what_comes_first(
    d: Dataplane,
    now: u64,
    next: Dataplane,
    r: DataplaneWait,
)
    requires
        d.clock_read(now, &next, r),
        now + 700_000_000 <= u64::MAX,
    ensures
        r is TimedOut <==> d.deadline <= now,
        r is TimedOut ==> next == d,
        r matches DataplaneWait::Wait { resend, nanos } ==> {
            &&& resend <==> d.resend_at <= now
            &&& resend ==> next.last_probe_at == now && next.resend_at == now + 700_000_000
            &&& !resend ==> next == d
            &&& nanos > 0
            &&& now + nanos <= d.deadline
            &&& now + nanos <= next.resend_at
            &&& now + nanos == d.deadline || now + nanos == next.resend_at
            &&& next.successes == d.successes
            &&& next.start == d.start
            &&& next.deadline == d.deadline
        },
{
}

/// A trial begins with its first probe, which is sent again seven tenths of a
/// second later.
pub proof fn a_trial_begins_with_a_probe(start: u64, deadline: u64, now: u64, d: Dataplane)
    requires
        now + 700_000_000 <= u64::MAX,
        call_ensures(Dataplane::begin, (start, deadline, now), d),
    ensures
        d.successes == 0,
        d.last_probe_at == now,
        d.resend_at == now + 700_000_000,
        d.start == start,
        d.deadline == deadline,
{
}

/// Without a team the entries are tried as they stand.
pub proof fn nobody_is_promoted_without_a_team(
    all: Seq<&'static str>,
    promoted: Seq<&'static str>,
)
    ensures
        in_order(all, promoted, false) == all,
{
}

proof fn picking_keeps_the_order(
    all: Seq<&'static str>,
    these: Seq<&'static str>,
    among: bool,
    i: int,
    j: int,
) -> (at: (int, int))
    requires
        0 <= i < j < all.len(),
        is_among(all[i]@, these) == among,
        is_among(all[j]@, these) == among,
    ensures
        0 <= at.0 < at.1 < picked(all, these, among).len(),
        picked(all, these, among)[at.0] == all[i],
        picked(all, these, among)[at.1] == all[j],
    decreases all.len(),
{
    let before = all.drop_last();
    if j < all.len() - 1 {
        picking_keeps_the_order(before, these, among, i, j)
    } else {
        let at = picking_keeps(before, these, among, i);
        (at, picked(before, these, among).len() as int)
    }
}

proof fn picking_keeps(all: Seq<&'static str>, these: Seq<&'static str>, among: bool, i: int) -> (at:
    int)
    requires
        0 <= i < all.len(),
        is_among(all[i]@, these) == among,
    ensures
        0 <= at < picked(all, these, among).len(),
        picked(all, these, among)[at] == all[i],
    decreases all.len(),
{
    let before = all.drop_last();
    if i < all.len() - 1 {
        picking_keeps(before, these, among, i)
    } else {
        picked(before, these, among).len() as int
    }
}

/// Promoting keeps the order among the promoted entries and among the others.
pub proof fn promoting_keeps_the_order(
    all: Seq<&'static str>,
    promoted: Seq<&'static str>,
    i: int,
    j: int,
)
    requires
        0 <= i < j < all.len(),
        is_among(all[i]@, promoted) == is_among(all[j]@, promoted),
    ensures
        exists|p: int, q: int|
            0 <= p < q < in_order(all, promoted, true).len() && #[trigger] in_order(
                all,
                promoted,
                true,
            )[p] == all[i] && #[trigger] in_order(all, promoted, true)[q] == all[j],
{
    let among = is_among(all[i]@, promoted);
    let at = picking_keeps_the_order(all, promoted, among, i, j);
    let yes = picked(all, promoted, true);
    let no = picked(all, promoted, false);
    let r = in_order(all, promoted, true);
    assert(r == yes + no);
    if among {
        assert(r[at.0] == all[i] && r[at.1] == all[j]);
    } else {
        assert(r[yes.len() + at.0] == all[i] && r[yes.len() + at.1] == all[j]);
    }
}

/// The entries of a list are among it, and no others are.
pub proof fn an_entry_is_among_its_list(these: Seq<&'static str>, i: int, entry: Seq<char>)
    ensures
        0 <= i < these.len() ==> is_among(these[i]@, these),
        is_among(entry, these) ==> exists|j: int|
            0 <= j < these.len() && (#[trigger] these[j])@ == entry,
{
}

/// Sealing a batch with keys seals each of its packets once, in order, behind
/// what was sealed before.
pub proof fn a_batch_is_sealed_in_order(v: TunnView, batch: Seq<Vec<u8>>)
    ensures
        v.live ==> after_batch(v, batch).sealed == v.sealed + batch.map_values(
            |p: Vec<u8>| p@,
        ),
        !v.live ==> after_batch(v, batch).sealed == v.sealed,
        after_batch(v, batch).live == v.live,
        after_batch(v, batch).setup == v.setup,
    decreases batch.len(),
{
    let all = batch.map_values(|p: Vec<u8>| p@);
    if batch.len() > 0 {
        let before = batch.drop_last();
        a_batch_is_sealed_in_order(v, before);
        let head = before.map_values(|p: Vec<u8>| p@);
        assert(v.sealed + all =~= (v.sealed + head).push(batch.last()@));
    } else {
        assert(v.sealed + all =~= v.sealed);
    }
}

/// The counts of the writer never fall, however much it has sent.
pub proof fn counts_never_fall(was: Uplink, len: usize, waited: Option<u64>)
    ensures
        sent_noted(was, len, waited).packets >= was.packets,
        sent_noted(was, len, waited).bytes >= was.bytes,
        sent_noted(was, len, waited).waits >= was.waits,
        sent_noted(was, len, waited).wait_micros >= was.wait_micros,
        was.packets == u64::MAX ==> sent_noted(was, len, waited).packets == u64::MAX,
        was.bytes + len > u64::MAX ==> sent_noted(was, len, waited).bytes == u64::MAX,
{
}

/// How long a tunnel waits for what: a quarter of a second between two looks at
/// its timers, a twentieth after a passing error, a fiftieth for room in the
/// stack.
pub proof fn a_tunnel_waits_a_moment()
    ensures
        TIMER_TICK * 4 == 1_000_000_000,
        TRANSIENT_RECV_BACKOFF * 20 == 1_000_000_000,
        INBOUND_HANDOFF_BUDGET * 50 == 1_000_000_000,
        MAX_ENCAP_BATCH == 64,
{
}

/// A handshake begins with its first message, marked for the client, has the
/// whole of its time, and has sent that message once.
pub proof fn a_handshake_begins_with_its_first_message(
    h: Handshake,
    keys: SessionKeys,
    client_id: [u8; 3],
    start: u64,
    timeout: u64,
    now: u64,
    r: Option<u64>,
)
    requires
        h.begun(keys, client_id, start, timeout),
        start <= now,
        call_ensures(Handshake::remaining, (&h, now), r),
    ensures
        h.start == start,
        r is None <==> start + timeout <= now,
        r matches Some(left) ==> now + left == start + timeout,
        h.retry_index == 0,
        h.init_packet@.len() == 148,
        h.init_packet@[0] == 1,
        h.init_packet@.subrange(1, 4) == client_id@,
        tunn_of(h.tunn).handshaking,
        tunn_of(h.tunn).setup.private_key == keys.private_key,
        tunn_of(h.tunn).setup.peer_public == keys.peer_public,
{
    let plain = choose|plain: Seq<u8>|
        is_initiation(plain) && h.init_packet@ == #[trigger] marked(plain, client_id@);
    assert(h.init_packet@.subrange(1, 4) =~= client_id@);
}

/// A session asks for the keepalive that it is given, and for one every 25
/// seconds where it is given none; its keys are those it is given.
pub proof fn a_session_has_the_keys_it_was_given(
    private_key: [u8; 32],
    peer_public: [u8; 32],
    preshared: Option<[u8; 32]>,
    keepalive: Option<u16>,
    r: SessionKeys,
)
    requires
        call_ensures(SessionKeys::new, (private_key, peer_public, preshared, keepalive), r),
    ensures
        r.private_key == private_key,
        r.peer_public == peer_public,
        r.preshared == preshared,
        keepalive matches Some(secs) ==> r.keepalive == secs,
        keepalive is None ==> r.keepalive == 25,
{
}

/// Without keys an answer is followed by nothing while a handshake is under way,
/// and by the start of one where packets wait and none is.
pub proof fn an_answer_without_keys_starts_one_handshake(
    mid: TunnView,
    now: TunnView,
    answer: Vec<u8>,
    mark: Seq<u8>,
    r: Taken,
)
    requires
        datagram_taken(mid, now, Outcome::Network(answer), mark, r),
        !mid.live,
    ensures
        mid.queue.len() == 0 || mid.handshaking ==> r.to_network@.len() == 1,
        mid.queue.len() > 0 && !mid.handshaking ==> r.to_network@.len() == 2 && marked_initiation(
            r.to_network@[1]@,
            mark,
        ) && now.handshaking,
{
    let sent = r.to_network@.skip(1);
    if mid.queue.len() > 0 && !mid.handshaking {
        assert(sent[0] == r.to_network@[1]);
    }
}

/// The count of refusals in a row rises with every refusal, as far as it can be
/// told, and never falls by one.
pub proof fn a_refusal_never_lowers_the_count(
    was: Writer,
    outcome: Outcome,
    now: Writer,
    rekey: bool,
)
    requires
        outcome_noted(was, outcome, now, rekey),
        outcome is Refused,
    ensures
        now.encap_errors >= was.encap_errors,
        was.encap_errors < u32::MAX ==> now.encap_errors == was.encap_errors + 1,
        rekey <==> now.encap_errors >= 24,
{
}

/// A probe is sealed into one message with keys, kept by the session while a
/// handshake is under way, and else starts one.
pub proof fn a_probe_is_sealed_or_kept(v: TunnView, probe: Seq<u8>, mark: Seq<u8>, r: Sealed)
    requires
        probe_sealed(v, probe, mark, r),
    ensures
        v.live ==> (r matches Sealed::Send(p) && p@.len() == probe.len() + 32 && p@[0] == 4),
        !v.live && v.handshaking ==> r is Nothing,
        !v.live && !v.handshaking ==> (r matches Sealed::Send(p) && p@.len() == 148 && p@[0] == 1),
{
}

/// What a session says is sent once each, in order: as many messages as it said,
/// each with its own bytes but for the mark.
pub proof fn what_is_said_is_sent(
    said: Seq<Seq<u8>>,
    said_after: Seq<Seq<u8>>,
    sent: Seq<Vec<u8>>,
    mark: Seq<u8>,
    i: int,
)
    requires
        all_passed_on(said, said_after, sent, mark),
        0 <= i < said_after.len(),
    ensures
        said.len() <= said_after.len(),
        sent.len() == said_after.len() - said.len(),
        i < said.len() ==> said_after[i] == said[i],
        i >= said.len() ==> {
            let p = said_after[i];
            let q = sent[i - said.len()]@;
            &&& q.len() == p.len()
            &&& p.len() > 0 ==> q[0] == p[0]
            &&& p.len() >= 4 ==> q.skip(4) == p.skip(4)
        },
{
    if i < said.len() {
        assert(said.is_prefix_of(said_after));
    } else {
        let p = said_after[i];
        let q = sent[i - said.len()]@;
        assert(q == marked(said_after[said.len() + (i - said.len())], mark));
        if p.len() >= 4 {
            assert(q.skip(4) =~= p.skip(4));
        }
    }
}

} // verus!
