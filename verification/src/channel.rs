//! The non-blocking ends of `tokio`'s bounded channels.
//!
//! A receiver is modelled by what it has handed out and by what waited behind
//! that when it was last read from, a sender by what it has placed and what it
//! could not place.

use vstd::prelude::*;

use crate::netstack::cmd::Cmd;
use crate::netstack::stack::DataIn;
#[allow(unused_imports)]
use crate::netstack::stack::DataView;

verus! {

#[verifier::external_type_specification]
#[verifier::external_body]
#[verifier::reject_recursive_types(T)]
pub struct ExSender<T>(tokio::sync::mpsc::Sender<T>);

#[verifier::external_type_specification]
#[verifier::external_body]
#[verifier::reject_recursive_types(T)]
pub struct ExReceiver<T>(tokio::sync::mpsc::Receiver<T>);

/// What became of a message.
pub enum Sent<T> {
    Done,
    /// The queue was full; the message comes back.
    Full(T),
    /// Nobody receives any more; the message comes back.
    Closed(T),
}

/// What a queue had to give.
pub enum Received<T> {
    Message(T),
    Empty,
    /// Nobody sends any more, and nothing is left.
    Disconnected,
}

/// The bytes of each packet.
pub open spec fn packets(held: Seq<Vec<u8>>) -> Seq<Seq<u8>> {
    held.map_values(|p: Vec<u8>| p@)
}

/// What a receiver knows of its queue.
#[verifier::ext_equal]
pub struct QueueView<T> {
    /// What it has handed out so far, in order.
    pub given: Seq<T>,
    /// What waited when it was made or last read from, oldest first. More may
    /// have come since, behind this.
    pub waiting: Seq<T>,
    /// Whether the last reading found that nobody sends any more and nothing is
    /// left.
    pub over: bool,
}

/// Whether one reading of a queue gave this message, or none, and found it over
/// or not: the oldest that waited comes, and the others wait behind it still.
/// None comes only where none waited.
pub open spec fn one_read<T>(
    was: QueueView<T>,
    now: QueueView<T>,
    message: Option<T>,
    over: bool,
) -> bool {
    &&& now.over == over
    &&& match message {
        Some(m) => {
            &&& now.given == was.given.push(m)
            &&& was.waiting.len() > 0 ==> m == was.waiting[0] && was.waiting.skip(1).is_prefix_of(
                now.waiting,
            )
        },
        None => now.given == was.given && was.waiting.len() == 0,
    }
}

/// Whether these messages were read from a queue, in order: all that left it and
/// no other, those that waited before any that came later.
pub open spec fn all_read<T>(was: QueueView<T>, now: QueueView<T>, taken: Seq<T>) -> bool {
    &&& now.given == was.given + taken
    &&& if taken.len() <= was.waiting.len() {
        &&& taken == was.waiting.take(taken.len() as int)
        &&& was.waiting.skip(taken.len() as int).is_prefix_of(now.waiting)
    } else {
        was.waiting.is_prefix_of(taken)
    }
}

pub(crate) proof fn nothing_read<T>(q: QueueView<T>)
    ensures
        all_read(q, q, Seq::empty()),
{
    assert(q.given + Seq::<T>::empty() =~= q.given);
    assert(q.waiting.take(0) =~= Seq::empty());
    assert(q.waiting.skip(0) =~= q.waiting);
}

pub(crate) proof fn one_more_read<T>(
    was: QueueView<T>,
    mid: QueueView<T>,
    now: QueueView<T>,
    taken: Seq<T>,
    m: T,
)
    requires
        all_read(was, mid, taken),
        one_read(mid, now, Some(m), false),
    ensures
        all_read(was, now, taken.push(m)),
{
    let n = taken.len() as int;
    assert(now.given =~= was.given + taken.push(m));
    if n < was.waiting.len() {
        let left = was.waiting.skip(n);
        assert(left[0] == mid.waiting[0]);
        assert(taken.push(m) =~= was.waiting.take(n + 1));
        assert(was.waiting.skip(n + 1) =~= left.skip(1));
        assert(left.skip(1).is_prefix_of(mid.waiting.skip(1)));
    } else {
        assert(was.waiting.is_prefix_of(taken)) by {
            if n == was.waiting.len() {
                assert(was.waiting.take(n) =~= was.waiting);
            }
        }
        assert(was.waiting.is_prefix_of(taken.push(m)));
    }
}

/// Once a reading gives nothing, everything that waited at the start has been
/// read.
pub(crate) proof fn all_that_waited_was_read<T>(
    was: QueueView<T>,
    mid: QueueView<T>,
    now: QueueView<T>,
    taken: Seq<T>,
)
    requires
        all_read(was, mid, taken),
        one_read(mid, now, None, now.over),
    ensures
        was.waiting.len() <= taken.len(),
        all_read(was, now, taken),
{
    if taken.len() <= was.waiting.len() {
        let left = was.waiting.skip(taken.len() as int);
        assert(left.len() == 0);
        assert(left.is_prefix_of(now.waiting));
    }
}

/// The packets that a handle has placed in its queue so far, in order.
pub uninterp spec fn packets_sent(tx: tokio::sync::mpsc::Sender<Vec<u8>>) -> Seq<Seq<u8>>;

/// The packets that a handle could not place so far, in order, each with whether
/// that was because nobody receives any more.
pub uninterp spec fn packets_refused(tx: tokio::sync::mpsc::Sender<Vec<u8>>) -> Seq<
    (Seq<u8>, bool),
>;

/// The queue of a receiver of packets.
pub uninterp spec fn packet_queue(rx: tokio::sync::mpsc::Receiver<Vec<u8>>) -> QueueView<Seq<u8>>;

/// The queue of a receiver of the applications' data.
pub uninterp spec fn data_queue(rx: tokio::sync::mpsc::Receiver<DataIn>) -> QueueView<DataView>;

/// The queue of a receiver of commands.
pub uninterp spec fn cmd_queue(rx: tokio::sync::mpsc::Receiver<(Cmd, u64)>) -> QueueView<
    (Cmd, u64),
>;

/// `tokio::sync::mpsc::Sender::try_send` of a packet: it is placed in the queue,
/// or it comes back as it was and nothing is placed. Which of the two depends on
/// the receiving task and on other handles of the queue, and is not stated.
#[verifier::external_body]
pub(crate) fn try_send_packet(
    to: &mut tokio::sync::mpsc::Sender<Vec<u8>>,
    packet: Vec<u8>,
) -> (r: Sent<Vec<u8>>)
    ensures
        r is Done ==> packets_sent(*final(to)) == packets_sent(*old(to)).push(packet@),
        r !is Done ==> packets_sent(*final(to)) == packets_sent(*old(to)),
        r is Done ==> packets_refused(*final(to)) == packets_refused(*old(to)),
        r !is Done ==> packets_refused(*final(to)) == packets_refused(*old(to)).push(
            (packet@, r is Closed),
        ),
        r matches Sent::Full(back) ==> back == packet,
        r matches Sent::Closed(back) ==> back == packet,
{
    match to.try_send(packet) {
        Ok(()) => Sent::Done,
        Err(tokio::sync::mpsc::error::TrySendError::Full(back)) => Sent::Full(back),
        Err(tokio::sync::mpsc::error::TrySendError::Closed(back)) => Sent::Closed(back),
    }
}

/// `tokio::sync::mpsc::Receiver::try_recv` on a queue of packets. Packets come
/// out in the order in which they were sent, each once. While one waits, the
/// oldest is what comes: the queue is never called empty or closed then. What
/// comes when none has waited depends on the sending tasks and is not stated.
#[verifier::external_body]
pub(crate) fn try_recv_packet(from: &mut tokio::sync::mpsc::Receiver<Vec<u8>>) -> (r: Received<
    Vec<u8>,
>)
    ensures
        one_read(
            packet_queue(*old(from)),
            packet_queue(*final(from)),
            match r {
                Received::Message(packet) => Some(packet@),
                _ => None,
            },
            r is Disconnected,
        ),
{
    match from.try_recv() {
        Ok(packet) => Received::Message(packet),
        Err(tokio::sync::mpsc::error::TryRecvError::Empty) => Received::Empty,
        Err(tokio::sync::mpsc::error::TryRecvError::Disconnected) => Received::Disconnected,
    }
}

/// `tokio::sync::mpsc::Receiver::try_recv` on the queue of the applications'
/// data, with the same order and the same promise of what waits.
#[verifier::external_body]
pub(crate) fn try_recv_data(from: &mut tokio::sync::mpsc::Receiver<DataIn>) -> (r: Received<DataIn>)
    ensures
        one_read(
            data_queue(*old(from)),
            data_queue(*final(from)),
            match r {
                Received::Message(data) => Some(data@),
                _ => None,
            },
            r is Disconnected,
        ),
{
    match from.try_recv() {
        Ok(data) => Received::Message(data),
        Err(tokio::sync::mpsc::error::TryRecvError::Empty) => Received::Empty,
        Err(tokio::sync::mpsc::error::TryRecvError::Disconnected) => Received::Disconnected,
    }
}

/// `tokio::sync::mpsc::Receiver::try_recv` on the queue of commands, with the
/// same order and the same promise of what waits.
#[verifier::external_body]
pub(crate) fn try_recv_cmd(from: &mut tokio::sync::mpsc::Receiver<(Cmd, u64)>) -> (r: Received<
    (Cmd, u64),
>)
    ensures
        one_read(
            cmd_queue(*old(from)),
            cmd_queue(*final(from)),
            match r {
                Received::Message(cmd) => Some(cmd),
                _ => None,
            },
            r is Disconnected,
        ),
{
    match from.try_recv() {
        Ok(cmd) => Received::Message(cmd),
        Err(tokio::sync::mpsc::error::TryRecvError::Empty) => Received::Empty,
        Err(tokio::sync::mpsc::error::TryRecvError::Disconnected) => Received::Disconnected,
    }
}

} // verus!
