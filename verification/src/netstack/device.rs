//! The link between the stack and the tunnel: two packet queues with a bound on
//! what the stack may have waiting.

use std::collections::VecDeque;
use vstd::prelude::*;

use crate::channel::{try_send_packet, Sent};
#[allow(unused_imports)]
use crate::channel::{packets, packets_refused, packets_sent};

verus! {

/// Packets the stack may have waiting before the link refuses more of its own.
pub const MAX_DEVICE_TX: usize = 64;

/// Packets that may wait at all before the oldest are shed.
pub const MAX_DEVICE_TX_HARD: usize = 256;

/// The link. It refuses to transmit while [`MAX_DEVICE_TX`] packets wait, so
/// that the congestion controller sees the queue; what is received can always
/// be answered.
pub struct StackDevice {
    pub rx: VecDeque<Vec<u8>>,
    pub tx: VecDeque<Vec<u8>>,
    pub mtu: usize,
    /// How often a transmission was refused because the queue was full.
    pub tx_stalls: usize,
    /// Packets shed at the hard ceiling.
    pub tx_shed: usize,
    /// The longest the queue has been since it was last reported.
    pub tx_peak: usize,
}

/// One received packet.
pub struct StackRxToken(pub Vec<u8>);

/// The right to queue one packet.
pub struct StackTxToken<'a>(pub &'a mut VecDeque<Vec<u8>>);

/// What became of one packet that was offered to the writer.
#[derive(Clone, Copy, Debug, PartialEq, Eq, Structural)]
pub enum Offer {
    /// It went out; the next may follow.
    Next,
    /// It is held back, and so many of the oldest were dropped for it.
    Held(usize),
    /// It is lost with the writer.
    Lost,
}

/// How the emptying of the outbound queue ended.
pub enum FlushEnd {
    /// Every packet went out.
    Drained,
    /// The writer was full: the rest is held back.
    Full,
    /// The writer is gone: the packet it was offered is lost, the rest stays.
    Closed,
}

/// The excess of a queue of this length over the hard ceiling.
pub open spec fn excess(len: nat) -> nat {
    if len > MAX_DEVICE_TX_HARD {
        (len - MAX_DEVICE_TX_HARD) as nat
    } else {
        0
    }
}

/// `a + b`, and the largest `usize` where that does not fit.
pub open spec fn capped_sum(a: usize, b: usize) -> usize {
    if a + b <= usize::MAX {
        (a + b) as usize
    } else {
        usize::MAX
    }
}

/// The refusal with which the emptying of the outbound queue ended, if it did.
pub open spec fn refusal(tx: Seq<Vec<u8>>, sent: nat, end: FlushEnd) -> Seq<(Seq<u8>, bool)> {
    match end {
        FlushEnd::Drained => Seq::empty(),
        FlushEnd::Full => seq![(tx[sent as int]@, false)],
        FlushEnd::Closed => seq![(tx[sent as int]@, true)],
    }
}

/// Whether emptying the outbound queue took the device from `was` to `now`:
/// the first `sent` packets went out in order, and of the others
/// - none is left,
/// - all are held back in order but for the oldest over the hard ceiling, which
///   are dropped and counted, or
/// - one is lost with the writer.
pub open spec fn flushed(
    was: StackDevice,
    now: StackDevice,
    sent: nat,
    end: FlushEnd,
    dropped: usize,
    retained: bool,
) -> bool {
    let left = was.tx@.skip(sent as int);
    &&& sent <= was.tx@.len()
    &&& now.rx == was.rx
    &&& now.mtu == was.mtu
    &&& now.tx_stalls == was.tx_stalls
    &&& now.tx_peak == (if was.tx@.len() > was.tx_peak {
        was.tx@.len() as usize
    } else {
        was.tx_peak
    })
    &&& now.tx_shed == capped_sum(was.tx_shed, dropped)
    &&& match end {
        FlushEnd::Drained => sent == was.tx@.len() && now.tx@ == left && dropped == 0 && !retained,
        FlushEnd::Full => left.len() > 0 && dropped == excess(left.len()) && now.tx@ == left.skip(
            dropped as int,
        ) && retained,
        FlushEnd::Closed => left.len() > 0 && now.tx@ == left.skip(1) && dropped == 0
            && !retained,
    }
}

impl StackRxToken {
    pub fn packet(&self) -> (r: &Vec<u8>)
        ensures
            r@ == self.0@,
    {
        &self.0
    }
}

impl<'a> StackTxToken<'a> {
    /// The blank packet to be filled in.
    pub fn blank(len: usize) -> (r: Vec<u8>)
        ensures
            r@ == Seq::new(len as nat, |i: int| 0u8),
    {
        let mut v: Vec<u8> = Vec::new();
        v.resize(len, 0);
        assert(v@ =~= Seq::new(len as nat, |i: int| 0u8));
        v
    }

    /// Queues the packet behind the others.
    pub fn queue(self, packet: Vec<u8>)
        ensures
            final(self.0)@ == old(self.0)@.push(packet),
    {
        self.0.push_back(packet);
    }
}

impl StackDevice {
    pub fn new(mtu: usize) -> (r: Self)
        ensures
            r.rx@.len() == 0,
            r.tx@.len() == 0,
            r.mtu == mtu,
            r.tx_stalls == 0,
            r.tx_shed == 0,
            r.tx_peak == 0,
    {
        StackDevice {
            rx: VecDeque::new(),
            tx: VecDeque::new(),
            mtu,
            tx_stalls: 0,
            tx_shed: 0,
            tx_peak: 0,
        }
    }

    /// The oldest received packet, with the right to answer it whatever waits.
    pub fn receive(&mut self) -> (r: Option<(StackRxToken, StackTxToken<'_>)>)
        ensures
            r is None <==> old(self).rx@.len() == 0,
            r is None ==> *final(self) == *old(self),
            r matches Some((packet, token)) ==> {
                &&& packet.0 == old(self).rx@[0]
                &&& token.0@ == old(self).tx@
                &&& final(self).rx@ == old(self).rx@.skip(1)
                &&& final(self).tx == *final(token.0)
                &&& final(self).mtu == old(self).mtu
                &&& final(self).tx_stalls == old(self).tx_stalls
                &&& final(self).tx_shed == old(self).tx_shed
                &&& final(self).tx_peak == old(self).tx_peak
            },
    {
        if self.rx.len() == 0 {
            return None;
        }
        match self.rx.pop_front() {
            None => None,
            Some(packet) => Some((StackRxToken(packet), StackTxToken(&mut self.tx))),
        }
    }

    /// The right to queue one packet, refused while [`MAX_DEVICE_TX`] wait.
    pub fn transmit(&mut self) -> (r: Option<StackTxToken<'_>>)
        ensures
            r is None <==> old(self).tx@.len() >= MAX_DEVICE_TX,
            r is None <==> old(self).tx@.len() >= 64,
            r is None ==> *final(self) == (StackDevice {
                tx_stalls: if old(self).tx_stalls < usize::MAX {
                    (old(self).tx_stalls + 1) as usize
                } else {
                    usize::MAX
                },
                ..*old(self)
            }),
            r matches Some(token) ==> {
                &&& token.0@ == old(self).tx@
                &&& *final(self) == (StackDevice { tx: *final(token.0), ..*old(self) })
            },
    {
        if self.tx.len() >= MAX_DEVICE_TX {
            self.tx_stalls = self.tx_stalls.saturating_add(1);
            return None;
        }
        Some(StackTxToken(&mut self.tx))
    }

    /// Puts back a packet the writer had no room for. Only past the hard
    /// ceiling are packets shed, and then the whole excess at once, oldest
    /// first. Returns how many.
    pub fn hold(&mut self, packet: Vec<u8>) -> (dropped: usize)
        requires
            old(self).tx@.len() < usize::MAX,
        ensures
            dropped == excess(old(self).tx@.len() + 1),
            final(self).tx@ == (seq![packet] + old(self).tx@).skip(dropped as int),
            final(self).rx == old(self).rx,
            final(self).mtu == old(self).mtu,
            final(self).tx_stalls == old(self).tx_stalls,
            final(self).tx_peak == old(self).tx_peak,
            final(self).tx_shed == capped_sum(old(self).tx_shed, dropped),
    {
        let ghost held = seq![packet] + self.tx@;
        self.tx.push_front(packet);
        assert(self.tx@ =~= held);
        let over: usize = if self.tx.len() > MAX_DEVICE_TX_HARD {
            self.tx.len() - MAX_DEVICE_TX_HARD
        } else {
            0
        };
        let mut dropped: usize = 0;
        assert(held.skip(0) =~= held);
        while dropped < over
            invariant
                dropped <= over <= held.len(),
                self.tx@ == held.skip(dropped as int),
                self.rx == old(self).rx,
                self.mtu == old(self).mtu,
                self.tx_stalls == old(self).tx_stalls,
                self.tx_peak == old(self).tx_peak,
                self.tx_shed == old(self).tx_shed,
            decreases over - dropped,
        {
            let _ = self.tx.pop_front();
            dropped = dropped + 1;
            assert(self.tx@ =~= held.skip(dropped as int));
        }
        self.tx_shed = self.tx_shed.saturating_add(dropped);
        dropped
    }

    /// Deals with a packet that was taken from the queue and offered to the
    /// writer, once that is decided: one that the writer had no room for goes
    /// back, and one that it could not take any more is lost.
    pub fn after_offer(&mut self, outcome: Sent<Vec<u8>>) -> (r: Offer)
        requires
            old(self).tx@.len() < usize::MAX,
        ensures
            match outcome {
                Sent::Done => r is Next && *final(self) == *old(self),
                Sent::Closed(_) => r is Lost && *final(self) == *old(self),
                Sent::Full(packet) => r matches Offer::Held(dropped) && {
                    &&& dropped == excess(old(self).tx@.len() + 1)
                    &&& final(self).tx@ == (seq![packet] + old(self).tx@).skip(dropped as int)
                    &&& final(self).rx == old(self).rx
                    &&& final(self).mtu == old(self).mtu
                    &&& final(self).tx_stalls == old(self).tx_stalls
                    &&& final(self).tx_peak == old(self).tx_peak
                    &&& final(self).tx_shed == capped_sum(old(self).tx_shed, dropped)
                },
            },
    {
        match outcome {
            Sent::Done => Offer::Next,
            Sent::Full(packet) => Offer::Held(self.hold(packet)),
            Sent::Closed(_) => Offer::Lost,
        }
    }

    /// Moves what the stack produced to the writer, and returns how many
    /// packets were dropped and whether any is held back.
    pub fn flush_tx(&mut self, writer: &mut tokio::sync::mpsc::Sender<Vec<u8>>) -> (r: (usize, bool))
        ensures
            exists|sent: nat, end: FlushEnd|
                {
                    &&& #[trigger] flushed(*old(self), *final(self), sent, end, r.0, r.1)
                    &&& packets_sent(*final(writer)) == packets_sent(*old(writer)) + packets(
                        old(self).tx@.take(sent as int),
                    )
                    &&& packets_refused(*final(writer)) == packets_refused(*old(writer))
                        + refusal(old(self).tx@, sent, end)
                },
    {
        if self.tx.len() > self.tx_peak {
            self.tx_peak = self.tx.len();
        }
        let mut dropped: usize = 0;
        let mut retained = false;
        let mut going = true;
        let ghost mut sent: nat = 0;
        let ghost mut end = FlushEnd::Drained;
        let ghost was = old(self).tx@;
        let ghost before = packets_sent(*writer);
        let ghost refused = packets_refused(*writer);
        proof {
            assert(refused + refusal(was, 0, end) =~= refused);
            assert(was.skip(0) =~= was);
            assert(before + packets(was.take(0)) =~= before);
        }
        while going
            invariant
                was == old(self).tx@,
                before == packets_sent(*old(writer)),
                refused == packets_refused(*old(writer)),
                packets_refused(*writer) == refused + refusal(was, sent, end),
                packets_sent(*writer) == before + packets(was.take(sent as int)),
                was.len() <= usize::MAX,
                sent <= was.len(),
                going ==> {
                    &&& self.tx@ == was.skip(sent as int)
                    &&& self.rx == old(self).rx
                    &&& self.mtu == old(self).mtu
                    &&& self.tx_stalls == old(self).tx_stalls
                    &&& self.tx_shed == old(self).tx_shed
                    &&& self.tx_peak == (if was.len() > old(self).tx_peak {
                        was.len() as usize
                    } else {
                        old(self).tx_peak
                    })
                    &&& dropped == 0
                    &&& !retained
                    &&& end is Drained
                },
                !going ==> flushed(*old(self), *self, sent, end, dropped, retained),
            decreases
                was.len() - sent,
                if going {
                    1int
                } else {
                    0int
                },
        {
            match self.tx.pop_front() {
                None => {
                    going = false;
                },
                Some(packet) => {
                    let ghost left = was.skip(sent as int);
                    assert(self.tx@ =~= left.skip(1));
                    assert(seq![packet] + self.tx@ =~= left);
                    let ghost p = packet@;
                    let outcome = try_send_packet(writer, packet);
                    match self.after_offer(outcome) {
                        Offer::Next => {
                            proof {
                                assert(packets(was.take(sent as int + 1)) =~= packets(
                                    was.take(sent as int),
                                ).push(p));
                                assert(packets_sent(*writer) =~= before + packets(
                                    was.take(sent as int + 1),
                                ));
                                sent = sent + 1;
                                assert(refused + refusal(was, sent, end) =~= refused);
                            }
                            assert(self.tx@ =~= was.skip(sent as int));
                        },
                        Offer::Held(n) => {
                            dropped = n;
                            retained = true;
                            going = false;
                            proof {
                                assert(refused + refusal(was, sent, end) =~= refused);
                                end = FlushEnd::Full;
                                assert(refused + refusal(was, sent, end) =~= refused.push(
                                    (p, false),
                                ));
                            }
                        },
                        Offer::Lost => {
                            going = false;
                            proof {
                                assert(refused + refusal(was, sent, end) =~= refused);
                                end = FlushEnd::Closed;
                                assert(refused + refusal(was, sent, end) =~= refused.push(
                                    (p, true),
                                ));
                            }
                        },
                    }
                },
            }
        }
        let r = (dropped, retained);
        assert(packets_sent(*final(writer)) == before + packets(was.take(sent as int)));
        assert(packets_refused(*final(writer)) == refused + refusal(was, sent, end));
        assert(flushed(*old(self), *final(self), sent, end, r.0, r.1));
        r
    }
}

/// While the writer lives, a burst that fits under the hard ceiling is held back
/// whole: no packet of it is dropped.
pub proof fn short_bursts_are_held_back(
    was: StackDevice,
    now: StackDevice,
    sent: nat,
    end: FlushEnd,
    dropped: usize,
    retained: bool,
)
    requires
        flushed(was, now, sent, end, dropped, retained),
        !(end is Closed),
        was.tx@.len() <= MAX_DEVICE_TX_HARD,
    ensures
        dropped == 0,
        now.tx@ == was.tx@.skip(sent as int),
        retained == (sent < was.tx@.len()),
        now.tx_shed == was.tx_shed,
{
    let left = was.tx@.skip(sent as int);
    assert(left.skip(0) =~= left);
}

/// What waits after a flush waits in the order in which it was queued, the
/// newest packets without a gap, and no more of it than the hard ceiling; every
/// packet that neither went out nor waits is counted as dropped.
pub proof fn the_newest_wait_in_order(
    was: StackDevice,
    now: StackDevice,
    sent: nat,
    end: FlushEnd,
    dropped: usize,
    retained: bool,
)
    requires
        flushed(was, now, sent, end, dropped, retained),
        !(end is Closed),
    ensures
        now.tx@.len() <= MAX_DEVICE_TX_HARD,
        now.tx@ == was.tx@.skip(was.tx@.len() - now.tx@.len()),
        sent + dropped + now.tx@.len() == was.tx@.len(),
{
    assert(now.tx@ =~= was.tx@.skip(was.tx@.len() - now.tx@.len()));
}

/// The link takes what the stack sends while fewer than 64 packets wait, and no
/// more than 256 are ever held back.
pub proof fn the_link_is_short(
    was: StackDevice,
    now: StackDevice,
    sent: nat,
    end: FlushEnd,
    dropped: usize,
    retained: bool,
)
    requires
        flushed(was, now, sent, end, dropped, retained),
        end is Full,
    ensures
        MAX_DEVICE_TX == 64,
        was.tx@.len() - sent <= 256 ==> dropped == 0 && now.tx@.len() == was.tx@.len() - sent,
        was.tx@.len() - sent > 256 ==> now.tx@.len() == 256 && dropped == was.tx@.len() - sent
            - 256,
        retained,
{
}

/// A flush that was not held up empties the queue, and one whose writer is gone
/// loses the one packet that it was offered.
pub proof fn a_flush_sends_what_it_can(
    was: StackDevice,
    now: StackDevice,
    sent: nat,
    end: FlushEnd,
    dropped: usize,
    retained: bool,
)
    requires
        flushed(was, now, sent, end, dropped, retained),
        was.tx@.len() <= usize::MAX,
    ensures
        end is Drained <==> sent == was.tx@.len(),
        end is Drained ==> now.tx@.len() == 0 && dropped == 0,
        end is Closed ==> now.tx@.len() + sent + 1 == was.tx@.len() && dropped == 0,
        retained <==> end is Full,
        now.rx@ == was.rx@,
        now.tx_peak >= was.tx_peak,
        now.tx_peak >= was.tx@.len(),
        now.tx_peak == was.tx_peak || now.tx_peak == was.tx@.len(),
        was.tx_shed + dropped <= usize::MAX ==> now.tx_shed == was.tx_shed + dropped,
{
}

/// A count that can grow no further stays where it is, and never falls.
pub proof fn capped_counts_never_fall(a: usize, b: usize)
    ensures
        capped_sum(a, b) >= a,
        capped_sum(a, b) >= b,
        a + b <= usize::MAX ==> capped_sum(a, b) == a + b,
        a + b > usize::MAX ==> capped_sum(a, b) == usize::MAX,
{
}

/// The writer refuses one packet at most on a flush: the first that did not go
/// out, and none where all of them did.
pub proof fn one_packet_is_refused_at_most(tx: Seq<Vec<u8>>, sent: nat, end: FlushEnd)
    ensures
        end is Drained <==> refusal(tx, sent, end).len() == 0,
        !(end is Drained) ==> refusal(tx, sent, end).len() == 1 && refusal(tx, sent, end)[0].0
            == tx[sent as int]@ && (refusal(tx, sent, end)[0].1 <==> end is Closed),
{
}

} // verus!
