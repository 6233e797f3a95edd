//! One Noise session with a peer, kept by `boringtun`.

use vstd::prelude::*;

use super::packet::{inject_client_id, strip_client_id};
#[allow(unused_imports)]
use super::packet::{is_plain, marked, no_mark};

verus! {

/// The size of the buffers that packets pass through.
pub const MAX_PACKET: usize = 65536;

/// What a session adds to a packet.
pub const DATA_OVERHEAD: usize = 32;

/// The keepalive of a session that asks for none of its own, in seconds.
pub const DEFAULT_KEEPALIVE: u16 = 25;

/// How many packets a session keeps while it has no keys.
pub const QUEUE_DEPTH: usize = 256;

#[verifier::external_type_specification]
#[verifier::external_body]
pub struct ExTunn(boringtun::noise::Tunn);

#[verifier::external_type_specification]
#[verifier::external_body]
pub struct ExWireGuardError(boringtun::noise::errors::WireGuardError);

/// Everything needed to make a session, or a replacement for one, with the same
/// peer.
#[derive(Clone, Copy, Debug, PartialEq, Eq)]
pub struct SessionKeys {
    pub private_key: [u8; 32],
    pub peer_public: [u8; 32],
    pub preshared: Option<[u8; 32]>,
    pub keepalive: u16,
}

/// What a session is made with. It need not ask for a keepalive.
#[derive(Clone, Copy, Debug, PartialEq, Eq)]
pub struct Setup {
    pub private_key: [u8; 32],
    pub peer_public: [u8; 32],
    pub preshared: Option<[u8; 32]>,
    pub keepalive: Option<u16>,
}

/// What a session holds.
#[verifier::ext_equal]
pub struct TunnView {
    /// What it was made with.
    pub setup: Setup,
    /// The packets that wait for keys, oldest first.
    pub queue: Seq<Seq<u8>>,
    /// Whether it has keys to seal packets with.
    pub live: bool,
    /// Whether a handshake is under way.
    pub handshaking: bool,
    /// The packets it was given and has sealed, in order. What it sends of its
    /// own is not among them.
    pub sealed: Seq<Seq<u8>>,
    /// The datagrams it was handed, in order.
    pub heard: Seq<Seq<u8>>,
}

/// What a session holds.
pub uninterp spec fn tunn_of(t: boringtun::noise::Tunn) -> TunnView;

/// What a session has given so far.
#[verifier::ext_equal]
pub struct GivenView {
    /// The messages to be sent to the peer, in order.
    pub said: Seq<Seq<u8>>,
    /// The packets to be handed to the stack, in order.
    pub opened: Seq<Seq<u8>>,
    /// How often it refused.
    pub refused: nat,
}

/// What a session has given so far.
pub uninterp spec fn given_by(t: boringtun::noise::Tunn) -> GivenView;

/// What a session has given that was just made.
pub open spec fn nothing_given() -> GivenView {
    GivenView { said: Seq::empty(), opened: Seq::empty(), refused: 0 }
}

/// Whether every packet that waits can be sealed into a buffer.
pub open spec fn fits(v: TunnView) -> bool {
    forall|i: int|
        0 <= i < v.queue.len() ==> (#[trigger] v.queue[i]).len() + DATA_OVERHEAD <= MAX_PACKET
}

/// What a session made of a packet.
pub enum Outcome {
    /// Nothing is to be sent.
    Done,
    /// It was refused.
    Refused(boringtun::noise::errors::WireGuardError),
    /// To be sent to the peer.
    Network(Vec<u8>),
    /// To be handed to the stack.
    Tunnel(Vec<u8>),
}

/// Whether a session gave this outcome, and nothing else.
pub open spec fn gave(was: GivenView, now: GivenView, r: Outcome) -> bool {
    now == match r {
        Outcome::Done => was,
        Outcome::Refused(_) => GivenView { refused: was.refused + 1, ..was },
        Outcome::Network(p) => GivenView { said: was.said.push(p@), ..was },
        Outcome::Tunnel(p) => GivenView { opened: was.opened.push(p@), ..was },
    }
}

/// Whether what a session gave to be sent is sent: every message once, in order
/// and marked for the client, and no other.
pub open spec fn all_passed_on(
    said: Seq<Seq<u8>>,
    said_after: Seq<Seq<u8>>,
    sent: Seq<Vec<u8>>,
    mark: Seq<u8>,
) -> bool {
    &&& said_after.len() == said.len() + sent.len()
    &&& said.is_prefix_of(said_after)
    &&& forall|i: int|
        0 <= i < sent.len() ==> (#[trigger] sent[i])@ == marked(said_after[said.len() + i], mark)
}

pub(crate) proof fn one_more_passed_on(
    said: Seq<Seq<u8>>,
    said_mid: Seq<Seq<u8>>,
    sent: Seq<Vec<u8>>,
    plain: Seq<u8>,
    p: Vec<u8>,
    mark: Seq<u8>,
)
    requires
        all_passed_on(said, said_mid, sent, mark),
        p@ == marked(plain, mark),
    ensures
        all_passed_on(said, said_mid.push(plain), sent.push(p), mark),
{
    let after = said_mid.push(plain);
    assert forall|i: int| 0 <= i < sent.push(p).len() implies (#[trigger] sent.push(p)[i])@
        == marked(after[said.len() + i], mark) by {
        if i < sent.len() {
            assert(sent.push(p)[i] == sent[i]);
        }
    }
}

/// A message that starts a handshake.
pub open spec fn is_initiation(p: Seq<u8>) -> bool {
    is_plain(p) && p[0] == 1 && p.len() == 148
}

/// A message that carries a packet of this length.
pub open spec fn carries(p: Seq<u8>, len: nat) -> bool {
    is_plain(p) && p[0] == 4 && p.len() == len + DATA_OVERHEAD
}

/// `boringtun::noise::Tunn::new`: a session without keys that has queued
/// nothing, started nothing, sealed nothing and heard nothing.
#[verifier::external_body]
fn new_tunn(setup: &Setup) -> (t: boringtun::noise::Tunn)
    ensures
        tunn_of(t) == unused(*setup),
        given_by(t) == nothing_given(),
{
    boringtun::noise::Tunn::new(
        boringtun::x25519::StaticSecret::from(setup.private_key),
        boringtun::x25519::PublicKey::from(setup.peer_public),
        setup.preshared,
        setup.keepalive,
        0,
        None,
    )
}

/// What sealing a packet does to a session: with keys it is sealed; without, it
/// waits where there is room, and a handshake is under way.
pub open spec fn after_encapsulate(v: TunnView, src: Seq<u8>) -> TunnView {
    if v.live {
        TunnView { sealed: v.sealed.push(src), ..v }
    } else {
        TunnView {
            queue: if v.queue.len() < QUEUE_DEPTH {
                v.queue.push(src)
            } else {
                v.queue
            },
            handshaking: true,
            ..v
        }
    }
}

/// What sealing a packet gives: the sealed packet with keys, the start of a
/// handshake without, and nothing while one is under way.
pub open spec fn encapsulated(v: TunnView, src: Seq<u8>, r: Outcome) -> bool {
    if v.live {
        r matches Outcome::Network(p) && carries(p@, src.len())
    } else if v.handshaking {
        r is Done
    } else {
        r matches Outcome::Network(p) && is_initiation(p@)
    }
}

/// `boringtun::noise::Tunn::encapsulate` into a buffer that is large enough for
/// any packet it is given. With keys that packet is what is sealed. What the
/// sealed bytes are depends on keys drawn by chance and is not stated.
#[verifier::external_body]
pub(crate) fn encapsulate(t: &mut boringtun::noise::Tunn, src: &[u8], scratch: &mut Vec<u8>) -> (r:
    Outcome)
    requires
        src@.len() + DATA_OVERHEAD <= MAX_PACKET,
        old(scratch)@.len() == MAX_PACKET,
    ensures
        final(scratch)@.len() == MAX_PACKET,
        tunn_of(*final(t)) == after_encapsulate(tunn_of(*old(t)), src@),
        encapsulated(tunn_of(*old(t)), src@, r),
        gave(given_by(*old(t)), given_by(*final(t)), r),
{
    match t.encapsulate(src, scratch) {
        boringtun::noise::TunnResult::Done => Outcome::Done,
        boringtun::noise::TunnResult::Err(e) => Outcome::Refused(e),
        boringtun::noise::TunnResult::WriteToNetwork(p) => Outcome::Network(p.to_vec()),
        boringtun::noise::TunnResult::WriteToTunnelV4(p, _) => Outcome::Tunnel(p.to_vec()),
        boringtun::noise::TunnResult::WriteToTunnelV6(p, _) => Outcome::Tunnel(p.to_vec()),
    }
}

/// What asking for a waiting packet does to a session: the oldest leaves the
/// queue when it can be sealed, else it goes to the end.
pub open spec fn after_flush_one(v: TunnView) -> TunnView {
    if v.queue.len() == 0 {
        v
    } else if v.live {
        TunnView { queue: v.queue.skip(1), sealed: v.sealed.push(v.queue[0]), ..v }
    } else {
        TunnView { queue: v.queue.skip(1).push(v.queue[0]), handshaking: true, ..v }
    }
}

/// What asking for a waiting packet gives.
pub open spec fn flushed_one(v: TunnView, r: Outcome) -> bool {
    if v.queue.len() == 0 {
        r is Done
    } else {
        encapsulated(v, v.queue[0], r)
    }
}

/// Whether a session was handed this datagram: it keeps what waits, and seals
/// none of it.
pub open spec fn datagram_heard(was: TunnView, now: TunnView, datagram: Seq<u8>) -> bool {
    &&& now.setup == was.setup
    &&& now.queue == was.queue
    &&& now.sealed == was.sealed
    &&& now.heard == was.heard.push(datagram)
}

/// `boringtun::noise::Tunn::decapsulate`. An empty datagram asks for a waiting
/// packet. Any other is handed to the session as it is. What is found in it
/// depends on the peer and the clock; the waiting packets are kept, none of them
/// is sealed, a message to answer with is a plain one, and a packet to hand over
/// is no longer than the datagram. What the session was made with stays.
#[verifier::external_body]
pub(crate) fn decapsulate(
    t: &mut boringtun::noise::Tunn,
    datagram: &[u8],
    scratch: &mut Vec<u8>,
) -> (r: Outcome)
    requires
        datagram@.len() <= MAX_PACKET,
        fits(tunn_of(*old(t))),
        old(scratch)@.len() == MAX_PACKET,
    ensures
        final(scratch)@.len() == MAX_PACKET,
        tunn_of(*final(t)).setup == tunn_of(*old(t)).setup,
        datagram@.len() == 0 ==> tunn_of(*final(t)) == after_flush_one(tunn_of(*old(t)))
            && flushed_one(tunn_of(*old(t)), r),
        datagram@.len() > 0 ==> datagram_heard(tunn_of(*old(t)), tunn_of(*final(t)), datagram@),
        r matches Outcome::Network(p) ==> is_plain(p@),
        r matches Outcome::Tunnel(p) ==> p@.len() <= datagram@.len(),
        gave(given_by(*old(t)), given_by(*final(t)), r),
{
    match t.decapsulate(None, datagram, scratch) {
        boringtun::noise::TunnResult::Done => Outcome::Done,
        boringtun::noise::TunnResult::Err(e) => Outcome::Refused(e),
        boringtun::noise::TunnResult::WriteToNetwork(p) => Outcome::Network(p.to_vec()),
        boringtun::noise::TunnResult::WriteToTunnelV4(p, _) => Outcome::Tunnel(p.to_vec()),
        boringtun::noise::TunnResult::WriteToTunnelV6(p, _) => Outcome::Tunnel(p.to_vec()),
    }
}

/// Whether a look at the timers can have taken a session from one state to the
/// other with this outcome: nothing is handed over, a message to send is a plain
/// one, and the waiting packets are kept, all dropped, or kept with an empty one
/// behind them.
pub open spec fn timers_looked_at(was: TunnView, now: TunnView, r: Outcome) -> bool {
    &&& r !is Tunnel
    &&& r matches Outcome::Network(p) ==> is_plain(p@)
    &&& now.setup == was.setup
    &&& now.sealed == was.sealed
    &&& now.heard == was.heard
    &&& now.queue == was.queue || now.queue.len() == 0 || now.queue == was.queue.push(Seq::empty())
}

/// `boringtun::noise::Tunn::update_timers`. What is due depends on the clock;
/// it never hands a packet over, a message it sends is a plain one, and the
/// waiting packets are kept, all dropped, or kept with an empty one behind
/// them.
#[verifier::external_body]
pub(crate) fn update_timers(t: &mut boringtun::noise::Tunn, scratch: &mut Vec<u8>) -> (r: Outcome)
    requires
        old(scratch)@.len() == MAX_PACKET,
    ensures
        final(scratch)@.len() == MAX_PACKET,
        timers_looked_at(tunn_of(*old(t)), tunn_of(*final(t)), r),
        gave(given_by(*old(t)), given_by(*final(t)), r),
{
    match t.update_timers(scratch) {
        boringtun::noise::TunnResult::Done => Outcome::Done,
        boringtun::noise::TunnResult::Err(e) => Outcome::Refused(e),
        boringtun::noise::TunnResult::WriteToNetwork(p) => Outcome::Network(p.to_vec()),
        boringtun::noise::TunnResult::WriteToTunnelV4(p, _) => Outcome::Tunnel(p.to_vec()),
        boringtun::noise::TunnResult::WriteToTunnelV6(p, _) => Outcome::Tunnel(p.to_vec()),
    }
}

/// A buffer for the session to work in.
pub fn scratch_buffer() -> (r: Vec<u8>)
    ensures
        r@.len() == MAX_PACKET,
{
    let mut v: Vec<u8> = Vec::new();
    v.resize(MAX_PACKET, 0);
    v
}

/// A session as it is made.
pub open spec fn unused(setup: Setup) -> TunnView {
    TunnView {
        setup,
        queue: Seq::empty(),
        live: false,
        handshaking: false,
        sealed: Seq::empty(),
        heard: Seq::empty(),
    }
}

/// What a session with these keys and this keepalive is made with.
pub open spec fn setup_of(keys: SessionKeys, keepalive: Option<u16>) -> Setup {
    Setup {
        private_key: keys.private_key,
        peer_public: keys.peer_public,
        preshared: keys.preshared,
        keepalive,
    }
}

/// A replacement for a session, as it is made: it always asks for a keepalive.
pub open spec fn fresh(keys: SessionKeys) -> TunnView {
    unused(setup_of(keys, Some(keys.keepalive)))
}

impl SessionKeys {
    /// What the sessions with a peer are made with.
    pub fn new(
        private_key: [u8; 32],
        peer_public: [u8; 32],
        preshared: Option<[u8; 32]>,
        keepalive: Option<u16>,
    ) -> (r: Self)
        ensures
            r == (SessionKeys {
                private_key,
                peer_public,
                preshared,
                keepalive: match keepalive {
                    Some(secs) => secs,
                    None => DEFAULT_KEEPALIVE,
                },
            }),
    {
        let keepalive: u16 = match keepalive {
            Some(secs) => secs,
            None => DEFAULT_KEEPALIVE,
        };
        SessionKeys { private_key, peer_public, preshared, keepalive }
    }

    /// Makes the first session of a tunnel, which asks for a keepalive only
    /// where it is told to.
    pub fn first_session(&self, keepalive: Option<u16>) -> (t: boringtun::noise::Tunn)
        ensures
            tunn_of(t) == unused(setup_of(*self, keepalive)),
            given_by(t) == nothing_given(),
            fits(tunn_of(t)),
    {
        let setup = Setup {
            private_key: self.private_key,
            peer_public: self.peer_public,
            preshared: self.preshared,
            keepalive,
        };
        new_tunn(&setup)
    }

    /// Makes a session with these keys.
    pub fn fresh_session(&self) -> (t: boringtun::noise::Tunn)
        ensures
            tunn_of(t) == fresh(*self),
            given_by(t) == nothing_given(),
            fits(tunn_of(t)),
    {
        self.first_session(Some(self.keepalive))
    }
}

/// What came of a datagram.
pub struct Taken {
    /// To be sent to the peer, in order.
    pub to_network: Vec<Vec<u8>>,
    /// To be handed to the stack.
    pub to_tunnel: Option<Vec<u8>>,
    /// Whether the datagram was a valid one.
    pub progressed: bool,
}

/// Whether the message is one the session sent, marked for the client.
pub open spec fn marked_message(p: Seq<u8>, mark: Seq<u8>) -> bool {
    exists|plain: Seq<u8>| is_plain(plain) && p == #[trigger] marked(plain, mark)
}

/// Whether the message carries a packet of this length, marked for the client.
pub open spec fn marked_data(p: Seq<u8>, len: nat, mark: Seq<u8>) -> bool {
    exists|plain: Seq<u8>| carries(plain, len) && p == #[trigger] marked(plain, mark)
}

/// Whether the message starts a handshake, marked for the client.
pub open spec fn marked_initiation(p: Seq<u8>, mark: Seq<u8>) -> bool {
    exists|plain: Seq<u8>| is_initiation(plain) && p == #[trigger] marked(plain, mark)
}

/// Whether sending every waiting packet that can be sent took the session from
/// `was` to `now` and gave these messages: with keys all of them in order, one
/// after the other; without, the start of a handshake if packets wait and none
/// is under way.
pub open spec fn queue_flushed(
    was: TunnView,
    now: TunnView,
    sent: Seq<Vec<u8>>,
    mark: Seq<u8>,
) -> bool {
    if was.queue.len() == 0 {
        now == was && sent.len() == 0
    } else if was.live {
        &&& now == (TunnView { queue: Seq::empty(), sealed: was.sealed + was.queue, ..was })
        &&& sent.len() == was.queue.len()
        &&& forall|i: int|
            0 <= i < sent.len() ==> marked_data((#[trigger] sent[i])@, was.queue[i].len(), mark)
    } else {
        &&& now.setup == was.setup
        &&& now.sealed == was.sealed
        &&& now.heard == was.heard
        &&& !now.live
        &&& now.handshaking
        &&& now.queue.to_multiset() == was.queue.to_multiset()
        &&& if was.handshaking {
            sent.len() == 0
        } else {
            sent.len() == 1 && marked_initiation(sent[0]@, mark)
        }
    }
}

/// Sends every waiting packet that can be sent.
pub fn flush_queue(
    t: &mut boringtun::noise::Tunn,
    client_id: &[u8; 3],
    scratch: &mut Vec<u8>,
) -> (sent: Vec<Vec<u8>>)
    requires
        fits(tunn_of(*old(t))),
        old(scratch)@.len() == MAX_PACKET,
    ensures
        final(scratch)@.len() == MAX_PACKET,
        fits(tunn_of(*final(t))),
        queue_flushed(tunn_of(*old(t)), tunn_of(*final(t)), sent@, client_id@),
        all_passed_on(given_by(*old(t)).said, given_by(*final(t)).said, sent@, client_id@),
        given_by(*final(t)).opened == given_by(*old(t)).opened,
        given_by(*final(t)).refused == given_by(*old(t)).refused,
{
    let ghost was = tunn_of(*t);
    let none: [u8; 0] = [];
    let mut sent: Vec<Vec<u8>> = Vec::new();
    let mut going = true;
    proof {
        assert(was.queue.skip(0) =~= was.queue);
        assert(was.sealed + was.queue.take(0) =~= was.sealed);
    }
    while going
        invariant
            scratch@.len() == MAX_PACKET,
            was == tunn_of(*old(t)),
            fits(was),
            fits(tunn_of(*t)),
            tunn_of(*t).setup == was.setup,
            tunn_of(*t).live == was.live,
            all_passed_on(given_by(*old(t)).said, given_by(*t).said, sent@, client_id@),
            given_by(*t).opened == given_by(*old(t)).opened,
            given_by(*t).refused == given_by(*old(t)).refused,
            was.live ==> {
                &&& sent@.len() <= was.queue.len()
                &&& tunn_of(*t) == (TunnView {
                    queue: was.queue.skip(sent@.len() as int),
                    sealed: was.sealed + was.queue.take(sent@.len() as int),
                    ..was
                })
                &&& forall|i: int|
                    0 <= i < sent@.len() ==> marked_data(
                        (#[trigger] sent@[i])@,
                        was.queue[i].len(),
                        client_id@,
                    )
                &&& !going ==> sent@.len() == was.queue.len()
            },
            !was.live ==> {
                &&& tunn_of(*t).sealed == was.sealed
                &&& tunn_of(*t).heard == was.heard
                &&& tunn_of(*t).queue.len() == was.queue.len()
                &&& tunn_of(*t).queue.to_multiset() == was.queue.to_multiset()
                &&& was.queue.len() == 0 ==> tunn_of(*t) == was && sent@.len() == 0
                &&& was.handshaking ==> tunn_of(*t).handshaking && sent@.len() == 0
                &&& !was.handshaking && going ==> (tunn_of(*t).handshaking <==> sent@.len() == 1)
                &&& sent@.len() <= 1
                &&& sent@.len() == 1 ==> marked_initiation(sent@[0]@, client_id@)
                &&& !going && was.queue.len() > 0 ==> tunn_of(*t).handshaking && (
                !was.handshaking ==> sent@.len() == 1)
            },
        decreases
            if going {
                1int
            } else {
                0int
            },
            tunn_of(*t).queue.len() + if tunn_of(*t).handshaking {
                0nat
            } else {
                1nat
            },
    {
        let ghost mid = tunn_of(*t);
        let ghost n = sent@.len() as int;
        let ghost before = sent@;
        let ghost said = given_by(*t).said;
        match decapsulate(t, none.as_slice(), scratch) {
            Outcome::Network(p) => {
                let ghost plain = p@;
                let mut p = p;
                inject_client_id(&mut p, client_id);
                sent.push(p);
                proof {
                    assert(p@ == marked(plain, client_id@));
                    one_more_passed_on(given_by(*old(t)).said, said, before, plain, p, client_id@);
                    if was.live {
                        assert(mid.queue[0] == was.queue[n]);
                        assert(mid.queue.skip(1) =~= was.queue.skip(n + 1));
                        assert(mid.sealed.push(was.queue[n]) =~= was.sealed + was.queue.take(
                            n + 1,
                        ));
                        assert(marked_data(p@, was.queue[n].len(), client_id@));
                        assert forall|i: int| 0 <= i < sent@.len() implies marked_data(
                            (#[trigger] sent@[i])@,
                            was.queue[i].len(),
                            client_id@,
                        ) by {
                            if i < n {
                                assert(sent@[i] == before[i]);
                            }
                        }
                    } else {
                        rotation_keeps_all(mid.queue);
                        assert(marked_initiation(p@, client_id@));
                    }
                    fits_after_flush(mid);
                }
            },
            _ => {
                going = false;
                proof {
                    if !was.live && was.queue.len() > 0 {
                        rotation_keeps_all(mid.queue);
                    }
                    fits_after_flush(mid);
                }
            },
        }
    }
    proof {
        if was.live {
            assert(was.queue.skip(was.queue.len() as int) =~= Seq::empty());
            assert(was.queue.take(was.queue.len() as int) =~= was.queue);
        }
    }
    sent
}

pub(crate) proof fn fits_after_flush(v: TunnView)
    requires
        fits(v),
    ensures
        fits(after_flush_one(v)),
{
}

/// Moving the first to the end keeps every packet.
proof fn rotation_keeps_all(q: Seq<Seq<u8>>)
    requires
        q.len() > 0,
    ensures
        q.skip(1).push(q[0]).to_multiset() == q.to_multiset(),
        q.skip(1).push(q[0]).len() == q.len(),
{
    broadcast use vstd::seq_lib::group_to_multiset_ensures;

    assert(q =~= seq![q[0]] + q.skip(1));
    vstd::seq_lib::lemma_multiset_commutative(seq![q[0]], q.skip(1));
    vstd::seq_lib::lemma_multiset_commutative(q.skip(1), seq![q[0]]);
    assert(q.skip(1).push(q[0]) =~= q.skip(1) + seq![q[0]]);
}

/// Whether dealing with a datagram whose first outcome was `first` had this
/// result. A message to answer with comes first and what waited in the session
/// follows; a packet for the stack ends it, and a refused datagram is none.
pub open spec fn datagram_taken(
    after_first: TunnView,
    now: TunnView,
    first: Outcome,
    mark: Seq<u8>,
    r: Taken,
) -> bool {
    match first {
        Outcome::Done => now == after_first && r.progressed && r.to_network@.len() == 0
            && r.to_tunnel is None,
        Outcome::Refused(_) => now == after_first && !r.progressed && r.to_network@.len() == 0
            && r.to_tunnel is None,
        Outcome::Tunnel(p) => now == after_first && r.progressed && r.to_network@.len() == 0
            && r.to_tunnel == Some(p),
        Outcome::Network(p) => {
            &&& r.progressed
            &&& r.to_tunnel is None
            &&& r.to_network@.len() > 0
            &&& r.to_network@[0]@ == marked(p@, mark)
            &&& queue_flushed(after_first, now, r.to_network@.skip(1), mark)
        },
    }
}

/// Deals with the rest of a datagram once its first outcome is known.
pub fn finish_datagram(
    t: &mut boringtun::noise::Tunn,
    first: Outcome,
    client_id: &[u8; 3],
    scratch: &mut Vec<u8>,
) -> (r: Taken)
    requires
        fits(tunn_of(*old(t))),
        old(scratch)@.len() == MAX_PACKET,
    ensures
        final(scratch)@.len() == MAX_PACKET,
        fits(tunn_of(*final(t))),
        datagram_taken(tunn_of(*old(t)), tunn_of(*final(t)), first, client_id@, r),
        all_passed_on(
            given_by(*old(t)).said,
            given_by(*final(t)).said,
            if first is Network {
                r.to_network@.skip(1)
            } else {
                r.to_network@
            },
            client_id@,
        ),
        given_by(*final(t)).opened == given_by(*old(t)).opened,
        given_by(*final(t)).refused == given_by(*old(t)).refused,
{
    match first {
        Outcome::Done => Taken { to_network: Vec::new(), to_tunnel: None, progressed: true },
        Outcome::Refused(_) => Taken { to_network: Vec::new(), to_tunnel: None, progressed: false },
        Outcome::Tunnel(p) => Taken {
            to_network: Vec::new(),
            to_tunnel: Some(p),
            progressed: true,
        },
        Outcome::Network(p) => {
            let mut p = p;
            inject_client_id(&mut p, client_id);
            let ghost head = p;
            let mut to_network: Vec<Vec<u8>> = Vec::new();
            to_network.push(p);
            let mut rest = flush_queue(t, client_id, scratch);
            let ghost sent = rest@;
            to_network.append(&mut rest);
            assert(to_network@ =~= seq![head] + sent);
            assert(to_network@.skip(1) =~= sent);
            Taken { to_network, to_tunnel: None, progressed: true }
        },
    }
}

/// Takes a datagram from the peer: its mark comes off, and everything the
/// session then owes the peer or the stack comes out, all of it marked.
pub fn take_datagram(
    t: &mut boringtun::noise::Tunn,
    datagram: Vec<u8>,
    client_id: &[u8; 3],
    scratch: &mut Vec<u8>,
) -> (r: Taken)
    requires
        0 < datagram@.len() <= MAX_PACKET,
        fits(tunn_of(*old(t))),
        old(scratch)@.len() == MAX_PACKET,
    ensures
        final(scratch)@.len() == MAX_PACKET,
        fits(tunn_of(*final(t))),
        tunn_of(*final(t)).setup == tunn_of(*old(t)).setup,
        tunn_of(*final(t)).heard == tunn_of(*old(t)).heard.push(marked(datagram@, no_mark())),
        forall|i: int|
            0 <= i < r.to_network@.len() ==> marked_message(
                (#[trigger] r.to_network@[i])@,
                client_id@,
            ),
        r.to_network@.len() > 0 ==> r.to_tunnel is None,
        r.to_network@.len() > 0 || r.to_tunnel is Some ==> r.progressed,
        r.to_tunnel matches Some(p) ==> p@.len() <= datagram@.len(),
        all_passed_on(given_by(*old(t)).said, given_by(*final(t)).said, r.to_network@, client_id@),
        given_by(*final(t)).opened == match r.to_tunnel {
            Some(p) => given_by(*old(t)).opened.push(p@),
            None => given_by(*old(t)).opened,
        },
        r.progressed == (given_by(*final(t)).refused == given_by(*old(t)).refused),
        exists|mid: TunnView, first: Outcome|
            datagram_heard(tunn_of(*old(t)), mid, marked(datagram@, no_mark()))
                && #[trigger] datagram_taken(
                mid,
                tunn_of(*final(t)),
                first,
                client_id@,
                r,
            ),
{
    let mut datagram = datagram;
    strip_client_id(&mut datagram);
    let first = decapsulate(t, datagram.as_slice(), scratch);
    let ghost mid = tunn_of(*t);
    let r = finish_datagram(t, first, client_id, scratch);
    proof {
        all_marked(mid, tunn_of(*t), first, client_id@, r);
        if first is Network {
            first_then_the_rest(
                given_by(*old(t)).said,
                first->Network_0@,
                given_by(*t).said,
                r.to_network@,
                client_id@,
            );
        }
        assert(datagram_taken(mid, tunn_of(*final(t)), first, client_id@, r));
    }
    r
}

proof fn first_then_the_rest(
    said: Seq<Seq<u8>>,
    plain: Seq<u8>,
    said_after: Seq<Seq<u8>>,
    sent: Seq<Vec<u8>>,
    mark: Seq<u8>,
)
    requires
        sent.len() > 0,
        sent[0]@ == marked(plain, mark),
        all_passed_on(said.push(plain), said_after, sent.skip(1), mark),
    ensures
        all_passed_on(said, said_after, sent, mark),
{
    let mid = said.push(plain);
    assert(mid[said.len() as int] == said_after[said.len() as int]);
    assert forall|i: int| 0 <= i < said.len() implies said[i] == said_after[i] by {
        assert(mid[i] == said_after[i]);
    }
    assert forall|i: int| 0 <= i < sent.len() implies (#[trigger] sent[i])@ == marked(
        said_after[said.len() + i],
        mark,
    ) by {
        if i > 0 {
            assert(sent.skip(1)[i - 1] == sent[i]);
        }
    }
}

/// Whatever came of a datagram, every message is a plain one with the mark of
/// the client.
proof fn all_marked(was: TunnView, now: TunnView, first: Outcome, mark: Seq<u8>, r: Taken)
    requires
        datagram_taken(was, now, first, mark, r),
        first matches Outcome::Network(p) ==> is_plain(p@),
    ensures
        forall|i: int|
            0 <= i < r.to_network@.len() ==> marked_message((#[trigger] r.to_network@[i])@, mark),
        now.setup == was.setup,
        now.heard == was.heard,
{
    assert forall|i: int| 0 <= i < r.to_network@.len() implies marked_message(
        (#[trigger] r.to_network@[i])@,
        mark,
    ) by {
        if i == 0 {
            if let Outcome::Network(p) = first {
                assert(is_plain(p@) && r.to_network@[0]@ == marked(p@, mark));
            }
        } else {
            let sent = r.to_network@.skip(1);
            assert(sent[i - 1] == r.to_network@[i]);
            if was.live {
                assert(marked_data(sent[i - 1]@, was.queue[i - 1].len(), mark));
                let plain = choose|plain: Seq<u8>|
                    carries(plain, was.queue[i - 1].len()) && sent[i - 1]@ == #[trigger] marked(
                        plain,
                        mark,
                    );
                assert(is_plain(plain));
            } else {
                assert(marked_initiation(sent[0]@, mark));
                let plain = choose|plain: Seq<u8>|
                    is_initiation(plain) && sent[0]@ == #[trigger] marked(plain, mark);
                assert(is_plain(plain));
            }
        }
    }
}

} // verus!
