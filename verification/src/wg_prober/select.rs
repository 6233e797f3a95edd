//! Which of the endpoints that answered to take.

use vstd::prelude::*;

use crate::addr::{Endpoint, IpAddress};

verus! {

/// An endpoint that answered, and how long that took, in nanoseconds.
#[derive(Debug, Clone, Copy, PartialEq, Eq, Structural)]
pub struct WgProbeResult {
    pub ip: IpAddress,
    pub port: u16,
    pub rtt: u64,
}

/// Whether the `a`-th answer is preferred to the `b`-th: it was quicker, or as
/// quick and earlier.
pub open spec fn preferred(found: Seq<WgProbeResult>, a: int, b: int) -> bool {
    found[a].rtt < found[b].rtt || (found[a].rtt == found[b].rtt && a < b)
}

/// Whether the `k`-th answer is the preferred one of its address.
pub open spec fn best_of_address(found: Seq<WgProbeResult>, k: int) -> bool {
    &&& 0 <= k < found.len()
    &&& forall|j: int|
        0 <= j < found.len() && j != k && (#[trigger] found[j]).ip == found[k].ip ==> preferred(
            found,
            k,
            j,
        )
}

/// Whether the places list the preferred answer of every address, the
/// preferred first.
pub open spec fn ranks(found: Seq<WgProbeResult>, places: Seq<int>) -> bool {
    &&& forall|i: int|
        0 <= i < places.len() ==> best_of_address(found, #[trigger] places[i])
    &&& forall|i: int, j: int|
        0 <= i < j < places.len() ==> preferred(
            found,
            #[trigger] places[i],
            #[trigger] places[j],
        )
    &&& forall|k: int| #[trigger] best_of_address(found, k) ==> places.contains(k)
}

/// The answers at these places.
pub open spec fn answers_at(found: Seq<WgProbeResult>, places: Seq<int>) -> Seq<WgProbeResult> {
    places.map_values(|k: int| found[k])
}

/// Whether the places are all those up to `n`, in order of preference.
pub open spec fn sorts(found: Seq<WgProbeResult>, places: Seq<int>, n: int) -> bool {
    &&& forall|i: int| 0 <= i < places.len() ==> 0 <= #[trigger] places[i] < n
    &&& forall|i: int, j: int|
        0 <= i < j < places.len() ==> preferred(
            found,
            #[trigger] places[i],
            #[trigger] places[j],
        )
    &&& forall|k: int| 0 <= k < n ==> #[trigger] places.contains(k)
}

/// The answers in order of preference.
fn sorted_by_rtt(found: &Vec<WgProbeResult>) -> (r: Vec<WgProbeResult>)
    ensures
        exists|places: Seq<int>| #[trigger]
            sorts(found@, places, found@.len() as int) && r@ == answers_at(found@, places),
{
    let mut sorted: Vec<WgProbeResult> = Vec::new();
    let ghost mut places: Seq<int> = Seq::empty();
    let mut n: usize = 0;
    assert(sorted@ =~= answers_at(found@, places));
    while n < found.len()
        invariant
            n <= found@.len(),
            sorts(found@, places, n as int),
            sorted@ == answers_at(found@, places),
            places.len() == sorted@.len(),
        decreases found@.len() - n,
    {
        let x = found[n];
        let mut at: usize = 0;
        while at < sorted.len() && sorted[at].rtt <= x.rtt
            invariant
                at <= sorted@.len(),
                n < found@.len(),
                x == found@[n as int],
                sorts(found@, places, n as int),
                sorted@ == answers_at(found@, places),
                places.len() == sorted@.len(),
                forall|i: int| 0 <= i < at ==> (#[trigger] sorted@[i]).rtt <= x.rtt,
            decreases sorted@.len() - at,
        {
            at = at + 1;
        }
        let ghost before = places;
        let ghost was = sorted@;
        proof {
            assert forall|i: int| 0 <= i < at implies preferred(found@, #[trigger] before[i], n as int) by {
                assert(was[i].rtt <= x.rtt);
                assert(was[i] == found@[before[i]]);
            }
            assert forall|i: int| at <= i < before.len() implies preferred(
                found@,
                n as int,
                #[trigger] before[i],
            ) by {
                assert(was[at as int] == found@[before[at as int]]);
                assert(was[i] == found@[before[i]]);
                if i > at {
                    assert(preferred(found@, before[at as int], before[i]));
                }
            }
            places = before.insert(at as int, n as int);
        }
        sorted.insert(at, x);
        n = n + 1;
        proof {
            assert(sorted@ =~= answers_at(found@, places));
            assert forall|i: int, j: int| 0 <= i < j < places.len() implies preferred(
                found@,
                #[trigger] places[i],
                #[trigger] places[j],
            ) by {
                let a = if i < at {
                    before[i]
                } else if i == at {
                    n - 1
                } else {
                    before[i - 1]
                };
                let b = if j < at {
                    before[j]
                } else if j == at {
                    n - 1
                } else {
                    before[j - 1]
                };
                assert(places[i] == a && places[j] == b);
            }
            assert forall|k: int| 0 <= k < n implies #[trigger] places.contains(k) by {
                if k == n - 1 {
                    assert(places[at as int] == k);
                } else {
                    assert(before.contains(k));
                    let i = choose|i: int| 0 <= i < before.len() && before[i] == k;
                    if i < at {
                        assert(places[i] == k);
                    } else {
                        assert(places[i + 1] == k);
                    }
                }
            }
        }
    }
    assert(sorts(found@, places, found@.len() as int) && sorted@ == answers_at(found@, places));
    sorted
}

fn has_address(list: &Vec<WgProbeResult>, ip: IpAddress) -> (r: bool)
    ensures
        r == exists|i: int| 0 <= i < list@.len() && (#[trigger] list@[i]).ip == ip,
{
    let mut i: usize = 0;
    while i < list.len()
        invariant
            i <= list@.len(),
            forall|j: int| 0 <= j < i ==> (#[trigger] list@[j]).ip != ip,
        decreases list@.len() - i,
    {
        if list[i].ip == ip {
            assert(list@[i as int].ip == ip);
            return true;
        }
        i = i + 1;
    }
    false
}

/// The preferred answer of every address, the preferred first.
pub fn distinct_by_ip(found: &Vec<WgProbeResult>) -> (r: Vec<WgProbeResult>)
    ensures
        exists|places: Seq<int>| #[trigger]
            ranks(found@, places) && r@ == answers_at(found@, places),
{
    let sorted = sorted_by_rtt(found);
    let ghost all = choose|places: Seq<int>| #[trigger]
        sorts(found@, places, found@.len() as int) && sorted@ == answers_at(found@, places);
    let mut kept: Vec<WgProbeResult> = Vec::new();
    let ghost mut places: Seq<int> = Seq::empty();
    let mut i: usize = 0;
    assert(kept@ =~= answers_at(found@, places));
    while i < sorted.len()
        invariant
            i <= sorted@.len(),
            sorts(found@, all, found@.len() as int),
            sorted@ == answers_at(found@, all),
            kept@ == answers_at(found@, places),
            places.len() == kept@.len(),
            forall|a: int|
                0 <= a < places.len() ==> exists|b: int|
                    0 <= b < i && #[trigger] all[b] == #[trigger] places[a],
            forall|a: int, b: int|
                0 <= a < b < places.len() ==> preferred(
                    found@,
                    #[trigger] places[a],
                    #[trigger] places[b],
                ),
            forall|a: int|
                0 <= a < places.len() ==> best_of_address(found@, #[trigger] places[a]),
            forall|b: int|
                0 <= b < i ==> exists|a: int|
                    0 <= a < kept@.len() && (#[trigger] kept@[a]).ip == (#[trigger] sorted@[b]).ip,
        decreases sorted@.len() - i,
    {
        let x = sorted[i];
        let ghost k = all[i as int];
        assert(x == found@[k]);
        let ghost was = kept@;
        let ghost before = places;
        if !has_address(&kept, x.ip) {
            kept.push(x);
            proof {
                places = places.push(k);
                assert(kept@ =~= answers_at(found@, places));
                assert forall|j: int|
                    0 <= j < found@.len() && j != k && (#[trigger] found@[j]).ip
                        == found@[k].ip implies preferred(found@, k, j) by {
                    assert(all.contains(j));
                    let b = choose|b: int| 0 <= b < all.len() && all[b] == j;
                    if b < i {
                        assert(sorted@[b] == found@[j]);
                        let a = choose|a: int|
                            0 <= a < was.len() && (#[trigger] was[a]).ip == sorted@[b].ip;
                        assert(was[a].ip == x.ip);
                    } else {
                        assert(preferred(found@, all[i as int], all[b]));
                    }
                }
                assert(best_of_address(found@, k));
                assert forall|a: int, b: int| 0 <= a < b < places.len() implies preferred(
                    found@,
                    #[trigger] places[a],
                    #[trigger] places[b],
                ) by {
                    if b == before.len() {
                        let c = choose|c: int|
                            0 <= c < i && #[trigger] all[c] == #[trigger] before[a];
                        assert(preferred(found@, all[c], all[i as int]));
                    } else {
                        assert(places[a] == before[a] && places[b] == before[b]);
                    }
                }
                assert forall|a: int| 0 <= a < places.len() implies exists|b: int|
                    0 <= b < i + 1 && #[trigger] all[b] == #[trigger] places[a] by {
                    if a == before.len() {
                        assert(all[i as int] == places[a]);
                    } else {
                        let c = choose|c: int|
                            0 <= c < i && #[trigger] all[c] == #[trigger] before[a];
                        assert(all[c] == places[a]);
                    }
                }
            }
        }
        proof {
            assert forall|b: int| 0 <= b < i + 1 implies exists|a: int|
                0 <= a < kept@.len() && (#[trigger] kept@[a]).ip == (#[trigger] sorted@[b]).ip by {
                if b < i {
                    let a = choose|a: int|
                        0 <= a < was.len() && (#[trigger] was[a]).ip == sorted@[b].ip;
                    assert(kept@[a] == was[a]);
                } else if kept@.len() > was.len() {
                    assert(kept@[was.len() as int].ip == sorted@[b].ip);
                } else {
                    let a = choose|a: int| 0 <= a < was.len() && (#[trigger] was[a]).ip == x.ip;
                    assert(kept@[a].ip == sorted@[b].ip);
                }
            }
        }
        i = i + 1;
    }
    proof {
        assert forall|k: int| #[trigger] best_of_address(found@, k) implies places.contains(k) by {
            assert(all.contains(k));
            let b = choose|b: int| 0 <= b < all.len() && all[b] == k;
            assert(sorted@[b] == found@[k]);
            let a = choose|a: int|
                0 <= a < kept@.len() && (#[trigger] kept@[a]).ip == sorted@[b].ip;
            assert(kept@[a] == found@[places[a]]);
            assert(best_of_address(found@, places[a]));
            if places[a] != k {
                assert(found@[places[a]].ip == found@[k].ip);
                assert(preferred(found@, k, places[a]));
                assert(preferred(found@, places[a], k));
            }
            assert(places[a] == k);
        }
    }
    assert(ranks(found@, places) && kept@ == answers_at(found@, places));
    kept
}

/// The addresses of the answers.
pub open spec fn addresses(found: Seq<WgProbeResult>) -> Seq<IpAddress> {
    found.map_values(|pr: WgProbeResult| pr.ip)
}

/// How many addresses answered.
pub open spec fn address_count(found: Seq<WgProbeResult>) -> nat {
    addresses(found).to_set().len()
}

/// Among the first answers, some answer of the address is the preferred one.
proof fn best_among(found: Seq<WgProbeResult>, k: int, n: int) -> (best: int)
    requires
        0 <= k < n <= found.len(),
    ensures
        0 <= best < n,
        found[best].ip == found[k].ip,
        forall|j: int|
            0 <= j < n && j != best && (#[trigger] found[j]).ip == found[k].ip ==> preferred(
                found,
                best,
                j,
            ),
    decreases n,
{
    if k == n - 1 && forall|j: int| 0 <= j < n - 1 ==> (#[trigger] found[j]).ip != found[k].ip {
        k
    } else {
        let other = if k < n - 1 {
            k
        } else {
            choose|j: int| 0 <= j < n - 1 && (#[trigger] found[j]).ip == found[k].ip
        };
        let best = best_among(found, other, n - 1);
        if found[n - 1].ip == found[k].ip && !preferred(found, best, n - 1) {
            n - 1
        } else {
            best
        }
    }
}

/// What is offered comes quickest first, has every address that answered once,
/// and each with its quickest answer.
pub proof fn offers_are_the_quickest(found: Seq<WgProbeResult>, places: Seq<int>)
    requires
        ranks(found, places),
    ensures
        ({
            let offered = answers_at(found, places);
            &&& forall|i: int, j: int|
                0 <= i < j < offered.len() ==> (#[trigger] offered[i]).rtt <= (
                #[trigger] offered[j]).rtt
            &&& addresses(offered).no_duplicates()
            &&& addresses(offered).to_set() == addresses(found).to_set()
            &&& offered.len() == address_count(found)
            &&& forall|i: int, k: int|
                0 <= i < offered.len() && 0 <= k < found.len() && (#[trigger] offered[i]).ip == (
                #[trigger] found[k]).ip ==> offered[i].rtt <= found[k].rtt
        }),
{
    let offered = answers_at(found, places);
    let ips = addresses(offered);
    assert forall|i: int, j: int| 0 <= i < j < offered.len() implies (#[trigger] offered[i]).rtt
        <= (#[trigger] offered[j]).rtt by {
        assert(preferred(found, places[i], places[j]));
    }
    assert forall|i: int, j: int| 0 <= i < j < ips.len() implies ips[i] != ips[j] by {
        assert(preferred(found, places[i], places[j]));
        assert(best_of_address(found, places[i]));
        assert(best_of_address(found, places[j]));
        if ips[i] == ips[j] {
            assert(found[places[i]].ip == found[places[j]].ip);
            assert(preferred(found, places[j], places[i]));
        }
    }
    assert forall|ip: IpAddress| ips.to_set().contains(ip) <==> addresses(found).to_set().contains(
        ip,
    ) by {
        if ips.contains(ip) {
            let i = choose|i: int| 0 <= i < ips.len() && ips[i] == ip;
            assert(best_of_address(found, places[i]));
            assert(addresses(found)[places[i]] == ip);
        }
        if addresses(found).contains(ip) {
            let k = choose|k: int| 0 <= k < found.len() && addresses(found)[k] == ip;
            let best = best_among(found, k, found.len() as int);
            assert(best_of_address(found, best));
            assert(places.contains(best));
            let i = choose|i: int| 0 <= i < places.len() && places[i] == best;
            assert(ips[i] == ip);
        }
    }
    assert(ips.to_set() =~= addresses(found).to_set());
    ips.unique_seq_to_set();
    assert forall|i: int, k: int|
        0 <= i < offered.len() && 0 <= k < found.len() && (#[trigger] offered[i]).ip == (
        #[trigger] found[k]).ip implies offered[i].rtt <= found[k].rtt by {
        assert(best_of_address(found, places[i]));
        if places[i] != k {
            assert(preferred(found, places[i], k));
        }
    }
}

/// There is one way to rank answers.
pub proof fn one_ranking(found: Seq<WgProbeResult>, a: Seq<int>, b: Seq<int>)
    requires
        ranks(found, a),
        ranks(found, b),
    ensures
        a == b,
{
    offers_are_the_quickest(found, a);
    offers_are_the_quickest(found, b);
    assert(a.len() == b.len());
    assert forall|i: int| 0 <= i < a.len() implies a[i] == b[i] by {
        same_place(found, a, b, i);
    }
    assert(a =~= b);
}

proof fn same_place(found: Seq<WgProbeResult>, a: Seq<int>, b: Seq<int>, i: int)
    requires
        ranks(found, a),
        ranks(found, b),
        a.len() == b.len(),
        0 <= i < a.len(),
    ensures
        a[i] == b[i],
    decreases i,
{
    assert forall|j: int| 0 <= j < i implies a[j] == b[j] by {
        same_place(found, a, b, j);
    }
    assert(best_of_address(found, a[i]));
    assert(best_of_address(found, b[i]));
    let x = choose|x: int| 0 <= x < b.len() && b[x] == a[i];
    let y = choose|y: int| 0 <= y < a.len() && a[y] == b[i];
    if x < i {
        assert(a[x] == b[x]);
        assert(preferred(found, a[x], a[i]));
    }
    if y < i {
        assert(a[y] == b[y]);
        assert(preferred(found, b[y], b[i]));
    }
    if x > i && y > i {
        assert(preferred(found, b[i], b[x]));
        assert(preferred(found, a[i], a[y]));
    }
}

/// The endpoint that a scan has to beat: one that was given up for being slow,
/// and how slow it was, in nanoseconds. A time of zero is none.
#[derive(Debug, Clone, Copy, PartialEq, Eq, Structural)]
pub struct RttFloor {
    pub rtt: u64,
    pub peer: Option<Endpoint>,
}

/// The endpoint that counts, and its time.
pub open spec fn floor_of(floor: RttFloor) -> Option<(Endpoint, u64)> {
    match floor.peer {
        Some(peer) if floor.rtt != 0 => Some((peer, floor.rtt)),
        _ => None,
    }
}

impl RttFloor {
    /// Nothing to beat.
    pub fn new() -> (r: RttFloor)
        ensures
            r == (RttFloor { rtt: 0, peer: None }),
    {
        RttFloor { rtt: 0, peer: None }
    }
}

/// What is to be beaten once an endpoint has been noted with its time.
pub open spec fn floor_noted(was: RttFloor, peer: Endpoint, rtt: u64) -> RttFloor {
    RttFloor { rtt, peer: Some(peer) }
}

/// What is to be beaten once that has been forgotten.
pub open spec fn floor_forgotten(was: RttFloor) -> RttFloor {
    RttFloor { rtt: 0, peer: None }
}

/// Notes an endpoint that a scan has to beat, with the time that was measured.
pub fn set_rtt_floor(floor: &mut RttFloor, peer: Endpoint, rtt: u64)
    ensures
        *final(floor) == floor_noted(*old(floor), peer, rtt),
{
    floor.rtt = rtt;
    floor.peer = Some(peer);
}

/// Forgets the endpoint that a scan has to beat.
pub fn clear_rtt_floor(floor: &mut RttFloor)
    ensures
        *final(floor) == floor_forgotten(*old(floor)),
{
    floor.rtt = 0;
    floor.peer = None;
}

/// The endpoint that a scan has to beat, where there is one.
pub fn rtt_floor(floor: &RttFloor) -> (r: Option<(Endpoint, u64)>)
    ensures
        r == floor_of(*floor),
{
    if floor.rtt == 0 {
        return None;
    }
    match floor.peer {
        Some(peer) => Some((peer, floor.rtt)),
        None => None,
    }
}

/// The answers, with the endpoint to beat before them where the quickest is
/// slower.
pub open spec fn floored(
    picked: Seq<WgProbeResult>,
    floor: Option<(Endpoint, u64)>,
) -> Seq<WgProbeResult> {
    match floor {
        Some((peer, rtt)) if picked.len() > 0 && picked[0].rtt > rtt => seq![
            WgProbeResult { ip: peer.ip, port: peer.port, rtt },
        ] + picked,
        _ => picked,
    }
}

/// Puts the endpoint to beat before the answers where none beats it.
pub fn apply_rtt_floor(picked: Vec<WgProbeResult>, floor: Option<(Endpoint, u64)>) -> (r: Vec<
    WgProbeResult,
>)
    ensures
        r@ == floored(picked@, floor),
{
    let mut picked = picked;
    if let Some((peer, rtt)) = floor {
        if picked.len() > 0 && picked[0].rtt > rtt {
            let ghost before = picked@;
            let restored = WgProbeResult { ip: peer.ip, port: peer.port, rtt };
            picked.insert(0, restored);
            assert(picked@ =~= seq![restored] + before);
        }
    }
    picked
}

/// A scan never makes things worse: what it offers first is no slower than the
/// endpoint that it had to beat.
pub proof fn never_worse_than_before(picked: Seq<WgProbeResult>, peer: Endpoint, rtt: u64)
    requires
        picked.len() > 0,
    ensures
        floored(picked, Some((peer, rtt)))[0].rtt <= rtt,
        floored(picked, Some((peer, rtt))).len() >= picked.len(),
{
}

/// A scan that is at least as quick as the endpoint that it had to beat is left
/// alone.
pub proof fn a_quicker_scan_stands(picked: Seq<WgProbeResult>, peer: Endpoint, rtt: u64)
    requires
        picked.len() > 0 ==> picked[0].rtt <= rtt,
    ensures
        floored(picked, Some((peer, rtt))) == picked,
{
}

/// Once forgotten, an endpoint is not held against a scan; until then it is,
/// with the time that was measured.
pub proof fn a_forgotten_floor_is_none(peer: Endpoint, rtt: u64)
    requires
        rtt > 0,
    ensures
        floor_of(RttFloor { rtt: 0, peer: None }) is None,
        floor_of(RttFloor { rtt, peer: Some(peer) }) == Some((peer, rtt)),
{
}

/// The endpoint to beat is the last one that was noted, with its own time,
/// whatever was noted before; once forgotten there is none, and before anything
/// was noted there is none either.
pub proof fn the_last_floor_counts(
    was: RttFloor,
    peer: Endpoint,
    rtt: u64,
    other: Endpoint,
    other_rtt: u64,
    fresh: RttFloor,
    r: Option<(Endpoint, u64)>,
)
    requires
        rtt > 0,
        call_ensures(RttFloor::new, (), fresh),
        call_ensures(rtt_floor, (&floor_noted(was, peer, rtt),), r),
    ensures
        r == Some((peer, rtt)),
        floor_of(floor_noted(floor_noted(was, other, other_rtt), peer, rtt)) == Some((peer, rtt)),
        floor_of(floor_noted(was, peer, 0)) is None,
        floor_of(floor_forgotten(was)) is None,
        floor_of(fresh) is None,
{
}

} // verus!
