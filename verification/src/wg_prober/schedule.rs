//! Which endpoint a scan tries when.

use vstd::prelude::*;

use crate::addr::{Endpoint, IpAddress};
use crate::wg_prober::lists::{distinct_ports, AddressSet};
#[allow(unused_imports)]
use crate::wg_prober::lists::firsts_are_distinct;

verus! {

/// The endpoint at which the `i`-th address is tried in a wave: the ports
/// rotate from address to address and from wave to wave.
pub open spec fn attempt(ips: Seq<IpAddress>, ports: Seq<u16>, wave: int, i: int) -> Endpoint {
    Endpoint { ip: ips[i], port: ports[(i + wave) % (ports.len() as int)] }
}

/// The endpoints that are listed once the first `n` addresses had their turn
/// in a wave: none that is excluded, and none twice.
pub open spec fn in_wave(
    before: Seq<Endpoint>,
    ips: Seq<IpAddress>,
    ports: Seq<u16>,
    excluded: Seq<Endpoint>,
    wave: int,
    n: int,
) -> Seq<Endpoint>
    decreases n,
{
    if n <= 0 {
        before
    } else {
        let listed = in_wave(before, ips, ports, excluded, wave, n - 1);
        let next = attempt(ips, ports, wave, n - 1);
        if excluded.contains(next) || listed.contains(next) {
            listed
        } else {
            listed.push(next)
        }
    }
}

/// The endpoints to try, wave after wave.
pub open spec fn scheduled(
    ips: Seq<IpAddress>,
    ports: Seq<u16>,
    excluded: Seq<Endpoint>,
    waves: int,
) -> Seq<Endpoint>
    decreases waves,
{
    if waves <= 0 {
        Seq::empty()
    } else {
        in_wave(
            scheduled(ips, ports, excluded, waves - 1),
            ips,
            ports,
            excluded,
            waves - 1,
            ips.len() as int,
        )
    }
}

fn is_excluded(excluded: &Vec<Endpoint>, endpoint: Endpoint) -> (r: bool)
    ensures
        r == excluded@.contains(endpoint),
{
    let mut i: usize = 0;
    while i < excluded.len()
        invariant
            i <= excluded@.len(),
            forall|j: int| 0 <= j < i ==> excluded@[j] != endpoint,
        decreases excluded@.len() - i,
    {
        if excluded[i] == endpoint {
            return true;
        }
        i = i + 1;
    }
    false
}

/// Whether the sets, one for each port, tell which endpoints are listed.
pub open spec fn tells(seen: Seq<AddressSet>, ports: Seq<u16>, listed: Seq<Endpoint>) -> bool {
    &&& seen.len() == ports.len()
    &&& forall|k: int, ip: IpAddress|
        0 <= k < ports.len() ==> (#[trigger] seen[k].has(ip) <==> listed.contains(
            (Endpoint { ip, port: ports[k] }),
        ))
}

/// Lists an endpoint unless it is excluded or listed. There is a set for each of
/// the `ports`.
fn list_attempt(
    listed: &mut Vec<Endpoint>,
    seen: &mut Vec<AddressSet>,
    ip: IpAddress,
    ports: &Vec<u16>,
    k: usize,
    excluded: &Vec<Endpoint>,
)
    requires
        k < ports@.len(),
        ports@.no_duplicates(),
        tells(old(seen)@, ports@, old(listed)@),
    ensures
        tells(final(seen)@, ports@, final(listed)@),
        final(listed)@ == ({
            let next = Endpoint { ip, port: ports@[k as int] };
            if excluded@.contains(next) || old(listed)@.contains(next) {
                old(listed)@
            } else {
                old(listed)@.push(next)
            }
        }),
{
    let next = Endpoint { ip, port: ports[k] };
    if is_excluded(excluded, next) {
        return;
    }
    let ghost before = listed@;
    let ghost was = seen@;
    let new = seen[k].insert(ip);
    if new {
        listed.push(next);
    }
    proof {
        assert forall|j: int, other: IpAddress| 0 <= j < ports@.len() implies (
        #[trigger] seen@[j].has(other) <==> listed@.contains(
            (Endpoint { ip: other, port: ports@[j] }),
        )) by {
            let e = Endpoint { ip: other, port: ports@[j] };
            assert(was[j].has(other) <==> before.contains(e));
            if before.contains(e) {
                let i = choose|i: int| 0 <= i < before.len() && before[i] == e;
                assert(listed@[i] == e);
            }
            if e == next {
                if new {
                    assert(listed@[before.len() as int] == e);
                }
            } else {
                assert(seen@[j].has(other) == was[j].has(other));
                if listed@.contains(e) {
                    let i = choose|i: int| 0 <= i < listed@.len() && listed@[i] == e;
                    assert(before[i] == e);
                }
            }
        }
    }
}

/// Where each port stands in a list of them all.
fn places(ports: &Vec<u16>, list: &Vec<u16>) -> (r: Vec<usize>)
    requires
        forall|k: int| 0 <= k < ports@.len() ==> list@.contains(#[trigger] ports@[k]),
    ensures
        r@.len() == ports@.len(),
        forall|k: int|
            0 <= k < ports@.len() ==> #[trigger] r@[k] < list@.len() && list@[r@[k] as int]
                == ports@[k],
{
    let mut found: Vec<usize> = Vec::new();
    while found.len() < ports.len()
        invariant
            found@.len() <= ports@.len(),
            forall|k: int| 0 <= k < ports@.len() ==> list@.contains(#[trigger] ports@[k]),
            forall|k: int|
                0 <= k < found@.len() ==> #[trigger] found@[k] < list@.len()
                    && list@[found@[k] as int] == ports@[k],
        decreases ports@.len() - found@.len(),
    {
        let port: u16 = ports[found.len()];
        let n: usize = list.len();
        let mut at: usize = 0;
        assert(list@.contains(port));
        while list[at] != port
            invariant
                list@.contains(port),
                at < n,
                n == list@.len(),
                forall|j: int| 0 <= j < at ==> list@[j] != port,
            decreases list@.len() - at,
        {
            at = at + 1;
        }
        found.push(at);
    }
    found
}

/// Lists the endpoints to try. The ports take turns as they are given, a
/// repeated one more often than the others.
pub fn schedule_attempts(
    ips: &Vec<IpAddress>,
    ports: &Vec<u16>,
    excluded: &Vec<Endpoint>,
    waves: usize,
) -> (r: Vec<Endpoint>)
    requires
        ports@.len() > 0,
    ensures
        r@ == scheduled(ips@, ports@, excluded@, waves as int),
{
    let distinct = distinct_ports(ports);
    proof {
        firsts_are_distinct(ports@);
        assert forall|k: int| 0 <= k < ports@.len() implies distinct@.contains(
            #[trigger] ports@[k],
        ) by {
            assert(ports@.contains(ports@[k]));
        }
    }
    let place = places(ports, &distinct);
    let mut listed: Vec<Endpoint> = Vec::new();
    let mut seen: Vec<AddressSet> = Vec::new();
    while seen.len() < distinct.len()
        invariant
            seen@.len() <= distinct@.len(),
            forall|k: int, ip: IpAddress| 0 <= k < seen@.len() ==> !#[trigger] seen@[k].has(ip),
        decreases distinct@.len() - seen@.len(),
    {
        seen.push(AddressSet::new());
    }
    let mut wave: usize = 0;
    while wave < waves
        invariant
            wave <= waves,
            ports@.len() > 0,
            distinct@.no_duplicates(),
            place@.len() == ports@.len(),
            forall|k: int|
                0 <= k < ports@.len() ==> #[trigger] place@[k] < distinct@.len()
                    && distinct@[place@[k] as int] == ports@[k],
            tells(seen@, distinct@, listed@),
            listed@ == scheduled(ips@, ports@, excluded@, wave as int),
        decreases waves - wave,
    {
        let ghost before = listed@;
        let mut i: usize = 0;
        while i < ips.len()
            invariant
                i <= ips@.len(),
                ports@.len() > 0,
                distinct@.no_duplicates(),
                place@.len() == ports@.len(),
                forall|k: int|
                    0 <= k < ports@.len() ==> #[trigger] place@[k] < distinct@.len()
                        && distinct@[place@[k] as int] == ports@[k],
                tells(seen@, distinct@, listed@),
                listed@ == in_wave(before, ips@, ports@, excluded@, wave as int, i as int),
            decreases ips@.len() - i,
        {
            let n: u128 = ports.len() as u128;
            let k: usize = ((i as u128 + wave as u128) % n) as usize;
            list_attempt(&mut listed, &mut seen, ips[i], &distinct, place[k], excluded);
            i = i + 1;
        }
        wave = wave + 1;
    }
    listed
}

proof fn in_wave_is_sound(
    before: Seq<Endpoint>,
    ips: Seq<IpAddress>,
    ports: Seq<u16>,
    excluded: Seq<Endpoint>,
    wave: int,
    n: int,
)
    requires
        ports.len() > 0,
        0 <= wave,
        0 <= n <= ips.len(),
        before.no_duplicates(),
        forall|i: int|
            0 <= i < before.len() ==> !excluded.contains(#[trigger] before[i]) && ips.contains(
                before[i].ip,
            ) && ports.contains(before[i].port),
    ensures
        ({
            let now = in_wave(before, ips, ports, excluded, wave, n);
            &&& now.no_duplicates()
            &&& before.len() <= now.len() <= before.len() + n
            &&& now.take(before.len() as int) == before
            &&& forall|i: int|
                0 <= i < now.len() ==> !excluded.contains(#[trigger] now[i]) && ips.contains(
                    now[i].ip,
                ) && ports.contains(now[i].port)
        }),
    decreases n,
{
    let now = in_wave(before, ips, ports, excluded, wave, n);
    if n > 0 {
        in_wave_is_sound(before, ips, ports, excluded, wave, n - 1);
        let listed = in_wave(before, ips, ports, excluded, wave, n - 1);
        let next = attempt(ips, ports, wave, n - 1);
        assert(ips[n - 1] == next.ip);
        assert(ports[(n - 1 + wave) % (ports.len() as int)] == next.port);
        assert(now.take(before.len() as int) =~= before);
        assert forall|i: int| 0 <= i < now.len() implies !excluded.contains(#[trigger] now[i])
            && ips.contains(now[i].ip) && ports.contains(now[i].port) by {
            if i < listed.len() {
                assert(now[i] == listed[i]);
            }
        }
    } else {
        assert(now.take(before.len() as int) =~= before);
    }
}

/// No endpoint is tried twice and none that is excluded is tried; every one
/// tried is a given address at a given port.
pub proof fn attempts_are_new_and_allowed(
    ips: Seq<IpAddress>,
    ports: Seq<u16>,
    excluded: Seq<Endpoint>,
    waves: int,
)
    requires
        ports.len() > 0,
        0 <= waves,
    ensures
        scheduled(ips, ports, excluded, waves).no_duplicates(),
        forall|i: int|
            0 <= i < scheduled(ips, ports, excluded, waves).len() ==> {
                let e = #[trigger] scheduled(ips, ports, excluded, waves)[i];
                !excluded.contains(e) && ips.contains(e.ip) && ports.contains(e.port)
            },
    decreases waves,
{
    if waves > 0 {
        attempts_are_new_and_allowed(ips, ports, excluded, waves - 1);
        in_wave_is_sound(
            scheduled(ips, ports, excluded, waves - 1),
            ips,
            ports,
            excluded,
            waves - 1,
            ips.len() as int,
        );
    }
}

/// A later wave comes after the earlier ones.
pub proof fn waves_follow_each_other(
    ips: Seq<IpAddress>,
    ports: Seq<u16>,
    excluded: Seq<Endpoint>,
    n: int,
    waves: int,
)
    requires
        ports.len() > 0,
        0 <= n <= waves,
    ensures
        ({
            let early = scheduled(ips, ports, excluded, n);
            let all = scheduled(ips, ports, excluded, waves);
            early.len() <= all.len() && all.take(early.len() as int) == early
        }),
    decreases waves,
{
    let early = scheduled(ips, ports, excluded, n);
    let all = scheduled(ips, ports, excluded, waves);
    if n < waves {
        let before = scheduled(ips, ports, excluded, waves - 1);
        waves_follow_each_other(ips, ports, excluded, n, waves - 1);
        attempts_are_new_and_allowed(ips, ports, excluded, waves - 1);
        in_wave_is_sound(before, ips, ports, excluded, waves - 1, ips.len() as int);
        assert(all.take(early.len() as int) =~= before.take(early.len() as int)) by {
            assert(all.take(before.len() as int) == before);
            assert forall|i: int| 0 <= i < early.len() implies all[i] == before[i] by {
                assert(all.take(before.len() as int)[i] == before[i]);
            }
        }
    } else {
        assert(all.take(early.len() as int) =~= early);
    }
}

/// Whether the attempts of the first waves, and of `n` addresses of the next,
/// are listed one after the other.
spec fn laid_out(
    listed: Seq<Endpoint>,
    ips: Seq<IpAddress>,
    ports: Seq<u16>,
    wave: int,
    n: int,
) -> bool {
    &&& listed.len() == wave * ips.len() + n
    &&& forall|w: int, i: int|
        0 <= w && 0 <= i < ips.len() && (w < wave || (w == wave && i < n))
            ==> #[trigger] listed[w * ips.len() + i] == attempt(ips, ports, w, i)
}

proof fn places_differ(len: int, place: int, wave: int, n: int)
    requires
        0 < len,
        0 <= place < wave * len + n,
        0 <= n <= len,
        0 <= wave,
    ensures
        0 <= place / len <= wave,
        0 <= place % len < len,
        place / len == wave ==> place % len < n,
        place == (place / len) * len + place % len,
{
    assert(place == len * (place / len) + place % len && 0 <= place % len < len)
        by (nonlinear_arith)
        requires
            0 < len,
    ;
    let q = place / len;
    let m = place % len;
    assert(len * q == q * len) by (nonlinear_arith);
    assert(0 <= q) by (nonlinear_arith)
        requires
            0 <= place,
            0 < len,
            q == place / len,
    ;
    assert(q <= wave) by (nonlinear_arith)
        requires
            q * len + m < wave * len + n,
            0 <= m,
            n <= len,
            0 < len,
    ;
    if q == wave {
        assert(q * len == wave * len);
    }
}

proof fn rotations_differ(i: int, v: int, w: int, n: int)
    requires
        0 <= i,
        0 <= v < n,
        0 <= w < n,
        (i + v) % n == (i + w) % n,
    ensures
        v == w,
{
    let a = (i + v) / n;
    let b = (i + w) / n;
    assert(i + v == n * a + (i + v) % n) by (nonlinear_arith)
        requires
            0 < n,
            a == (i + v) / n,
    ;
    assert(i + w == n * b + (i + w) % n) by (nonlinear_arith)
        requires
            0 < n,
            b == (i + w) / n,
    ;
    assert(v - w == n * (a - b)) by (nonlinear_arith)
        requires
            i + v == n * a + (i + v) % n,
            i + w == n * b + (i + w) % n,
            (i + v) % n == (i + w) % n,
    ;
    assert(a == b) by (nonlinear_arith)
        requires
            v - w == n * (a - b),
            0 <= v < n,
            0 <= w < n,
    ;
}

proof fn lay_out(ips: Seq<IpAddress>, ports: Seq<u16>, wave: int, n: int)
    requires
        ips.no_duplicates(),
        ports.no_duplicates(),
        0 <= n <= ips.len(),
        0 <= wave < ports.len(),
    ensures
        laid_out(
            in_wave(
                scheduled(ips, ports, Seq::empty(), wave),
                ips,
                ports,
                Seq::empty(),
                wave,
                n,
            ),
            ips,
            ports,
            wave,
            n,
        ),
    decreases wave, n,
{
    let none = Seq::<Endpoint>::empty();
    let len = ips.len() as int;
    let before = scheduled(ips, ports, none, wave);
    if n == 0 {
        if wave > 0 {
            lay_out(ips, ports, wave - 1, len);
            assert((wave - 1) * len + len == wave * len) by (nonlinear_arith);
        } else {
            assert(0 * len == 0) by (nonlinear_arith);
        }
    } else {
        lay_out(ips, ports, wave, n - 1);
        let listed = in_wave(before, ips, ports, none, wave, n - 1);
        let next = attempt(ips, ports, wave, n - 1);
        assert(!listed.contains(next)) by {
            if listed.contains(next) {
                let place = choose|place: int| 0 <= place < listed.len() && listed[place] == next;
                places_differ(len, place, wave, n - 1);
                let w = place / len;
                let i = place % len;
                assert(listed[w * len + i] == attempt(ips, ports, w, i));
                assert(ips[i] == ips[n - 1]);
                assert(i == n - 1);
                let m = ports.len() as int;
                assert(0 <= (i + w) % m < m && 0 <= (i + wave) % m < m);
                assert(ports[(i + w) % m] == ports[(i + wave) % m]);
                rotations_differ(i, w, wave, m);
            }
        }
        let now = listed.push(next);
        assert forall|w: int, i: int|
            0 <= w && 0 <= i < len && (w < wave || (w == wave && i < n)) implies #[trigger] now[w
            * ips.len() + i] == attempt(ips, ports, w, i) by {
            if w == wave && i == n - 1 {
                assert(w * ips.len() + i == listed.len());
            } else {
                assert(w * len + i < listed.len()) by {
                    if w < wave {
                        assert(w * len + i < wave * len) by (nonlinear_arith)
                            requires
                                w + 1 <= wave,
                                i < len,
                                0 <= len,
                        ;
                    }
                }
                assert(0 <= w * len) by (nonlinear_arith)
                    requires
                        0 <= w,
                        0 <= len,
                ;
                assert(listed[w * ips.len() + i] == attempt(ips, ports, w, i));
            }
        }
    }
}

/// Where nothing is excluded, every wave tries every address, in the given
/// order and each on a port of its own: no address comes again before all the
/// others had their turn, and none is tried twice on one port.
pub proof fn every_wave_tries_every_address(
    ips: Seq<IpAddress>,
    ports: Seq<u16>,
    waves: int,
    wave: int,
    i: int,
)
    requires
        ips.no_duplicates(),
        ports.no_duplicates(),
        waves <= ports.len(),
        0 <= wave < waves,
        0 <= i < ips.len(),
    ensures
        scheduled(ips, ports, Seq::empty(), waves).len() == waves * ips.len(),
        wave * ips.len() + i < waves * ips.len(),
        scheduled(ips, ports, Seq::empty(), waves)[wave * ips.len() + i] == attempt(
            ips,
            ports,
            wave,
            i,
        ),
{
    let len = ips.len() as int;
    lay_out(ips, ports, waves - 1, len);
    assert((waves - 1) * len + len == waves * len) by (nonlinear_arith);
    assert(wave * len + i < waves * len) by (nonlinear_arith)
        requires
            wave + 1 <= waves,
            i < len,
            0 <= len,
    ;
}

/// The front of a scan spreads over the ports: as many attempts as there are
/// ports, one after the other in a wave, use each port once.
pub proof fn neighbours_use_different_ports(
    ips: Seq<IpAddress>,
    ports: Seq<u16>,
    wave: int,
    i: int,
    j: int,
)
    requires
        ports.no_duplicates(),
        0 <= wave,
        0 <= i < j < i + ports.len(),
    ensures
        attempt(ips, ports, wave, i).port != attempt(ips, ports, wave, j).port,
{
    let n = ports.len() as int;
    if (i + wave) % n == (j + wave) % n {
        rotations_differ(i + wave, 0, j - i, n);
    }
    assert(0 <= (i + wave) % n < n && 0 <= (j + wave) % n < n);
}

proof fn a_wave_lists(
    before: Seq<Endpoint>,
    ips: Seq<IpAddress>,
    ports: Seq<u16>,
    excluded: Seq<Endpoint>,
    wave: int,
    n: int,
)
    requires
        0 <= n,
    ensures
        ({
            let now = in_wave(before, ips, ports, excluded, wave, n);
            &&& forall|e: Endpoint| #[trigger] before.contains(e) ==> now.contains(e)
            &&& forall|i: int|
                0 <= i < n ==> excluded.contains(#[trigger] attempt(ips, ports, wave, i))
                    || now.contains(attempt(ips, ports, wave, i))
        }),
    decreases n,
{
    let now = in_wave(before, ips, ports, excluded, wave, n);
    if n > 0 {
        a_wave_lists(before, ips, ports, excluded, wave, n - 1);
        let listed = in_wave(before, ips, ports, excluded, wave, n - 1);
        let next = attempt(ips, ports, wave, n - 1);
        assert forall|e: Endpoint| #[trigger] listed.contains(e) implies now.contains(e) by {
            let i = choose|i: int| 0 <= i < listed.len() && listed[i] == e;
            assert(now[i] == e);
        }
        if !excluded.contains(next) && !listed.contains(next) {
            assert(now[listed.len() as int] == next);
        }
    }
}

/// Every address is tried in every wave, on the port of that wave, unless just
/// that endpoint is excluded.
pub proof fn nothing_is_left_out(
    ips: Seq<IpAddress>,
    ports: Seq<u16>,
    excluded: Seq<Endpoint>,
    waves: int,
    wave: int,
    i: int,
)
    requires
        0 <= wave < waves,
        0 <= i < ips.len(),
    ensures
        ({
            let e = Endpoint { ip: ips[i], port: ports[(i + wave) % (ports.len() as int)] };
            excluded.contains(e) || scheduled(ips, ports, excluded, waves).contains(e)
        }),
    decreases waves,
{
    let before = scheduled(ips, ports, excluded, waves - 1);
    a_wave_lists(before, ips, ports, excluded, waves - 1, ips.len() as int);
    let e = attempt(ips, ports, wave, i);
    if wave < waves - 1 {
        nothing_is_left_out(ips, ports, excluded, waves - 1, wave, i);
        if !excluded.contains(e) {
            assert(before.contains(e));
        }
    }
}

} // verus!
