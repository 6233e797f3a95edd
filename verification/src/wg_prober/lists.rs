//! Putting the addresses and ports of a scan in order.

use std::collections::HashSet;

use vstd::prelude::*;

use crate::addr::IpAddress;

verus! {

broadcast use vstd::std_specs::hash::group_hash_axioms;

/// The entries without those that occur before.
pub open spec fn firsts<T>(s: Seq<T>) -> Seq<T>
    decreases s.len(),
{
    if s.len() == 0 {
        s
    } else {
        let before = firsts(s.drop_last());
        if before.contains(s.last()) {
            before
        } else {
            before.push(s.last())
        }
    }
}

/// Without its repetitions a list has the same entries, each once.
pub proof fn firsts_are_distinct<T>(s: Seq<T>)
    ensures
        firsts(s).no_duplicates(),
        firsts(s).len() <= s.len(),
        forall|x: T| firsts(s).contains(x) <==> #[trigger] s.contains(x),
    decreases s.len(),
{
    if s.len() > 0 {
        let before = s.drop_last();
        firsts_are_distinct(before);
        assert(s =~= before.push(s.last()));
        assert forall|x: T| firsts(s).contains(x) <==> #[trigger] s.contains(x) by {
            if s.contains(x) {
                let i = choose|i: int| 0 <= i < s.len() && s[i] == x;
                if i < before.len() {
                    assert(before[i] == x);
                    assert(before.contains(x));
                    let k = choose|k: int| 0 <= k < firsts(before).len() && firsts(before)[k] == x;
                    assert(firsts(s)[k] == x);
                } else if !firsts(before).contains(x) {
                    assert(firsts(s)[firsts(before).len() as int] == x);
                }
            }
            if firsts(s).contains(x) && x != s.last() {
                let k = choose|k: int| 0 <= k < firsts(s).len() && firsts(s)[k] == x;
                assert(firsts(before)[k] == x);
                assert(before.contains(x));
                let i = choose|i: int| 0 <= i < before.len() && before[i] == x;
                assert(s[i] == x);
            }
            if firsts(s).contains(x) && x == s.last() {
                assert(s[s.len() - 1] == x);
            }
        }
    }
}

/// A list without repetitions stays as it is.
pub proof fn distinct_lists_stay<T>(s: Seq<T>)
    requires
        s.no_duplicates(),
    ensures
        firsts(s) == s,
    decreases s.len(),
{
    if s.len() > 0 {
        distinct_lists_stay(s.drop_last());
        assert(!s.drop_last().contains(s.last()));
        assert(s =~= s.drop_last().push(s.last()));
    }
}

/// Leaving out repetitions of a list changes nothing before its first one.
pub proof fn firsts_extend<T>(s: Seq<T>, n: int)
    requires
        0 <= n <= s.len(),
    ensures
        firsts(s.take(n)).len() <= firsts(s).len(),
        firsts(s).take(firsts(s.take(n)).len() as int) == firsts(s.take(n)),
    decreases s.len(),
{
    if n < s.len() {
        firsts_extend(s.drop_last(), n);
        assert(s.drop_last().take(n) =~= s.take(n));
        let k = firsts(s.take(n)).len() as int;
        assert(firsts(s).take(k) =~= firsts(s.drop_last()).take(k));
    } else {
        assert(s.take(n) =~= s);
        assert(firsts(s).take(firsts(s).len() as int) =~= firsts(s));
    }
}

/// The default port, where no ports are given.
pub const DEFAULT_PORT: u16 = 2408;

/// The ports to try: those given, each once, or the default one.
pub open spec fn ports_to_try(ports: Seq<u16>) -> Seq<u16> {
    if ports.len() == 0 {
        seq![DEFAULT_PORT]
    } else {
        firsts(ports)
    }
}

fn has_port(ports: &Vec<u16>, port: u16) -> (r: bool)
    ensures
        r == ports@.contains(port),
{
    let mut i: usize = 0;
    while i < ports.len()
        invariant
            i <= ports@.len(),
            forall|j: int| 0 <= j < i ==> ports@[j] != port,
        decreases ports@.len() - i,
    {
        if ports[i] == port {
            return true;
        }
        i = i + 1;
    }
    false
}

/// The ports without repetitions, or the default port.
pub fn distinct_ports(ports: &Vec<u16>) -> (r: Vec<u16>)
    ensures
        r@ == ports_to_try(ports@),
        r@.len() > 0,
        r@.no_duplicates(),
{
    let mut kept: Vec<u16> = Vec::new();
    let mut i: usize = 0;
    assert(ports@.take(0) =~= Seq::empty());
    while i < ports.len()
        invariant
            i <= ports@.len(),
            kept@ == firsts(ports@.take(i as int)),
        decreases ports@.len() - i,
    {
        assert(ports@.take(i + 1).drop_last() =~= ports@.take(i as int));
        if !has_port(&kept, ports[i]) {
            kept.push(ports[i]);
        }
        i = i + 1;
    }
    assert(ports@.take(i as int) =~= ports@);
    proof {
        firsts_are_distinct(ports@);
        if ports@.len() > 0 {
            assert(ports@.contains(ports@[0]));
            assert(firsts(ports@).contains(ports@[0]));
        }
    }
    if kept.len() == 0 {
        kept.push(DEFAULT_PORT);
        assert(kept@ =~= seq![DEFAULT_PORT]);
    }
    kept
}

/// A set of addresses.
pub struct AddressSet {
    v4: HashSet<u32>,
    v6: HashSet<u128>,
}

impl AddressSet {
    pub closed spec fn has(&self, ip: IpAddress) -> bool {
        match ip {
            IpAddress::V4(a) => self.v4@.contains(a),
            IpAddress::V6(a) => self.v6@.contains(a),
        }
    }

    pub fn new() -> (r: AddressSet)
        ensures
            forall|ip: IpAddress| !r.has(ip),
    {
        AddressSet { v4: HashSet::new(), v6: HashSet::new() }
    }

    /// Puts an address in; whether it was not in yet.
    pub fn insert(&mut self, ip: IpAddress) -> (r: bool)
        ensures
            r == !old(self).has(ip),
            forall|other: IpAddress|
                #[trigger] final(self).has(other) == (old(self).has(other) || other == ip),
    {
        match ip {
            IpAddress::V4(a) => self.v4.insert(a),
            IpAddress::V6(a) => self.v6.insert(a),
        }
    }
}

/// The addresses without repetitions.
pub fn distinct_addresses(list: &Vec<IpAddress>) -> (r: Vec<IpAddress>)
    ensures
        r@ == firsts(list@),
{
    let mut kept: Vec<IpAddress> = Vec::new();
    let mut seen = AddressSet::new();
    let mut i: usize = 0;
    assert(list@.take(0) =~= Seq::empty());
    while i < list.len()
        invariant
            i <= list@.len(),
            kept@ == firsts(list@.take(i as int)),
            forall|ip: IpAddress| #[trigger] seen.has(ip) <==> kept@.contains(ip),
        decreases list@.len() - i,
    {
        assert(list@.take(i + 1).drop_last() =~= list@.take(i as int));
        let ip = list[i];
        let ghost before = kept@;
        if seen.insert(ip) {
            kept.push(ip);
        }
        proof {
            assert forall|other: IpAddress| #[trigger] seen.has(other) <==> kept@.contains(other) by {
                if before.contains(other) {
                    let k = choose|k: int| 0 <= k < before.len() && before[k] == other;
                    assert(kept@[k] == other);
                }
                if other == ip && kept@.len() > before.len() {
                    assert(kept@[before.len() as int] == ip);
                }
                if kept@.contains(other) && other != ip {
                    let k = choose|k: int| 0 <= k < kept@.len() && kept@[k] == other;
                    assert(before[k] == other);
                }
            }
        }
        i = i + 1;
    }
    assert(list@.take(i as int) =~= list@);
    kept
}

/// What the lists hold.
pub open spec fn contents<T>(lists: Seq<Vec<T>>) -> Seq<Seq<T>> {
    lists.map_values(|list: Vec<T>| list@)
}

/// The entries at one place of the first `k` lists, where these are so long.
pub open spec fn row<T>(lists: Seq<Seq<T>>, place: int, k: int) -> Seq<T>
    decreases k,
{
    if k <= 0 {
        Seq::empty()
    } else if place < lists[k - 1].len() {
        row(lists, place, k - 1).push(lists[k - 1][place])
    } else {
        row(lists, place, k - 1)
    }
}

/// The entries at the first `n` places of all the lists, place by place.
pub open spec fn rows<T>(lists: Seq<Seq<T>>, n: int) -> Seq<T>
    decreases n,
{
    if n <= 0 {
        Seq::empty()
    } else {
        rows(lists, n - 1) + row(lists, n - 1, lists.len() as int)
    }
}

/// The length of the longest list.
pub open spec fn longest<T>(lists: Seq<Seq<T>>) -> nat
    decreases lists.len(),
{
    if lists.len() == 0 {
        0
    } else if longest(lists.drop_last()) < lists.last().len() {
        lists.last().len()
    } else {
        longest(lists.drop_last())
    }
}

/// The entries of the lists, one of each list in turn.
pub open spec fn interleaved<T>(lists: Seq<Seq<T>>) -> Seq<T> {
    rows(lists, longest(lists) as int)
}

/// Takes one entry of each list in turn.
pub fn interleave<T: Copy>(lists: &Vec<Vec<T>>) -> (r: Vec<T>)
    ensures
        r@ == interleaved(contents(lists@)),
{
    let ghost all = contents(lists@);
    let mut max: usize = 0;
    let mut k: usize = 0;
    assert(all.take(0) =~= Seq::empty());
    while k < lists.len()
        invariant
            all == contents(lists@),
            k <= lists@.len(),
            max == longest(all.take(k as int)),
        decreases lists@.len() - k,
    {
        assert(all.take(k + 1).drop_last() =~= all.take(k as int));
        assert(all.take(k + 1).last() == lists@[k as int]@);
        if max < lists[k].len() {
            max = lists[k].len();
        }
        k = k + 1;
    }
    assert(all.take(k as int) =~= all);
    let mut out: Vec<T> = Vec::new();
    let mut place: usize = 0;
    while place < max
        invariant
            all == contents(lists@),
            place <= max,
            out@ == rows(all, place as int),
        decreases max - place,
    {
        let mut k: usize = 0;
        assert(out@ =~= rows(all, place as int) + row(all, place as int, 0));
        while k < lists.len()
            invariant
                all == contents(lists@),
                k <= lists@.len(),
                out@ == rows(all, place as int) + row(all, place as int, k as int),
            decreases lists@.len() - k,
        {
            assert(all[k as int] == lists@[k as int]@);
            if place < lists[k].len() {
                out.push(lists[k][place]);
            }
            k = k + 1;
            assert(out@ =~= rows(all, place as int) + row(all, place as int, k as int));
        }
        place = place + 1;
    }
    out
}

proof fn row_holds<T>(lists: Seq<Seq<T>>, place: int, k: int)
    requires
        0 <= place,
        0 <= k <= lists.len(),
    ensures
        forall|x: T|
            row(lists, place, k).contains(x) <==> exists|l: int|
                0 <= l < k && place < (#[trigger] lists[l]).len() && lists[l][place] == x,
    decreases k,
{
    if k > 0 {
        row_holds(lists, place, k - 1);
        let before = row(lists, place, k - 1);
        let now = row(lists, place, k);
        assert forall|x: T| now.contains(x) <==> exists|l: int|
            0 <= l < k && place < (#[trigger] lists[l]).len() && lists[l][place] == x by {
            if now.contains(x) {
                let i = choose|i: int| 0 <= i < now.len() && now[i] == x;
                if i < before.len() {
                    assert(before[i] == x);
                    assert(before.contains(x));
                } else {
                    assert(lists[k - 1][place] == x);
                }
            }
            if exists|l: int|
                0 <= l < k && place < (#[trigger] lists[l]).len() && lists[l][place] == x {
                let l = choose|l: int|
                    0 <= l < k && place < (#[trigger] lists[l]).len() && lists[l][place] == x;
                if l == k - 1 {
                    assert(now[before.len() as int] == x);
                } else {
                    assert(before.contains(x));
                    let i = choose|i: int| 0 <= i < before.len() && before[i] == x;
                    assert(now[i] == x);
                }
            }
        }
    }
}

proof fn rows_hold<T>(lists: Seq<Seq<T>>, n: int)
    requires
        0 <= n,
    ensures
        forall|x: T|
            rows(lists, n).contains(x) <==> exists|l: int, place: int|
                0 <= l < lists.len() && 0 <= place < n && place < lists[l].len()
                    && #[trigger] lists[l][place] == x,
    decreases n,
{
    if n > 0 {
        rows_hold(lists, n - 1);
        row_holds(lists, n - 1, lists.len() as int);
        let before = rows(lists, n - 1);
        let added = row(lists, n - 1, lists.len() as int);
        let now = before + added;
        assert forall|x: T| now.contains(x) <==> exists|l: int, place: int|
            0 <= l < lists.len() && 0 <= place < n && place < lists[l].len()
                && #[trigger] lists[l][place] == x by {
            if now.contains(x) {
                let i = choose|i: int| 0 <= i < now.len() && now[i] == x;
                if i < before.len() {
                    assert(before[i] == x);
                    assert(before.contains(x));
                } else {
                    assert(added[i - before.len()] == x);
                    assert(added.contains(x));
                    let l = choose|l: int|
                        0 <= l < lists.len() && n - 1 < (#[trigger] lists[l]).len() && lists[l][n
                            - 1] == x;
                    assert(lists[l][n - 1] == x);
                }
            }
            if exists|l: int, place: int|
                0 <= l < lists.len() && 0 <= place < n && place < lists[l].len()
                    && #[trigger] lists[l][place] == x {
                let (l, place) = choose|l: int, place: int|
                    0 <= l < lists.len() && 0 <= place < n && place < lists[l].len()
                        && #[trigger] lists[l][place] == x;
                if place == n - 1 {
                    assert(n - 1 < lists[l].len());
                    assert(added.contains(x));
                    let i = choose|i: int| 0 <= i < added.len() && added[i] == x;
                    assert(now[before.len() + i] == x);
                } else {
                    assert(before.contains(x));
                    let i = choose|i: int| 0 <= i < before.len() && before[i] == x;
                    assert(now[i] == x);
                }
            }
        }
    }
}

proof fn longest_is_longest<T>(lists: Seq<Seq<T>>)
    ensures
        forall|l: int| 0 <= l < lists.len() ==> (#[trigger] lists[l]).len() <= longest(lists),
    decreases lists.len(),
{
    if lists.len() > 0 {
        longest_is_longest(lists.drop_last());
        assert forall|l: int| 0 <= l < lists.len() implies (#[trigger] lists[l]).len() <= longest(
            lists,
        ) by {
            if l < lists.len() - 1 {
                assert(lists.drop_last()[l] == lists[l]);
            }
        }
    }
}

/// Taking turns loses no entry and makes none up.
pub proof fn interleaving_keeps_the_entries<T>(lists: Seq<Seq<T>>)
    ensures
        forall|x: T|
            #[trigger] interleaved(lists).contains(x) <==> exists|l: int, place: int|
                0 <= l < lists.len() && 0 <= place < lists[l].len() && #[trigger] lists[l][place]
                    == x,
{
    longest_is_longest(lists);
    rows_hold(lists, longest(lists) as int);
}

/// No list gets ahead: the entries at the first places of all the lists come
/// before every entry at a later place.
pub proof fn no_list_gets_ahead<T>(lists: Seq<Seq<T>>, n: int)
    requires
        0 <= n <= longest(lists),
    ensures
        rows(lists, n).len() <= interleaved(lists).len(),
        interleaved(lists).take(rows(lists, n).len() as int) == rows(lists, n),
        forall|x: T|
            #[trigger] rows(lists, n).contains(x) <==> exists|l: int, place: int|
                0 <= l < lists.len() && 0 <= place < n && place < lists[l].len()
                    && #[trigger] lists[l][place] == x,
{
    rows_extend(lists, n, longest(lists) as int);
    rows_hold(lists, n);
}

proof fn rows_extend<T>(lists: Seq<Seq<T>>, n: int, m: int)
    requires
        0 <= n <= m,
    ensures
        rows(lists, n).len() <= rows(lists, m).len(),
        rows(lists, m).take(rows(lists, n).len() as int) == rows(lists, n),
    decreases m - n,
{
    if n < m {
        rows_extend(lists, n, m - 1);
        let k = rows(lists, n).len() as int;
        assert(rows(lists, m).take(k) =~= rows(lists, m - 1).take(k));
    } else {
        assert(rows(lists, m).take(rows(lists, n).len() as int) =~= rows(lists, n));
    }
}

proof fn full_rows<T>(lists: Seq<Seq<T>>, place: int, k: int)
    requires
        0 <= k <= lists.len(),
        forall|l: int| 0 <= l < k ==> place < (#[trigger] lists[l]).len(),
    ensures
        row(lists, place, k).len() == k,
        forall|l: int| 0 <= l < k ==> #[trigger] row(lists, place, k)[l] == lists[l][place],
    decreases k,
{
    if k > 0 {
        full_rows(lists, place, k - 1);
        assert(place < lists[k - 1].len());
    }
}

proof fn full_places<T>(lists: Seq<Seq<T>>, n: int)
    requires
        0 <= n,
        forall|l: int| 0 <= l < lists.len() ==> n <= (#[trigger] lists[l]).len(),
    ensures
        rows(lists, n).len() == n * lists.len(),
        forall|place: int, l: int|
            0 <= place < n && 0 <= l < lists.len() ==> #[trigger] rows(lists, n)[place * lists.len()
                + l] == lists[l][place],
    decreases n,
{
    let len = lists.len() as int;
    if n > 0 {
        full_places(lists, n - 1);
        assert forall|l: int| 0 <= l < lists.len() implies n - 1 < (#[trigger] lists[l]).len() by {}
        full_rows(lists, n - 1, len);
        assert(n * len == (n - 1) * len + len) by (nonlinear_arith);
        assert forall|place: int, l: int| 0 <= place < n && 0 <= l < len implies #[trigger] rows(
            lists,
            n,
        )[place * len + l] == lists[l][place] by {
            assert(0 <= place * len + l) by (nonlinear_arith)
                requires
                    0 <= place,
                    0 <= l < len,
            ;
            if place < n - 1 {
                assert(place * len + l < (n - 1) * len) by (nonlinear_arith)
                    requires
                        place < n - 1,
                        0 <= l < len,
                ;
                assert(rows(lists, n - 1)[place * len + l] == lists[l][place]);
            }
        }
    } else {
        assert(n * len == 0) by (nonlinear_arith)
            requires
                n == 0,
        ;
    }
}

/// Taking turns takes the first entry of each list in the order of the lists,
/// then the second of each, and so on as long as all of them have one.
pub proof fn turns_go_round<T>(lists: Seq<Seq<T>>, n: int, place: int, l: int)
    requires
        0 <= place < n,
        0 <= l < lists.len(),
        forall|k: int| 0 <= k < lists.len() ==> n <= (#[trigger] lists[k]).len(),
    ensures
        place * lists.len() + l < interleaved(lists).len(),
        interleaved(lists)[place * lists.len() + l] == lists[l][place],
{
    let len = lists.len() as int;
    longest_is_longest(lists);
    assert(n <= lists[l].len());
    full_places(lists, n);
    rows_extend(lists, n, longest(lists) as int);
    assert(0 <= place * len + l < n * len) by (nonlinear_arith)
        requires
            0 <= place < n,
            0 <= l < len,
    ;
    let i = place * len + l;
    assert(interleaved(lists).take(rows(lists, n).len() as int)[i] == rows(lists, n)[i]);
}

} // verus!
