//! The endpoints that a scan tries.

use vstd::prelude::*;

use crate::addr::{Endpoint, IpAddress};
use crate::cidr::{parse_ipv4, parse_ipv6};
#[allow(unused_imports)]
use crate::cidr::{ipv4_value, ipv6_value, range_v4, range_v6};
use crate::text::chars_of;
use crate::wg_prober::hosts::{enumerate_cidr_v4, sample_cidr_v4, sample_cidr_v6};
#[allow(unused_imports)]
use crate::wg_prober::hosts::{
    hosts_are_in_range,
    hosts_of,
    in_range,
    is_sample,
    is_sample_v6,
    ranges_of,
};
use crate::wg_prober::lists::{distinct_addresses, distinct_ports, interleave, DEFAULT_PORT};
#[allow(unused_imports)]
use crate::wg_prober::lists::{contents, firsts, firsts_extend, interleaved, ports_to_try};
use crate::wg_prober::manual::custom_wg_cidrs_v4;
#[allow(unused_imports)]
use crate::wg_prober::manual::{manual_ranges, setting, texts};
use crate::wg_prober::mode::WgStrategy;
#[allow(unused_imports)]
use crate::wg_prober::schedule::{
    attempt,
    attempts_are_new_and_allowed,
    every_wave_tries_every_address,
    scheduled,
    waves_follow_each_other,
};
use crate::wg_prober::schedule::schedule_attempts;
use crate::wireguard::ranges::{
    wg_prefixes_v4,
    wg_prefixes_v6,
    wg_seeds_v4,
    WG_PREFIXES_V4,
    WG_SEEDS_V6,
};
#[allow(unused_imports)]
use crate::wireguard::ranges::{
    in_order,
    WG_PREFIXES_V6,
    WG_SEEDS_V4,
    WG_ZT_PREFIXES_V4,
    WG_ZT_PREFIXES_V6,
    WG_ZT_SEEDS_V4,
};

verus! {

/// Which address families a scan tries.
#[derive(Debug, Clone, Copy, PartialEq, Eq, Structural)]
pub enum IpScan {
    V4,
    V6,
    Both,
}

impl IpScan {
    pub open spec fn has_v4(self) -> bool {
        self is V4 || self is Both
    }

    pub open spec fn has_v6(self) -> bool {
        self is V6 || self is Both
    }

    pub fn want_v4(&self) -> (r: bool)
        ensures
            r == self.has_v4(),
    {
        match self {
            IpScan::V6 => false,
            _ => true,
        }
    }

    pub fn want_v6(&self) -> (r: bool)
        ensures
            r == self.has_v6(),
    {
        match self {
            IpScan::V4 => false,
            _ => true,
        }
    }

    /// The families that can be tried, given whether the host can reach IPv6
    /// addresses: a scan for both falls back to IPv4, and one for IPv6 alone
    /// cannot be made.
    pub fn reachable(&self, has_ipv6: bool) -> (r: Option<IpScan>)
        ensures
            r == if has_ipv6 || !self.has_v6() {
                Some(*self)
            } else if self.has_v4() {
                Some(IpScan::V4)
            } else {
                None
            },
    {
        if has_ipv6 || !self.want_v6() {
            Some(*self)
        } else if self.want_v4() {
            Some(IpScan::V4)
        } else {
            None
        }
    }
}

/// The IPv4 addresses among the texts.
pub open spec fn addresses_v4(list: Seq<&'static str>) -> Seq<IpAddress>
    decreases list.len(),
{
    if list.len() == 0 {
        Seq::empty()
    } else {
        let before = addresses_v4(list.drop_last());
        match ipv4_value(list.last()@) {
            Some(ip) => before.push(IpAddress::V4(ip)),
            None => before,
        }
    }
}

/// The IPv6 addresses among the texts.
pub open spec fn addresses_v6(list: Seq<&'static str>) -> Seq<IpAddress>
    decreases list.len(),
{
    if list.len() == 0 {
        Seq::empty()
    } else {
        let before = addresses_v6(list.drop_last());
        match ipv6_value(list.last()@) {
            Some(ip) => before.push(IpAddress::V6(ip)),
            None => before,
        }
    }
}

/// The edges that are tried before any other.
pub open spec fn anchors_of(ip: IpScan, team: bool) -> Seq<IpAddress> {
    (if ip.has_v4() {
        addresses_v4(in_order(WG_SEEDS_V4@, WG_ZT_SEEDS_V4@, team))
    } else {
        Seq::empty()
    }) + (if ip.has_v6() {
        addresses_v6(WG_SEEDS_V6@)
    } else {
        Seq::empty()
    })
}

fn parse_addresses_v4(list: &Vec<&'static str>) -> (r: Vec<IpAddress>)
    ensures
        r@ == addresses_v4(list@),
{
    let mut out: Vec<IpAddress> = Vec::new();
    let mut i: usize = 0;
    assert(list@.take(0) =~= Seq::empty());
    while i < list.len()
        invariant
            i <= list@.len(),
            out@ == addresses_v4(list@.take(i as int)),
        decreases list@.len() - i,
    {
        assert(list@.take(i + 1).drop_last() =~= list@.take(i as int));
        if let Some(ip) = parse_ipv4(&chars_of(list[i])) {
            out.push(IpAddress::V4(ip));
        }
        i = i + 1;
    }
    assert(list@.take(i as int) =~= list@);
    out
}

fn parse_addresses_v6(list: &[&'static str]) -> (r: Vec<IpAddress>)
    ensures
        r@ == addresses_v6(list@),
{
    let mut out: Vec<IpAddress> = Vec::new();
    let mut i: usize = 0;
    assert(list@.take(0) =~= Seq::empty());
    while i < list.len()
        invariant
            i <= list@.len(),
            out@ == addresses_v6(list@.take(i as int)),
        decreases list@.len() - i,
    {
        assert(list@.take(i + 1).drop_last() =~= list@.take(i as int));
        if let Some(ip) = parse_ipv6(list[i]) {
            out.push(IpAddress::V6(ip));
        }
        i = i + 1;
    }
    assert(list@.take(i as int) =~= list@);
    out
}

fn anchors(ip: IpScan, team: bool) -> (r: Vec<IpAddress>)
    ensures
        r@ == anchors_of(ip, team),
{
    let mut out: Vec<IpAddress> = Vec::new();
    if ip.want_v4() {
        out = parse_addresses_v4(&wg_seeds_v4(team));
    }
    if ip.want_v6() {
        let mut more = parse_addresses_v6(WG_SEEDS_V6.as_slice());
        out.append(&mut more);
    }
    assert(out@ =~= anchors_of(ip, team));
    out
}

/// Whether these are hosts that a strategy takes from a range: all that are
/// listed, or a sample.
pub open spec fn takes_v4(st: WgStrategy, cidr: Seq<char>, hosts: Seq<u32>) -> bool {
    match range_v4(cidr) {
        None => hosts.len() == 0,
        Some((base, prefix)) => if st.full_subnet {
            hosts == hosts_of(base, prefix)
        } else {
            is_sample(base, prefix, st.sample_per_cidr as nat, hosts)
        },
    }
}

/// How many hosts a strategy takes from an IPv6 range.
pub open spec fn sample_size_v6(st: WgStrategy) -> nat {
    if st.sample_per_cidr == 0 {
        80
    } else {
        st.sample_per_cidr as nat
    }
}

/// Whether these are hosts that a strategy takes from an IPv6 range.
pub open spec fn takes_v6(st: WgStrategy, cidr: Seq<char>, hosts: Seq<u128>) -> bool {
    match range_v6(cidr) {
        None => hosts.len() == 0,
        Some((base, prefix)) => is_sample_v6(
            base,
            prefix,
            sample_size_v6(st),
            ranges_of(WG_PREFIXES_V4@),
            hosts,
        ),
    }
}

/// Whether the lists hold hosts of these ranges, one list for each range.
pub open spec fn takes_all_v4(
    st: WgStrategy,
    cidrs: Seq<Seq<char>>,
    lists: Seq<Seq<u32>>,
) -> bool {
    &&& lists.len() == cidrs.len()
    &&& forall|k: int| 0 <= k < cidrs.len() ==> takes_v4(st, cidrs[k], #[trigger] lists[k])
}

/// The same for IPv6 ranges.
pub open spec fn takes_all_v6(
    st: WgStrategy,
    cidrs: Seq<Seq<char>>,
    lists: Seq<Seq<u128>>,
) -> bool {
    &&& lists.len() == cidrs.len()
    &&& forall|k: int| 0 <= k < cidrs.len() ==> takes_v6(st, cidrs[k], #[trigger] lists[k])
}

/// The texts of the slices.
pub open spec fn slices(list: Seq<&'static str>) -> Seq<Seq<char>> {
    list.map_values(|s: &'static str| s@)
}

/// The hosts as addresses.
pub open spec fn as_v4(hosts: Seq<u32>) -> Seq<IpAddress> {
    hosts.map_values(|ip: u32| IpAddress::V4(ip))
}

/// The hosts as addresses.
pub open spec fn as_v6(hosts: Seq<u128>) -> Seq<IpAddress> {
    hosts.map_values(|ip: u128| IpAddress::V6(ip))
}

/// Takes hosts from one range.
fn take_hosts(st: &WgStrategy, cidr: &str) -> (r: Vec<u32>)
    ensures
        takes_v4(*st, cidr@, r@),
{
    if st.full_subnet {
        enumerate_cidr_v4(cidr)
    } else {
        sample_cidr_v4(cidr, st.sample_per_cidr)
    }
}

/// Takes one host of each list in turn.
fn in_turn_v4(lists: &Vec<Vec<u32>>) -> (r: Vec<IpAddress>)
    ensures
        r@ == as_v4(interleaved(contents(lists@))),
{
    let hosts = interleave(lists);
    let mut out: Vec<IpAddress> = Vec::new();
    let mut i: usize = 0;
    while i < hosts.len()
        invariant
            i <= hosts@.len(),
            out@ == as_v4(hosts@.take(i as int)),
        decreases hosts@.len() - i,
    {
        out.push(IpAddress::V4(hosts[i]));
        i = i + 1;
        assert(out@ =~= as_v4(hosts@.take(i as int)));
    }
    assert(hosts@.take(i as int) =~= hosts@);
    out
}

/// Takes one host of each list in turn.
fn in_turn_v6(lists: &Vec<Vec<u128>>) -> (r: Vec<IpAddress>)
    ensures
        r@ == as_v6(interleaved(contents(lists@))),
{
    let hosts = interleave(lists);
    let mut out: Vec<IpAddress> = Vec::new();
    let mut i: usize = 0;
    while i < hosts.len()
        invariant
            i <= hosts@.len(),
            out@ == as_v6(hosts@.take(i as int)),
        decreases hosts@.len() - i,
    {
        out.push(IpAddress::V6(hosts[i]));
        i = i + 1;
        assert(out@ =~= as_v6(hosts@.take(i as int)));
    }
    assert(hosts@.take(i as int) =~= hosts@);
    out
}

/// The hosts of the edges' IPv4 ranges.
fn pool_v4(st: &WgStrategy, team: bool) -> (r: Vec<IpAddress>)
    ensures
        exists|lists: Seq<Seq<u32>>| #[trigger]
            takes_all_v4(
                *st,
                slices(in_order(WG_PREFIXES_V4@, WG_ZT_PREFIXES_V4@, team)),
                lists,
            ) && r@ == as_v4(interleaved(lists)),
{
    let cidrs = wg_prefixes_v4(team);
    let mut lists: Vec<Vec<u32>> = Vec::new();
    let mut i: usize = 0;
    while i < cidrs.len()
        invariant
            i <= cidrs@.len(),
            lists@.len() == i,
            forall|k: int| 0 <= k < i ==> takes_v4(*st, cidrs@[k]@, (#[trigger] lists@[k])@),
        decreases cidrs@.len() - i,
    {
        lists.push(take_hosts(st, cidrs[i]));
        i = i + 1;
    }
    assert(takes_all_v4(*st, slices(cidrs@), contents(lists@)));
    in_turn_v4(&lists)
}

/// The hosts of the edges' IPv6 ranges.
fn pool_v6(st: &WgStrategy, team: bool) -> (r: Vec<IpAddress>)
    ensures
        exists|lists: Seq<Seq<u128>>| #[trigger]
            takes_all_v6(
                *st,
                slices(in_order(WG_PREFIXES_V6@, WG_ZT_PREFIXES_V6@, team)),
                lists,
            ) && r@ == as_v6(interleaved(lists)),
{
    let cidrs = wg_prefixes_v6(team);
    let per: u32 = if st.sample_per_cidr == 0 {
        80
    } else {
        st.sample_per_cidr
    };
    let mut lists: Vec<Vec<u128>> = Vec::new();
    let mut i: usize = 0;
    while i < cidrs.len()
        invariant
            i <= cidrs@.len(),
            per == sample_size_v6(*st),
            lists@.len() == i,
            forall|k: int| 0 <= k < i ==> takes_v6(*st, cidrs@[k]@, (#[trigger] lists@[k])@),
        decreases cidrs@.len() - i,
    {
        lists.push(sample_cidr_v6(cidrs[i], per, WG_PREFIXES_V4.as_slice()));
        i = i + 1;
    }
    assert(takes_all_v6(*st, slices(cidrs@), contents(lists@)));
    in_turn_v6(&lists)
}

/// How many waves a strategy makes.
pub open spec fn waves_of(st: WgStrategy) -> int {
    if st.pool_port_waves == 0 {
        1
    } else {
        st.pool_port_waves as int
    }
}

fn waves(st: &WgStrategy) -> (r: usize)
    ensures
        r == waves_of(*st),
{
    if st.pool_port_waves == 0 {
        1
    } else {
        st.pool_port_waves
    }
}

/// Lists the endpoints at which these addresses are tried: the anchors first,
/// then the pool, every address once in each wave.
pub fn order_candidates(
    anchors: Vec<IpAddress>,
    pool: Vec<IpAddress>,
    ports: &Vec<u16>,
    excluded: &Vec<Endpoint>,
    st: &WgStrategy,
) -> (r: Vec<Endpoint>)
    ensures
        r@ == scheduled(
            firsts(anchors@ + pool@),
            ports_to_try(ports@),
            excluded@,
            waves_of(*st),
        ),
{
    let mut list = anchors;
    let mut pool = pool;
    list.append(&mut pool);
    let ips = distinct_addresses(&list);
    let ports = distinct_ports(ports);
    schedule_attempts(&ips, &ports, excluded, waves(st))
}

/// The ports as they are given, or the default one where none is.
pub open spec fn given_ports(ports: Seq<u16>) -> Seq<u16> {
    if ports.len() == 0 {
        seq![DEFAULT_PORT]
    } else {
        ports
    }
}

/// Whether these are candidates from the ranges that the user gives: hosts of
/// these ranges and no others, one of each range in turn.
pub open spec fn from_manual_ranges(
    st: WgStrategy,
    ports: Seq<u16>,
    cidrs: Seq<Seq<char>>,
    excluded: Seq<Endpoint>,
    candidates: Seq<Endpoint>,
) -> bool {
    exists|lists: Seq<Seq<u32>>| #[trigger]
        takes_all_v4(st, cidrs, lists) && candidates == scheduled(
            as_v4(interleaved(lists)),
            given_ports(ports),
            excluded,
            waves_of(st),
        )
}

/// The candidates in the ranges that the user gives.
pub fn manual_wg_candidates(
    st: &WgStrategy,
    ports: &Vec<u16>,
    cidrs: &Vec<String>,
    excluded: &Vec<Endpoint>,
) -> (r: Vec<Endpoint>)
    ensures
        from_manual_ranges(*st, ports@, texts(cidrs@), excluded@, r@),
{
    let mut lists: Vec<Vec<u32>> = Vec::new();
    let mut i: usize = 0;
    while i < cidrs.len()
        invariant
            i <= cidrs@.len(),
            lists@.len() == i,
            forall|k: int| 0 <= k < i ==> takes_v4(*st, cidrs@[k]@, (#[trigger] lists@[k])@),
        decreases cidrs@.len() - i,
    {
        lists.push(take_hosts(st, cidrs[i].as_str()));
        i = i + 1;
    }
    assert(takes_all_v4(*st, texts(cidrs@), contents(lists@)));
    let ips = in_turn_v4(&lists);
    if ports.len() == 0 {
        let mut ports: Vec<u16> = Vec::new();
        ports.push(DEFAULT_PORT);
        assert(ports@ =~= seq![DEFAULT_PORT]);
        return schedule_attempts(&ips, &ports, excluded, waves(st));
    }
    schedule_attempts(&ips, ports, excluded, waves(st))
}

/// The IPv4 ranges that a scan tries on its own.
pub open spec fn edge_ranges_v4(ip: IpScan, team: bool) -> Seq<Seq<char>> {
    if ip.has_v4() {
        slices(in_order(WG_PREFIXES_V4@, WG_ZT_PREFIXES_V4@, team))
    } else {
        Seq::empty()
    }
}

/// The IPv6 ranges that a scan tries on its own.
pub open spec fn edge_ranges_v6(ip: IpScan, team: bool) -> Seq<Seq<char>> {
    if ip.has_v6() {
        slices(in_order(WG_PREFIXES_V6@, WG_ZT_PREFIXES_V6@, team))
    } else {
        Seq::empty()
    }
}

/// Whether these are candidates among the known edges: the anchors first, then
/// hosts of the edges' ranges, those of IPv4 before those of IPv6.
pub open spec fn from_known_ranges(
    st: WgStrategy,
    ports: Seq<u16>,
    ip: IpScan,
    team: bool,
    excluded: Seq<Endpoint>,
    candidates: Seq<Endpoint>,
) -> bool {
    exists|v4: Seq<Seq<u32>>, v6: Seq<Seq<u128>>|
        {
            &&& #[trigger] takes_all_v4(
                st,
                edge_ranges_v4(ip, team),
                v4,
            )
            &&& #[trigger] takes_all_v6(
                st,
                edge_ranges_v6(ip, team),
                v6,
            )
            &&& candidates == scheduled(
                firsts(anchors_of(ip, team) + (as_v4(interleaved(v4)) + as_v6(interleaved(v6)))),
                ports_to_try(ports),
                excluded,
                waves_of(st),
            )
        }
}

/// The endpoints to try, in the order in which they are tried. Where the user
/// gives IPv4 ranges and IPv4 is tried, only these are.
pub fn build_wg_candidates(
    st: &WgStrategy,
    ports: &Vec<u16>,
    ip: IpScan,
    excluded: &Vec<Endpoint>,
    team: bool,
    wg_cidrs: Option<&str>,
    scan_cidrs: Option<&str>,
) -> (r: Vec<Endpoint>)
    ensures
        match manual_ranges(setting(wg_cidrs), setting(scan_cidrs)) {
            Some(cidrs) if ip.has_v4() => from_manual_ranges(
                *st,
                ports_to_try(ports@),
                cidrs,
                excluded@,
                r@,
            ),
            _ => from_known_ranges(*st, ports@, ip, team, excluded@, r@),
        },
{
    if ip.want_v4() {
        if let Some(cidrs) = custom_wg_cidrs_v4(wg_cidrs, scan_cidrs) {
            return manual_wg_candidates(st, &distinct_ports(ports), &cidrs, excluded);
        }
    }
    let anchors = anchors(ip, team);
    let mut pool: Vec<IpAddress> = Vec::new();
    let ghost mut v4: Seq<Seq<u32>> = Seq::empty();
    let ghost mut v6: Seq<Seq<u128>> = Seq::empty();
    assert(pool@ =~= as_v4(interleaved(v4)));
    if ip.want_v4() {
        pool = pool_v4(st, team);
        proof {
            v4 = choose|lists: Seq<Seq<u32>>| #[trigger]
                takes_all_v4(*st, edge_ranges_v4(ip, team), lists) && pool@ == as_v4(interleaved(lists));
        }
    }
    let mut more: Vec<IpAddress> = Vec::new();
    assert(more@ =~= as_v6(interleaved(v6)));
    if ip.want_v6() {
        more = pool_v6(st, team);
        proof {
            v6 = choose|lists: Seq<Seq<u128>>| #[trigger]
                takes_all_v6(*st, edge_ranges_v6(ip, team), lists) && more@ == as_v6(interleaved(lists));
        }
    }
    let ghost first = pool@;
    let ghost second = more@;
    pool.append(&mut more);
    assert(pool@ =~= first + second);
    assert(takes_all_v4(*st, edge_ranges_v4(ip, team), v4));
    assert(takes_all_v6(*st, edge_ranges_v6(ip, team), v6));
    order_candidates(anchors, pool, ports, excluded, st)
}

/// The anchors come first, each on a port of its own, where they are different
/// and nothing is excluded.
pub proof fn anchors_come_first(
    anchors: Seq<IpAddress>,
    pool: Seq<IpAddress>,
    ports: Seq<u16>,
    waves: int,
    i: int,
)
    requires
        anchors.no_duplicates(),
        ports.len() > 0,
        1 <= waves,
        0 <= i < anchors.len(),
    ensures
        ({
            let candidates = scheduled(
                firsts(anchors + pool),
                ports_to_try(ports),
                Seq::empty(),
                waves,
            );
            &&& i < candidates.len()
            &&& candidates[i] == attempt(anchors, ports_to_try(ports), 0, i)
        }),
{
    let none = Seq::<Endpoint>::empty();
    let ips = firsts(anchors + pool);
    let tried = ports_to_try(ports);
    crate::wg_prober::lists::firsts_are_distinct(ports);
    assert(ports.contains(ports[0]));
    assert(tried.contains(ports[0]));
    crate::wg_prober::lists::firsts_are_distinct(anchors + pool);
    firsts_extend(anchors + pool, anchors.len() as int);
    assert((anchors + pool).take(anchors.len() as int) =~= anchors);
    crate::wg_prober::lists::distinct_lists_stay(anchors);
    assert(ips.take(anchors.len() as int) == anchors);
    assert(ips[i] == ips.take(anchors.len() as int)[i]);
    every_wave_tries_every_address(ips, tried, 1, 0, i);
    waves_follow_each_other(ips, tried, none, 1, waves);
    let early = scheduled(ips, tried, none, 1);
    let all = scheduled(ips, tried, none, waves);
    assert(1 * ips.len() == ips.len() && 0 * ips.len() == 0) by (nonlinear_arith);
    assert(all[i] == all.take(early.len() as int)[i]);
    assert(early[i] == attempt(ips, tried, 0, i));
}

proof fn some_port(ports: Seq<u16>)
    ensures
        ports_to_try(ports).len() > 0,
{
    if ports.len() > 0 {
        crate::wg_prober::lists::firsts_are_distinct(ports);
        assert(ports.contains(ports[0]));
        assert(firsts(ports).contains(ports[0]));
    }
}

/// A scan of the known edges tries no endpoint twice and none that is excluded.
pub proof fn known_edges_are_tried_once(
    st: WgStrategy,
    ports: Seq<u16>,
    ip: IpScan,
    team: bool,
    excluded: Seq<Endpoint>,
    candidates: Seq<Endpoint>,
)
    requires
        from_known_ranges(st, ports, ip, team, excluded, candidates),
    ensures
        candidates.no_duplicates(),
        forall|i: int| 0 <= i < candidates.len() ==> !excluded.contains(#[trigger] candidates[i]),
        forall|i: int|
            0 <= i < candidates.len() ==> ports_to_try(ports).contains(
                (#[trigger] candidates[i]).port,
            ),
{
    let (v4, v6) = choose|v4: Seq<Seq<u32>>, v6: Seq<Seq<u128>>|
        {
            &&& #[trigger] takes_all_v4(st, edge_ranges_v4(ip, team), v4)
            &&& #[trigger] takes_all_v6(st, edge_ranges_v6(ip, team), v6)
            &&& candidates == scheduled(
                firsts(anchors_of(ip, team) + (as_v4(interleaved(v4)) + as_v6(interleaved(v6)))),
                ports_to_try(ports),
                excluded,
                waves_of(st),
            )
        };
    some_port(ports);
    attempts_are_new_and_allowed(
        firsts(anchors_of(ip, team) + (as_v4(interleaved(v4)) + as_v6(interleaved(v6)))),
        ports_to_try(ports),
        excluded,
        waves_of(st),
    );
}

/// A scan of ranges that the user gives tries addresses of these ranges only,
/// whichever of its addresses a range is given by, no endpoint twice, and none
/// that is excluded.
pub proof fn manual_scans_stay_in_the_ranges(
    st: WgStrategy,
    ports: Seq<u16>,
    cidrs: Seq<Seq<char>>,
    excluded: Seq<Endpoint>,
    candidates: Seq<Endpoint>,
)
    requires
        from_manual_ranges(st, ports, cidrs, excluded, candidates),
    ensures
        candidates.no_duplicates(),
        forall|i: int|
            0 <= i < candidates.len() ==> {
                &&& !excluded.contains(#[trigger] candidates[i])
                &&& candidates[i].ip is V4
                &&& exists|k: int|
                    {
                        &&& 0 <= k < cidrs.len()
                        &&& range_v4(#[trigger] cidrs[k]) matches Some((base, prefix))
                        &&& in_range(base, prefix, candidates[i].ip->V4_0)
                    }
            },
{
    let lists = choose|lists: Seq<Seq<u32>>| #[trigger]
        takes_all_v4(st, cidrs, lists) && candidates == scheduled(
            as_v4(interleaved(lists)),
            given_ports(ports),
            excluded,
            waves_of(st),
        );
    let hosts = interleaved(lists);
    attempts_are_new_and_allowed(as_v4(hosts), given_ports(ports), excluded, waves_of(st));
    crate::wg_prober::lists::interleaving_keeps_the_entries(lists);
    assert forall|i: int| 0 <= i < candidates.len() implies {
        &&& !excluded.contains(#[trigger] candidates[i])
        &&& candidates[i].ip is V4
        &&& exists|k: int|
            {
                &&& 0 <= k < cidrs.len()
                &&& range_v4(#[trigger] cidrs[k]) matches Some((base, prefix))
                &&& in_range(base, prefix, candidates[i].ip->V4_0)
            }
    } by {
        assert(as_v4(hosts).contains(candidates[i].ip));
        let j = choose|j: int| 0 <= j < hosts.len() && as_v4(hosts)[j] == candidates[i].ip;
        let ip = hosts[j];
        assert(hosts.contains(ip));
        let (l, place) = choose|l: int, place: int|
            0 <= l < lists.len() && 0 <= place < lists[l].len() && #[trigger] lists[l][place]
                == ip;
        assert(takes_v4(st, cidrs[l], lists[l]));
        let (base, prefix) = range_v4(cidrs[l])->0;
        hosts_are_in_range(base, prefix, st.sample_per_cidr as nat, lists[l]);
        assert(range_v4(cidrs[l]) is Some);
    }
}

} // verus!
