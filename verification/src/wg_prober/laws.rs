//! What holds of every scan.

#[allow(unused_imports)]
use vstd::arithmetic::power2::pow2;
use vstd::prelude::*;

#[allow(unused_imports)]
use crate::addr::{Endpoint, IpAddress};
#[allow(unused_imports)]
use crate::cidr::{range_v4, range_v6};
#[allow(unused_imports)]
use crate::sysprofile::Tuning;
#[allow(unused_imports)]
use crate::text::{is_word, lower, number, trimmed};
#[allow(unused_imports)]
use crate::wg_prober::candidates::{
    anchors_of,
    as_v4,
    as_v6,
    build_wg_candidates,
    edge_ranges_v4,
    edge_ranges_v6,
    from_known_ranges,
    from_manual_ranges,
    given_ports,
    takes_all_v4,
    takes_all_v6,
    takes_v4,
    takes_v6,
    waves_of,
    IpScan,
};
#[allow(unused_imports)]
use crate::wg_prober::hosts::{can_sample_v6, embedded_host, host_bits, network};
#[allow(unused_imports)]
use crate::wg_prober::hunt::{
    first_of,
    good_rtt_budget,
    probe_counts,
    slow_first_grace,
    the_best_is_offered_first,
    Hunt,
    HuntStep,
    NoCleanEndpoint,
};
#[allow(unused_imports)]
use crate::wg_prober::lists::{
    firsts,
    firsts_are_distinct,
    firsts_extend,
    interleaved,
    interleaving_keeps_the_entries,
    ports_to_try,
};
#[allow(unused_imports)]
use crate::wg_prober::manual::{
    is_separator,
    manual_ranges,
    normalized,
    normalized_pieces,
    pieces,
    range_meant,
    setting,
};
#[allow(unused_imports)]
use crate::wg_prober::mode::{mode_named, strategy_of, WgScanMode, WgStrategy};
#[allow(unused_imports)]
use crate::wg_prober::schedule::{
    attempt,
    attempts_are_new_and_allowed,
    nothing_is_left_out,
    scheduled,
};
#[allow(unused_imports)]
use crate::wg_prober::select::{
    address_count,
    addresses,
    answers_at,
    best_of_address,
    floored,
    offers_are_the_quickest,
    ranks,
    WgProbeResult,
};

verus! {

/// A scan never ends early with an answer that is over the budget, whether there
/// is an endpoint to beat or not, and never with one that is slower than the
/// endpoint to beat.
pub proof fn no_slow_answer_is_taken(
    was: Hunt,
    pr: WgProbeResult,
    now: u64,
    budget: u64,
    floor: Option<(Endpoint, u64)>,
    grace: u64,
    next: Hunt,
    r: HuntStep,
)
    requires
        was.answered(pr, now, budget, floor, grace, &next, r),
        r == HuntStep::Take,
    ensures
        pr.rtt <= budget,
        floor matches Some((_, limit)) ==> pr.rtt <= limit,
        was.want <= 1,
        next == was,
{
}

/// An answer within the budget that is no slower than the endpoint to beat ends
/// a scan that takes the first good one, or that has found only slow ones.
pub proof fn a_quick_answer_is_taken(
    was: Hunt,
    pr: WgProbeResult,
    now: u64,
    budget: u64,
    floor: Option<(Endpoint, u64)>,
    grace: u64,
    next: Hunt,
    r: HuntStep,
)
    requires
        was.answered(pr, now, budget, floor, grace, &next, r),
        was.strategy.early_exit_first || was.hunting_for_fast,
        pr.rtt <= budget,
        floor matches Some((_, limit)) ==> pr.rtt <= limit,
    ensures
        r == HuntStep::Take,
{
}

/// An endpoint to beat, or a smaller budget, never ends a scan that would have
/// gone on without it.
pub proof fn more_to_beat_ends_nothing_sooner(
    was: Hunt,
    pr: WgProbeResult,
    now: u64,
    budget: u64,
    smaller_budget: u64,
    floor: Option<(Endpoint, u64)>,
    grace: u64,
    next: Hunt,
    r: HuntStep,
    other: Hunt,
    s: HuntStep,
)
    requires
        was.answered(pr, now, smaller_budget, floor, grace, &next, r),
        was.answered(pr, now, budget, None, grace, &other, s),
        smaller_budget <= budget,
        r == HuntStep::Take,
    ensures
        s == HuntStep::Take,
{
}

/// Every answer that does not end the scan is kept, behind those before it.
pub proof fn no_answer_is_lost(
    was: Hunt,
    pr: WgProbeResult,
    now: u64,
    budget: u64,
    floor: Option<(Endpoint, u64)>,
    grace: u64,
    next: Hunt,
    r: HuntStep,
)
    requires
        was.answered(pr, now, budget, floor, grace, &next, r),
        r != HuntStep::Take,
    ensures
        next.verified@ == was.verified@.push(pr),
        next.want == was.want,
        next.deadline == was.deadline,
{
}

/// After a slow first answer the scan goes on for the grace, and a quick one
/// then ends it.
pub proof fn a_slow_first_answer_is_given_grace(
    was: Hunt,
    pr: WgProbeResult,
    now: u64,
    budget: u64,
    floor: Option<(Endpoint, u64)>,
    grace: u64,
    mid: Hunt,
    r: HuntStep,
    quick: WgProbeResult,
    then: u64,
    next: Hunt,
    s: HuntStep,
)
    requires
        was.answered(pr, now, budget, floor, grace, &mid, r),
        mid.answered(quick, then, budget, floor, grace, &next, s),
        was.strategy.early_exit_first,
        pr.rtt > budget || (floor matches Some((_, limit)) && pr.rtt > limit),
        now + grace <= u64::MAX,
        quick.rtt <= budget,
        floor matches Some((_, limit)) ==> quick.rtt <= limit,
    ensures
        r == HuntStep::Continue,
        mid.quiet_until == Some((now + grace) as u64),
        mid.verified@ == was.verified@.push(pr),
        s == HuntStep::Take,
{
}

/// A scan that was given its grace keeps it: a further slow answer neither ends
/// it nor moves its end.
pub proof fn the_grace_is_given_once(
    was: Hunt,
    pr: WgProbeResult,
    now: u64,
    budget: u64,
    floor: Option<(Endpoint, u64)>,
    grace: u64,
    next: Hunt,
    r: HuntStep,
)
    requires
        was.answered(pr, now, budget, floor, grace, &next, r),
        was.quiet_until is Some,
        !was.strategy.early_exit_first,
        was.want <= 1,
        r != HuntStep::Take,
    ensures
        r == HuntStep::Continue,
        next.quiet_until == was.quiet_until,
        next.hunting_for_fast == was.hunting_for_fast,
{
}

/// A scan for several endpoints ends as soon as so many addresses have answered,
/// and takes no single answer.
pub proof fn enough_addresses_end_a_scan(
    was: Hunt,
    pr: WgProbeResult,
    now: u64,
    budget: u64,
    floor: Option<(Endpoint, u64)>,
    grace: u64,
    next: Hunt,
    r: HuntStep,
)
    requires
        was.answered(pr, now, budget, floor, grace, &next, r),
        was.wf(),
        was.want > 1,
    ensures
        r != HuntStep::Take,
        address_count(was.verified@.push(pr)) >= was.want ==> r == HuntStep::Stop,
        r == HuntStep::Stop ==> address_count(was.verified@.push(pr)) >= was.want || (
        was.strategy.target_successes > 0 && was.verified@.len() + 1
            >= was.strategy.target_successes && was.strategy.quiet_after_first == 0),
{
}

/// Once a scan has as many answers as it looks for, it goes on for its quiet
/// time and no longer; without a quiet time it ends there. Before that, and
/// where it looks for all there are, no answer ends it.
pub proof fn a_target_begins_the_quiet_time(
    was: Hunt,
    pr: WgProbeResult,
    now: u64,
    budget: u64,
    floor: Option<(Endpoint, u64)>,
    grace: u64,
    next: Hunt,
    r: HuntStep,
)
    requires
        was.answered(pr, now, budget, floor, grace, &next, r),
        was.want <= 1,
        !was.strategy.early_exit_first,
        !was.hunting_for_fast,
        was.quiet_until is None,
        now + was.strategy.quiet_after_first <= u64::MAX,
    ensures
        ({
            let st = was.strategy;
            let enough = st.target_successes > 0 && was.verified@.len() + 1 >= st.target_successes;
            &&& !enough ==> r == HuntStep::Continue && next.quiet_until is None
            &&& enough && st.quiet_after_first > 0 ==> r == HuntStep::Continue && next.quiet_until
                == Some((now + st.quiet_after_first) as u64)
            &&& enough && st.quiet_after_first == 0 ==> r == HuntStep::Stop
        }),
{
}

/// A scan begins with nothing found, for one endpoint at least, and ends at the
/// latest when the time of its mode is up. One for several endpoints takes no
/// first answer alone and looks for three times as many.
pub proof fn a_scan_begins_with_its_mode(
    mode: WgScanMode,
    want: usize,
    tuning: Tuning,
    now: u64,
    h: Hunt,
)
    requires
        call_ensures(Hunt::begin, (mode, want, &tuning, now), h),
        now + 250_000_000_000 <= u64::MAX,
    ensures
        h.wf(),
        h.want >= 1,
        want >= 1 ==> h.want == want,
        h.verified@.len() == 0,
        h.quiet_until is None,
        !h.hunting_for_fast,
        h.deadline == now + (match mode {
            WgScanMode::Turbo => 30_000_000_000int,
            WgScanMode::Balanced => 80_000_000_000,
            WgScanMode::Thorough => 250_000_000_000,
            WgScanMode::Stealth => 150_000_000_000,
            WgScanMode::Ironclad => 180_000_000_000,
        }),
        h.strategy.concurrency <= tuning.scan_concurrency_cap,
        h.strategy.concurrency <= strategy_of(mode).concurrency,
        h.strategy.concurrency == tuning.scan_concurrency_cap || h.strategy.concurrency
            == strategy_of(mode).concurrency,
        want > 1 ==> !h.strategy.early_exit_first && (h.strategy.target_successes >= 3 * want
            || h.strategy.target_successes == usize::MAX),
        want <= 1 ==> (h.strategy.early_exit_first <==> mode is Turbo),
        want <= 1 ==> h.strategy.target_successes == strategy_of(mode).target_successes,
        h.strategy.sample_per_cidr == strategy_of(mode).sample_per_cidr,
        h.strategy.full_subnet == strategy_of(mode).full_subnet,
        h.strategy.quiet_after_first == strategy_of(mode).quiet_after_first,
        h.strategy.per_probe_timeout == strategy_of(mode).per_probe_timeout,
        h.strategy.pool_port_waves == strategy_of(mode).pool_port_waves,
{
}

/// A scan waits until its deadline, or until its quiet time is up where that
/// comes first.
pub proof fn a_scan_waits_for_its_end(h: Hunt, now: u64, r: u64)
    requires
        call_ensures(Hunt::remaining, (&h, now), r),
    ensures
        h.deadline <= now ==> r == 0,
        h.quiet_until matches Some(quiet) && quiet <= now ==> r == 0,
        now < h.deadline ==> now + r <= h.deadline,
        h.quiet_until is None && now < h.deadline ==> now + r == h.deadline,
        h.quiet_until matches Some(quiet) ==> (now < quiet && now < h.deadline ==> now + r <= quiet
            && (now + r == quiet || now + r == h.deadline)),
{
}

/// What a scan offers is some of what it found, no more than was asked for, each
/// address once, the quickest first, with the endpoint to beat before it only
/// where nothing that was found beats it.
pub proof fn a_scan_offers_what_it_found(
    h: Hunt,
    floor: Option<(Endpoint, u64)>,
    r: Result<Vec<WgProbeResult>, NoCleanEndpoint>,
)
    requires
        h.wf(),
        call_ensures(Hunt::finish, (&h, floor), r),
    ensures
        r is Err <==> h.verified@.len() == 0,
        r matches Ok(list) ==> {
            &&& 1 <= list@.len() <= h.want
            &&& forall|k: int|
                0 <= k < h.verified@.len() ==> list@[0].rtt <= (#[trigger] h.verified@[k]).rtt
            &&& floor matches Some((_, limit)) ==> list@[0].rtt <= limit
            &&& floor is None ==> forall|i: int|
                0 <= i < list@.len() ==> h.verified@.contains(#[trigger] list@[i])
            &&& floor is None ==> forall|i: int, j: int|
                0 <= i < j < list@.len() ==> (#[trigger] list@[i]).rtt <= (#[trigger] list@[j]).rtt
                    && list@[i].ip != list@[j].ip
        },
{
    if r is Ok {
        let list = r->Ok_0@;
        let found = h.verified@;
        let places = choose|places: Seq<int>| #[trigger]
            ranks(found, places) && list == first_of(
                floored(answers_at(found, places), floor),
                h.want as nat,
            );
        the_best_is_offered_first(found, places, floor, h.want as nat);
        offers_are_the_quickest(found, places);
        let offered = answers_at(found, places);
        if floor is None {
            assert forall|i: int| 0 <= i < list.len() implies found.contains(
                #[trigger] list[i],
            ) by {
                assert(list[i] == offered[i]);
                assert(best_of_address(found, places[i]));
                assert(offered[i] == found[places[i]]);
            }
            assert forall|i: int, j: int| 0 <= i < j < list.len() implies (#[trigger] list[i]).rtt
                <= (#[trigger] list[j]).rtt && list[i].ip != list[j].ip by {
                assert(list[i] == offered[i]);
                assert(list[j] == offered[j]);
                assert(addresses(offered)[i] == offered[i].ip);
                assert(addresses(offered)[j] == offered[j].ip);
            }
        }
    }
}

/// Of two answers of one address that took the same time the one that came first
/// is preferred.
pub proof fn ties_go_to_the_first(found: Seq<WgProbeResult>, k: int, j: int)
    requires
        best_of_address(found, k),
        0 <= j < found.len(),
        found[j].ip == found[k].ip,
        found[j].rtt <= found[k].rtt,
    ensures
        found[j].rtt == found[k].rtt,
        k <= j,
{
}

/// The endpoint to beat is put before the answers as it was measured, and only
/// where the quickest of them is slower; the answers themselves stay.
pub proof fn the_floor_stands_before_slower_answers(
    picked: Seq<WgProbeResult>,
    peer: Endpoint,
    rtt: u64,
)
    ensures
        picked.len() == 0 ==> floored(picked, Some((peer, rtt))).len() == 0,
        picked.len() > 0 && picked[0].rtt <= rtt ==> floored(picked, Some((peer, rtt))) == picked,
        picked.len() > 0 && picked[0].rtt > rtt ==> {
            let r = floored(picked, Some((peer, rtt)));
            &&& r.len() == picked.len() + 1
            &&& r[0].ip == peer.ip
            &&& r[0].port == peer.port
            &&& r[0].rtt == rtt
            &&& r.skip(1) == picked
        },
        floored(picked, None) == picked,
{
    if picked.len() > 0 && picked[0].rtt > rtt {
        assert(floored(picked, Some((peer, rtt))).skip(1) =~= picked);
    }
}

/// An answer is quick within 180 milliseconds, unless a setting names another
/// positive number of them; the setting for scans goes before the other one.
pub proof fn the_budget_is_as_set(scan: &str, reconnect: &str, r: u64, s: u64, t: u64)
    requires
        call_ensures(good_rtt_budget, (Some(scan), Some(reconnect)), r),
        call_ensures(good_rtt_budget, (None, Some(reconnect)), s),
        call_ensures(good_rtt_budget, (None, None), t),
    ensures
        t == 180_000_000,
        match number(trimmed(scan@), u64::MAX as nat) {
            Some(ms) => {
                &&& ms == 0 ==> r == s
                &&& 0 < ms <= 18_446_744_073_709 ==> r == ms * 1_000_000
                &&& ms > 18_446_744_073_709 ==> r == u64::MAX
            },
            None => r == s,
        },
        match number(trimmed(reconnect@), u64::MAX as nat) {
            Some(ms) => {
                &&& ms == 0 ==> s == t
                &&& 0 < ms <= 18_446_744_073_709 ==> s == ms * 1_000_000
                &&& ms > 18_446_744_073_709 ==> s == u64::MAX
            },
            None => s == t,
        },
{
}

/// A slow first answer is given 1.2 seconds, unless a setting names another
/// positive number of milliseconds.
pub proof fn the_grace_is_as_set(grace: &str, r: u64, none: u64)
    requires
        call_ensures(slow_first_grace, (Some(grace),), r),
        call_ensures(slow_first_grace, (None,), none),
    ensures
        none == 1_200_000_000,
        match number(trimmed(grace@), u64::MAX as nat) {
            Some(ms) => {
                &&& ms == 0 ==> r == none
                &&& 0 < ms <= 18_446_744_073_709 ==> r == ms * 1_000_000
                &&& ms > 18_446_744_073_709 ==> r == u64::MAX
            },
            None => r == none,
        },
{
}

/// A probe counts with the time of its answer; where a page was asked for
/// through the endpoint, it counts with the time of the page, and only if there
/// was one. The endpoint is the one that was probed.
pub proof fn a_probe_counts_with_its_time(
    ip: IpAddress,
    port: u16,
    rtt: u64,
    http_rtt: Option<u64>,
)
    ensures
        probe_counts(ip, port, rtt, false, http_rtt) matches Some(pr) && pr.ip == ip && pr.port
            == port && pr.rtt == rtt,
        http_rtt is None ==> probe_counts(ip, port, rtt, true, http_rtt) is None,
        http_rtt matches Some(page) ==> (probe_counts(ip, port, rtt, true, http_rtt) matches Some(pr)
            && pr.ip == ip && pr.port == port && pr.rtt == page),
{
}

/// How hard each mode looks: how many probes at once, how long for each, and how
/// long after it has found enough.
pub proof fn modes_look_as_hard_as_they_say(mode: WgScanMode)
    ensures
        strategy_of(mode).concurrency == (match mode {
            WgScanMode::Turbo => 12int,
            WgScanMode::Balanced => 8,
            WgScanMode::Thorough => 10,
            WgScanMode::Stealth => 3,
            WgScanMode::Ironclad => 4,
        }),
        strategy_of(mode).per_probe_timeout == 1_000_000_000 * (match mode {
            WgScanMode::Turbo => 5int,
            WgScanMode::Balanced => 7,
            WgScanMode::Thorough => 9,
            WgScanMode::Stealth => 10,
            WgScanMode::Ironclad => 15,
        }),
        strategy_of(mode).quiet_after_first == 1_000_000_000 * (match mode {
            WgScanMode::Turbo => 0int,
            WgScanMode::Balanced => 12,
            WgScanMode::Thorough => 25,
            WgScanMode::Stealth => 20,
            WgScanMode::Ironclad => 15,
        }),
        strategy_of(mode).target_successes == (match mode {
            WgScanMode::Turbo => 1int,
            WgScanMode::Balanced => 5,
            WgScanMode::Thorough => 0,
            WgScanMode::Stealth => 3,
            WgScanMode::Ironclad => 3,
        }),
        strategy_of(mode).sample_per_cidr == (match mode {
            WgScanMode::Turbo => 40int,
            WgScanMode::Balanced => 120,
            WgScanMode::Thorough => 0,
            WgScanMode::Stealth => 50,
            WgScanMode::Ironclad => 120,
        }),
        strategy_of(mode).pool_port_waves == (match mode {
            WgScanMode::Turbo => 1int,
            WgScanMode::Balanced => 3,
            WgScanMode::Thorough => 4,
            WgScanMode::Stealth => 2,
            WgScanMode::Ironclad => 3,
        }),
        strategy_of(mode).full_subnet <==> mode is Thorough,
        strategy_of(mode).early_exit_first <==> mode is Turbo,
        strategy_of(mode).per_probe_timeout < strategy_of(mode).overall_deadline,
        strategy_of(mode).quiet_after_first < strategy_of(mode).overall_deadline,
{
}

/// Every mode takes hosts from every IPv6 range that it scans: as many as its
/// sample size, and 80 where that is zero.
pub proof fn every_mode_samples_ipv6_ranges(
    st: WgStrategy,
    cidr: Seq<char>,
    base: u128,
    prefix: u8,
    hosts: Seq<u128>,
)
    requires
        takes_v6(st, cidr, hosts),
        range_v6(cidr) == Some((base, prefix)),
        prefix < 128,
    ensures
        hosts.len() > 0,
        st.sample_per_cidr > 0 ==> hosts.len() == st.sample_per_cidr,
        st.sample_per_cidr == 0 ==> hosts.len() == 80,
{
}

/// So the pool of a scan for IPv6 is never empty, whatever the mode: it has an
/// IPv6 host from every range that can be read.
pub proof fn the_ipv6_pool_is_never_empty(
    mode: WgScanMode,
    ip: IpScan,
    team: bool,
    lists: Seq<Seq<u128>>,
    k: int,
)
    requires
        ip is V6 || ip is Both,
        takes_all_v6(strategy_of(mode), edge_ranges_v6(ip, team), lists),
        0 <= k < edge_ranges_v6(ip, team).len(),
        range_v6(edge_ranges_v6(ip, team)[k]) is Some,
    ensures
        lists[k].len() > 0,
        as_v6(interleaved(lists)).len() > 0,
        exists|i: int|
            0 <= i < as_v6(interleaved(lists)).len() && #[trigger] as_v6(interleaved(lists))[i]
                == IpAddress::V6(lists[k][0]),
{
    assert(takes_v6(strategy_of(mode), edge_ranges_v6(ip, team)[k], lists[k]));
    let (base, prefix) = range_v6(edge_ranges_v6(ip, team)[k])->0;
    if prefix < 128 {
        every_mode_samples_ipv6_ranges(
            strategy_of(mode),
            edge_ranges_v6(ip, team)[k],
            base,
            prefix,
            lists[k],
        );
    }
    interleaving_keeps_the_entries(lists);
    let x = lists[k][0];
    assert(interleaved(lists).contains(x));
    let i = choose|i: int| 0 <= i < interleaved(lists).len() && interleaved(lists)[i] == x;
    assert(as_v6(interleaved(lists))[i] == IpAddress::V6(x));
}

/// There are seven IPv4 ranges and three IPv6 ones, scanned only for their own
/// family.
pub proof fn a_family_is_scanned_when_it_is_asked_for(ip: IpScan, team: bool)
    ensures
        edge_ranges_v4(ip, team).len() == (if ip is V6 {
            0int
        } else {
            7
        }),
        edge_ranges_v6(ip, team).len() == (if ip is V4 {
            0int
        } else {
            3
        }),
{
    crate::wireguard::ranges::promoting_loses_nothing(
        crate::wireguard::ranges::WG_PREFIXES_V4@,
        crate::wireguard::ranges::WG_ZT_PREFIXES_V4@,
        team,
    );
    crate::wireguard::ranges::promoting_loses_nothing(
        crate::wireguard::ranges::WG_PREFIXES_V6@,
        crate::wireguard::ranges::WG_ZT_PREFIXES_V6@,
        team,
    );
}

/// A range whose hosts are all tried gives every address in it but the first and
/// the last, in order.
pub proof fn a_full_range_leaves_out_its_ends(
    st: WgStrategy,
    cidr: Seq<char>,
    base: u32,
    hosts: Seq<u32>,
)
    requires
        st.full_subnet,
        takes_v4(st, cidr, hosts),
        range_v4(cidr) == Some((base, 24u8)),
    ensures
        hosts.len() == 254,
        forall|i: int| 0 <= i < 254 ==> #[trigger] hosts[i] == base - base as int % 256 + 1 + i,
{
    vstd::arithmetic::power2::lemma2_to64();
    assert(pow2(8) == 256);
    assert forall|i: int| 0 <= i < 254 implies #[trigger] hosts[i] == base - base as int % 256 + 1
        + i by {
        assert(network(base, 24) == base - base as int % 256);
    }
}

/// Otherwise a range gives as many hosts as the mode samples, all different, or
/// all that it has.
pub proof fn a_sampled_range_gives_its_share(
    st: WgStrategy,
    cidr: Seq<char>,
    base: u32,
    hosts: Seq<u32>,
)
    requires
        !st.full_subnet,
        takes_v4(st, cidr, hosts),
        range_v4(cidr) == Some((base, 24u8)),
    ensures
        st.sample_per_cidr <= 254 ==> hosts.len() == st.sample_per_cidr,
        st.sample_per_cidr > 254 ==> hosts.len() == 254,
        hosts.no_duplicates(),
        forall|i: int|
            0 <= i < hosts.len() ==> #[trigger] hosts[i] as int / 256 == base as int / 256
                && hosts[i] as int % 256 != 0 && hosts[i] as int % 256 != 255,
{
    vstd::arithmetic::power2::lemma2_to64();
    assert(pow2(8) == 256);
    assert(network(base, 24) == base - base as int % 256);
    assert forall|i: int| 0 <= i < hosts.len() implies #[trigger] hosts[i] as int / 256
        == base as int / 256 && hosts[i] as int % 256 != 0 && hosts[i] as int % 256 != 255 by {
        assert(1 <= hosts[i] - network(base, 24) <= 254);
    }
}

/// The same of every range that is neither one address nor too wide to be
/// listed: the two ends are left out, and nothing else. One with more than
/// twelve host bits is not listed at all.
pub proof fn listed_hosts_fill_the_range(
    st: WgStrategy,
    cidr: Seq<char>,
    base: u32,
    prefix: u8,
    hosts: Seq<u32>,
)
    requires
        st.full_subnet,
        takes_v4(st, cidr, hosts),
        range_v4(cidr) == Some((base, prefix)),
        prefix < 32,
    ensures
        prefix >= 20 ==> {
            let size = pow2((32 - prefix) as nat) as int;
            &&& hosts.len() + 2 == size
            &&& forall|i: int|
                0 <= i < hosts.len() ==> #[trigger] hosts[i] == base - base as int % size + 1 + i
        },
        prefix < 20 ==> hosts.len() == 0,
{
    let bits = (32 - prefix) as nat;
    let size = pow2(bits) as int;
    if prefix >= 20 {
        vstd::arithmetic::power2::lemma2_to64();
        assert(2 <= size <= 4096);
        crate::wg_prober::hosts::hosts_are_in_range(base, prefix, 0, hosts);
        assert forall|i: int| 0 <= i < hosts.len() implies #[trigger] hosts[i] == base - base as int
            % size + 1 + i by {
            crate::wg_prober::hosts::offsets_stay_inside(base, prefix, i + 1);
        }
    }
}

/// A sample of a range that has hosts besides its ends has as many as were asked
/// for, or all of these, no one twice, and none of the ends.
pub proof fn a_sample_leaves_out_the_ends(
    st: WgStrategy,
    cidr: Seq<char>,
    base: u32,
    prefix: u8,
    hosts: Seq<u32>,
)
    requires
        !st.full_subnet,
        takes_v4(st, cidr, hosts),
        range_v4(cidr) == Some((base, prefix)),
        0 < prefix <= 30,
    ensures
        ({
            let size = pow2((32 - prefix) as nat) as int;
            &&& st.sample_per_cidr <= size - 2 ==> hosts.len() == st.sample_per_cidr
            &&& st.sample_per_cidr > size - 2 ==> hosts.len() == size - 2
            &&& hosts.no_duplicates()
            &&& forall|i: int|
                0 <= i < hosts.len() ==> 1 <= #[trigger] hosts[i] - (base - base as int % size)
                    <= size - 2
        }),
{
    vstd::arithmetic::power2::lemma2_to64();
    let size = pow2((32 - prefix) as nat) as int;
    vstd::arithmetic::power2::lemma_pow2_strictly_increases(1, (32 - prefix) as nat);
    assert(size > 2);
}

/// A range that is one address is tried by that address, and a text that is no
/// range gives nothing, in every mode.
pub proof fn one_address_is_one_host(st: WgStrategy, cidr: Seq<char>, hosts: Seq<u32>)
    requires
        takes_v4(st, cidr, hosts),
    ensures
        range_v4(cidr) is None ==> hosts.len() == 0,
        range_v4(cidr) matches Some((base, prefix)) ==> (prefix >= 32 ==> hosts == seq![base]),
{
    vstd::arithmetic::power2::lemma2_to64();
}

/// Every mode makes at least one wave, and as many as it says otherwise.
pub proof fn there_is_always_a_wave(st: WgStrategy)
    ensures
        waves_of(st) >= 1,
        st.pool_port_waves > 0 ==> waves_of(st) == st.pool_port_waves,
        st.pool_port_waves == 0 ==> waves_of(st) == 1,
{
}

/// Where no port is given the usual one is tried; else every one that is given,
/// once, the first of them first.
pub proof fn the_given_ports_are_tried(ports: Seq<u16>)
    ensures
        ports.len() == 0 ==> ports_to_try(ports) == seq![2408u16] && given_ports(ports)
            == seq![2408u16],
        ports.len() > 0 ==> {
            &&& given_ports(ports) == ports
            &&& ports_to_try(ports).len() > 0
            &&& ports_to_try(ports)[0] == ports[0]
            &&& ports_to_try(ports).no_duplicates()
            &&& forall|p: u16| ports_to_try(ports).contains(p) <==> #[trigger] ports.contains(p)
        },
{
    if ports.len() > 0 {
        firsts_are_distinct(ports);
        firsts_extend(ports, 1);
        let head = ports.take(1);
        assert(head.drop_last() =~= Seq::<u16>::empty());
        assert(firsts(head.drop_last()).len() == 0);
        assert(firsts(head) =~= seq![ports[0]]);
        assert(firsts(ports).take(1)[0] == ports[0]);
    }
}

/// An address is tried on its own port first and on the next one in the next
/// wave; the first address begins with the first port.
pub proof fn waves_turn_the_ports(ips: Seq<IpAddress>, ports: Seq<u16>, wave: int, i: int)
    requires
        ports.len() > 0,
        0 <= wave,
        0 <= i < ips.len(),
    ensures
        attempt(ips, ports, wave, i).ip == ips[i],
        i + 1 < ips.len() ==> attempt(ips, ports, wave + 1, i).port == attempt(
            ips,
            ports,
            wave,
            i + 1,
        ).port,
        i + wave < ports.len() ==> attempt(ips, ports, wave, i).port == ports[i + wave],
{
    if i + wave < ports.len() {
        vstd::arithmetic::div_mod::lemma_small_mod((i + wave) as nat, ports.len());
    }
}

/// The families that are tried are those that were asked for, without IPv6 where
/// the host cannot reach it; a scan for IPv6 alone is then none.
pub proof fn ipv6_is_left_out_where_it_cannot_be_reached(
    ip: IpScan,
    has_ipv6: bool,
    r: Option<IpScan>,
)
    requires
        call_ensures(IpScan::reachable, (&ip, has_ipv6), r),
    ensures
        has_ipv6 ==> r == Some(ip),
        !has_ipv6 && !(ip is V6) ==> r == Some(IpScan::V4),
        !has_ipv6 && ip is V6 ==> r is None,
{
}

/// A scan for one family tries addresses of that family only.
pub proof fn a_scan_stays_in_its_family(
    st: WgStrategy,
    ports: Seq<u16>,
    ip: IpScan,
    team: bool,
    excluded: Seq<Endpoint>,
    candidates: Seq<Endpoint>,
)
    requires
        from_known_ranges(st, ports, ip, team, excluded, candidates),
    ensures
        ip is V4 ==> forall|i: int|
            0 <= i < candidates.len() ==> (#[trigger] candidates[i]).ip is V4,
        ip is V6 ==> forall|i: int|
            0 <= i < candidates.len() ==> (#[trigger] candidates[i]).ip is V6,
{
    let (v4, v6) = choose|v4: Seq<Seq<u32>>, v6: Seq<Seq<u128>>|
        {
            &&& #[trigger] takes_all_v4(st, edge_ranges_v4(ip, team), v4)
            &&& #[trigger] takes_all_v6(st, edge_ranges_v6(ip, team), v6)
            &&& candidates == scheduled(
                firsts(anchors_of(ip, team) + (as_v4(interleaved(v4)) + as_v6(interleaved(v6)))),
                ports_to_try(ports),
                excluded,
                waves_of(st),
            )
        };
    let all = anchors_of(ip, team) + (as_v4(interleaved(v4)) + as_v6(interleaved(v6)));
    the_given_ports_are_tried(ports);
    firsts_are_distinct(all);
    attempts_are_new_and_allowed(firsts(all), ports_to_try(ports), excluded, waves_of(st));
    anchors_have_their_family(ip, team);
    assert forall|i: int| 0 <= i < candidates.len() implies (ip is V4 ==> (
    #[trigger] candidates[i]).ip is V4) && (ip is V6 ==> candidates[i].ip is V6) by {
        let x = candidates[i].ip;
        assert(firsts(all).contains(x));
        assert(all.contains(x));
        let j = choose|j: int| 0 <= j < all.len() && all[j] == x;
        let n = anchors_of(ip, team).len() as int;
        if j < n {
            assert(anchors_of(ip, team)[j] == x);
        }
    }
}

proof fn read_as_their_family(list: Seq<&'static str>)
    ensures
        forall|i: int|
            0 <= i < crate::wg_prober::candidates::addresses_v4(list).len() ==> (
            #[trigger] crate::wg_prober::candidates::addresses_v4(list)[i]) is V4,
        forall|i: int|
            0 <= i < crate::wg_prober::candidates::addresses_v6(list).len() ==> (
            #[trigger] crate::wg_prober::candidates::addresses_v6(list)[i]) is V6,
    decreases list.len(),
{
    if list.len() > 0 {
        read_as_their_family(list.drop_last());
    }
}

proof fn anchors_have_their_family(ip: IpScan, team: bool)
    ensures
        ip is V4 ==> forall|i: int|
            0 <= i < anchors_of(ip, team).len() ==> (#[trigger] anchors_of(ip, team)[i]) is V4,
        ip is V6 ==> forall|i: int|
            0 <= i < anchors_of(ip, team).len() ==> (#[trigger] anchors_of(ip, team)[i]) is V6,
{
    read_as_their_family(
        crate::wireguard::ranges::in_order(
            crate::wireguard::ranges::WG_SEEDS_V4@,
            crate::wireguard::ranges::WG_ZT_SEEDS_V4@,
            team,
        ),
    );
    read_as_their_family(crate::wireguard::ranges::WG_SEEDS_V6@);
}

/// A mode answers to each of its names, in any case and with white space around
/// it; any other text is the balanced one.
pub proof fn a_mode_answers_to_its_names(s: Seq<char>)
    ensures
        ({
            let w = trimmed(s);
            &&& is_word(w, "turbo"@) || is_word(w, "fast"@) ==> mode_named(s) is Turbo
            &&& is_word(w, "thorough"@) || is_word(w, "deep"@) || is_word(w, "pro"@)
                ==> mode_named(s) is Thorough
            &&& is_word(w, "stealth"@) || is_word(w, "quiet"@) ==> mode_named(s) is Stealth
            &&& is_word(w, "ironclad"@) || is_word(w, "real"@) || is_word(w, "verify"@) || is_word(
                w,
                "guaranteed"@,
            ) ==> mode_named(s) is Ironclad
            &&& is_word(w, "balanced"@) ==> mode_named(s) is Balanced
            &&& !(mode_named(s) is Balanced) ==> is_word(w, "turbo"@) || is_word(w, "fast"@)
                || is_word(w, "thorough"@) || is_word(w, "deep"@) || is_word(w, "pro"@) || is_word(
                w,
                "stealth"@,
            ) || is_word(w, "quiet"@) || is_word(w, "ironclad"@) || is_word(w, "real"@) || is_word(
                w,
                "verify"@,
            ) || is_word(w, "guaranteed"@)
        }),
{
    reveal_strlit("turbo");
    reveal_strlit("fast");
    reveal_strlit("thorough");
    reveal_strlit("deep");
    reveal_strlit("pro");
    reveal_strlit("stealth");
    reveal_strlit("quiet");
    reveal_strlit("ironclad");
    reveal_strlit("real");
    reveal_strlit("verify");
    reveal_strlit("guaranteed");
    reveal_strlit("balanced");
    let w = trimmed(s);
    if w.len() > 1 {
        let a = lower(w[0]);
        let b = lower(w[1]);
        assert(is_word(w, "turbo"@) ==> a == 't' && w.len() == 5);
        assert(is_word(w, "fast"@) ==> a == 'f' && w.len() == 4);
        assert(is_word(w, "thorough"@) ==> a == 't' && w.len() == 8);
        assert(is_word(w, "deep"@) ==> a == 'd' && w.len() == 4);
        assert(is_word(w, "pro"@) ==> a == 'p' && w.len() == 3);
        assert(is_word(w, "stealth"@) ==> a == 's' && w.len() == 7);
        assert(is_word(w, "quiet"@) ==> a == 'q' && w.len() == 5);
        assert(is_word(w, "ironclad"@) ==> a == 'i' && w.len() == 8);
        assert(is_word(w, "real"@) ==> a == 'r' && w.len() == 4);
        assert(is_word(w, "verify"@) ==> a == 'v' && w.len() == 6);
        assert(is_word(w, "guaranteed"@) ==> a == 'g' && w.len() == 10);
        assert(is_word(w, "balanced"@) ==> a == 'b' && w.len() == 8);
    }
}

/// A text without a separator is one piece.
pub proof fn a_text_without_separators_is_one_piece(s: Seq<char>)
    requires
        forall|i: int|
            0 <= i < s.len() ==> (#[trigger] s[i]) != ',' && s[i] != ';' && s[i] != ' ' && s[i]
                != '\n',
    ensures
        pieces(s) == seq![s],
    decreases s.len(),
{
    if s.len() > 0 {
        let before = s.drop_last();
        a_text_without_separators_is_one_piece(before);
        assert(s[s.len() - 1] == s.last());
        assert(pieces(s) =~= seq![before.push(s.last())]);
        assert(before.push(s.last()) =~= s);
    } else {
        assert(s =~= Seq::<char>::empty());
        assert(pieces(s) =~= seq![s]);
    }
}

proof fn there_is_a_piece(s: Seq<char>)
    ensures
        pieces(s).len() > 0,
    decreases s.len(),
{
    if s.len() > 0 {
        there_is_a_piece(s.drop_last());
    }
}

/// A comma, a semicolon, a blank or a line end cuts a text in two, each of which
/// is cut by itself.
pub proof fn separators_cut_a_text(a: Seq<char>, c: char, b: Seq<char>)
    requires
        c == ',' || c == ';' || c == ' ' || c == '\n',
    ensures
        pieces(a + seq![c] + b) == pieces(a) + pieces(b),
    decreases b.len(),
{
    let s = a + seq![c] + b;
    there_is_a_piece(a);
    if b.len() == 0 {
        assert(s.drop_last() =~= a);
        assert(s.last() == c);
        assert(pieces(s) =~= pieces(a) + pieces(b));
    } else {
        let head = b.drop_last();
        separators_cut_a_text(a, c, head);
        there_is_a_piece(head);
        assert(s.drop_last() =~= a + seq![c] + head);
        assert(s.last() == b.last());
        let before = pieces(a) + pieces(head);
        if is_separator(b.last()) {
            assert(pieces(s) =~= pieces(a) + pieces(b));
        } else {
            assert(before.last() == pieces(head).last());
            assert(before.drop_last() =~= pieces(a) + pieces(head).drop_last());
            assert(pieces(s) =~= pieces(a) + pieces(b));
        }
    }
}

/// Every piece of a setting that is a range counts, in order, and no other does.
pub proof fn every_range_of_a_setting_counts(a: Seq<Seq<char>>, piece: Seq<char>)
    ensures
        normalized(piece) is None ==> normalized_pieces(a.push(piece)) == normalized_pieces(a),
        normalized(piece) matches Some(text) ==> normalized_pieces(a.push(piece))
            == normalized_pieces(a).push(text),
        normalized_pieces(Seq::empty()).len() == 0,
{
    assert(a.push(piece).drop_last() =~= a);
}

/// The first setting that is not blank decides; without one, or where it holds no
/// range, the user gives none.
pub proof fn the_first_setting_that_is_not_blank_decides(
    first: Option<Seq<char>>,
    second: Option<Seq<char>>,
)
    ensures
        first matches Some(text) ==> (trimmed(text).len() > 0 ==> manual_ranges(first, second)
            == manual_ranges(first, None)),
        first matches Some(text) ==> (trimmed(text).len() == 0 ==> manual_ranges(first, second)
            == manual_ranges(None, second)),
        first is None ==> manual_ranges(first, second) == manual_ranges(second, None),
        manual_ranges(None, None) is None,
        first matches Some(text) ==> (trimmed(text).len() > 0 ==> (manual_ranges(first, second)
            is None <==> normalized_pieces(pieces(text)).len() == 0)),
        manual_ranges(first, second) matches Some(list) ==> list.len() > 0,
{
}

/// A range with a prefix longer than an address is none, and neither is a text
/// that is no address at all.
pub proof fn no_prefix_is_longer_than_an_address(raw: Seq<char>)
    ensures
        range_meant(raw) matches Some((ip, prefix)) ==> prefix <= 32,
        range_meant(raw) is None <==> normalized(raw) is None,
{
}

/// A sample of an IPv6 range whose base leaves its low half free keeps the base
/// and puts a host of one of the IPv4 ranges there.
pub proof fn a_sample_keeps_its_ipv6_base(base: u128, range: (u32, u8), pick: u32)
    requires
        base % 0x1_0000_0000 == 0,
    ensures
        ({
            let ip = embedded_host(base, range, pick);
            let host = range.0 | ((pick as nat % pow2(host_bits(range.1))) as u32);
            &&& ip / 0x1_0000_0000 == base / 0x1_0000_0000
            &&& ip % 0x1_0000_0000 == host as u128
        }),
{
    let host: u32 = range.0 | ((pick as nat % pow2(host_bits(range.1))) as u32);
    let h: u128 = host as u128;
    assert((base | h) / 0x1_0000_0000u128 == base / 0x1_0000_0000u128 && (base | h)
        % 0x1_0000_0000u128 == h) by (bit_vector)
        requires
            base % 0x1_0000_0000u128 == 0,
            h <= 0xffff_ffffu128,
    ;
}

/// A range that is no range gives no IPv6 host, and one that is one address gives
/// that one.
pub proof fn one_ipv6_address_is_one_host(st: WgStrategy, cidr: Seq<char>, hosts: Seq<u128>)
    requires
        takes_v6(st, cidr, hosts),
    ensures
        range_v6(cidr) is None ==> hosts.len() == 0,
        range_v6(cidr) matches Some((base, prefix)) ==> (prefix >= 128 ==> hosts == seq![base]),
{
}

/// A range of two addresses has no host besides its ends and is sampled by the
/// address that it is given by.
pub proof fn a_pair_is_sampled_by_its_address(
    st: WgStrategy,
    cidr: Seq<char>,
    base: u32,
    hosts: Seq<u32>,
)
    requires
        !st.full_subnet,
        takes_v4(st, cidr, hosts),
        range_v4(cidr) == Some((base, 31u8)),
    ensures
        hosts == seq![base],
{
    vstd::arithmetic::power2::lemma2_to64();
}

/// A sample of an IPv6 range may hold a host of any of the IPv4 ranges, and
/// where there are none any number.
pub proof fn every_range_can_be_embedded(
    base: u128,
    ranges: Seq<(u32, u8)>,
    k: int,
    pick: u32,
)
    ensures
        0 <= k < ranges.len() ==> can_sample_v6(base, ranges, embedded_host(base, ranges[k], pick)),
        ranges.len() == 0 ==> can_sample_v6(base, ranges, base | (pick as u128)),
{
}

/// Where the user gives ranges and IPv4 is tried, only these are scanned, on the
/// ports that are given; a scan for IPv6 alone does not look at them, and where
/// the user gives none the known edges are scanned.
pub proof fn given_ranges_replace_the_known_ones(
    st: WgStrategy,
    ports: Vec<u16>,
    ip: IpScan,
    excluded: Vec<Endpoint>,
    team: bool,
    wg_cidrs: Option<&str>,
    scan_cidrs: Option<&str>,
    r: Vec<Endpoint>,
)
    requires
        call_ensures(
            build_wg_candidates,
            (&st, &ports, ip, &excluded, team, wg_cidrs, scan_cidrs),
            r,
        ),
    ensures
        manual_ranges(setting(wg_cidrs), setting(scan_cidrs)) is None || ip is V6
            ==> from_known_ranges(st, ports@, ip, team, excluded@, r@),
        manual_ranges(setting(wg_cidrs), setting(scan_cidrs)) matches Some(cidrs) ==> (!(ip is V6)
            ==> from_manual_ranges(st, ports_to_try(ports@), cidrs, excluded@, r@)),
        r@.no_duplicates(),
        forall|i: int| 0 <= i < r@.len() ==> !excluded@.contains(#[trigger] r@[i]),
{
    if let Some(cidrs) = manual_ranges(setting(wg_cidrs), setting(scan_cidrs)) {
        if !(ip is V6) {
            crate::wg_prober::candidates::manual_scans_stay_in_the_ranges(
                st,
                ports_to_try(ports@),
                cidrs,
                excluded@,
                r@,
            );
        } else {
            crate::wg_prober::candidates::known_edges_are_tried_once(
                st,
                ports@,
                ip,
                team,
                excluded@,
                r@,
            );
        }
    } else {
        crate::wg_prober::candidates::known_edges_are_tried_once(
            st,
            ports@,
            ip,
            team,
            excluded@,
            r@,
        );
    }
}

/// Only the first answer of a scan is given grace: a second slow one is kept, and
/// the scan ends when it would have ended without it.
pub proof fn a_second_slow_answer_gains_nothing(
    was: Hunt,
    first: WgProbeResult,
    now: u64,
    budget: u64,
    floor: Option<(Endpoint, u64)>,
    grace: u64,
    mid: Hunt,
    r: HuntStep,
    second: WgProbeResult,
    then: u64,
    next: Hunt,
    s: HuntStep,
)
    requires
        was.wf(),
        was.answered(first, now, budget, floor, grace, &mid, r),
        mid.answered(second, then, budget, floor, grace, &next, s),
        was.strategy.early_exit_first,
        first.rtt > budget,
        second.rtt > budget,
    ensures
        !mid.strategy.early_exit_first,
        mid.hunting_for_fast,
        s == HuntStep::Continue,
        next.quiet_until == mid.quiet_until,
        next.verified@ == was.verified@.push(first).push(second),
{
}

/// Whether the address is tried.
pub open spec fn tries(candidates: Seq<Endpoint>, ip: IpAddress) -> bool {
    exists|i: int| 0 <= i < candidates.len() && (#[trigger] candidates[i]).ip == ip
}

proof fn a_listed_address_is_tried(
    ips: Seq<IpAddress>,
    ports: Seq<u16>,
    waves: int,
    ip: IpAddress,
)
    requires
        ips.contains(ip),
        1 <= waves,
    ensures
        tries(scheduled(ips, ports, Seq::empty(), waves), ip),
{
    let none = Seq::<Endpoint>::empty();
    let i = choose|i: int| 0 <= i < ips.len() && ips[i] == ip;
    nothing_is_left_out(ips, ports, none, waves, 0, i);
    let e = Endpoint { ip: ips[i], port: ports[(i + 0) % (ports.len() as int)] };
    let all = scheduled(ips, ports, none, waves);
    assert(all.contains(e));
    let j = choose|j: int| 0 <= j < all.len() && all[j] == e;
    assert(all[j].ip == ip);
}

/// In every mode a scan for IPv6 from which nothing is excluded tries hosts of
/// every IPv6 range that can be read: as many as the mode samples, and 80 where
/// it samples none.
pub proof fn every_ipv6_range_is_tried(
    mode: WgScanMode,
    ports: Seq<u16>,
    ip: IpScan,
    team: bool,
    candidates: Seq<Endpoint>,
    k: int,
)
    requires
        from_known_ranges(strategy_of(mode), ports, ip, team, Seq::empty(), candidates),
        ip is V6 || ip is Both,
        0 <= k < edge_ranges_v6(ip, team).len(),
        range_v6(edge_ranges_v6(ip, team)[k]) matches Some((_, prefix)) && prefix < 128,
    ensures
        candidates.len() > 0,
        exists|hosts: Seq<u128>|
            {
                &&& #[trigger] takes_v6(strategy_of(mode), edge_ranges_v6(ip, team)[k], hosts)
                &&& hosts.len() == (if mode is Thorough {
                    80int
                } else {
                    strategy_of(mode).sample_per_cidr as int
                })
                &&& hosts.len() > 0
                &&& forall|j: int|
                    0 <= j < hosts.len() ==> tries(candidates, IpAddress::V6(#[trigger] hosts[j]))
            },
{
    let st = strategy_of(mode);
    let none = Seq::<Endpoint>::empty();
    let (v4, v6) = choose|v4: Seq<Seq<u32>>, v6: Seq<Seq<u128>>|
        {
            &&& #[trigger] takes_all_v4(st, edge_ranges_v4(ip, team), v4)
            &&& #[trigger] takes_all_v6(st, edge_ranges_v6(ip, team), v6)
            &&& candidates == scheduled(
                firsts(anchors_of(ip, team) + (as_v4(interleaved(v4)) + as_v6(interleaved(v6)))),
                ports_to_try(ports),
                none,
                waves_of(st),
            )
        };
    let hosts = v6[k];
    assert(takes_v6(st, edge_ranges_v6(ip, team)[k], hosts));
    let (base, prefix) = range_v6(edge_ranges_v6(ip, team)[k])->0;
    every_mode_samples_ipv6_ranges(st, edge_ranges_v6(ip, team)[k], base, prefix, hosts);
    modes_look_as_hard_as_they_say(mode);
    let head = anchors_of(ip, team);
    let four = as_v4(interleaved(v4));
    let six = as_v6(interleaved(v6));
    let all = head + (four + six);
    firsts_are_distinct(all);
    interleaving_keeps_the_entries(v6);
    assert forall|j: int| 0 <= j < hosts.len() implies tries(
        candidates,
        IpAddress::V6(#[trigger] hosts[j]),
    ) by {
        let x = hosts[j];
        assert(v6[k][j] == x);
        assert(interleaved(v6).contains(x));
        let at = choose|at: int| 0 <= at < interleaved(v6).len() && interleaved(v6)[at] == x;
        assert(six[at] == IpAddress::V6(x));
        assert(all[head.len() + four.len() + at] == IpAddress::V6(x));
        assert(all.contains(IpAddress::V6(x)));
        assert(firsts(all).contains(IpAddress::V6(x)));
        a_listed_address_is_tried(
            firsts(all),
            ports_to_try(ports),
            waves_of(st),
            IpAddress::V6(x),
        );
    }
    assert(tries(candidates, IpAddress::V6(hosts[0])));
}

} // verus!
