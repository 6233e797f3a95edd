use std::collections::{HashMap, HashSet};

use aether::addr::{Endpoint, IpAddress};
use aether::cidr::parse_ipv4;
use aether::sysprofile::tuning;
use aether::text::chars_of;
use aether::wg_prober::candidates::{
    build_wg_candidates, manual_wg_candidates, order_candidates, IpScan,
};
use aether::wg_prober::hosts::{
    embed_host, enumerate_cidr_v4, nth_unused, sample_cidr_v4, sample_cidr_v6,
};
use aether::wg_prober::hunt::{
    good_rtt_budget, probe_result, slow_first_grace, Hunt, HuntStep, NoCleanEndpoint,
};
use aether::wg_prober::lists::{distinct_ports, interleave};
use aether::wg_prober::manual::{app_normalize_cidr_v4, custom_wg_cidrs_v4};
use aether::wg_prober::mode::WgScanMode;
use aether::wg_prober::schedule::schedule_attempts;
use aether::wg_prober::select::{
    apply_rtt_floor, clear_rtt_floor, distinct_by_ip, rtt_floor, set_rtt_floor, RttFloor,
    WgProbeResult,
};
use aether::wireguard::ranges::{wg_prefixes_v4, wg_seeds_v4, WG_PREFIXES_V4};

const MILLI: u64 = 1_000_000;

fn v4(text: &str) -> IpAddress {
    IpAddress::V4(parse_ipv4(&chars_of(text)).expect("an address"))
}

fn candidates(mode: WgScanMode, ports: &[u16], excluded: &[Endpoint]) -> Vec<Endpoint> {
    build_wg_candidates(
        &mode.strategy(),
        &ports.to_vec(),
        IpScan::V4,
        &excluded.to_vec(),
        false,
        None,
        None,
    )
}

#[test]
fn anchors_come_first_but_each_on_its_own_port() {
    let ports = [2408, 500, 1701, 4500, 854];
    let candidates = candidates(WgScanMode::Turbo, &ports, &[]);

    for (idx, seed) in wg_seeds_v4(false).iter().enumerate() {
        let ip = v4(seed);
        assert_eq!(
            candidates[idx],
            Endpoint {
                ip,
                port: ports[idx % ports.len()]
            },
            "anchor {ip:?} should be tried once, on a port of its own"
        );
    }
}

#[test]
fn the_front_of_the_scan_never_hammers_one_port() {
    let ports = [2408, 500, 1701, 4500, 854];
    let candidates = candidates(WgScanMode::Turbo, &ports, &[]);

    let head: HashSet<u16> = candidates[..ports.len()].iter().map(|e| e.port).collect();
    assert_eq!(
        head.len(),
        ports.len(),
        "the first candidates must spread across ports, not stack on 2408"
    );

    let on_2408 = candidates
        .iter()
        .take(20)
        .filter(|e| e.port == 2408)
        .count();
    assert!(
        on_2408 <= 4,
        "port 2408 took {on_2408} of the first twenty slots"
    );
}

#[test]
fn turbo_tries_every_address_once_before_repeating_any() {
    let ports = [2408, 500, 1701, 4500, 854];
    let candidates = candidates(WgScanMode::Turbo, &ports, &[]);

    let mut per_ip: HashMap<IpAddress, usize> = HashMap::new();
    for e in &candidates {
        *per_ip.entry(e.ip).or_default() += 1;
    }

    let repeated = per_ip.values().filter(|count| **count > 1).count();
    assert!(
        repeated <= wg_seeds_v4(false).len(),
        "only an anchor that the pool also sampled may appear twice, saw {repeated}"
    );
    assert!(
        per_ip.values().all(|count| *count <= 2),
        "no address should be tried more than twice in turbo"
    );
}

#[test]
fn sampled_ips_receive_multiple_rotated_port_attempts() {
    let mut strategy = WgScanMode::Balanced.strategy();
    strategy.sample_per_cidr = 1;
    let candidates = build_wg_candidates(
        &strategy,
        &vec![2408, 500, 1701, 4500],
        IpScan::V4,
        &Vec::new(),
        false,
        None,
        None,
    );
    let anchors: HashSet<IpAddress> = wg_seeds_v4(false).iter().map(|seed| v4(seed)).collect();
    let mut ports_per_ip: HashMap<IpAddress, HashSet<u16>> = HashMap::new();

    for e in candidates {
        if !anchors.contains(&e.ip) {
            ports_per_ip.entry(e.ip).or_default().insert(e.port);
        }
    }

    assert!(
        ports_per_ip.values().any(|ports| ports.len() >= 3),
        "sampled IPs should be tried across multiple port waves"
    );
}

fn result(ip: &str, port: u16, rtt_ms: u64) -> WgProbeResult {
    WgProbeResult {
        ip: v4(ip),
        port,
        rtt: rtt_ms * MILLI,
    }
}

#[test]
fn two_ports_on_one_edge_count_as_a_single_choice() {
    let found = vec![
        result("162.159.192.1", 2408, 40),
        result("162.159.192.1", 500, 30),
        result("162.159.192.1", 1701, 50),
    ];
    let picked = distinct_by_ip(&found);
    assert_eq!(picked.len(), 1, "one address must not fill both gool hops");
    assert_eq!(picked[0].port, 500, "the quickest port on it is kept");
}

#[test]
fn separate_edges_are_offered_quickest_first() {
    let found = vec![
        result("162.159.193.7", 2408, 90),
        result("162.159.192.1", 2408, 20),
        result("162.159.192.1", 500, 25),
        result("162.159.195.4", 4500, 55),
    ];
    let picked = distinct_by_ip(&found);
    assert_eq!(picked.len(), 3);
    assert_eq!(picked[0].ip, v4("162.159.192.1"));
    assert_eq!(picked[1].ip, v4("162.159.195.4"));
    assert_eq!(picked[2].ip, v4("162.159.193.7"));
    assert_ne!(
        picked[0].ip, picked[1].ip,
        "gool must get two different addresses"
    );
}

#[test]
fn nothing_verified_means_nothing_offered() {
    assert!(distinct_by_ip(&Vec::new()).is_empty());
}

#[test]
fn equal_times_keep_the_order_of_the_answers() {
    let found = vec![
        result("10.0.0.2", 1, 5),
        result("10.0.0.1", 2, 5),
        result("10.0.0.2", 3, 5),
    ];
    let picked = distinct_by_ip(&found);
    assert_eq!(picked, vec![found[0], found[1]]);
}

#[test]
fn cooled_down_endpoint_is_excluded_from_the_scan() {
    let peer = Endpoint {
        ip: v4("162.159.192.1"),
        port: 2408,
    };
    let candidates = candidates(WgScanMode::Turbo, &[2408, 500, 1701, 4500], &[peer]);

    assert!(!candidates.contains(&peer));
    assert!(!candidates.is_empty());
}

#[test]
fn a_scan_without_ports_uses_the_default_one() {
    assert_eq!(distinct_ports(&Vec::new()), vec![2408]);
    assert_eq!(distinct_ports(&vec![7, 9, 7, 9, 1]), vec![7, 9, 1]);
    let candidates = candidates(WgScanMode::Turbo, &[], &[]);
    assert!(candidates.iter().all(|e| e.port == 2408));
}

#[test]
fn a_thorough_scan_lists_every_host() {
    let candidates = candidates(WgScanMode::Thorough, &[2408], &[]);
    let hosts: usize = WG_PREFIXES_V4
        .iter()
        .map(|c| enumerate_cidr_v4(c).len())
        .sum();
    assert_eq!(enumerate_cidr_v4(WG_PREFIXES_V4[0]).len(), 254);
    assert!(candidates.len() >= hosts);
    let distinct: HashSet<Endpoint> = candidates.iter().copied().collect();
    assert_eq!(distinct.len(), candidates.len(), "nothing is tried twice");
}

#[test]
fn an_ipv6_scan_embeds_hosts_of_the_known_ranges() {
    let candidates = build_wg_candidates(
        &WgScanMode::Turbo.strategy(),
        &vec![2408],
        IpScan::V6,
        &Vec::new(),
        false,
        None,
        None,
    );
    assert!(!candidates.is_empty());
    assert!(candidates.iter().all(|e| matches!(e.ip, IpAddress::V6(_))));
    let both = build_wg_candidates(
        &WgScanMode::Turbo.strategy(),
        &vec![2408],
        IpScan::Both,
        &Vec::new(),
        false,
        None,
        None,
    );
    assert!(both.iter().any(|e| matches!(e.ip, IpAddress::V4(_))));
    assert!(both.iter().any(|e| matches!(e.ip, IpAddress::V6(_))));
}

#[test]
fn addresses_rotate_over_the_ports_wave_by_wave() {
    let ips = vec![v4("10.0.0.1"), v4("10.0.0.2"), v4("10.0.0.3")];
    let ports = vec![1, 2];
    let listed = schedule_attempts(&ips, &ports, &Vec::new(), 2);
    let plain: Vec<(usize, u16)> = listed
        .iter()
        .map(|e| (ips.iter().position(|ip| *ip == e.ip).unwrap(), e.port))
        .collect();
    assert_eq!(plain, vec![(0, 1), (1, 2), (2, 1), (0, 2), (1, 1), (2, 2)]);
    assert_eq!(
        schedule_attempts(&ips, &ports, &Vec::new(), 5).len(),
        6,
        "a third wave has nothing new"
    );
    let excluded = vec![Endpoint {
        ip: ips[1],
        port: 2,
    }];
    assert_eq!(schedule_attempts(&ips, &ports, &excluded, 2).len(), 5);
}

#[test]
fn the_pool_follows_the_anchors_without_repeating_them() {
    let strategy = WgScanMode::Turbo.strategy();
    let listed = order_candidates(
        vec![v4("10.0.0.9")],
        vec![v4("10.0.0.1"), v4("10.0.0.9"), v4("10.0.0.2")],
        &vec![5],
        &Vec::new(),
        &strategy,
    );
    let ips: Vec<IpAddress> = listed.iter().map(|e| e.ip).collect();
    assert_eq!(ips, vec![v4("10.0.0.9"), v4("10.0.0.1"), v4("10.0.0.2")]);
}

#[test]
fn ranges_take_turns() {
    let lists = vec![vec![1u32, 2, 3], vec![10], vec![20, 21]];
    assert_eq!(interleave(&lists), vec![1, 10, 20, 2, 21, 3]);
    assert!(interleave::<u32>(&Vec::new()).is_empty());
}

#[test]
fn hosts_are_listed_and_sampled_inside_their_range() {
    assert_eq!(
        enumerate_cidr_v4("10.0.0.0/30"),
        vec![0x0a00_0001, 0x0a00_0002]
    );
    assert_eq!(enumerate_cidr_v4("10.0.0.7/32"), vec![0x0a00_0007]);
    assert!(enumerate_cidr_v4("10.0.0.0/19").is_empty(), "too wide");
    assert_eq!(enumerate_cidr_v4("10.0.0.0/20").len(), 4094);
    assert!(enumerate_cidr_v4("nonsense").is_empty());
    assert!(sample_cidr_v4("nonsense", 3).is_empty());
    assert_eq!(sample_cidr_v4("10.0.0.8/31", 3), vec![0x0a00_0008]);
    assert_eq!(
        enumerate_cidr_v4("10.0.0.6/30"),
        vec![0x0a00_0005, 0x0a00_0006],
        "any address of a range names it"
    );
    assert!(sample_cidr_v4("10.0.0.200/24", 254)
        .iter()
        .all(|ip| ip >> 8 == 0x0a0000));

    let sample = sample_cidr_v4("10.0.0.0/24", 40);
    assert_eq!(sample.len(), 40);
    let distinct: HashSet<u32> = sample.iter().copied().collect();
    assert_eq!(distinct.len(), 40);
    assert!(sample
        .iter()
        .all(|ip| *ip >= 0x0a00_0001 && *ip <= 0x0a00_00fe));
    let mut all = sample_cidr_v4("10.0.0.0/24", 1000);
    all.sort();
    assert_eq!(all, enumerate_cidr_v4("10.0.0.0/24"));
    assert_eq!(sample_cidr_v4("0.0.0.0/0", 5).len(), 5);
}

#[test]
fn samples_differ_from_draw_to_draw() {
    let samples: HashSet<Vec<u32>> = (0..16).map(|_| sample_cidr_v4("10.0.0.0/16", 4)).collect();
    assert!(samples.len() > 1);
}

#[test]
fn a_draw_counts_the_unused_offsets() {
    assert_eq!(nth_unused(&Vec::new(), 0), (1, 0));
    assert_eq!(nth_unused(&vec![1, 2, 5], 0), (3, 2));
    assert_eq!(nth_unused(&vec![1, 2, 5], 1), (4, 2));
    assert_eq!(nth_unused(&vec![1, 2, 5], 2), (6, 3));
}

#[test]
fn ipv6_hosts_carry_an_ipv4_host() {
    let base = 0x2606_4700_00d0_0000_0000_0000_0000_0000u128;
    assert_eq!(
        embed_host(base, (0xa29f_c000, 24), 0x1234_5678),
        base | 0xa29f_c078
    );
    assert_eq!(embed_host(base, (0xa29f_c001, 32), 77), base | 0xa29f_c001);
    let sample = sample_cidr_v6("2606:4700:d0::/64", 9, &["162.159.192.0/24"]);
    assert_eq!(sample.len(), 9);
    assert!(sample.iter().all(|ip| ip >> 8 == (base | 0xa29f_c000) >> 8));
    assert_eq!(sample_cidr_v6("2606:4700:d0::/128", 9, &[]), vec![base]);
    assert!(sample_cidr_v6("nonsense", 9, &[]).is_empty());
    let numbers: HashSet<u128> = sample_cidr_v6("::/64", 16, &[]).into_iter().collect();
    assert!(numbers.len() > 1);
    assert!(numbers.iter().all(|ip| *ip <= 0xffff_ffff));
}

fn normalize(text: &str) -> Option<String> {
    app_normalize_cidr_v4(&chars_of(text))
}

#[test]
fn a_range_can_be_written_in_several_ways() {
    assert_eq!(normalize("188.114.96.0/24").as_deref(), Some("188.114.96.0/24"));
    assert_eq!(
        normalize(" 188.114.96.0 / 24 ").as_deref(),
        Some("188.114.96.0/24")
    );
    assert_eq!(normalize("188.114.96.x").as_deref(), Some("188.114.96.0/24"));
    assert_eq!(normalize("188.114.96.X").as_deref(), Some("188.114.96.0/24"));
    assert_eq!(normalize("188.114.96.*").as_deref(), Some("188.114.96.0/24"));
    assert_eq!(normalize("188.114.96.7").as_deref(), Some("188.114.96.7/32"));
    assert_eq!(normalize("188.114.96.0/33"), None);
    assert_eq!(normalize("188.114.96"), None);
    assert_eq!(normalize("188.114.096.1"), None);
    assert_eq!(normalize(""), None);
    assert_eq!(normalize("x"), None);
}

#[test]
fn the_first_filled_setting_gives_the_ranges() {
    let list = custom_wg_cidrs_v4(Some("10.0.0.x, 10.0.1.1;bad\n10.0.2.0/30"), Some("1.1.1.1"));
    assert_eq!(
        list,
        Some(vec![
            "10.0.0.0/24".to_string(),
            "10.0.1.1/32".to_string(),
            "10.0.2.0/30".to_string(),
        ])
    );
    assert_eq!(
        custom_wg_cidrs_v4(Some("  "), Some("1.1.1.1")),
        Some(vec!["1.1.1.1/32".to_string()])
    );
    assert_eq!(custom_wg_cidrs_v4(Some("bad"), Some("1.1.1.1")), None);
    assert_eq!(custom_wg_cidrs_v4(None, None), None);
}

#[test]
fn ranges_given_by_the_user_are_the_only_ones_tried() {
    let scan = |ip: IpScan| {
        build_wg_candidates(
            &WgScanMode::Thorough.strategy(),
            &vec![2408, 500],
            ip,
            &Vec::new(),
            false,
            Some("10.0.0.0/30"),
            None,
        )
    };
    let expected = vec![
        Endpoint {
            ip: v4("10.0.0.1"),
            port: 2408,
        },
        Endpoint {
            ip: v4("10.0.0.2"),
            port: 500,
        },
        Endpoint {
            ip: v4("10.0.0.1"),
            port: 500,
        },
        Endpoint {
            ip: v4("10.0.0.2"),
            port: 2408,
        },
    ];
    assert_eq!(scan(IpScan::V4), expected);
    assert_eq!(scan(IpScan::Both), expected);
    assert!(scan(IpScan::V6)
        .iter()
        .all(|e| matches!(e.ip, IpAddress::V6(_))));
}

#[test]
fn a_range_named_by_a_host_is_not_left() {
    let tried = build_wg_candidates(
        &WgScanMode::Thorough.strategy(),
        &vec![2408],
        IpScan::Both,
        &Vec::new(),
        false,
        Some("188.114.96.7/24"),
        None,
    );
    assert_eq!(tried.len(), 254);
    let network = match v4("188.114.96.0") {
        IpAddress::V4(ip) => ip,
        other => panic!("{other:?}"),
    };
    assert!(tried
        .iter()
        .all(|e| matches!(e.ip, IpAddress::V4(ip) if ip >> 8 == network >> 8)));
}

#[test]
fn ports_of_a_manual_scan_rotate_as_they_are_given() {
    let tried = manual_wg_candidates(
        &WgScanMode::Thorough.strategy(),
        &vec![500, 500, 2408],
        &vec!["10.0.0.0/29".to_string()],
        &Vec::new(),
    );
    let ports: Vec<u16> = tried.iter().take(6).map(|e| e.port).collect();
    assert_eq!(ports, vec![500, 500, 2408, 500, 500, 2408]);
    let distinct: HashSet<(u32, u16)> = tried
        .iter()
        .map(|e| match e.ip {
            IpAddress::V4(ip) => (ip, e.port),
            other => panic!("{other:?}"),
        })
        .collect();
    assert_eq!(distinct.len(), tried.len());
    let tried = manual_wg_candidates(
        &WgScanMode::Thorough.strategy(),
        &Vec::new(),
        &vec!["10.0.0.9/32".to_string()],
        &Vec::new(),
    );
    assert_eq!(tried[0].port, 2408);
}

#[test]
fn a_team_puts_its_own_ranges_first() {
    let team = build_wg_candidates(
        &WgScanMode::Turbo.strategy(),
        &vec![2408],
        IpScan::V4,
        &Vec::new(),
        true,
        None,
        None,
    );
    assert_eq!(team[0].ip, v4(wg_seeds_v4(true)[0]));
    assert_eq!(wg_prefixes_v4(true).len(), WG_PREFIXES_V4.len());
}

#[test]
fn families_fall_back_to_what_the_host_can_reach() {
    assert_eq!(IpScan::Both.reachable(true), Some(IpScan::Both));
    assert_eq!(IpScan::Both.reachable(false), Some(IpScan::V4));
    assert_eq!(IpScan::V6.reachable(false), None);
    assert_eq!(IpScan::V6.reachable(true), Some(IpScan::V6));
    assert_eq!(IpScan::V4.reachable(false), Some(IpScan::V4));
}

#[test]
fn modes_are_read_back_from_their_labels() {
    for mode in [
        WgScanMode::Turbo,
        WgScanMode::Balanced,
        WgScanMode::Thorough,
        WgScanMode::Stealth,
        WgScanMode::Ironclad,
    ] {
        assert_eq!(WgScanMode::parse(mode.label()), mode);
    }
    assert_eq!(WgScanMode::parse("  FAST "), WgScanMode::Turbo);
    assert_eq!(WgScanMode::parse("Deep"), WgScanMode::Thorough);
    assert_eq!(WgScanMode::parse("pro"), WgScanMode::Thorough);
    assert_eq!(WgScanMode::parse("quiet"), WgScanMode::Stealth);
    assert_eq!(WgScanMode::parse("real"), WgScanMode::Ironclad);
    assert_eq!(WgScanMode::parse("verify"), WgScanMode::Ironclad);
    assert_eq!(WgScanMode::parse("guaranteed"), WgScanMode::Ironclad);
    assert_eq!(WgScanMode::parse("whatever"), WgScanMode::Balanced);
}

#[test]
fn strategies_are_what_their_modes_promise() {
    let turbo = WgScanMode::Turbo.strategy();
    assert!(turbo.early_exit_first);
    assert_eq!(turbo.overall_deadline, 30_000 * MILLI);
    let thorough = WgScanMode::Thorough.strategy();
    assert!(thorough.full_subnet);
    assert_eq!(thorough.target_successes, 0);
    assert_eq!(WgScanMode::Stealth.strategy().concurrency, 3);
    assert_eq!(WgScanMode::Ironclad.strategy().per_probe_timeout, 15_000 * MILLI);
}

#[test]
fn budgets_come_from_the_first_usable_setting() {
    assert_eq!(good_rtt_budget(None, None), 180 * MILLI);
    assert_eq!(good_rtt_budget(Some(" 90 "), Some("70")), 90 * MILLI);
    assert_eq!(good_rtt_budget(Some("0"), Some("70")), 70 * MILLI);
    assert_eq!(good_rtt_budget(Some("x"), Some("y")), 180 * MILLI);
    assert_eq!(slow_first_grace(None), 1200 * MILLI);
    assert_eq!(slow_first_grace(Some("5")), 5 * MILLI);
    assert_eq!(slow_first_grace(Some("18446744073709551615")), u64::MAX);
}

fn peer() -> Endpoint {
    Endpoint {
        ip: v4("162.159.192.115"),
        port: 859,
    }
}

#[test]
fn a_slower_winner_gives_way_to_the_endpoint_it_had_to_beat() {
    let mut floor = RttFloor::new();
    assert_eq!(rtt_floor(&floor), None);
    set_rtt_floor(&mut floor, peer(), 396 * MILLI + 851_077);
    let measured = 396 * MILLI + 851_077;
    assert_eq!(rtt_floor(&floor), Some((peer(), measured)));

    let slow = vec![result("162.159.195.92", 1701, 475)];
    let kept = apply_rtt_floor(slow.clone(), rtt_floor(&floor));
    assert_eq!(kept.len(), 2);
    assert_eq!(kept[0].ip, peer().ip);
    assert_eq!(kept[0].port, 859);
    assert_eq!(kept[0].rtt, measured);
    assert_eq!(kept[1], slow[0]);

    let mut close = result("162.159.195.92", 1701, 396);
    close.rtt += MILLI / 2;
    let close = vec![close];
    assert_eq!(
        apply_rtt_floor(close.clone(), rtt_floor(&floor)),
        close,
        "it was beaten by a fraction of a millisecond"
    );

    let quick = vec![result("162.159.195.92", 1701, 120)];
    assert_eq!(apply_rtt_floor(quick.clone(), rtt_floor(&floor)), quick);
    assert!(apply_rtt_floor(Vec::new(), rtt_floor(&floor)).is_empty());

    clear_rtt_floor(&mut floor);
    assert_eq!(rtt_floor(&floor), None);
    assert_eq!(apply_rtt_floor(slow.clone(), rtt_floor(&floor)), slow);
}

fn hunt(mode: WgScanMode, want: usize) -> Hunt {
    let t = tuning(8, Some(8192), None, None, None);
    Hunt::begin(mode, want, &t, 0)
}

#[test]
fn a_quick_first_answer_ends_a_turbo_scan() {
    let mut scan = hunt(WgScanMode::Turbo, 1);
    assert_eq!(scan.remaining(0), 30_000 * MILLI);
    let step = scan.on_result(result("10.0.0.1", 1, 100), 5, 180 * MILLI, None, 1200 * MILLI);
    assert_eq!(step, HuntStep::Take);
}

#[test]
fn a_slow_first_answer_is_kept_while_a_quicker_one_is_sought() {
    let mut scan = hunt(WgScanMode::Turbo, 1);
    let budget = 180 * MILLI;
    let grace = 1200 * MILLI;
    let step = scan.on_result(result("10.0.0.1", 1, 475), MILLI, budget, None, grace);
    assert_eq!(step, HuntStep::Continue);
    assert_eq!(scan.remaining(MILLI), grace);
    let step = scan.on_result(result("10.0.0.2", 1, 300), 2 * MILLI, budget, None, grace);
    assert_eq!(step, HuntStep::Continue, "the grace runs to its end");
    let offered = scan.finish(None).unwrap();
    assert_eq!(offered, vec![result("10.0.0.2", 1, 300)]);
    let step = scan.on_result(result("10.0.0.3", 1, 150), 3 * MILLI, budget, None, grace);
    assert_eq!(step, HuntStep::Take);
    let floor = Some((peer(), 120 * MILLI));
    let step = scan.on_result(result("10.0.0.3", 1, 150), 3 * MILLI, budget, floor, grace);
    assert_ne!(step, HuntStep::Take, "slower than what it has to beat");
}

#[test]
fn a_scan_for_several_ends_with_enough_addresses() {
    let mut scan = hunt(WgScanMode::Turbo, 2);
    assert!(!scan.strategy.early_exit_first);
    assert_eq!(scan.strategy.target_successes, 6);
    let budget = 180 * MILLI;
    let one = result("10.0.0.1", 1, 10);
    assert_eq!(scan.on_result(one, 1, budget, None, 0), HuntStep::Continue);
    let other_port = result("10.0.0.1", 2, 5);
    assert_eq!(
        scan.on_result(other_port, 2, budget, None, 0),
        HuntStep::Continue
    );
    let other = result("10.0.0.2", 1, 7);
    assert_eq!(scan.on_result(other, 3, budget, None, 0), HuntStep::Stop);
    assert_eq!(scan.finish(None), Ok(vec![other_port, other]));
}

#[test]
fn a_scan_that_reached_its_target_listens_a_while_longer() {
    let mut scan = hunt(WgScanMode::Stealth, 1);
    let now = 40_000 * MILLI;
    for n in 1..=3u8 {
        let pr = result(&format!("10.0.0.{n}"), 1, 100 - n as u64);
        assert_eq!(scan.on_result(pr, now, 0, None, 0), HuntStep::Continue);
    }
    assert_eq!(scan.remaining(now), 20_000 * MILLI);
    assert_eq!(scan.remaining(now + 21_000 * MILLI), 0);
    assert_eq!(scan.finish(None), Ok(vec![result("10.0.0.3", 1, 97)]));
}

#[test]
fn a_scan_without_answers_has_nothing_to_offer() {
    let scan = hunt(WgScanMode::Balanced, 3);
    assert_eq!(scan.finish(None), Err(NoCleanEndpoint));
    assert_eq!(
        scan.finish(Some((peer(), MILLI))),
        Err(NoCleanEndpoint),
        "an endpoint to beat is no answer"
    );
}

#[test]
fn an_ironclad_probe_counts_with_the_time_of_its_page() {
    let ip = v4("10.0.0.1");
    let plain = WgProbeResult { ip, port: 5, rtt: 7 };
    assert_eq!(probe_result(ip, 5, 7, false, None), Some(plain));
    assert_eq!(probe_result(ip, 5, 7, true, None), None);
    assert_eq!(
        probe_result(ip, 5, 7, true, Some(90)),
        Some(WgProbeResult {
            ip,
            port: 5,
            rtt: 90
        })
    );
}
