use std::collections::HashSet;
use std::io::{Error, ErrorKind};

use aether::cidr::{parse_cidr_v4, parse_cidr_v6};
use aether::wireguard::errors::is_transient_socket_error;
use aether::wireguard::packet::{
    build_dataplane_probe, build_dns_query, inject_client_id, ipv4_checksum, probe_with,
    strip_client_id,
};
use aether::wireguard::ranges::{
    prioritize, wg_prefixes_v4, wg_prefixes_v6, wg_seeds_v4, WG_PORTS, WG_PREFIXES_V4,
    WG_PREFIXES_V6, WG_SEEDS_V4, WG_ZT_PREFIXES_V4, WG_ZT_SEEDS_V4,
};
use aether::wireguard::session::{
    finish_datagram, flush_queue, scratch_buffer, take_datagram, Outcome, SessionKeys, MAX_PACKET,
};
use aether::wireguard::tunnel::{
    collect_batch, health_check_pause, pause_with, wg_stale_timeout, Checkup, Health, ReadError,
    Reader, Rekeying, Uplink, Writer, WG_HEALTHCHECK_INTERVAL_MILLIS,
    WG_HEALTHCHECK_JITTER_MILLIS,
};
use aether::wireguard::verify::{
    handshake_step, seal_probe, Dataplane, DataplaneStep, DataplaneWait, Handshake, Sealed, Step,
};

const SECOND: u64 = 1_000_000_000;

#[test]
fn the_documented_zero_trust_wireguard_ingress_range_is_scanned() {
    assert!(WG_PREFIXES_V4.contains(&"162.159.193.0/24"));
    assert!(WG_PREFIXES_V6.contains(&"2606:4700:100::/48"));
}

#[test]
fn the_documented_wireguard_ports_are_all_covered() {
    for port in [2408u16, 500, 1701, 4500] {
        assert!(WG_PORTS.contains(&port), "port {port} should be scanned");
    }
}

#[test]
fn the_documented_default_wireguard_port_leads_the_sweep() {
    assert_eq!(
        WG_PORTS.first(),
        Some(&2408),
        "the primary sweep port is taken from the head of this list"
    );
}

#[test]
fn the_documented_wireguard_fallback_ports_follow_the_default() {
    assert_eq!(&WG_PORTS[..4], &[2408, 500, 1701, 4500]);
}

#[test]
fn the_consumer_range_leads_when_no_team_is_configured() {
    assert_eq!(wg_prefixes_v4(false).first(), Some(&"162.159.192.0/24"));
    assert_eq!(wg_prefixes_v6(false).first(), Some(&"2606:4700:d0::/64"));
}

#[test]
fn no_prefix_is_lost_when_the_zero_trust_range_is_promoted() {
    for team in [false, true] {
        let promoted = prioritize(&WG_PREFIXES_V4, &WG_ZT_PREFIXES_V4, team);
        assert_eq!(promoted.len(), WG_PREFIXES_V4.len());
        for entry in WG_PREFIXES_V4 {
            assert!(promoted.contains(&entry), "{entry} went missing");
        }
    }
}

#[test]
fn the_range_of_a_team_leads_once_one_is_configured() {
    assert_eq!(wg_prefixes_v4(true).first(), Some(&WG_ZT_PREFIXES_V4[0]));
    assert_eq!(wg_seeds_v4(true).first(), Some(&WG_ZT_SEEDS_V4[0]));
    assert_eq!(wg_seeds_v4(false), WG_SEEDS_V4.to_vec());
}

#[test]
fn every_wireguard_prefix_parses() {
    for entry in WG_PREFIXES_V4 {
        let (_, bits) = entry.split_once('/').expect("cidr");
        assert!(parse_cidr_v4(entry).is_some(), "{entry}");
        assert!(bits.parse::<u8>().is_ok(), "{entry}");
    }
    for entry in WG_PREFIXES_V6 {
        let (_, bits) = entry.split_once('/').expect("cidr");
        assert!(parse_cidr_v6(entry).is_some(), "{entry}");
        assert!(bits.parse::<u8>().is_ok(), "{entry}");
    }
}

#[test]
fn an_icmp_port_unreachable_is_treated_as_transient() {
    assert!(is_transient_socket_error(&Error::from(
        ErrorKind::ConnectionRefused
    )));
}

#[test]
fn the_usual_transient_udp_errors_do_not_end_the_tunnel() {
    for kind in [
        ErrorKind::ConnectionReset,
        ErrorKind::ConnectionAborted,
        ErrorKind::HostUnreachable,
        ErrorKind::NetworkUnreachable,
        ErrorKind::Interrupted,
        ErrorKind::WouldBlock,
        ErrorKind::TimedOut,
    ] {
        assert!(
            is_transient_socket_error(&Error::from(kind)),
            "{kind:?} should be transient"
        );
    }
}

#[test]
fn a_broken_socket_is_still_fatal() {
    for kind in [
        ErrorKind::NotConnected,
        ErrorKind::AddrNotAvailable,
        ErrorKind::PermissionDenied,
        ErrorKind::InvalidInput,
    ] {
        assert!(
            !is_transient_socket_error(&Error::from(kind)),
            "{kind:?} should be fatal"
        );
    }
}

#[test]
fn health_probes_are_jittered_around_the_interval() {
    for _ in 0..200 {
        let pause = health_check_pause();
        assert!(pause >= WG_HEALTHCHECK_INTERVAL_MILLIS - WG_HEALTHCHECK_JITTER_MILLIS);
        assert!(pause <= WG_HEALTHCHECK_INTERVAL_MILLIS + WG_HEALTHCHECK_JITTER_MILLIS);
    }
}

#[test]
fn the_pause_follows_the_number_drawn() {
    assert_eq!(pause_with(0), 2500);
    assert_eq!(pause_with(1000), 3500);
}

#[test]
fn every_health_probe_is_a_fresh_packet() {
    let local = 0xac10_0002u32;
    let distinct: HashSet<Vec<u8>> = (0..16).map(|_| build_dataplane_probe(local)).collect();
    assert!(
        distinct.len() > 1,
        "the probe must not repeat byte for byte"
    );
}

#[test]
fn a_probe_is_a_dns_query_in_a_packet_of_its_own() {
    let probe = probe_with(0xac10_0002, 0x1234, 0xabcd, 50000);
    assert_eq!(probe[0], 0x45);
    assert_eq!(probe[9], 17);
    assert_eq!(&probe[12..16], &[172, 16, 0, 2]);
    assert_eq!(&probe[4..6], &[0xab, 0xcd]);
    assert_eq!(&probe[20..22], &50000u16.to_be_bytes());
    assert_eq!(&probe[22..24], &53u16.to_be_bytes());
    assert_eq!(&probe[28..30], &[0x12, 0x34]);
    assert_eq!(&probe[28..], &build_dns_query(0x1234)[..]);
    assert_eq!(probe[2] as usize * 256 + probe[3] as usize, probe.len());
    assert_eq!(
        ipv4_checksum(&probe[..20]),
        0,
        "the header sums up to nothing"
    );
}

#[test]
fn an_empty_header_has_a_checksum_too() {
    assert_eq!(ipv4_checksum(&[0; 20]), 0xffff);
    let mut header = [0u8; 20];
    header[10..12].copy_from_slice(&[0xff, 0xff]);
    assert_eq!(ipv4_checksum(&header), 0);
}

#[test]
fn probes_of_one_address_differ_in_their_numbers_only() {
    let a = probe_with(0xac10_0002, 1, 2, 20000);
    let b = probe_with(0xac10_0002, 0xffff, 0x1234, 59999);
    let differ: Vec<usize> = (0..60).filter(|i| a[*i] != b[*i]).collect();
    assert_eq!(differ, vec![4, 5, 10, 11, 20, 21, 28, 29]);
}

#[test]
fn a_checksum_makes_a_header_sum_up_to_nothing() {
    let mut header = vec![
        0x45, 0, 0, 0x73, 0, 0, 0x40, 0, 0x40, 0x11, 0, 0, 0xc0, 0xa8, 0, 1, 0xc0, 0xa8, 0, 0xc7,
    ];
    let sum = ipv4_checksum(&header);
    assert_eq!(sum, 0xb861);
    header[10..12].copy_from_slice(&sum.to_be_bytes());
    assert_eq!(ipv4_checksum(&header), 0);
}

#[test]
fn stripping_takes_off_the_mark() {
    let mut packet = vec![4u8, 0, 0, 0, 9, 9];
    inject_client_id(&mut packet, &[1, 2, 3]);
    assert_eq!(packet, vec![4, 1, 2, 3, 9, 9]);
    strip_client_id(&mut packet);
    assert_eq!(packet, vec![4, 0, 0, 0, 9, 9]);
    let mut short = vec![4u8, 7, 7];
    inject_client_id(&mut short, &[1, 2, 3]);
    assert_eq!(short, vec![4, 7, 7], "a stub is left alone");
}

#[test]
fn passing_errors_are_survived_for_a_while() {
    let mut reader = Reader::new();
    for _ in 0..64 {
        assert_eq!(reader.on_error(true), ReadError::Retry);
    }
    assert_eq!(reader.on_error(true), ReadError::GiveUp);
    let mut reader = Reader::new();
    assert_eq!(reader.on_error(true), ReadError::Retry);
    reader.on_datagram();
    assert_eq!(reader.transient_errors, 0);
    assert_eq!(reader.on_error(false), ReadError::GiveUp);
}

#[test]
fn a_silent_peer_gets_a_second_chance() {
    let mut checkup = Checkup::new();
    let stale = wg_stale_timeout(None);
    assert_eq!(stale, 20 * SECOND);
    assert_eq!(
        checkup.check(false, 5 * SECOND, stale),
        Health::Probe { rekey: false }
    );
    assert_eq!(
        checkup.check(false, 12 * SECOND, stale),
        Health::Probe { rekey: true }
    );
    assert_eq!(
        checkup.check(false, 20 * SECOND, stale),
        Health::Probe { rekey: true }
    );
    assert_eq!(
        checkup.check(false, 23 * SECOND, stale),
        Health::Stale { rekey: true }
    );
    let mut checkup = Checkup { strikes: 1 };
    assert_eq!(
        checkup.check(false, SECOND, stale),
        Health::Probe { rekey: false }
    );
    assert_eq!(checkup.strikes, 0, "a sign of life clears the strikes");
    assert_eq!(checkup.check(true, 0, stale), Health::Expired);
}

#[test]
fn the_stale_timeout_is_read_from_a_setting() {
    assert_eq!(wg_stale_timeout(Some("45")), 45 * SECOND);
    assert_eq!(wg_stale_timeout(Some("0")), 20 * SECOND);
    assert_eq!(wg_stale_timeout(Some("soon")), 20 * SECOND);
    assert_eq!(wg_stale_timeout(Some("100000")), 86_400 * SECOND);
}

#[test]
fn the_writer_reports_its_rate() {
    let mut uplink = Uplink::new(0);
    uplink.note_sent(1024 * 150, None);
    uplink.note_sent(1024 * 150, Some(70));
    assert_eq!(uplink.report(10 * SECOND), None);
    let report = uplink.report(15 * SECOND).expect("a report is due");
    assert_eq!(report.totals.packets, 2);
    assert_eq!(report.totals.waits, 1);
    assert_eq!(report.totals.worst_micros, 70);
    assert_eq!(report.kilobytes_per_second, 20);
    assert_eq!(uplink, Uplink::new(15 * SECOND));
}

#[test]
fn a_batch_takes_what_waits_but_no_more_than_fits() {
    let (tx, mut rx) = tokio::sync::mpsc::channel::<Vec<u8>>(128);
    for n in 0..100u8 {
        tx.try_send(vec![n]).unwrap();
    }
    let batch = collect_batch(vec![200], &mut rx);
    assert_eq!(batch.len(), 64);
    assert_eq!(batch[0], vec![200]);
    assert_eq!(batch[1], vec![0]);
    assert_eq!(batch[63], vec![62]);
    while rx.try_recv().is_ok() {}
    assert_eq!(collect_batch(vec![1], &mut rx).len(), 1);
}

/// The keys of two peers that know each other.
fn pair() -> (SessionKeys, SessionKeys) {
    let a = boringtun::x25519::StaticSecret::from([7u8; 32]);
    let b = boringtun::x25519::StaticSecret::from([9u8; 32]);
    let of = |mine: &boringtun::x25519::StaticSecret, theirs: &boringtun::x25519::StaticSecret| {
        SessionKeys {
            private_key: mine.to_bytes(),
            peer_public: boringtun::x25519::PublicKey::from(theirs).to_bytes(),
            preshared: None,
            keepalive: 25,
        }
    };
    (of(&a, &b), of(&b, &a))
}

#[test]
fn endpoint_verification_retransmits_a_lost_initial_handshake() {
    let keys = SessionKeys {
        private_key: [7u8; 32],
        peer_public: [9u8; 32],
        preshared: None,
        keepalive: 25,
    };
    let mut scratch = scratch_buffer();
    let mut handshake =
        Handshake::begin(&keys, [1, 2, 3], 0, 4 * SECOND, &mut scratch).expect("a first message");
    let mut received = vec![handshake.init_packet.clone()];
    let mut now = 0;
    while now < 3 * SECOND {
        now += SECOND / 10;
        let tick = handshake.on_tick(now, &mut scratch);
        assert!(tick.failed.is_none());
        if tick.resend {
            received.push(handshake.init_packet.clone());
        }
    }

    assert_eq!(received.len(), 3);
    assert_eq!(received[0], received[1]);
    assert_eq!(received[1], received[2]);
    assert_eq!(received[0].len(), 148);
    assert_eq!(&received[0][..4], &[1, 1, 2, 3]);
    assert_eq!(handshake.remaining(3 * SECOND), Some(SECOND));
    assert_eq!(handshake.remaining(4 * SECOND), None);
}

#[test]
fn two_peers_agree_on_keys_and_exchange_packets() {
    let (ours, theirs) = pair();
    let mut scratch = scratch_buffer();
    assert_eq!(scratch.len(), MAX_PACKET);
    let mark = [1u8, 2, 3];
    let mut handshake =
        Handshake::begin(&ours, mark, 0, 4 * SECOND, &mut scratch).expect("a first message");
    let mut peer = theirs.fresh_session();

    let taken = take_datagram(&mut peer, handshake.init_packet.clone(), &mark, &mut scratch);
    assert_eq!(taken.to_network.len(), 1, "the peer answers");
    assert!(taken.to_tunnel.is_none());

    let answer = taken.to_network[0].clone();
    assert_eq!(handshake.on_datagram(Vec::new(), &mut scratch), Step::Continue);
    let step = handshake.on_datagram(answer, &mut scratch);
    let confirm = match step {
        Step::Complete(Some(p)) => p,
        other => panic!("the handshake is complete: {other:?}"),
    };
    assert_eq!(&confirm[..4], &[4, 1, 2, 3]);
    take_datagram(&mut peer, confirm, &mark, &mut scratch);

    let probe = probe_with(0xac10_0002, 7, 8, 40000);
    let sealed = match seal_probe(&mut handshake.tunn, &mark, &probe, &mut scratch) {
        Sealed::Send(p) => p,
        _ => panic!("there are keys to seal with"),
    };
    assert_eq!(sealed.len(), probe.len() + 32);
    let taken = take_datagram(&mut peer, sealed, &mark, &mut scratch);
    assert_eq!(taken.to_tunnel, Some(probe.clone()), "what was sealed is opened");
    assert!(taken.progressed);

    // The way back: one packet confirms, a second one verifies.
    let mut writer = Writer::new();
    let back = probe_with(0x0808_0808, 9, 10, 53);
    let (out, rekey) = writer.seal_batch(
        &mut peer,
        &vec![back.clone(), back.clone()],
        &mark,
        &mut scratch,
    );
    assert_eq!(out.len(), 2);
    assert!(!rekey);
    let mut plane = Dataplane::begin(0, 4 * SECOND, SECOND);
    let step = plane.on_datagram(
        &mut handshake.tunn,
        out[0].clone(),
        &mark,
        2 * SECOND,
        &mut scratch,
    );
    assert_eq!(step, DataplaneStep::Confirmed);
    let step = plane.on_datagram(
        &mut handshake.tunn,
        out[1].clone(),
        &mark,
        3 * SECOND,
        &mut scratch,
    );
    assert_eq!(step, DataplaneStep::Verified(3 * SECOND));
}

#[test]
fn packets_wait_for_keys_and_leave_in_order() {
    let (ours, theirs) = pair();
    let mut scratch = scratch_buffer();
    let mark = [0u8, 0, 0];
    let mut session = ours.fresh_session();
    let mut peer = theirs.fresh_session();
    let first = probe_with(0xac10_0002, 1, 1, 40001);
    let second = probe_with(0xac10_0002, 2, 2, 40002);
    let mut writer = Writer::new();
    let (out, _) = writer.seal_batch(
        &mut session,
        &vec![first.clone(), second.clone()],
        &mark,
        &mut scratch,
    );
    assert_eq!(out.len(), 1, "only the start of a handshake goes out");
    assert_eq!(out[0][0], 1);

    let answer = take_datagram(&mut peer, out[0].clone(), &mark, &mut scratch).to_network;
    let taken = take_datagram(&mut session, answer[0].clone(), &mark, &mut scratch);
    let mut opened = Vec::new();
    for packet in taken.to_network {
        if let Some(p) = take_datagram(&mut peer, packet, &mark, &mut scratch).to_tunnel {
            if !p.is_empty() {
                opened.push(p);
            }
        }
    }
    assert_eq!(opened, vec![first, second]);
    assert!(
        flush_queue(&mut session, &mark, &mut scratch).is_empty(),
        "nothing waits any more"
    );
}

#[test]
fn an_outcome_tells_what_to_do() {
    let mark = [5u8, 6, 7];
    assert_eq!(handshake_step(Outcome::Done, &mark), Step::Complete(None));
    assert_eq!(
        handshake_step(Outcome::Network(vec![4, 0, 0, 0, 1]), &mark),
        Step::Complete(Some(vec![4, 5, 6, 7, 1]))
    );
    assert_eq!(handshake_step(Outcome::Tunnel(vec![1]), &mark), Step::Continue);
    let refused = Outcome::Refused(boringtun::noise::errors::WireGuardError::InvalidMac);
    assert_eq!(handshake_step(refused, &mark), Step::Continue);

    let mut writer = Writer::new();
    let refused = Outcome::Refused(boringtun::noise::errors::WireGuardError::InvalidMac);
    for _ in 0..23 {
        assert!(!writer.note(&refused));
    }
    assert!(writer.note(&refused), "the last straw asks for new keys");
    assert!(!writer.note(&Outcome::Done));
    assert_eq!(writer.encap_errors, 0);
}

#[test]
fn handshakes_in_place_keep_their_distance() {
    let (ours, _) = pair();
    let mut scratch = scratch_buffer();
    let mark = [1u8, 2, 3];
    let mut session = ours.fresh_session();
    let mut rekeying = Rekeying::new(10 * SECOND);
    let tick = rekeying.tick(&mut session, &ours, true, 10 * SECOND, &mark, &mut scratch);
    assert!(tick.rekeyed);
    assert!(!tick.unrecoverable);
    assert_eq!(tick.outgoing.len(), 1);
    assert_eq!(&tick.outgoing[0][..4], &[1, 1, 2, 3]);
    let tick = rekeying.tick(&mut session, &ours, true, 11 * SECOND, &mark, &mut scratch);
    assert!(!tick.rekeyed, "too soon");
    let tick = rekeying.tick(&mut session, &ours, true, 13 * SECOND, &mark, &mut scratch);
    assert!(tick.rekeyed);
    let expired = Outcome::Refused(boringtun::noise::errors::WireGuardError::ConnectionExpired);
    let tick = rekeying.after_timers(
        &mut session,
        expired,
        &ours,
        false,
        20 * SECOND,
        &mark,
        &mut scratch,
    );
    assert!(tick.expired.is_some());
    assert!(tick.rekeyed);
}

#[test]
fn a_dataplane_waits_probes_again_and_gives_up() {
    let mut plane = Dataplane::begin(0, 2 * SECOND, 0);
    assert_eq!(
        plane.poll(100_000_000),
        DataplaneWait::Wait {
            resend: false,
            nanos: 600_000_000
        }
    );
    assert_eq!(
        plane.poll(700_000_000),
        DataplaneWait::Wait {
            resend: true,
            nanos: 700_000_000
        }
    );
    assert_eq!(plane.poll(2 * SECOND), DataplaneWait::TimedOut);
    let mark = [0u8; 3];
    let step = plane.on_outcome(Outcome::Network(vec![4, 0, 0, 0]), &mark, SECOND);
    assert_eq!(step, DataplaneStep::Send(vec![4, 0, 0, 0]));
    assert_eq!(plane.successes, 0, "only packets count");
    assert_eq!(
        plane.on_outcome(Outcome::Tunnel(vec![0x45]), &mark, SECOND),
        DataplaneStep::Confirmed
    );
}

#[test]
fn junk_is_refused_by_a_session() {
    let (ours, _) = pair();
    let mut scratch = scratch_buffer();
    let mark = [1u8, 2, 3];
    let mut session = ours.fresh_session();
    let taken = take_datagram(&mut session, vec![9u8; 40], &mark, &mut scratch);
    assert!(taken.to_network.is_empty());
    assert!(taken.to_tunnel.is_none());
    assert!(!taken.progressed);
    let taken = finish_datagram(
        &mut session,
        Outcome::Tunnel(vec![1, 2]),
        &mark,
        &mut scratch,
    );
    assert_eq!(taken.to_tunnel, Some(vec![1, 2]));
}

#[test]
fn a_session_is_kept_alive_every_25_seconds_unless_told_otherwise() {
    let plain = SessionKeys::new([7u8; 32], [9u8; 32], None, None);
    assert_eq!(plain.keepalive, 25);
    assert_eq!(plain.first_session(None).persistent_keepalive(), None);
    assert_eq!(plain.fresh_session().persistent_keepalive(), Some(25));
    let told = SessionKeys::new([7u8; 32], [9u8; 32], Some([3u8; 32]), Some(5));
    assert_eq!(told.keepalive, 5);
    assert_eq!(told.preshared, Some([3u8; 32]));
    assert_eq!(told.first_session(Some(9)).persistent_keepalive(), Some(9));
    assert_eq!(told.fresh_session().persistent_keepalive(), Some(5));
}
