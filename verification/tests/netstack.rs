use std::collections::{HashMap, HashSet};

use smoltcp::iface::{Config, Interface, SocketSet};
use smoltcp::phy::{Checksum, Device, DeviceCapabilities, Medium, RxToken, TxToken};
use smoltcp::socket::tcp;
use smoltcp::time::Instant;
use smoltcp::wire::HardwareAddress;

use aether::addr::{Endpoint, IpAddress};
use aether::cidr::{parse_v4, parse_v6};
use aether::netstack::addrs::{
    apply_addrs, current_addrs, merge_addrs, routable_prefix_v4, routable_prefix_v6,
};
use aether::netstack::backlog::{drain_backlog, ingest, Backlog, MAX_BACKLOG_BYTES};
use aether::netstack::cmd::{
    alloc_port, bind_error_text, connect_error_text, handle_cmd, reap_text, udp_meta, Cmd,
    CmdOutcome,
};
use aether::netstack::credit::{Admission, FlowCredit, CREDIT_WAIT_MAX, MIN_FLOW_QUEUE_BYTES};
use aether::channel::Sent;
use aether::netstack::device::{
    Offer, StackDevice, StackRxToken, StackTxToken, MAX_DEVICE_TX, MAX_DEVICE_TX_HARD,
};
use aether::netstack::flow::{
    AppSide, DownlinkReport, ReapReason, StallNote, TcpState, UplinkStep, Verdict,
};
use aether::netstack::gauges::{clear_peaks, read_gauges};
use aether::netstack::keys::{key_list, member_list};
use aether::netstack::queues::{
    drain_app_data, drain_cmds, drain_inbound, MAX_APP_INGEST_PER_TICK, MAX_INGEST_PER_TICK,
};
use aether::netstack::reap::reap_wedged;
use aether::netstack::schedule::{next_delay, Schedule};
use aether::netstack::service::{
    downlink_flow, service_tcp_downlink, service_tcp_uplink, uplink_flow, Turn,
};
use aether::netstack::service_udp::{serve_udp_flow, service_udp, QueueSide};
use aether::netstack::sockets::{OpenError, TcpPhase};
use aether::netstack::stack::{
    data_in_bytes, data_in_id, max_tcp_pending, try_handle_data, DataIn, NetStack, TcpLimits,
};
use aether::netstack::start::{env_secs, start, StartError};
use aether::sysprofile::{tuning, Tier, Tuning};

const MILLI: u64 = 1_000_000;
const SECOND: u64 = 1_000_000_000;

struct Link<'a>(&'a mut StackDevice);

struct Rx(StackRxToken);

struct Tx<'a>(StackTxToken<'a>);

impl RxToken for Rx {
    fn consume<R, F>(self, f: F) -> R
    where
        F: FnOnce(&[u8]) -> R,
    {
        f(self.0.packet())
    }
}

impl<'a> TxToken for Tx<'a> {
    fn consume<R, F>(self, len: usize, f: F) -> R
    where
        F: FnOnce(&mut [u8]) -> R,
    {
        let mut packet = StackTxToken::blank(len);
        let r = f(&mut packet);
        self.0.queue(packet);
        r
    }
}

impl<'b> Device for Link<'b> {
    type RxToken<'a> = Rx where Self: 'a;
    type TxToken<'a> = Tx<'a> where Self: 'a;

    fn receive(&mut self, _now: Instant) -> Option<(Rx, Tx<'_>)> {
        self.0.receive().map(|(rx, tx)| (Rx(rx), Tx(tx)))
    }

    fn transmit(&mut self, _now: Instant) -> Option<Tx<'_>> {
        self.0.transmit().map(Tx)
    }

    fn capabilities(&self) -> DeviceCapabilities {
        let mut caps = DeviceCapabilities::default();
        caps.medium = Medium::Ip;
        caps.max_transmission_unit = self.0.mtu;
        caps.checksum.ipv4 = Checksum::Tx;
        caps.checksum.tcp = Checksum::Tx;
        caps.checksum.udp = Checksum::Tx;
        caps
    }
}

fn at(now: u64) -> Instant {
    Instant::from_micros((now / 1000) as i64)
}

fn poll(s: &mut NetStack, now: u64) {
    s.iface.poll(at(now), &mut Link(&mut s.device), &mut s.sockets);
}

fn interface() -> Interface {
    let mut device = StackDevice::new(1400);
    Interface::new(
        Config::new(HardwareAddress::Ip),
        &mut Link(&mut device),
        at(0),
    )
}

fn host() -> Tuning {
    tuning(8, Some(8192), None, None, None)
}

fn bare_stack() -> NetStack {
    NetStack {
        iface: interface(),
        device: StackDevice::new(1400),
        sockets: SocketSet::new(Vec::new()),
        tcp_conns: HashMap::new(),
        udp_conns: HashMap::new(),
        next_id: 0,
        next_port: 40000,
        tcp_limits: TcpLimits::from_env(None, None),
        tuning: host(),
    }
}

fn quick_limits() -> TcpLimits {
    TcpLimits {
        connect: 300 * MILLI,
        keepalive: 60 * SECOND,
        dead_peer: 360 * SECOND,
        orphan_linger: 300 * MILLI,
    }
}

fn started(limits: TcpLimits) -> NetStack {
    start(interface(), "198.18.0.1", "fc00::1", 1400, limits, host())
        .map_err(|e| format!("{e:?}"))
        .expect("netstack should start")
}

fn v4(text: &str) -> u32 {
    parse_v4(text).unwrap().unwrap().0
}

fn v6(text: &str) -> u128 {
    parse_v6(text).unwrap().unwrap().0
}

fn idle_app() -> AppSide {
    AppSide {
        abandoned: false,
        sent: 0,
        room: 16,
        closed: false,
    }
}

fn udp_ip_packet(payload_len: usize) -> Vec<u8> {
    let total = 20 + 8 + payload_len;
    let mut pkt = vec![0u8; total];
    pkt[0] = 0x45;
    pkt[2] = (total >> 8) as u8;
    pkt[3] = (total & 0xff) as u8;
    pkt[8] = 64;
    pkt[9] = 17;
    pkt[12..16].copy_from_slice(&[10, 0, 0, 9]);
    pkt[16..20].copy_from_slice(&[198, 18, 0, 1]);
    pkt[20..22].copy_from_slice(&5555u16.to_be_bytes());
    pkt[22..24].copy_from_slice(&9999u16.to_be_bytes());
    let udp_len = (8 + payload_len) as u16;
    pkt[24..26].copy_from_slice(&udp_len.to_be_bytes());
    pkt
}

#[test]
fn netstack_keeps_draining_inbound_when_outbound_is_never_read() {
    let (inbound_tx, mut inbound_rx) = tokio::sync::mpsc::channel::<Vec<u8>>(4);
    let (mut outbound_tx, _outbound_rx_never_read) = tokio::sync::mpsc::channel::<Vec<u8>>(1);
    let mut s = started(TcpLimits::from_env(None, None));
    let id = match handle_cmd(&mut s, Cmd::OpenUdp, 0) {
        CmdOutcome::UdpOpen(id) => id,
        other => panic!("udp socket should open: {other:?}"),
    };
    let dst = Endpoint {
        ip: IpAddress::V4(v4("1.1.1.1")),
        port: 53,
    };
    for _ in 0..64 {
        assert!(try_handle_data(&mut s, DataIn::Udp(id, dst, vec![0u8; 64])).is_none());
    }
    for index in 0..64u64 {
        inbound_tx
            .try_send(udp_ip_packet(32))
            .unwrap_or_else(|_| panic!("netstack stopped draining inbound at packet {index}: deadlock"));
        let (moved, closed) = drain_inbound(&mut s.device, &mut inbound_rx, MAX_INGEST_PER_TICK);
        assert_eq!((moved, closed), (1, false));
        poll(&mut s, index * MILLI);
        s.device.flush_tx(&mut outbound_tx);
        assert!(s.device.tx.len() <= MAX_DEVICE_TX_HARD);
    }
}

fn checksum16(data: &[u8], initial: u32) -> u16 {
    let mut sum = initial;
    let mut chunks = data.chunks_exact(2);
    for chunk in chunks.by_ref() {
        sum += u16::from_be_bytes([chunk[0], chunk[1]]) as u32;
    }
    if let Some(&last) = chunks.remainder().first() {
        sum += (last as u32) << 8;
    }
    while sum >> 16 != 0 {
        sum = (sum & 0xffff) + (sum >> 16);
    }
    !(sum as u16)
}

struct Segment {
    src_port: u16,
    dst_port: u16,
    seq: u32,
    flags: u8,
    payload: Vec<u8>,
}

fn parse_tcp(pkt: &[u8]) -> Option<Segment> {
    if pkt.len() < 20 || pkt[0] >> 4 != 4 {
        return None;
    }
    let ihl = ((pkt[0] & 0x0f) as usize) * 4;
    if pkt[9] != 6 || pkt.len() < ihl + 20 {
        return None;
    }
    let tcp = &pkt[ihl..];
    let header = ((tcp[12] >> 4) as usize) * 4;
    Some(Segment {
        src_port: u16::from_be_bytes([tcp[0], tcp[1]]),
        dst_port: u16::from_be_bytes([tcp[2], tcp[3]]),
        seq: u32::from_be_bytes([tcp[4], tcp[5], tcp[6], tcp[7]]),
        flags: tcp[13],
        payload: tcp[header..].to_vec(),
    })
}

fn build_tcp(
    src: (u32, u16),
    dst: (u32, u16),
    seq: u32,
    ack: u32,
    flags: u8,
    payload: &[u8],
) -> Vec<u8> {
    let mut tcp = vec![0u8; 20];
    tcp[0..2].copy_from_slice(&src.1.to_be_bytes());
    tcp[2..4].copy_from_slice(&dst.1.to_be_bytes());
    tcp[4..8].copy_from_slice(&seq.to_be_bytes());
    tcp[8..12].copy_from_slice(&ack.to_be_bytes());
    tcp[12] = 5 << 4;
    tcp[13] = flags;
    tcp[14..16].copy_from_slice(&64240u16.to_be_bytes());
    tcp.extend_from_slice(payload);

    let mut pseudo = Vec::new();
    pseudo.extend_from_slice(&src.0.to_be_bytes());
    pseudo.extend_from_slice(&dst.0.to_be_bytes());
    pseudo.push(0);
    pseudo.push(6);
    pseudo.extend_from_slice(&(tcp.len() as u16).to_be_bytes());
    pseudo.extend_from_slice(&tcp);
    let tcp_sum = checksum16(&pseudo, 0);
    tcp[16..18].copy_from_slice(&tcp_sum.to_be_bytes());

    let total = 20 + tcp.len();
    let mut ip = vec![0u8; 20];
    ip[0] = 0x45;
    ip[2..4].copy_from_slice(&(total as u16).to_be_bytes());
    ip[8] = 64;
    ip[9] = 6;
    ip[12..16].copy_from_slice(&src.0.to_be_bytes());
    ip[16..20].copy_from_slice(&dst.0.to_be_bytes());
    let ip_sum = checksum16(&ip, 0);
    ip[10..12].copy_from_slice(&ip_sum.to_be_bytes());

    ip.extend_from_slice(&tcp);
    ip
}

/// What the stack sends to the web server, oldest first.
fn sent(s: &mut NetStack) -> Vec<Segment> {
    let mut out = Vec::new();
    while let Some(pkt) = s.device.tx.pop_front() {
        if let Some(seg) = parse_tcp(&pkt) {
            if seg.dst_port == 80 {
                out.push(seg);
            }
        }
    }
    out
}

fn web() -> (u32, u16) {
    (v4("93.184.216.34"), 80)
}

/// One pass over a flow, as far as it is connected.
fn pass(s: &mut NetStack, id: usize, side: AppSide, now: u64) -> (UplinkStep, Option<DownlinkReport>) {
    let step = uplink_flow(s, id, side, now);
    let report = match step {
        UplinkStep::Served { measured, .. } => {
            Some(downlink_flow(s, id, measured, MIN_FLOW_QUEUE_BYTES, side, now))
        }
        _ => None,
    };
    (step, report)
}

struct Connection {
    s: NetStack,
    id: usize,
    port: u16,
    /// The next byte the server expects.
    seq: u32,
}

/// A flow to the web server whose handshake is done.
fn connected(limits: TcpLimits) -> Connection {
    let local = v4("198.18.0.1");
    let mut s = started(limits);
    let dst = Endpoint {
        ip: IpAddress::V4(web().0),
        port: web().1,
    };
    let id = match handle_cmd(&mut s, Cmd::OpenTcp { dst }, 0) {
        CmdOutcome::TcpOpening(id) => id,
        other => panic!("the connect should be under way: {other:?}"),
    };
    poll(&mut s, MILLI);
    let syn = sent(&mut s)
        .into_iter()
        .find(|seg| seg.flags & 0x02 != 0 && seg.flags & 0x10 == 0)
        .expect("the netstack should emit a syn");
    assert_eq!(uplink_flow(&mut s, id, idle_app(), MILLI), UplinkStep::Waiting);

    let syn_ack = build_tcp(
        web(),
        (local, syn.src_port),
        5000,
        syn.seq.wrapping_add(1),
        0x12,
        &[],
    );
    s.device.rx.push_back(syn_ack);
    poll(&mut s, 2 * MILLI);
    let (step, _) = pass(&mut s, id, idle_app(), 2 * MILLI);
    match step {
        UplinkStep::Served { announce, .. } => {
            assert!(announce, "the connection should be established")
        }
        other => panic!("the connection should be established: {other:?}"),
    }
    let (step, _) = pass(&mut s, id, idle_app(), 3 * MILLI);
    assert!(
        matches!(step, UplinkStep::Served { announce: false, .. }),
        "it is announced once"
    );
    sent(&mut s);
    Connection {
        s,
        id,
        port: syn.src_port,
        seq: syn.seq.wrapping_add(1),
    }
}

#[test]
fn a_vanished_app_makes_the_netstack_tear_the_connection_down() {
    let Connection { mut s, id, .. } = connected(TcpLimits::from_env(None, None));
    let gone = AppSide {
        closed: true,
        ..idle_app()
    };
    pass(&mut s, id, gone, 4 * MILLI);
    poll(&mut s, 5 * MILLI);
    let saw_teardown = sent(&mut s)
        .iter()
        .any(|seg| seg.flags & 0x01 != 0 || seg.flags & 0x04 != 0);
    assert!(
        saw_teardown,
        "the netstack never closed the socket after the app went away, so it leaks"
    );
}

#[test]
fn a_connect_nobody_answers_fails_instead_of_hanging() {
    let mut s = started(quick_limits());
    let dst = Endpoint {
        ip: IpAddress::V4(web().0),
        port: web().1,
    };
    assert_eq!(
        handle_cmd(&mut s, Cmd::OpenTcp { dst }, 0),
        CmdOutcome::TcpOpening(1)
    );
    poll(&mut s, 0);
    assert_eq!(
        uplink_flow(&mut s, 1, idle_app(), 299 * MILLI),
        UplinkStep::Waiting
    );
    assert_eq!(
        uplink_flow(&mut s, 1, idle_app(), 300 * MILLI),
        UplinkStep::Reaped(ReapReason::TimedOut)
    );
    assert!(s.tcp_conns.is_empty(), "it is not kept");
    let text = reap_text(ReapReason::TimedOut).expect("the caller is told");
    assert!(text.contains("timed out"), "{text}");
    assert_eq!(reap_text(ReapReason::Refused), Some("connection refused"));
    assert_eq!(reap_text(ReapReason::Aborted), None);
}

#[test]
fn a_connect_that_is_refused_says_so() {
    let mut s = started(quick_limits());
    let dst = Endpoint {
        ip: IpAddress::V4(web().0),
        port: web().1,
    };
    handle_cmd(&mut s, Cmd::OpenTcp { dst }, 0);
    poll(&mut s, 0);
    let syn = sent(&mut s).remove(0);
    let rst = build_tcp(
        web(),
        (v4("198.18.0.1"), syn.src_port),
        0,
        syn.seq.wrapping_add(1),
        0x14,
        &[],
    );
    s.device.rx.push_back(rst);
    poll(&mut s, MILLI);
    assert_eq!(
        uplink_flow(&mut s, 1, idle_app(), MILLI),
        UplinkStep::Reaped(ReapReason::Refused)
    );
}

#[test]
fn a_connect_nobody_waits_for_is_given_up() {
    let mut s = started(quick_limits());
    let dst = Endpoint {
        ip: IpAddress::V4(web().0),
        port: web().1,
    };
    handle_cmd(&mut s, Cmd::OpenTcp { dst }, 0);
    let side = AppSide {
        abandoned: true,
        ..idle_app()
    };
    assert_eq!(
        uplink_flow(&mut s, 1, side, MILLI),
        UplinkStep::Reaped(ReapReason::TimedOut)
    );
}

#[test]
fn an_orphan_whose_far_end_never_closes_is_reset() {
    let Connection { mut s, id, port, .. } = connected(quick_limits());
    let gone = AppSide {
        closed: true,
        ..idle_app()
    };
    let mut now = 4 * MILLI;
    pass(&mut s, id, gone, now);
    poll(&mut s, now);
    let fin_seq = sent(&mut s)
        .iter()
        .find(|seg| seg.flags & 0x01 != 0)
        .expect("the netstack should send a fin")
        .seq;
    let ack = build_tcp(
        web(),
        (v4("198.18.0.1"), port),
        5001,
        fin_seq.wrapping_add(1),
        0x10,
        &[],
    );
    s.device.rx.push_back(ack);
    poll(&mut s, now);

    let mut saw_reset = false;
    while now < 5 * SECOND && !saw_reset && s.tcp_conns.contains_key(&id) {
        now += 50 * MILLI;
        pass(&mut s, id, gone, now);
        poll(&mut s, now);
        saw_reset = sent(&mut s).iter().any(|seg| seg.flags & 0x04 != 0);
    }
    assert!(
        saw_reset,
        "an orphaned connection whose far end never closes must be reset, not kept"
    );
    pass(&mut s, id, gone, now + MILLI);
    assert!(s.tcp_conns.is_empty(), "and its flow leaves");
}

#[test]
fn bytes_go_out_and_come_back_in_order() {
    let Connection { mut s, id, port, seq } = connected(TcpLimits::from_env(None, None));
    let request = b"GET / HTTP/1.1\r\n\r\n".to_vec();
    assert!(try_handle_data(&mut s, DataIn::Tcp(id, request.clone())).is_none());
    let side = AppSide {
        sent: request.len() as u64,
        ..idle_app()
    };
    pass(&mut s, id, side, 5 * MILLI);
    poll(&mut s, 6 * MILLI);
    let carried: Vec<u8> = sent(&mut s).into_iter().flat_map(|seg| seg.payload).collect();
    assert_eq!(carried, request);
    assert_eq!(read_gauges(&s, 7 * MILLI).send_queued, request.len());

    let answer = build_tcp(
        web(),
        (v4("198.18.0.1"), port),
        5001,
        seq.wrapping_add(request.len() as u32),
        0x18,
        b"hello",
    );
    s.device.rx.push_back(answer);
    poll(&mut s, 8 * MILLI);
    let (step, report) = pass(&mut s, id, side, 9 * MILLI);
    let got: Vec<u8> = report.unwrap().chunks.into_iter().flatten().collect();
    assert_eq!(got, b"hello");
    match step {
        UplinkStep::Served { measured, .. } => {
            assert_eq!(measured.queued, 0);
            assert_eq!(measured.acked, request.len() as u64);
        }
        other => panic!("{other:?}"),
    }
    assert_eq!(s.tcp_conns[&id].credit.outstanding(), 0);
    clear_peaks(&mut s);
    assert_eq!(read_gauges(&s, 10 * MILLI).outstanding_peak, 0);
}

#[test]
fn a_full_application_queue_holds_the_bytes_back() {
    let Connection { mut s, id, port, seq } = connected(TcpLimits::from_env(None, None));
    let data = build_tcp(web(), (v4("198.18.0.1"), port), 5001, seq, 0x18, b"abc");
    s.device.rx.push_back(data);
    poll(&mut s, 8 * MILLI);
    let full = AppSide {
        room: 0,
        ..idle_app()
    };
    let turns = |s: &mut NetStack, side: AppSide, now: u64| {
        let steps = service_tcp_uplink(s, &vec![(id, side)], now);
        let measured = match steps[0] {
            UplinkStep::Served { measured, .. } => measured,
            other => panic!("{other:?}"),
        };
        let turn = Turn {
            id,
            side,
            measured,
            wanted: 0,
        };
        service_tcp_downlink(s, &vec![turn], now)
    };
    let (reports, busy) = turns(&mut s, full, 9 * MILLI);
    assert!(busy);
    assert!(reports[0].backpressured);
    assert!(reports[0].chunks.is_empty());
    let (reports, busy) = turns(&mut s, idle_app(), 10 * MILLI);
    assert!(!busy);
    assert_eq!(reports[0].chunks.concat(), b"abc");
}

#[test]
fn a_flow_that_never_drains_is_reported_and_then_reset() {
    let Connection { mut s, id, .. } = connected(TcpLimits::from_env(None, None));
    try_handle_data(&mut s, DataIn::Tcp(id, vec![1u8; 100]));
    pass(&mut s, id, idle_app(), 10 * MILLI);
    let (step, _) = pass(&mut s, id, idle_app(), 4 * SECOND);
    match step {
        UplinkStep::Served { measured, .. } => {
            assert!(matches!(measured.note, StallNote::Stalled { .. }));
            assert!(!measured.flap_reset);
        }
        other => panic!("{other:?}"),
    }
    assert_eq!(read_gauges(&s, 4 * SECOND).stalled_flows, 1);
    let mut backlog = Backlog::new();
    let (stalled, wedged) = reap_wedged(&mut s, &mut backlog, 5 * SECOND);
    assert!(stalled.is_empty() && wedged.is_empty());
    let (stalled, wedged) = reap_wedged(&mut s, &mut backlog, 9 * SECOND);
    assert_eq!(stalled, vec![id]);
    assert!(wedged.is_empty());
    assert!(s.tcp_conns[&id].pending.is_empty());
    assert!(s.tcp_conns[&id].credit.closed);
}

#[test]
fn a_flow_that_takes_nothing_is_wedged_in_the_end() {
    let mut s = bare_stack();
    let mut backlog = Backlog::new();
    let full = max_tcp_pending(&s.tuning);
    let id = new_conn(&mut s, vec![0u8; full]);
    ingest(&mut s, &mut backlog, DataIn::Tcp(id, vec![1u8; 64]));
    assert!(backlog.holds(id));
    let (stalled, wedged) = reap_wedged(&mut s, &mut backlog, 31 * SECOND);
    assert!(stalled.is_empty());
    assert_eq!(wedged, vec![id]);
    assert!(backlog.is_empty(), "what waited for it is gone");
}

#[test]
fn an_address_assigned_for_one_family_keeps_the_other() {
    let mut stack = bare_stack();
    apply_addrs(
        &mut stack.iface,
        Some((v4("172.16.0.2"), 32)),
        Some((v6("2606:4700:110:8a36::1"), 128)),
    );

    handle_cmd(
        &mut stack,
        Cmd::SetAddrs {
            v4: Some((v4("172.16.0.9"), 32)),
            v6: None,
        },
        0,
    );
    handle_cmd(
        &mut stack,
        Cmd::SetAddrs {
            v4: None,
            v6: Some((v6("2606:4700:110:8a36::9"), 128)),
        },
        0,
    );

    let (got4, got6) = current_addrs(&stack.iface);
    assert_eq!(got4.map(|(ip, _)| ip), Some(v4("172.16.0.9")));
    assert_eq!(got6.map(|(ip, _)| ip), Some(v6("2606:4700:110:8a36::9")));
    merge_addrs(&mut stack.iface, None, None);
    let (again, _) = current_addrs(&stack.iface);
    assert_eq!(again, got4);
}

#[test]
fn an_address_no_interface_may_own_is_refused() {
    let mut stack = bare_stack();
    let cmd = Cmd::SetAddrs {
        v4: Some((v4("224.0.0.1"), 32)),
        v6: None,
    };
    assert_eq!(handle_cmd(&mut stack, cmd, 0), CmdOutcome::AddrsRefused);
    let refused = |a: &str, b: &str| {
        start(interface(), a, b, 1400, quick_limits(), host())
            .err()
            .expect("it should not start")
    };
    assert_eq!(refused("bad", "fc00::1"), StartError::BadIpv4);
    assert_eq!(refused("198.18.0.1", "bad"), StartError::BadIpv6);
    assert_eq!(refused("255.255.255.255", ""), StartError::Unassignable);
    assert_eq!(refused("198.18.0.1", "ff02::1"), StartError::Unassignable);
}

#[test]
fn host_prefixes_are_widened_to_route() {
    assert_eq!(routable_prefix_v4(32), 24);
    assert_eq!(routable_prefix_v4(16), 16);
    assert_eq!(routable_prefix_v6(128), 64);
    assert_eq!(routable_prefix_v6(48), 48);
}

#[test]
fn flush_tx_holds_a_burst_back_instead_of_shredding_it() {
    let (mut outbound_tx, mut outbound_rx) = tokio::sync::mpsc::channel::<Vec<u8>>(2);
    let mut stack = bare_stack();

    for _ in 0..10 {
        stack.device.tx.push_back(vec![1, 2, 3]);
    }

    let (dropped, retained) = stack.device.flush_tx(&mut outbound_tx);

    assert_eq!(dropped, 0, "a short burst is never dropped any more");
    assert!(retained, "the rest of the burst is held for the next pass");
    assert_eq!(outbound_rx.len(), 2, "the channel keeps what fits");
    assert_eq!(stack.device.tx.len(), 8, "and the remainder waits, in order");

    // Once the writer catches up the held packets go out, so nothing is lost.
    while outbound_rx.try_recv().is_ok() {}
    let (dropped, _) = stack.device.flush_tx(&mut outbound_tx);
    assert_eq!(dropped, 0);
    assert_eq!(outbound_rx.len(), 2);
}

#[test]
fn past_the_hard_ceiling_the_oldest_packets_go() {
    let (mut outbound_tx, _outbound_rx) = tokio::sync::mpsc::channel::<Vec<u8>>(1);
    outbound_tx.try_send(vec![0]).unwrap();
    let mut device = StackDevice::new(1400);
    for n in 0..300u32 {
        device.tx.push_back(n.to_be_bytes().to_vec());
    }
    let (dropped, retained) = device.flush_tx(&mut outbound_tx);
    assert_eq!((dropped, retained), (300 - MAX_DEVICE_TX_HARD, true));
    assert_eq!(device.tx.len(), MAX_DEVICE_TX_HARD);
    assert_eq!(device.tx.back(), Some(&299u32.to_be_bytes().to_vec()));
    assert_eq!(device.tx_shed, 44);
    assert_eq!(device.tx_peak, 300);
    assert_eq!(device.hold(vec![9]), 1, "what is put back is the oldest");

    drop(_outbound_rx);
    let (dropped, retained) = device.flush_tx(&mut outbound_tx);
    assert_eq!((dropped, retained), (0, false));
    assert_eq!(device.tx.len(), MAX_DEVICE_TX_HARD - 1);
}

#[test]
fn a_full_link_refuses_to_send_but_always_answers() {
    let mut device = StackDevice::new(1400);
    for _ in 0..MAX_DEVICE_TX {
        let token = device.transmit().expect("there is room");
        token.queue(vec![1]);
    }
    assert!(device.transmit().is_none());
    assert_eq!(device.tx_stalls, 1);
    assert!(device.receive().is_none());
    device.rx.push_back(vec![7]);
    let (packet, token) = device.receive().expect("a packet");
    assert_eq!(packet.packet(), &vec![7]);
    token.queue(StackTxToken::blank(3));
    assert_eq!(device.tx.back(), Some(&vec![0, 0, 0]));
}

/// A flow on a socket that is not connected, with these bytes pending.
fn new_conn(stack: &mut NetStack, pending: Vec<u8>) -> usize {
    let socket = tcp::Socket::new(
        tcp::SocketBuffer::new(vec![0u8; 1024]),
        tcp::SocketBuffer::new(vec![0u8; 1024]),
    );
    let handle = stack.sockets.add(socket);
    let id = stack.next_id;
    stack.next_id += 1;
    let mut flow = TcpState::opening(handle, 0, 0);
    flow.connect_waiting = false;
    flow.established = true;
    flow.pending = pending;
    stack.tcp_conns.insert(id, flow);
    id
}

#[test]
fn a_wedged_flow_cannot_block_another_flows_writes() {
    let mut stack = bare_stack();
    let mut backlog = Backlog::new();

    let limit = max_tcp_pending(&stack.tuning);
    let wedged = new_conn(&mut stack, vec![0u8; limit]);
    let healthy = new_conn(&mut stack, Vec::new());

    ingest(&mut stack, &mut backlog, DataIn::Tcp(wedged, vec![1u8; 64]));
    ingest(&mut stack, &mut backlog, DataIn::Tcp(healthy, vec![2u8; 64]));

    assert!(backlog.holds(wedged), "the stuck flow keeps its own backlog");
    assert!(
        !backlog.holds(healthy),
        "the healthy flow must not be punished for it"
    );
    assert_eq!(
        stack.tcp_conns[&healthy].pending.len(),
        64,
        "the healthy flow's bytes went through while the other one was stuck"
    );

    // A second chunk for the stuck flow queues behind the first: a stream is
    // never reordered.
    ingest(&mut stack, &mut backlog, DataIn::Tcp(wedged, vec![3u8; 64]));
    assert_eq!(backlog.queue.len(), 2);
    assert!(matches!(backlog.queue.front(), Some(DataIn::Tcp(_, d)) if d[0] == 1));

    // And the stack keeps serving the healthy flow across drain passes.
    drain_backlog(&mut stack, &mut backlog);
    ingest(&mut stack, &mut backlog, DataIn::Tcp(healthy, vec![4u8; 64]));
    assert_eq!(stack.tcp_conns[&healthy].pending.len(), 128);
    assert!(backlog.holds(wedged));

    // Once the stuck flow takes bytes again, its chunks arrive in order.
    stack.tcp_conns.get_mut(&wedged).unwrap().pending.clear();
    drain_backlog(&mut stack, &mut backlog);
    assert!(backlog.is_empty());
    let pending = &stack.tcp_conns[&wedged].pending;
    assert_eq!(pending[..64], [1u8; 64]);
    assert_eq!(pending[64..], [3u8; 64]);
}

#[test]
fn a_saturated_download_cannot_starve_the_upload_path() {
    let mut stack = bare_stack();
    let mut backlog = Backlog::new();
    let id = new_conn(&mut stack, Vec::new());

    // A download that never lets up: the queue is refilled past the budget
    // the loop is allowed to take in one pass.
    let (in_tx, mut in_rx) = tokio::sync::mpsc::channel::<Vec<u8>>(MAX_INGEST_PER_TICK * 4);
    for _ in 0..MAX_INGEST_PER_TICK * 3 {
        in_tx.try_send(udp_ip_packet(64)).unwrap();
    }

    // One upload waiting behind it.
    let (app_tx, mut app_rx) = tokio::sync::mpsc::channel::<DataIn>(16);
    assert!(
        app_tx.try_send(DataIn::Tcp(id, vec![7u8; 128])).is_ok(),
        "queue the upload"
    );

    let (moved_in, closed_in) = drain_inbound(&mut stack.device, &mut in_rx, MAX_INGEST_PER_TICK);
    assert_eq!(moved_in, MAX_INGEST_PER_TICK, "inbound is still served fully");
    assert!(!closed_in);
    assert!(
        !in_rx.is_empty(),
        "the download deliberately still has more waiting - that is the whole point"
    );

    let (moved_app, closed_app) = drain_app_data(
        &mut stack,
        &mut backlog,
        &mut app_rx,
        MAX_APP_INGEST_PER_TICK,
    );
    assert_eq!(
        moved_app, 1,
        "the upload MUST be served in the same pass as a saturated download"
    );
    assert!(!closed_app);
    assert_eq!(
        stack.tcp_conns[&id].pending.len(),
        128,
        "and its bytes must actually reach the flow"
    );

    drop(app_tx);
    let (moved_app, closed_app) = drain_app_data(&mut stack, &mut backlog, &mut app_rx, 4);
    assert_eq!((moved_app, closed_app), (0, true));
}

#[test]
fn an_upload_cannot_queue_more_than_its_time_budget() {
    let mut credit = FlowCredit::new();
    credit.publish(0, MIN_FLOW_QUEUE_BYTES);

    // A fresh flow may fill its budget without waiting for anything.
    for _ in 0..3 {
        assert_eq!(credit.reserve(16 * 1024, 0), Admission::Granted);
    }
    assert_eq!(credit.outstanding(), MIN_FLOW_QUEUE_BYTES as u64);

    // Nothing acknowledged, budget full: the writer MUST wait here.
    for waited in [0, 30 * MILLI, 60 * MILLI] {
        assert_eq!(
            credit.reserve(16 * 1024, waited),
            Admission::Wait,
            "a flow that is over budget must hold its writer instead of queueing"
        );
    }
    assert_eq!(
        credit.outstanding(),
        MIN_FLOW_QUEUE_BYTES as u64,
        "and a write that never completed must not be accounted for"
    );

    // An acknowledgement lets the writer through again, by exactly as much as
    // the peer took.
    credit.publish(32 * 1024, MIN_FLOW_QUEUE_BYTES);
    assert_eq!(
        credit.reserve(16 * 1024, 0),
        Admission::Granted,
        "an acknowledgement must release the writer"
    );
    assert_eq!(credit.outstanding(), 32 * 1024);

    // A flow that has been reset never parks its writer.
    credit.publish(32 * 1024, MIN_FLOW_QUEUE_BYTES);
    credit.close();
    assert_eq!(
        credit.reserve(512 * 1024, 0),
        Admission::Granted,
        "a dead flow must release its writer immediately"
    );
}

#[test]
fn a_writer_is_not_held_back_for_ever() {
    let mut credit = FlowCredit {
        sent: 100_000,
        acked: 0,
        cap: MIN_FLOW_QUEUE_BYTES,
        closed: false,
    };
    assert_eq!(credit.budget(), 49152);
    assert_eq!(credit.reserve(1, CREDIT_WAIT_MAX - 1), Admission::Wait);
    assert_eq!(credit.reserve(1, CREDIT_WAIT_MAX), Admission::Granted);
    credit.publish(5, 10);
    assert_eq!(credit.budget(), 49152, "the budget has a floor");
    credit.publish(3, 100_000);
    assert_eq!((credit.acked, credit.cap), (5, 100_000));
}

#[test]
fn commands_are_answered_in_order() {
    let mut s = started(quick_limits());
    let (tx, mut rx) = tokio::sync::mpsc::channel::<(Cmd, u64)>(8);
    let nowhere = Endpoint {
        ip: IpAddress::V4(0),
        port: 80,
    };
    assert!(tx.try_send((Cmd::OpenUdp, 31)).is_ok());
    assert!(tx.try_send((Cmd::OpenTcp { dst: nowhere }, 17)).is_ok());
    let (outcomes, closed) = drain_cmds(&mut s, &mut rx, 64, 0);
    assert!(!closed);
    assert_eq!(
        outcomes,
        vec![
            (31, CmdOutcome::UdpOpen(1)),
            (17, CmdOutcome::TcpRefused(OpenError::Unaddressable)),
        ]
    );
    assert_eq!(
        connect_error_text(OpenError::Unaddressable),
        "connect: Unaddressable"
    );
    assert_eq!(
        connect_error_text(OpenError::InvalidState),
        "connect: InvalidState"
    );
    assert_eq!(bind_error_text(OpenError::InvalidState), "bind: InvalidState");
    assert_eq!(
        bind_error_text(OpenError::Unaddressable),
        "bind: Unaddressable"
    );
}

#[test]
fn datagrams_go_out_and_come_back() {
    let mut s = started(quick_limits());
    let id = match handle_cmd(&mut s, Cmd::OpenUdp, 0) {
        CmdOutcome::UdpOpen(id) => id,
        other => panic!("{other:?}"),
    };
    let dst = Endpoint {
        ip: IpAddress::V4(v4("10.0.0.9")),
        port: 5555,
    };
    assert!(try_handle_data(&mut s, DataIn::Udp(id, dst, vec![1, 2, 3])).is_none());
    poll(&mut s, 0);
    let out = s.device.tx.pop_front().expect("a datagram");
    let port = u16::from_be_bytes([out[20], out[21]]);
    assert_eq!(port, 49152);
    assert_eq!(&out[28..], &[1, 2, 3]);

    let mut back = udp_ip_packet(2);
    back[22..24].copy_from_slice(&port.to_be_bytes());
    s.device.rx.push_back(back.clone());
    s.device.rx.push_back(back);
    poll(&mut s, MILLI);
    let side = QueueSide {
        room: 1,
        closed: false,
    };
    let report = serve_udp_flow(&mut s, id, side);
    assert_eq!(report.datagrams, vec![(dst, vec![0, 0])]);
    assert!(report.backpressured);
    let (reports, busy) = service_udp(
        &mut s,
        &vec![(
            id,
            QueueSide {
                room: 9,
                closed: false,
            },
        )],
    );
    assert_eq!(reports[0].datagrams.len(), 1);
    assert!(!busy);
    let report = serve_udp_flow(
        &mut s,
        id,
        QueueSide {
            room: 9,
            closed: true,
        },
    );
    assert!(report.reaped);
    assert!(s.udp_conns.is_empty());
}

#[test]
fn closing_half_of_a_flow_passes_on_a_fin() {
    let Connection { mut s, id, .. } = connected(TcpLimits::from_env(None, None));
    assert!(try_handle_data(&mut s, DataIn::TcpClose(id)).is_none());
    pass(&mut s, id, idle_app(), 5 * MILLI);
    poll(&mut s, 5 * MILLI);
    assert!(sent(&mut s).iter().any(|seg| seg.flags & 0x01 != 0));
    assert!(s.tcp_conns.contains_key(&id), "the other half stays open");

    assert!(try_handle_data(&mut s, DataIn::UdpClose(99)).is_none());
    assert_eq!(data_in_id(&DataIn::TcpClose(3)), 3);
    assert_eq!(data_in_bytes(&DataIn::Tcp(3, vec![0; 5])), 5);
}

#[test]
fn a_pass_serves_every_queue_and_takes_turns() {
    let mut s = started(quick_limits());
    let mut backlog = Backlog::new();
    let (app_tx, mut app_rx) = tokio::sync::mpsc::channel::<DataIn>(8);
    let (in_tx, mut in_rx) = tokio::sync::mpsc::channel::<Vec<u8>>(8);
    let (cmd_tx, mut cmd_rx) = tokio::sync::mpsc::channel::<(Cmd, u64)>(8);
    assert!(app_tx.try_send(DataIn::TcpClose(7)).is_ok());
    assert!(in_tx.try_send(vec![0x45]).is_ok());
    assert!(cmd_tx.try_send((Cmd::OpenUdp, 5)).is_ok());
    let mut schedule = Schedule::new(100 * SECOND);
    assert!(!schedule.tunnel_first);
    let q = schedule.serve_queues(
        &mut s,
        &mut backlog,
        &mut app_rx,
        &mut in_rx,
        &mut cmd_rx,
        100 * SECOND,
    );
    assert_eq!((q.moved_in, q.moved_app, q.closed), (1, 1, false));
    assert_eq!(q.outcomes, vec![(5, CmdOutcome::UdpOpen(1))]);
    assert!(schedule.tunnel_first, "the other side goes first next time");
    assert_eq!(s.device.rx.len(), 1);

    assert_eq!(schedule.note_drops(0), None);
    assert_eq!(schedule.note_pass(1, 1, 0, true, 100 * SECOND), None);
    assert!(!schedule.telemetry_due(102 * SECOND - 1));
    assert!(schedule.telemetry_due(102 * SECOND), "the first report comes early");
    schedule.telemetry_done(102 * SECOND);
    assert!(!schedule.telemetry_due(117 * SECOND - 1));
    assert!(schedule.telemetry_due(117 * SECOND));
    assert_eq!(schedule.win_in, 0);
    schedule.woken_by_app(117 * SECOND);
    assert_eq!(schedule.last_app_progress, 117 * SECOND);
    drop(cmd_tx);
    let q = schedule.serve_queues(
        &mut s,
        &mut backlog,
        &mut app_rx,
        &mut in_rx,
        &mut cmd_rx,
        118 * SECOND,
    );
    assert!(q.closed);
}

#[test]
fn sleep_is_short_while_there_is_work() {
    let busy = next_delay(true, None, true).expect("a short while");
    assert!(busy < 100 * MILLI);
    assert_eq!(next_delay(false, None, true), None);
    assert_eq!(next_delay(false, Some(5), true), Some(5));
    assert_eq!(next_delay(false, Some(5), false), Some(5));
    let longest = next_delay(false, None, false).expect("flows are visited");
    assert_eq!(next_delay(false, Some(u64::MAX), false), Some(longest));
}

#[test]
fn ports_come_from_one_range() {
    let mut p = 49152u16;
    let mut seen = HashSet::new();
    for _ in 0..3 {
        seen.insert(alloc_port(&mut p));
    }
    assert_eq!(seen, HashSet::from([49152, 49153, 49154]));
    let mut last = 65000u16;
    assert_eq!(alloc_port(&mut last), 65000);
    assert_eq!(last, 49152);
}

#[test]
fn lifetimes_are_read_from_settings() {
    assert_eq!(env_secs(None, 7), 7);
    assert_eq!(env_secs(Some("12"), 7), 12);
    assert_eq!(env_secs(Some("0"), 7), 7);
    assert_eq!(env_secs(Some("x"), 7), 7);
    let limits = TcpLimits::from_env(Some("10"), Some("3"));
    assert_eq!(limits.keepalive, 10 * SECOND);
    assert_eq!(limits.connect, 3 * SECOND);
    assert!(limits.dead_peer > limits.keepalive);
}

#[test]
fn buffers_of_a_flow_follow_the_host() {
    assert_eq!(max_tcp_pending(&host()), 262144);
    let mut small = host();
    small.netstack_tcp_tx_buf = 1;
    assert_eq!(max_tcp_pending(&small), 65536);
    assert_eq!(udp_meta(Tier::Low), 32);
    assert_eq!(udp_meta(Tier::Medium), 64);
    assert_eq!(udp_meta(Tier::High), 128);
}

#[test]
fn a_backlog_is_bounded_and_can_be_purged() {
    let mut backlog = Backlog::new();
    assert!(backlog.is_empty());
    backlog.push(DataIn::Tcp(1, vec![0; 10]));
    backlog.push(DataIn::Tcp(2, vec![0; 20]));
    backlog.push(DataIn::Tcp(1, vec![0; 30]));
    assert_eq!(backlog.bytes, 60);
    backlog.purge(1);
    assert_eq!(backlog.bytes, 20);
    assert!(!backlog.holds(1));
    assert!(backlog.holds(2));
    assert_eq!(MAX_BACKLOG_BYTES, 512 * 1024);
    let mut ids = member_list(&backlog.blocked);
    ids.sort();
    assert_eq!(ids, vec![2]);
    let conns: HashMap<usize, u8> = HashMap::from([(4, 0), (9, 0)]);
    let mut ids = key_list(&conns);
    ids.sort();
    assert_eq!(ids, vec![4, 9]);
}

#[test]
fn a_flow_is_judged_by_its_connect() {
    let mut s = bare_stack();
    let id = new_conn(&mut s, Vec::new());
    let flow = s.tcp_conns.get_mut(&id).unwrap();
    assert_eq!(
        flow.judge(TcpPhase::Established, idle_app(), 0),
        Verdict::Serve { announce: false }
    );
    flow.aborted = true;
    assert_eq!(
        flow.judge(TcpPhase::Established, idle_app(), 0),
        Verdict::Reap(ReapReason::Aborted)
    );
}

#[test]
fn a_second_stall_within_a_minute_resets_the_flow() {
    let mut s = bare_stack();
    let id = new_conn(&mut s, Vec::new());
    let flow = s.tcp_conns.get_mut(&id).unwrap();
    flow.accepted_total = 1000;
    let first = flow.observe(900, 0);
    assert_eq!((first.acked, first.flap_reset), (100, false));
    let stalled = flow.observe(900, 3 * SECOND);
    assert_eq!(stalled.note, StallNote::Stalled { idle: 3 * SECOND });
    let back = flow.observe(800, 4 * SECOND);
    assert_eq!(back.note, StallNote::Recovered { after: 4 * SECOND });
    let again = flow.observe(800, 8 * SECOND);
    assert!(again.flap_reset, "it stalled too often");
    let sample = again.sample.expect("a sample is due");
    assert_eq!(sample.moved, 0);
    assert_eq!(sample.nanos, 4 * SECOND);
}

#[test]
fn a_flow_pinned_at_its_limit_is_kept_while_it_drains() {
    let mut s = bare_stack();
    let id = new_conn(&mut s, Vec::new());
    let flow = s.tcp_conns.get_mut(&id).unwrap();
    flow.accepted_total = 131072;
    for second in 1..60u64 {
        flow.accepted_total += 1000;
        let m = flow.observe(131072, second * SECOND);
        assert_eq!((m.acked, m.flap_reset), (1000 * second, false));
        assert_eq!(m.note, StallNote::Nothing);
    }
    let mut backlog = Backlog::new();
    let (stalled, wedged) = reap_wedged(&mut s, &mut backlog, 60 * SECOND);
    assert!(stalled.is_empty() && wedged.is_empty());
    assert!(!s.tcp_conns[&id].credit.closed);
}

#[test]
fn budgets_stay_between_the_floor_and_the_buffer() {
    let mut s = bare_stack();
    let id = new_conn(&mut s, Vec::new());
    let flow = s.tcp_conns.get_mut(&id).unwrap();
    let m = flow.observe(0, 0);
    for (wanted, tx_buf, budget) in [
        (0, 131072, 49152),
        (53000, 131072, 53000),
        (900_000, 131072, 131072),
        (900_000, 1024, 49152),
    ] {
        flow.publish(m, wanted, tx_buf);
        assert_eq!(flow.uplink_budget, budget);
        assert_eq!(flow.credit.budget(), budget);
    }
}

#[test]
fn a_datagram_that_cannot_be_sent_is_dropped() {
    let mut s = started(quick_limits());
    let id = match handle_cmd(&mut s, Cmd::OpenUdp, 0) {
        CmdOutcome::UdpOpen(id) => id,
        other => panic!("{other:?}"),
    };
    let to = |ip: &str, port: u16| Endpoint {
        ip: IpAddress::V4(v4(ip)),
        port,
    };
    let size = s.tuning.netstack_udp_buf;
    let mut backlog = Backlog::new();
    ingest(&mut s, &mut backlog, DataIn::Udp(id, to("10.0.0.9", 0), vec![1]));
    ingest(&mut s, &mut backlog, DataIn::Udp(id, to("0.0.0.0", 53), vec![2]));
    ingest(&mut s, &mut backlog, DataIn::Udp(id + 1, to("10.0.0.9", 53), vec![3]));
    ingest(
        &mut s,
        &mut backlog,
        DataIn::Udp(id, to("10.0.0.9", 53), vec![4; size + 1]),
    );
    ingest(&mut s, &mut backlog, DataIn::Udp(id, to("10.0.0.9", 53), vec![5]));
    assert!(backlog.is_empty(), "a datagram never waits");
    poll(&mut s, 0);
    assert_eq!(s.device.tx.len(), 1);
    assert_eq!(&s.device.tx[0][28..], &[5]);

    ingest(&mut s, &mut backlog, DataIn::UdpClose(id));
    assert!(s.udp_conns.is_empty());
    ingest(&mut s, &mut backlog, DataIn::Udp(id, to("10.0.0.9", 53), vec![6]));
    poll(&mut s, MILLI);
    assert_eq!(s.device.tx.len(), 1, "a closed flow sends nothing");
}

#[test]
fn a_new_udp_flow_takes_a_datagram_as_large_as_its_buffer() {
    let mut s = started(quick_limits());
    let id = match handle_cmd(&mut s, Cmd::OpenUdp, 0) {
        CmdOutcome::UdpOpen(id) => id,
        other => panic!("{other:?}"),
    };
    let dst = Endpoint {
        ip: IpAddress::V4(v4("10.0.0.9")),
        port: 5555,
    };
    let size = s.tuning.netstack_udp_buf;
    let handle = s.udp_conns[&id].handle;
    assert!(try_handle_data(&mut s, DataIn::Udp(id, dst, vec![7; size])).is_none());
    let socket = s.sockets.get::<smoltcp::socket::udp::Socket>(handle);
    assert_eq!(socket.send_queue(), size);
}

#[test]
fn waiting_packets_are_taken_in_order_up_to_the_budget() {
    let mut device = StackDevice::new(1400);
    device.rx.push_back(vec![0]);
    let (in_tx, mut in_rx) = tokio::sync::mpsc::channel::<Vec<u8>>(8);
    for n in 1..=5u8 {
        assert!(in_tx.try_send(vec![n]).is_ok());
    }
    assert_eq!(drain_inbound(&mut device, &mut in_rx, 0), (0, false));
    assert_eq!(drain_inbound(&mut device, &mut in_rx, 3), (3, false));
    assert_eq!(device.rx, vec![vec![0], vec![1], vec![2], vec![3]]);
    drop(in_tx);
    assert_eq!(drain_inbound(&mut device, &mut in_rx, 2), (2, false));
    assert_eq!(device.rx.len(), 6);
    assert_eq!(device.rx[5], vec![5]);
    assert_eq!(drain_inbound(&mut device, &mut in_rx, 3), (0, true));
}

#[test]
fn a_stuck_writer_holds_up_no_queue() {
    let mut s = started(quick_limits());
    let mut backlog = Backlog::new();
    let (app_tx, mut app_rx) = tokio::sync::mpsc::channel::<DataIn>(8);
    let (in_tx, mut in_rx) = tokio::sync::mpsc::channel::<Vec<u8>>(1024);
    let (cmd_tx, mut cmd_rx) = tokio::sync::mpsc::channel::<(Cmd, u64)>(128);
    let (mut outbound_tx, _never_read) = tokio::sync::mpsc::channel::<Vec<u8>>(1);
    for _ in 0..20 {
        s.device.tx.push_back(vec![9]);
    }
    for _ in 0..600 {
        assert!(in_tx.try_send(vec![0x45]).is_ok());
    }
    for n in 0..70 {
        assert!(cmd_tx.try_send((Cmd::OpenUdp, n)).is_ok());
    }
    assert!(app_tx.try_send(DataIn::TcpClose(7)).is_ok());
    let mut schedule = Schedule::new(100 * SECOND);
    let mut moved = Vec::new();
    for _ in 0..2 {
        let (dropped, held) = s.device.flush_tx(&mut outbound_tx);
        assert_eq!((dropped, held), (0, true));
        let q = schedule.serve_queues(
            &mut s,
            &mut backlog,
            &mut app_rx,
            &mut in_rx,
            &mut cmd_rx,
            100 * SECOND,
        );
        assert!(!q.closed);
        moved.push((q.moved_in, q.moved_app, q.outcomes.len()));
    }
    assert_eq!(moved, vec![(512, 1, 64), (88, 0, 6)]);
    assert_eq!(s.device.rx.len(), 600);
    assert_eq!(s.device.tx.len(), 19);
}

#[test]
fn an_offered_packet_is_sent_held_or_lost() {
    let mut device = StackDevice::new(1400);
    device.tx.push_back(vec![2]);
    assert_eq!(device.after_offer(Sent::Done), Offer::Next);
    assert_eq!(device.after_offer(Sent::Full(vec![1])), Offer::Held(0));
    assert_eq!(device.tx, vec![vec![1], vec![2]]);
    assert_eq!(device.after_offer(Sent::Closed(vec![0])), Offer::Lost);
    assert_eq!(device.tx.len(), 2);
}

#[test]
fn a_full_backlog_holds_the_applications_back() {
    let mut s = bare_stack();
    let mut backlog = Backlog::new();
    let id = new_conn(&mut s, vec![0; 4 << 20]);
    let (app_tx, mut app_rx) = tokio::sync::mpsc::channel::<DataIn>(8);
    for _ in 0..3 {
        assert!(app_tx.try_send(DataIn::Tcp(id, vec![1; MAX_BACKLOG_BYTES / 2])).is_ok());
    }
    assert_eq!(drain_app_data(&mut s, &mut backlog, &mut app_rx, 9), (2, false));
    assert_eq!(backlog.bytes, MAX_BACKLOG_BYTES);
    assert_eq!(drain_app_data(&mut s, &mut backlog, &mut app_rx, 9), (0, false));
    backlog.purge(id);
    assert_eq!(drain_app_data(&mut s, &mut backlog, &mut app_rx, 9), (1, false));
}
