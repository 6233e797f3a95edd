use aether::cidr::{
    cidr_prefix, cidr_text, parse_cidr_v4, parse_cidr_v6, parse_ipv4, parse_v4, parse_v6,
    strip_cidr, BadAddress,
};
use aether::sysprofile::{
    buffer_override, cap_concurrency, channel_capacity, detect_tier, h2_connection_window_bytes,
    h2_stream_window_bytes, log_summary, netstack_tcp_rx_buf_bytes, netstack_tcp_tx_buf_bytes,
    netstack_udp_buf_bytes, open_file_limit, raise_fd_limit, total_mem_mb, tuning,
    udp_socket_rcv_buf_bytes, udp_socket_snd_buf_bytes, Tier,
};
use aether::text::{chars_of, parse_number, push_number, trim};

#[test]
fn a_host_is_placed_by_its_processors_and_memory() {
    assert_eq!(detect_tier(2, Some(8192), None), Tier::Low);
    assert_eq!(detect_tier(8, Some(384), None), Tier::Low);
    assert_eq!(detect_tier(4, None, None), Tier::Medium);
    assert_eq!(detect_tier(8, Some(1536), None), Tier::Medium);
    assert_eq!(detect_tier(8, None, None), Tier::High);
    assert_eq!(detect_tier(1, None, Some(" HIGH ")), Tier::High);
    assert_eq!(detect_tier(16, None, Some("mid")), Tier::Medium);
    assert_eq!(detect_tier(16, None, Some("Medium")), Tier::Medium);
    assert_eq!(detect_tier(16, None, Some("low")), Tier::Low);
    assert_eq!(detect_tier(16, None, Some("best")), Tier::High);
}

#[test]
fn sizes_follow_the_tier() {
    let low = tuning(1, None, None, None, None);
    assert_eq!(udp_socket_rcv_buf_bytes(&low), 262144);
    assert_eq!(udp_socket_snd_buf_bytes(&low), 49152);
    assert_eq!(netstack_udp_buf_bytes(&low), 32768);
    assert_eq!(channel_capacity(&low), 128);
    assert_eq!(cap_concurrency(&low, 12), 4);
    assert_eq!(cap_concurrency(&low, 3), 3);
    let high = tuning(16, None, None, None, None);
    assert_eq!(h2_stream_window_bytes(&high), 16777216);
    assert_eq!(h2_connection_window_bytes(&high), 33554432);
    assert_eq!(netstack_tcp_tx_buf_bytes(&high), 131072);
    assert_eq!(netstack_tcp_rx_buf_bytes(&high), 196608);
    assert_eq!(cap_concurrency(&high, 12), 12);
    let set = tuning(16, None, None, Some("1048576"), Some(" 65536 "));
    assert_eq!(set.netstack_tcp_rx_buf, 1048576);
    assert_eq!(set.netstack_tcp_tx_buf, 65536);
}

#[test]
fn a_senseless_buffer_size_is_ignored() {
    assert_eq!(buffer_override(None, 7), 7);
    assert_eq!(buffer_override(Some("16384"), 7), 16384);
    assert_eq!(buffer_override(Some("16383"), 7), 7);
    assert_eq!(buffer_override(Some("67108865"), 7), 7);
    assert_eq!(buffer_override(Some("-1"), 7), 7);
}

#[test]
fn limits_on_open_files() {
    assert_eq!(raise_fd_limit(1024, 4096), Some(4096));
    assert_eq!(raise_fd_limit(4096, 4096), None);
    assert_eq!(open_file_limit(Some(1024), u64::MAX), Some(1024));
    assert_eq!(open_file_limit(Some(u64::MAX), u64::MAX), None);
    assert_eq!(open_file_limit(None, u64::MAX), None);
}

#[test]
fn memory_is_read_from_the_kernel() {
    let text = "MemFree: 12 kB\nMemTotal:        2048000 kB\nMemTotal: 1 kB\n";
    assert_eq!(total_mem_mb(text), Some(2000));
    assert_eq!(total_mem_mb("MemTotal: lots kB\n"), None);
    assert_eq!(total_mem_mb("nothing"), None);
}

#[test]
fn the_summary_names_every_size() {
    let t = tuning(1, Some(300), None, None, None);
    assert_eq!(
        log_summary(&t),
        "[*] performance profile: Low (cpus=1 mem=300MB); scan concurrency cap=4, \
         udp socket rcv/snd=256KB/48KB (snd = uplink queue budget), \
         netstack tcp tx/rx=64KB/64KB (rx = advertised window), netstack udp=32KB, \
         channel capacity=128, h2 windows stream/conn=2048KB/4096KB"
    );
    let t = tuning(9, None, None, None, None);
    let text = log_summary(&t);
    assert!(text.contains("mem=unknown"));
    assert!(text.contains("cap=unlimited"));
}

#[test]
fn addresses_are_read_as_they_are_written() {
    let read = |text: &str| parse_ipv4(&chars_of(text));
    assert_eq!(read("1.2.3.4"), Some(0x0102_0304));
    assert_eq!(read("255.255.255.255"), Some(u32::MAX));
    assert_eq!(read("256.1.1.1"), None);
    assert_eq!(read("01.2.3.4"), None);
    assert_eq!(read("1.2.3"), None);
    assert_eq!(read("1.2.3.4.5"), None);
    assert_eq!(parse_v4("10.0.0.1/8"), Ok(Some((0x0a00_0001, 8))));
    assert_eq!(parse_v4("10.0.0.1"), Ok(Some((0x0a00_0001, 32))));
    assert_eq!(parse_v4(""), Ok(None));
    assert_eq!(parse_v4("nowhere"), Err(BadAddress));
    assert_eq!(parse_v6("::1/64"), Ok(Some((1, 64))));
    assert_eq!(parse_v6("::2"), Ok(Some((2, 128))));
    assert_eq!(parse_v6(""), Ok(None));
    assert_eq!(parse_v6(":::"), Err(BadAddress));
    assert_eq!(strip_cidr("a/b/c"), "a");
    assert_eq!(cidr_prefix("x/24"), Some(24));
    assert_eq!(cidr_prefix("x/256"), None);
    assert_eq!(cidr_prefix("x"), None);
    assert_eq!(parse_cidr_v4("10.0.0.0/8"), Some((0x0a00_0000, 8)));
    assert_eq!(parse_cidr_v4("10.0.0.0"), None);
    assert_eq!(parse_cidr_v6("fc00::/7"), Some((0xfcu128 << 120, 7)));
}

#[test]
fn a_range_is_read_back_from_its_text() {
    for (ip, prefix) in [(0x0a00_0001u32, 8u8), (u32::MAX, 32), (0, 0)] {
        let text = cidr_text(ip, prefix);
        assert_eq!(parse_cidr_v4(&text), Some((ip, prefix)));
    }
    assert_eq!(cidr_text(0xc0a8_0100, 24), "192.168.1.0/24");
}

#[test]
fn numbers_are_read_and_written() {
    let read = |text: &str, max: u64| parse_number(&chars_of(text), max);
    assert_eq!(read("255", 255), Some(255));
    assert_eq!(read("256", 255), None);
    assert_eq!(read("+7", 255), Some(7));
    assert_eq!(read("", 255), None);
    assert_eq!(read("-7", 255), None);
    assert_eq!(read("18446744073709551615", u64::MAX), Some(u64::MAX));
    assert_eq!(read("18446744073709551616", u64::MAX), None);
    let mut out = String::new();
    push_number(&mut out, 0);
    push_number(&mut out, 1203);
    assert_eq!(out, "01203");
    let text: String = trim(&chars_of(" \t a b\u{a0}\n")).into_iter().collect();
    assert_eq!(text, "a b");
}
