//! Sizing of the data plane for the host it runs on.

use vstd::prelude::*;

use crate::text::{
    chars_of,
    find,
    matches_word,
    parse_number,
    part,
    push_number,
    same_chars,
    trim,
};
#[allow(unused_imports)]
use crate::text::{decimal, first_index, first_index_is_first, is_word, number, trimmed};

verus! {

#[derive(Debug, Clone, Copy, PartialEq, Eq, Structural)]
pub enum Tier {
    Low,
    Medium,
    High,
}

/// Every size the data plane takes from the host profile.
#[derive(Debug, Clone, Copy, PartialEq, Eq, Structural)]
pub struct Tuning {
    pub tier: Tier,
    pub cpus: usize,
    pub mem_mb: Option<u64>,
    pub scan_concurrency_cap: usize,
    /// `SO_RCVBUF` of every datagram socket. Large: it only prevents loss.
    pub udp_socket_rcv_buf: usize,
    /// `SO_SNDBUF` of every datagram socket. A latency budget: the last queue
    /// between the congestion controller and the radio.
    pub udp_socket_snd_buf: usize,
    /// Per-flow TCP send buffer.
    pub netstack_tcp_tx_buf: usize,
    /// Per-flow TCP receive buffer, which is the window a flow advertises.
    pub netstack_tcp_rx_buf: usize,
    pub netstack_udp_buf: usize,
    pub channel_capacity: usize,
    pub h2_stream_window: u32,
    pub h2_connection_window: u32,
}

/// The tier that a setting names.
pub open spec fn named_tier(s: Seq<char>) -> Option<Tier> {
    let word = trimmed(s);
    if is_word(word, "low"@) {
        Some(Tier::Low)
    } else if is_word(word, "medium"@) || is_word(word, "mid"@) {
        Some(Tier::Medium)
    } else if is_word(word, "high"@) {
        Some(Tier::High)
    } else {
        None
    }
}

/// The tier of a host with so many processors and so much memory.
pub open spec fn measured_tier(cpus: usize, mem_mb: Option<u64>) -> Tier {
    if cpus <= 2 || (mem_mb matches Some(m) && m <= 384) {
        Tier::Low
    } else if cpus <= 4 || (mem_mb matches Some(m) && m <= 1536) {
        Tier::Medium
    } else {
        Tier::High
    }
}

/// The tier of a host: the one its setting names, else the one it measures.
pub open spec fn tier_of(cpus: usize, mem_mb: Option<u64>, profile: Option<&str>) -> Tier {
    match profile {
        Some(text) => match named_tier(text@) {
            Some(tier) => tier,
            None => measured_tier(cpus, mem_mb),
        },
        None => measured_tier(cpus, mem_mb),
    }
}

/// Finds the tier of a host. `profile` is the setting that may name it.
pub fn detect_tier(cpus: usize, mem_mb: Option<u64>, profile: Option<&str>) -> (r: Tier)
    ensures
        r == tier_of(cpus, mem_mb, profile),
{
    if let Some(text) = profile {
        let word = trim(&chars_of(text));
        if matches_word(&word, "low") {
            return Tier::Low;
        }
        if matches_word(&word, "medium") || matches_word(&word, "mid") {
            return Tier::Medium;
        }
        if matches_word(&word, "high") {
            return Tier::High;
        }
    }
    let mem_low = match mem_mb {
        Some(m) => m <= 384,
        None => false,
    };
    let mem_medium = match mem_mb {
        Some(m) => m <= 1536,
        None => false,
    };
    if cpus <= 2 || mem_low {
        Tier::Low
    } else if cpus <= 4 || mem_medium {
        Tier::Medium
    } else {
        Tier::High
    }
}

/// The least and the most that a TCP buffer can be set to, in bytes.
pub const MIN_BUFFER: usize = 16384;

pub const MAX_BUFFER: usize = 67108864;

/// The buffer size that a setting asks for, where it is one a TCP socket can
/// sensibly be given.
pub open spec fn buffer_size(value: Option<&str>, fallback: usize) -> usize {
    match value {
        Some(text) => match number(trimmed(text@), usize::MAX as nat) {
            Some(n) => if MIN_BUFFER <= n <= MAX_BUFFER {
                n as usize
            } else {
                fallback
            },
            None => fallback,
        },
        None => fallback,
    }
}

/// Reads a buffer size from a setting.
pub fn buffer_override(value: Option<&str>, fallback: usize) -> (r: usize)
    ensures
        r == buffer_size(value, fallback),
{
    match value {
        Some(text) => {
            let chars = trim(&chars_of(text));
            match parse_number(&chars, usize::MAX as u64) {
                Some(n) => if MIN_BUFFER as u64 <= n && n <= MAX_BUFFER as u64 {
                    n as usize
                } else {
                    fallback
                },
                None => fallback,
            }
        },
        None => fallback,
    }
}

/// The sizes of a tier, before any setting.
pub open spec fn sizes(tier: Tier) -> (usize, usize, usize, usize, usize, usize, usize, u32, u32) {
    match tier {
        Tier::Low => (4, 262144, 49152, 65536, 65536, 32768, 128, 2097152, 4194304),
        Tier::Medium => (10, 2097152, 98304, 98304, 131072, 65536, 512, 8388608, 16777216),
        Tier::High => (
            usize::MAX,
            7340032,
            131072,
            131072,
            196608,
            131072,
            1024,
            16777216,
            33554432,
        ),
    }
}

/// The sizes of a host. The two TCP buffers may be set; everything else follows
/// the tier.
pub open spec fn tuning_of(
    cpus: usize,
    mem_mb: Option<u64>,
    profile: Option<&str>,
    tcp_rx: Option<&str>,
    tcp_tx: Option<&str>,
) -> Tuning {
    let tier = tier_of(cpus, mem_mb, profile);
    let z = sizes(tier);
    Tuning {
        tier,
        cpus,
        mem_mb,
        scan_concurrency_cap: z.0,
        udp_socket_rcv_buf: z.1,
        udp_socket_snd_buf: z.2,
        netstack_tcp_tx_buf: buffer_size(tcp_tx, z.3),
        netstack_tcp_rx_buf: buffer_size(tcp_rx, z.4),
        netstack_udp_buf: z.5,
        channel_capacity: z.6,
        h2_stream_window: z.7,
        h2_connection_window: z.8,
    }
}

/// Sizes the data plane for a host with so many processors and so much memory.
/// The other three are the settings for the tier and for the two TCP buffers.
pub fn tuning(
    cpus: usize,
    mem_mb: Option<u64>,
    profile: Option<&str>,
    tcp_rx: Option<&str>,
    tcp_tx: Option<&str>,
) -> (r: Tuning)
    ensures
        r == tuning_of(cpus, mem_mb, profile, tcp_rx, tcp_tx),
{
    let tier = detect_tier(cpus, mem_mb, profile);
    match tier {
        Tier::Low => Tuning {
            tier,
            cpus,
            mem_mb,
            scan_concurrency_cap: 4,
            udp_socket_rcv_buf: 262144,
            udp_socket_snd_buf: 49152,
            netstack_tcp_tx_buf: buffer_override(tcp_tx, 65536),
            netstack_tcp_rx_buf: buffer_override(tcp_rx, 65536),
            netstack_udp_buf: 32768,
            channel_capacity: 128,
            h2_stream_window: 2097152,
            h2_connection_window: 4194304,
        },
        Tier::Medium => Tuning {
            tier,
            cpus,
            mem_mb,
            scan_concurrency_cap: 10,
            udp_socket_rcv_buf: 2097152,
            udp_socket_snd_buf: 98304,
            netstack_tcp_tx_buf: buffer_override(tcp_tx, 98304),
            netstack_tcp_rx_buf: buffer_override(tcp_rx, 131072),
            netstack_udp_buf: 65536,
            channel_capacity: 512,
            h2_stream_window: 8388608,
            h2_connection_window: 16777216,
        },
        Tier::High => Tuning {
            tier,
            cpus,
            mem_mb,
            scan_concurrency_cap: usize::MAX,
            udp_socket_rcv_buf: 7340032,
            udp_socket_snd_buf: 131072,
            netstack_tcp_tx_buf: buffer_override(tcp_tx, 131072),
            netstack_tcp_rx_buf: buffer_override(tcp_rx, 196608),
            netstack_udp_buf: 131072,
            channel_capacity: 1024,
            h2_stream_window: 16777216,
            h2_connection_window: 33554432,
        },
    }
}

/// The smaller of the two.
pub open spec fn smaller(a: usize, b: usize) -> usize {
    if a < b {
        a
    } else {
        b
    }
}

/// As many probes at once as were asked for, as far as the host allows.
pub fn cap_concurrency(t: &Tuning, requested: usize) -> (r: usize)
    ensures
        r == smaller(requested, t.scan_concurrency_cap),
{
    if requested < t.scan_concurrency_cap {
        requested
    } else {
        t.scan_concurrency_cap
    }
}

/// `SO_RCVBUF` to ask for on datagram sockets.
pub fn udp_socket_rcv_buf_bytes(t: &Tuning) -> (r: usize)
    ensures
        r == t.udp_socket_rcv_buf,
{
    t.udp_socket_rcv_buf
}

/// `SO_SNDBUF` to ask for on datagram sockets.
pub fn udp_socket_snd_buf_bytes(t: &Tuning) -> (r: usize)
    ensures
        r == t.udp_socket_snd_buf,
{
    t.udp_socket_snd_buf
}

pub fn netstack_tcp_tx_buf_bytes(t: &Tuning) -> (r: usize)
    ensures
        r == t.netstack_tcp_tx_buf,
{
    t.netstack_tcp_tx_buf
}

pub fn netstack_tcp_rx_buf_bytes(t: &Tuning) -> (r: usize)
    ensures
        r == t.netstack_tcp_rx_buf,
{
    t.netstack_tcp_rx_buf
}

pub fn netstack_udp_buf_bytes(t: &Tuning) -> (r: usize)
    ensures
        r == t.netstack_udp_buf,
{
    t.netstack_udp_buf
}

pub fn channel_capacity(t: &Tuning) -> (r: usize)
    ensures
        r == t.channel_capacity,
{
    t.channel_capacity
}

/// The window of one HTTP/2 stream.
pub fn h2_stream_window_bytes(t: &Tuning) -> (r: u32)
    ensures
        r == t.h2_stream_window,
{
    t.h2_stream_window
}

/// The window of one HTTP/2 connection.
pub fn h2_connection_window_bytes(t: &Tuning) -> (r: u32)
    ensures
        r == t.h2_connection_window,
{
    t.h2_connection_window
}

/// The limit on open files to set, from the current one and the highest that is
/// allowed: none where it would not be higher.
pub fn raise_fd_limit(current: u64, highest: u64) -> (r: Option<u64>)
    ensures
        r == (if highest > current {
            Some(highest)
        } else {
            None
        }),
{
    if highest <= current {
        None
    } else {
        Some(highest)
    }
}

/// The limit on open files, where the host tells one and it is finite and can
/// be counted.
pub fn open_file_limit(current: Option<u64>, infinite: u64) -> (r: Option<usize>)
    ensures
        r == (match current {
            Some(n) => if n == infinite || n > usize::MAX {
                None
            } else {
                Some(n as usize)
            },
            None => None,
        }),
{
    match current {
        Some(n) => if n == infinite || n > usize::MAX as u64 {
            None
        } else {
            Some(n as usize)
        },
        None => None,
    }
}

/// A smaller host never gets more of anything that is not set.
pub proof fn sizes_grow_with_the_tier()
    ensures
        ({
            let low = sizes(Tier::Low);
            let mid = sizes(Tier::Medium);
            let high = sizes(Tier::High);
            &&& low.0 <= mid.0 <= high.0
            &&& low.1 <= mid.1 <= high.1
            &&& low.2 <= mid.2 <= high.2
            &&& low.3 <= mid.3 <= high.3
            &&& low.4 <= mid.4 <= high.4
            &&& low.5 <= mid.5 <= high.5
            &&& low.6 <= mid.6 <= high.6
            &&& low.7 <= mid.7 <= high.7
            &&& low.8 <= mid.8 <= high.8
        }),
{
}

/// A datagram socket always gets a smaller send buffer than receive buffer, and
/// the TCP buffers stay within what a socket can be given.
pub proof fn buffers_are_sensible(
    cpus: usize,
    mem_mb: Option<u64>,
    profile: Option<&str>,
    tcp_rx: Option<&str>,
    tcp_tx: Option<&str>,
)
    ensures
        ({
            let t = tuning_of(cpus, mem_mb, profile, tcp_rx, tcp_tx);
            &&& t.udp_socket_snd_buf < t.udp_socket_rcv_buf
            &&& MIN_BUFFER <= t.netstack_tcp_tx_buf <= MAX_BUFFER
            &&& MIN_BUFFER <= t.netstack_tcp_rx_buf <= MAX_BUFFER
            &&& t.h2_stream_window < t.h2_connection_window
        }),
{
}

/// The name of a tier.
pub open spec fn tier_name(tier: Tier) -> Seq<char> {
    match tier {
        Tier::Low => "Low"@,
        Tier::Medium => "Medium"@,
        Tier::High => "High"@,
    }
}

fn tier_label(tier: Tier) -> (r: &'static str)
    ensures
        r@ == tier_name(tier),
{
    match tier {
        Tier::Low => "Low",
        Tier::Medium => "Medium",
        Tier::High => "High",
    }
}

/// The memory of a host, as it is reported.
pub open spec fn mem_text(mem_mb: Option<u64>) -> Seq<char> {
    match mem_mb {
        Some(m) => decimal(m as nat) + "MB"@,
        None => "unknown"@,
    }
}

fn push_mem(out: &mut String, mem_mb: Option<u64>)
    ensures
        final(out)@ == old(out)@ + mem_text(mem_mb),
{
    let ghost before = out@;
    match mem_mb {
        Some(m) => {
            push_number(out, m);
            out.append("MB");
            assert(out@ =~= before + mem_text(mem_mb));
        },
        None => out.append("unknown"),
    }
}

/// The cap on probes at once, as it is reported.
pub open spec fn cap_text(cap: usize) -> Seq<char> {
    if cap == usize::MAX {
        "unlimited"@
    } else {
        decimal(cap as nat)
    }
}

fn push_cap(out: &mut String, cap: usize)
    ensures
        final(out)@ == old(out)@ + cap_text(cap),
{
    if cap == usize::MAX {
        out.append("unlimited");
    } else {
        push_number(out, cap as u64);
    }
}

/// The line that tells one build and one host from another in a log.
pub open spec fn summary_text(t: Tuning) -> Seq<char> {
    "[*] performance profile: "@
        + tier_name(t.tier)
        + " (cpus="@
        + decimal((t.cpus) as nat)
        + " mem="@
        + mem_text(t.mem_mb)
        + "); scan concurrency cap="@
        + cap_text(t.scan_concurrency_cap)
        + ", udp socket rcv/snd="@
        + decimal((t.udp_socket_rcv_buf / 1024) as nat)
        + "KB/"@
        + decimal((t.udp_socket_snd_buf / 1024) as nat)
        + "KB (snd = uplink queue budget), netstack tcp tx/rx="@
        + decimal((t.netstack_tcp_tx_buf / 1024) as nat)
        + "KB/"@
        + decimal((t.netstack_tcp_rx_buf / 1024) as nat)
        + "KB (rx = advertised window), netstack udp="@
        + decimal((t.netstack_udp_buf / 1024) as nat)
        + "KB, channel capacity="@
        + decimal((t.channel_capacity) as nat)
        + ", h2 windows stream/conn="@
        + decimal((t.h2_stream_window / 1024) as nat)
        + "KB/"@
        + decimal((t.h2_connection_window / 1024) as nat)
        + "KB"@
}

/// The line that tells one build and one host from another in a log.
pub fn log_summary(t: &Tuning) -> (out: String)
    ensures
        out@ == summary_text(*t),
{
    let mut out = String::new();
    out.append("[*] performance profile: ");
    assert(out@ =~= "[*] performance profile: "@);
    out.append(tier_label(t.tier));
    out.append(" (cpus=");
    push_number(&mut out, (t.cpus) as u64);
    out.append(" mem=");
    push_mem(&mut out, t.mem_mb);
    out.append("); scan concurrency cap=");
    push_cap(&mut out, t.scan_concurrency_cap);
    out.append(", udp socket rcv/snd=");
    push_number(&mut out, (t.udp_socket_rcv_buf / 1024) as u64);
    out.append("KB/");
    push_number(&mut out, (t.udp_socket_snd_buf / 1024) as u64);
    out.append("KB (snd = uplink queue budget), netstack tcp tx/rx=");
    push_number(&mut out, (t.netstack_tcp_tx_buf / 1024) as u64);
    out.append("KB/");
    push_number(&mut out, (t.netstack_tcp_rx_buf / 1024) as u64);
    out.append("KB (rx = advertised window), netstack udp=");
    push_number(&mut out, (t.netstack_udp_buf / 1024) as u64);
    out.append("KB, channel capacity=");
    push_number(&mut out, (t.channel_capacity) as u64);
    out.append(", h2 windows stream/conn=");
    push_number(&mut out, (t.h2_stream_window / 1024) as u64);
    out.append("KB/");
    push_number(&mut out, (t.h2_connection_window / 1024) as u64);
    out.append("KB");
    out
}

/// Whether the text begins with this.
pub open spec fn begins_with(s: Seq<char>, start: Seq<char>) -> bool {
    start.len() <= s.len() && s.take(start.len() as int) == start
}

/// What follows `MemTotal:` on the first line that begins so.
pub open spec fn mem_total_field(s: Seq<char>) -> Option<Seq<char>>
    decreases s.len(),
    via mem_total_field_ends
{
    let end = first_index(s, '\n');
    let line = s.take(end);
    if begins_with(line, "MemTotal:"@) {
        Some(line.skip("MemTotal:"@.len() as int))
    } else if end < s.len() {
        mem_total_field(s.skip(end + 1))
    } else {
        None
    }
}

#[via_fn]
proof fn mem_total_field_ends(s: Seq<char>) {
    first_index_is_first(s, '\n');
}

/// The text without the `kB` it ends with, however often.
pub open spec fn without_unit(s: Seq<char>) -> Seq<char>
    decreases s.len(),
{
    if s.len() >= 2 && s[s.len() - 2] == 'k' && s[s.len() - 1] == 'B' {
        without_unit(s.take(s.len() - 2))
    } else {
        s
    }
}

/// The memory of a host in megabytes, from the text in which the kernel tells
/// it.
pub open spec fn mem_total(s: Seq<char>) -> Option<u64> {
    match mem_total_field(s) {
        Some(field) => match number(trimmed(without_unit(trimmed(field))), u64::MAX as nat) {
            Some(kb) => Some((kb / 1024) as u64),
            None => None,
        },
        None => None,
    }
}

fn strip_unit(s: &Vec<char>) -> (r: Vec<char>)
    ensures
        r@ == without_unit(s@),
{
    let mut n: usize = s.len();
    assert(s@.take(n as int) =~= s@);
    while n >= 2 && s[n - 2] == 'k' && s[n - 1] == 'B'
        invariant
            n <= s@.len(),
            without_unit(s@) == without_unit(s@.take(n as int)),
        decreases n,
    {
        assert(s@.take(n as int).take(n - 2) =~= s@.take(n - 2));
        n = n - 2;
    }
    assert(s@.subrange(0, n as int) =~= s@.take(n as int));
    part(s, 0, n)
}

/// Reads the memory of a host in megabytes from the text in which the kernel
/// tells it.
pub fn total_mem_mb(meminfo: &str) -> (r: Option<u64>)
    ensures
        r == mem_total(meminfo@),
{
    let s = chars_of(meminfo);
    let name = chars_of("MemTotal:");
    let n: usize = name.len();
    let mut from: usize = 0;
    assert(s@.skip(0) =~= s@);
    loop
        invariant
            from <= s@.len(),
            name@ == "MemTotal:"@,
            n == name@.len(),
            mem_total_field(s@) == mem_total_field(s@.skip(from as int)),
            s@ == meminfo@,
        decreases s@.len() - from,
    {
        let ghost rest = s@.skip(from as int);
        let tail = part(&s, from, s.len());
        assert(tail@ =~= rest);
        let end: usize = find(&tail, '\n');
        proof {
            first_index_is_first(rest, '\n');
        }
        let line = part(&tail, 0, end);
        assert(line@ =~= rest.take(end as int));
        if line.len() >= n {
            let head = part(&line, 0, n);
            assert(head@ =~= line@.take(n as int));
            if same_chars(&head, &name) {
                let field = part(&line, n, line.len());
                assert(field@ =~= line@.skip(n as int));
                let text = trim(&strip_unit(&trim(&field)));
                return match parse_number(&text, u64::MAX) {
                    Some(kb) => Some(kb / 1024),
                    None => None,
                };
            }
        }
        if end == tail.len() {
            return None;
        }
        assert(rest.skip(end + 1) =~= s@.skip(from + end + 1));
        from = from + end + 1;
    }
}

/// A host is small with up to two processors or 384 megabytes, and else medium
/// with up to four or 1536; memory that is not known counts for nothing.
pub proof fn a_host_is_as_large_as_its_smaller_part(cpus: usize, mem: u64)
    ensures
        tier_of(cpus, None, None) is Low <==> cpus <= 2,
        tier_of(cpus, None, None) is High <==> cpus > 4,
        tier_of(cpus, Some(mem), None) is Low <==> cpus <= 2 || mem <= 384,
        tier_of(cpus, Some(mem), None) is High <==> cpus > 4 && mem > 1536,
{
}

/// More processors or more memory never make a host smaller.
pub proof fn more_makes_no_host_smaller(cpus: usize, more_cpus: usize, mem: u64, more_mem: u64)
    requires
        cpus <= more_cpus,
        mem <= more_mem,
    ensures
        tier_of(cpus, Some(mem), None) is High ==> tier_of(more_cpus, Some(more_mem), None) is High,
        tier_of(cpus, Some(mem), None) is Medium ==> !(tier_of(more_cpus, Some(more_mem), None)
            is Low),
{
}

/// A setting that names a tier decides, whatever the host measures; any other is
/// as good as none.
pub proof fn a_named_tier_decides(cpus: usize, mem_mb: Option<u64>, profile: &str)
    ensures
        is_word(trimmed(profile@), "low"@) ==> tier_of(cpus, mem_mb, Some(profile)) is Low,
        is_word(trimmed(profile@), "medium"@) || is_word(trimmed(profile@), "mid"@) ==> tier_of(
            cpus,
            mem_mb,
            Some(profile),
        ) is Medium,
        is_word(trimmed(profile@), "high"@) ==> tier_of(cpus, mem_mb, Some(profile)) is High,
        !is_word(trimmed(profile@), "low"@) && !is_word(trimmed(profile@), "medium"@) && !is_word(
            trimmed(profile@),
            "mid"@,
        ) && !is_word(trimmed(profile@), "high"@) ==> tier_of(cpus, mem_mb, Some(profile))
            == tier_of(cpus, mem_mb, None),
{
    reveal_strlit("low");
    reveal_strlit("medium");
    reveal_strlit("mid");
    reveal_strlit("high");
    let w = trimmed(profile@);
    if is_word(w, "low"@) {
        assert(crate::text::lower(w[0]) == 'l');
    }
    if is_word(w, "mid"@) {
        assert(crate::text::lower(w[0]) == 'm');
    }
}

/// What each tier gets: how many probes at once, and how many bytes for what.
pub proof fn a_tier_gets_its_sizes(
    cpus: usize,
    mem_mb: Option<u64>,
    profile: Option<&str>,
    rx: Option<&str>,
    tx: Option<&str>,
)
    ensures
        ({
            let t = tuning_of(cpus, mem_mb, profile, rx, tx);
            &&& t.tier == tier_of(cpus, mem_mb, profile)
            &&& t.cpus == cpus
            &&& t.mem_mb == mem_mb
            &&& t.scan_concurrency_cap == (match t.tier {
                Tier::Low => 4usize,
                Tier::Medium => 10,
                Tier::High => usize::MAX,
            })
            &&& t.udp_socket_rcv_buf == 1024 * (match t.tier {
                Tier::Low => 256int,
                Tier::Medium => 2048,
                Tier::High => 7168,
            })
            &&& t.udp_socket_snd_buf == 1024 * (match t.tier {
                Tier::Low => 48int,
                Tier::Medium => 96,
                Tier::High => 128,
            })
            &&& t.netstack_udp_buf == 1024 * (match t.tier {
                Tier::Low => 32int,
                Tier::Medium => 64,
                Tier::High => 128,
            })
            &&& t.channel_capacity == (match t.tier {
                Tier::Low => 128int,
                Tier::Medium => 512,
                Tier::High => 1024,
            })
            &&& t.h2_stream_window == 1024 * (match t.tier {
                Tier::Low => 2048int,
                Tier::Medium => 8192,
                Tier::High => 16384,
            })
            &&& t.h2_connection_window == 2 * t.h2_stream_window
            &&& tx is None ==> t.netstack_tcp_tx_buf == 1024 * (match t.tier {
                Tier::Low => 64int,
                Tier::Medium => 96,
                Tier::High => 128,
            })
            &&& rx is None ==> t.netstack_tcp_rx_buf == 1024 * (match t.tier {
                Tier::Low => 64int,
                Tier::Medium => 128,
                Tier::High => 192,
            })
        }),
{
}

/// A buffer is set where the setting is a number from 16 KiB to 64 MiB; any other
/// setting is as good as none. Each of the two settings is for its own buffer.
pub proof fn buffers_are_set_within_bounds(
    cpus: usize,
    mem_mb: Option<u64>,
    profile: Option<&str>,
    rx: &str,
    tx: &str,
)
    ensures
        ({
            let t = tuning_of(cpus, mem_mb, profile, Some(rx), Some(tx));
            let plain = tuning_of(cpus, mem_mb, profile, None, None);
            &&& match number(trimmed(rx@), usize::MAX as nat) {
                Some(n) => {
                    &&& 16 * 1024 <= n <= 64 * 1024 * 1024 ==> t.netstack_tcp_rx_buf == n
                    &&& n < 16 * 1024 || n > 64 * 1024 * 1024 ==> t.netstack_tcp_rx_buf
                        == plain.netstack_tcp_rx_buf
                },
                None => t.netstack_tcp_rx_buf == plain.netstack_tcp_rx_buf,
            }
            &&& match number(trimmed(tx@), usize::MAX as nat) {
                Some(n) => {
                    &&& 16 * 1024 <= n <= 64 * 1024 * 1024 ==> t.netstack_tcp_tx_buf == n
                    &&& n < 16 * 1024 || n > 64 * 1024 * 1024 ==> t.netstack_tcp_tx_buf
                        == plain.netstack_tcp_tx_buf
                },
                None => t.netstack_tcp_tx_buf == plain.netstack_tcp_tx_buf,
            }
        }),
{
}

/// No scan runs more probes at once than it asks for, nor more than its host
/// allows, and never fewer than both allow.
pub proof fn probes_at_once_are_capped(t: Tuning, requested: usize, r: usize)
    requires
        call_ensures(cap_concurrency, (&t, requested), r),
    ensures
        r <= requested,
        r <= t.scan_concurrency_cap,
        r == requested || r == t.scan_concurrency_cap,
{
}

/// The limit on open files is raised to the highest, and never lowered; an
/// infinite one is none.
pub proof fn the_file_limit_only_rises(
    current: u64,
    highest: u64,
    r: Option<u64>,
    told: Option<u64>,
    infinite: u64,
    limit: Option<usize>,
)
    requires
        call_ensures(raise_fd_limit, (current, highest), r),
        call_ensures(open_file_limit, (told, infinite), limit),
    ensures
        r matches Some(n) ==> n == highest && n > current,
        r is None <==> highest <= current,
        limit matches Some(n) ==> told == Some(n as u64) && n != infinite,
        limit is None <==> (told matches Some(n) ==> n == infinite || n > usize::MAX),
{
}

/// The memory is read from the line that names it, wherever that line stands:
/// the lines before it count for nothing, and neither do those behind it.
pub proof fn memory_is_read_from_its_line(line: Seq<char>, rest: Seq<char>)
    requires
        forall|i: int| 0 <= i < line.len() ==> (#[trigger] line[i]) != '\n',
    ensures
        begins_with(line, "MemTotal:"@) ==> mem_total(line + seq!['\n'] + rest) == mem_total(line),
        !begins_with(line, "MemTotal:"@) ==> mem_total(line + seq!['\n'] + rest) == mem_total(rest),
{
    let s = line + seq!['\n'] + rest;
    crate::text::the_first_index(s, '\n', line.len() as int);
    assert(s.take(line.len() as int) =~= line);
    assert(s.skip(line.len() as int + 1) =~= rest);
    crate::text::the_first_index(line, '\n', line.len() as int);
    assert(line.take(line.len() as int) =~= line);
    assert(mem_total_field(s) == (if begins_with(line, "MemTotal:"@) {
        Some(line.skip("MemTotal:"@.len() as int))
    } else {
        mem_total_field(rest)
    }));
}

/// The kernel tells the memory in kilobytes; it is read in megabytes.
pub proof fn memory_is_read_in_megabytes(kb: u64)
    ensures
        mem_total("MemTotal:"@ + (seq![' '] + decimal(kb as nat) + seq![' ', 'k', 'B'])) == Some(
            kb / 1024,
        ),
{
    reveal_strlit("MemTotal:");
    reveal_with_fuel(without_unit, 2);
    reveal_with_fuel(crate::text::without_leading_space, 3);
    reveal_with_fuel(crate::text::without_trailing_space, 3);
    let name = "MemTotal:"@;
    let n = decimal(kb as nat);
    let field = seq![' '] + n + seq![' ', 'k', 'B'];
    let s = name + field;
    crate::text::decimals_read_back(kb as nat);
    assert(crate::text::is_digit(n[0]));
    assert(crate::text::is_digit(n[n.len() - 1]));
    assert forall|i: int| 0 <= i < s.len() implies s[i] != '\n' by {
        if name.len() < i <= name.len() + n.len() {
            assert(s[i] == n[i - name.len() - 1]);
            assert(crate::text::is_digit(n[i - name.len() - 1]));
        }
    }
    crate::text::the_first_index(s, '\n', s.len() as int);
    assert(s.take(s.len() as int) =~= s);
    assert(s.take(name.len() as int) =~= name);
    assert(s.skip(name.len() as int) =~= field);
    assert(mem_total_field(s) == Some(field));
    let t = n + seq![' ', 'k', 'B'];
    assert(field.skip(1) =~= t);
    assert(t[0] == n[0]);
    assert(t.last() == 'B');
    assert(trimmed(field) == t);
    let u = n + seq![' '];
    assert(t.take(t.len() - 2) =~= u);
    assert(u[u.len() - 1] == ' ');
    assert(without_unit(u) == u);
    assert(without_unit(t) == u);
    assert(u[0] == n[0]);
    assert(u.drop_last() =~= n);
    assert(n.last() == n[n.len() - 1]);
    assert(trimmed(u) == n);
    assert(crate::text::all_digits(n));
    crate::text::numbers_read_back(kb as nat, u64::MAX as nat);
}

/// The log names what is not known and what is not limited, and counts the rest.
pub proof fn the_log_names_what_it_cannot_count(n: u64, cap: usize)
    ensures
        mem_text(None) == "unknown"@,
        mem_text(Some(n)) == decimal(n as nat) + "MB"@,
        cap_text(usize::MAX) == "unlimited"@,
        cap < usize::MAX ==> cap_text(cap) == decimal(cap as nat),
        tier_name(Tier::Low) == "Low"@,
        tier_name(Tier::Medium) == "Medium"@,
        tier_name(Tier::High) == "High"@,
{
}

} // verus!
