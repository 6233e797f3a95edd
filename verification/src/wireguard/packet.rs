//! The bytes on the wire: the mark that a client's packets carry, and the probe
//! that shows a tunnel moves data.

use vstd::prelude::*;

use crate::random::{random_range, random_u16};

verus! {

/// The first and the last type of a WireGuard message.
pub const WG_MSG_TYPE_MIN: u8 = 1;

pub const WG_MSG_TYPE_MAX: u8 = 4;

/// Whether the bytes are a WireGuard message.
pub open spec fn is_message(p: Seq<u8>) -> bool {
    p.len() >= 4 && WG_MSG_TYPE_MIN <= p[0] <= WG_MSG_TYPE_MAX
}

/// The message with these three bytes in its reserved field. Other bytes are
/// left alone.
pub open spec fn marked(p: Seq<u8>, mark: Seq<u8>) -> Seq<u8> {
    if is_message(p) {
        p.update(1, mark[0]).update(2, mark[1]).update(3, mark[2])
    } else {
        p
    }
}

/// The mark of no client.
pub open spec fn no_mark() -> Seq<u8> {
    seq![0u8, 0u8, 0u8]
}

/// Whether the reserved field of a message is as the protocol has it.
pub open spec fn is_plain(p: Seq<u8>) -> bool {
    is_message(p) && p[1] == 0 && p[2] == 0 && p[3] == 0
}

/// Marks an outgoing message with the client it is from.
pub fn inject_client_id(pkt: &mut Vec<u8>, client_id: &[u8; 3])
    ensures
        final(pkt)@ == marked(old(pkt)@, client_id@),
{
    if pkt.len() < 4 {
        return;
    }
    if pkt[0] < WG_MSG_TYPE_MIN || pkt[0] > WG_MSG_TYPE_MAX {
        return;
    }
    pkt.set(1, client_id[0]);
    pkt.set(2, client_id[1]);
    pkt.set(3, client_id[2]);
}

/// Takes the mark off an incoming message.
pub fn strip_client_id(pkt: &mut Vec<u8>)
    ensures
        final(pkt)@ == marked(old(pkt)@, no_mark()),
{
    if pkt.len() < 4 {
        return;
    }
    if pkt[0] < WG_MSG_TYPE_MIN || pkt[0] > WG_MSG_TYPE_MAX {
        return;
    }
    pkt.set(1, 0);
    pkt.set(2, 0);
    pkt.set(3, 0);
}

/// Taking the mark off a marked message gives the message back, whoever marked
/// it.
pub proof fn stripping_undoes_marking(p: Seq<u8>, mark: Seq<u8>)
    requires
        is_plain(p),
    ensures
        marked(marked(p, mark), no_mark()) == p,
{
    assert(marked(marked(p, mark), no_mark()) =~= p);
}

/// Marking touches nothing but the reserved field, and only of messages.
pub proof fn marking_keeps_the_rest(p: Seq<u8>, mark: Seq<u8>)
    ensures
        marked(p, mark).len() == p.len(),
        forall|i: int|
            0 <= i < p.len() && !(1 <= i <= 3) ==> (#[trigger] marked(p, mark)[i]) == p[i],
        !is_message(p) ==> marked(p, mark) == p,
{
}

/// The two bytes of a number, the higher first.
pub open spec fn be16(n: int) -> Seq<u8> {
    seq![(n / 256) as u8, (n % 256) as u8]
}

/// A question for the address of `cloudflare.com`, under this number.
pub open spec fn dns_query(id: u16) -> Seq<u8> {
    be16(id as int) + seq![
        0x01u8,
        0x00,
        0x00,
        0x01,
        0x00,
        0x00,
        0x00,
        0x00,
        0x00,
        0x00,
        10,
        0x63,
        0x6c,
        0x6f,
        0x75,
        0x64,
        0x66,
        0x6c,
        0x61,
        0x72,
        0x65,
        3,
        0x63,
        0x6f,
        0x6d,
        0x00,
        0x00,
        0x01,
        0x00,
        0x01,
    ]
}

fn push_be16(out: &mut Vec<u8>, n: u16)
    ensures
        final(out)@ == old(out)@ + be16(n as int),
{
    let ghost before = out@;
    out.push((n / 256) as u8);
    out.push((n % 256) as u8);
    assert(out@ =~= before + be16(n as int));
}

/// Writes that question.
pub fn build_dns_query(id: u16) -> (q: Vec<u8>)
    ensures
        q@ == dns_query(id),
        q@.len() == 32,
{
    let mut q: Vec<u8> = Vec::new();
    push_be16(&mut q, id);
    let rest: [u8; 30] = [
        0x01,
        0x00,
        0x00,
        0x01,
        0x00,
        0x00,
        0x00,
        0x00,
        0x00,
        0x00,
        10,
        0x63,
        0x6c,
        0x6f,
        0x75,
        0x64,
        0x66,
        0x6c,
        0x61,
        0x72,
        0x65,
        3,
        0x63,
        0x6f,
        0x6d,
        0x00,
        0x00,
        0x01,
        0x00,
        0x01,
    ];
    q.extend_from_slice(rest.as_slice());
    assert(q@ =~= dns_query(id));
    q
}

/// The sum of the bytes taken as numbers of two bytes, the higher first. A last
/// odd byte counts as the higher one.
pub open spec fn word_sum(s: Seq<u8>) -> nat
    decreases s.len(),
{
    if s.len() == 0 {
        0
    } else if s.len() == 1 {
        (s[0] * 256) as nat
    } else {
        (s[0] * 256 + s[1]) as nat + word_sum(s.skip(2))
    }
}

/// The number with what is above two bytes added in again, as often as needed.
pub open spec fn folded(n: nat) -> nat
    decreases n,
{
    if n < 0x1_0000 {
        n
    } else {
        folded(n % 0x1_0000 + n / 0x1_0000)
    }
}

/// The Internet checksum of a header.
pub open spec fn checksum(s: Seq<u8>) -> u16 {
    (0xffff - folded(word_sum(s))) as u16
}

proof fn folded_is_small(n: nat)
    ensures
        folded(n) < 0x1_0000,
    decreases n,
{
    if n >= 0x1_0000 {
        folded_is_small(n % 0x1_0000 + n / 0x1_0000);
    }
}

/// Computes the Internet checksum of a header.
pub fn ipv4_checksum(header: &[u8]) -> (r: u16)
    requires
        word_sum(header@) <= u32::MAX,
    ensures
        r == checksum(header@),
{
    let mut sum: u32 = 0;
    let mut i: usize = 0;
    assert(header@.skip(0) =~= header@);
    let n: usize = header.len();
    while n - i >= 2
        invariant
            i <= n,
            n == header@.len(),
            word_sum(header@) <= u32::MAX,
            word_sum(header@) == sum + word_sum(header@.skip(i as int)),
        decreases header@.len() - i,
    {
        assert(header@.skip(i as int).skip(2) =~= header@.skip(i + 2));
        let word: u32 = header[i] as u32 * 256 + header[i + 1] as u32;
        sum = sum + word;
        i = i + 2;
    }
    if i < n {
        sum = sum + header[i] as u32 * 256;
    }
    assert(sum == word_sum(header@));
    while sum / 0x1_0000 != 0
        invariant
            folded(sum as nat) == folded(word_sum(header@)),
        decreases sum,
    {
        sum = sum % 0x1_0000 + sum / 0x1_0000;
    }
    0xffff - sum as u16
}

/// The fold of a positive number is its remainder by 65535, with 65535 for
/// zero.
proof fn fold_is_remainder(n: nat)
    ensures
        n == 0 ==> folded(n) == 0,
        n > 0 ==> folded(n) == (if n % 0xffff == 0 {
            0xffff
        } else {
            n % 0xffff
        }),
    decreases n,
{
    if n >= 0x1_0000 {
        let m = n % 0x1_0000 + n / 0x1_0000;
        fold_is_remainder(m);
        assert(n == 0x1_0000 * (n / 0x1_0000) + n % 0x1_0000);
        assert(n == m + 0xffff * (n / 0x1_0000));
        assert(n % 0xffff == m % 0xffff) by (nonlinear_arith)
            requires
                n == m + 0xffff * (n / 0x1_0000),
        ;
    }
}

/// Writing a number where two zero bytes were adds it to the sum.
proof fn word_sum_with(s: Seq<u8>, at: int, n: u16)
    requires
        0 <= at,
        at % 2 == 0,
        at + 1 < s.len(),
        s[at] == 0,
        s[at + 1] == 0,
    ensures
        word_sum(s.update(at, (n / 256) as u8).update(at + 1, (n % 256) as u8)) == word_sum(s) + n,
    decreases at,
{
    let t = s.update(at, (n / 256) as u8).update(at + 1, (n % 256) as u8);
    if at == 0 {
        assert(t.skip(2) =~= s.skip(2));
    } else {
        word_sum_with(s.skip(2), at - 2, n);
        assert(t.skip(2) =~= s.skip(2).update(at - 2, (n / 256) as u8).update(
            at - 1,
            (n % 256) as u8,
        ));
    }
}

/// A header with its checksum in place sums up to all ones, which is how a
/// receiver checks it.
pub proof fn a_checksum_verifies(header: Seq<u8>, at: int)
    requires
        0 <= at,
        at % 2 == 0,
        at + 1 < header.len(),
        header[at] == 0,
        header[at + 1] == 0,
    ensures
        ({
            let c = checksum(header);
            folded(
                word_sum(header.update(at, (c / 256) as u8).update(at + 1, (c % 256) as u8)),
            ) == 0xffff
        }),
{
    let n = word_sum(header);
    let c = checksum(header);
    folded_is_small(n);
    word_sum_with(header, at, c);
    fold_is_remainder(n);
    fold_is_remainder(n + c as nat);
    assert(c == 0xffff - folded(n));
    assert((n + c as nat) % 0xffff == 0);
}

/// The four bytes of a number, the highest first.
pub open spec fn be32(n: u32) -> Seq<u8> {
    be16((n / 0x1_0000) as int) + be16((n % 0x1_0000) as int)
}

/// The IPv4 header of the probe, without its checksum.
pub open spec fn probe_header(src: u32, ip_id: u16) -> Seq<u8> {
    seq![0x45u8, 0x00] + be16(60) + be16(ip_id as int) + seq![0u8, 0, 64, 17, 0, 0] + be32(src)
        + seq![8u8, 8, 8, 8]
}

/// The probe: a datagram with that question to a public resolver.
pub open spec fn probe_packet(src: u32, dns_id: u16, ip_id: u16, sport: u16) -> Seq<u8> {
    let header = probe_header(src, ip_id);
    let c = checksum(header);
    header.update(10, (c / 256) as u8).update(11, (c % 256) as u8) + (be16(sport as int) + be16(
        53,
    ) + be16(40) + seq![0u8, 0] + dns_query(dns_id))
}

proof fn word_sum_bound(s: Seq<u8>)
    ensures
        word_sum(s) <= 0x1_0000 * s.len(),
    decreases s.len(),
{
    if s.len() >= 2 {
        word_sum_bound(s.skip(2));
    }
}

/// Writes the probe with these numbers in it.
pub fn probe_with(src: u32, dns_id: u16, ip_id: u16, sport: u16) -> (pkt: Vec<u8>)
    ensures
        pkt@ == probe_packet(src, dns_id, ip_id, sport),
        pkt@.len() == 60,
{
    let dns = build_dns_query(dns_id);
    let mut pkt: Vec<u8> = Vec::new();
    pkt.push(0x45);
    pkt.push(0x00);
    push_be16(&mut pkt, 60);
    push_be16(&mut pkt, ip_id);
    pkt.push(0);
    pkt.push(0);
    pkt.push(64);
    pkt.push(17);
    pkt.push(0);
    pkt.push(0);
    push_be16(&mut pkt, (src / 0x1_0000) as u16);
    push_be16(&mut pkt, (src % 0x1_0000) as u16);
    pkt.push(8);
    pkt.push(8);
    pkt.push(8);
    pkt.push(8);
    assert(pkt@ =~= probe_header(src, ip_id));
    proof {
        word_sum_bound(pkt@);
    }
    let c: u16 = ipv4_checksum(pkt.as_slice());
    pkt.set(10, (c / 256) as u8);
    pkt.set(11, (c % 256) as u8);
    push_be16(&mut pkt, sport);
    push_be16(&mut pkt, 53);
    push_be16(&mut pkt, 40);
    pkt.push(0);
    pkt.push(0);
    pkt.extend_from_slice(dns.as_slice());
    assert(pkt@ =~= probe_packet(src, dns_id, ip_id, sport));
    pkt
}

/// A fresh probe from this address.
pub fn build_dataplane_probe(src: u32) -> (pkt: Vec<u8>)
    ensures
        pkt@.len() == 60,
        exists|dns_id: u16, ip_id: u16, sport: u16|
            20000 <= sport < 60000 && pkt@ == #[trigger] probe_packet(src, dns_id, ip_id, sport),
{
    let dns_id: u16 = random_u16();
    let ip_id: u16 = random_u16();
    let sport: u16 = random_range(20000, 60000) as u16;
    probe_with(src, dns_id, ip_id, sport)
}

/// Every probe has a header that a receiver accepts: the checksum over all of it
/// is zero.
pub proof fn the_probe_header_verifies(src: u32, dns_id: u16, ip_id: u16, sport: u16)
    ensures
        folded(word_sum(probe_packet(src, dns_id, ip_id, sport).take(20))) == 0xffff,
        checksum(probe_packet(src, dns_id, ip_id, sport).take(20)) == 0,
{
    let header = probe_header(src, ip_id);
    assert(header.len() == 20);
    a_checksum_verifies(header, 10);
    let c = checksum(header);
    assert(probe_packet(src, dns_id, ip_id, sport).take(20) =~= header.update(
        10,
        (c / 256) as u8,
    ).update(11, (c % 256) as u8));
}

/// Probes with different numbers are different packets.
pub proof fn different_numbers_different_probes(
    src: u32,
    dns_id: u16,
    ip_id: u16,
    sport: u16,
    other_dns_id: u16,
    other_ip_id: u16,
    other_sport: u16,
)
    requires
        dns_id != other_dns_id || ip_id != other_ip_id || sport != other_sport,
    ensures
        probe_packet(src, dns_id, ip_id, sport) != probe_packet(
            src,
            other_dns_id,
            other_ip_id,
            other_sport,
        ),
{
    let a = probe_packet(src, dns_id, ip_id, sport);
    let b = probe_packet(src, other_dns_id, other_ip_id, other_sport);
    assert(a[4] == (ip_id / 256) as u8 && a[5] == (ip_id % 256) as u8);
    assert(b[4] == (other_ip_id / 256) as u8 && b[5] == (other_ip_id % 256) as u8);
    assert(a[20] == (sport / 256) as u8 && a[21] == (sport % 256) as u8);
    assert(b[20] == (other_sport / 256) as u8 && b[21] == (other_sport % 256) as u8);
    assert(a[28] == (dns_id / 256) as u8 && a[29] == (dns_id % 256) as u8);
    assert(b[28] == (other_dns_id / 256) as u8 && b[29] == (other_dns_id % 256) as u8);
}

/// A probe is a datagram of 60 bytes in all from this address to port 53 of the
/// resolver.
#[verifier::rlimit(60)]
pub proof fn a_probe_asks_the_resolver(src: u32, dns_id: u16, ip_id: u16, sport: u16)
    ensures
        ({
            let p = probe_packet(src, dns_id, ip_id, sport);
            &&& p.len() == 60
            &&& p[0] == 0x45
            &&& p.subrange(2, 4) == be16(60)
            &&& p[8] == 64
            &&& p[9] == 17
            &&& p.subrange(12, 16) == be32(src)
            &&& p.subrange(16, 20) == seq![8u8, 8, 8, 8]
            &&& p.subrange(20, 22) == be16(sport as int)
            &&& p.subrange(22, 24) == be16(53)
            &&& p.subrange(24, 26) == be16(40)
            &&& p.subrange(28, 60) == dns_query(dns_id)
        }),
{
    let p = probe_packet(src, dns_id, ip_id, sport);
    assert(dns_query(dns_id).len() == 32);
    assert(p.subrange(2, 4) =~= be16(60));
    assert(p.subrange(12, 16) =~= be32(src));
    assert(p.subrange(16, 20) =~= seq![8u8, 8, 8, 8]);
    assert(p.subrange(20, 22) =~= be16(sport as int));
    assert(p.subrange(22, 24) =~= be16(53));
    assert(p.subrange(24, 26) =~= be16(40));
    assert(p.subrange(28, 60) =~= dns_query(dns_id));
}

/// Two probes of one address differ in their three numbers and the checksum
/// only.
pub proof fn probes_differ_in_their_numbers_only(
    src: u32,
    dns_id: u16,
    ip_id: u16,
    sport: u16,
    other_dns_id: u16,
    other_ip_id: u16,
    other_sport: u16,
)
    ensures
        forall|i: int|
            0 <= i < 60 && !(4 <= i < 6) && !(10 <= i < 12) && !(20 <= i < 22) && !(28 <= i < 30)
                ==> #[trigger] probe_packet(src, dns_id, ip_id, sport)[i] == probe_packet(
                src,
                other_dns_id,
                other_ip_id,
                other_sport,
            )[i],
{
}

/// Every probe goes to port 53 of the resolver from a port between 20000 and
/// 59999 of the address that it is for.
pub proof fn a_probe_comes_from_a_high_port(src: u32, pkt: Vec<u8>)
    requires
        call_ensures(build_dataplane_probe, (src,), pkt),
    ensures
        pkt@.len() == 60,
        20000 <= pkt@[20] * 256 + pkt@[21] < 60000,
        pkt@.subrange(12, 16) == be32(src),
        pkt@.subrange(16, 20) == seq![8u8, 8, 8, 8],
        pkt@.subrange(22, 24) == be16(53),
{
    let (dns_id, ip_id, sport) = choose|dns_id: u16, ip_id: u16, sport: u16|
        20000 <= sport < 60000 && pkt@ == #[trigger] probe_packet(src, dns_id, ip_id, sport);
    a_probe_asks_the_resolver(src, dns_id, ip_id, sport);
    assert(pkt@[20] == pkt@.subrange(20, 22)[0]);
    assert(pkt@[21] == pkt@.subrange(20, 22)[1]);
}

} // verus!
