//! The hosts of a range that a scan tries.

#[allow(unused_imports)]
use vstd::arithmetic::power2::pow2;
use vstd::prelude::*;

use crate::cidr::{parse_cidr_v4, parse_cidr_v6};
#[allow(unused_imports)]
use crate::cidr::{range_v4, range_v6};
use crate::random::{random_range, random_u32};

verus! {

/// The widest range whose hosts are all listed: one of this many host bits.
pub const MAX_LISTED_BITS: u32 = 12;

/// How many bits of an address number the hosts of a range.
pub open spec fn host_bits(prefix: u8) -> nat {
    if prefix >= 32 {
        0
    } else {
        (32 - prefix) as nat
    }
}

/// The first address of a range, whichever of its addresses the range is given
/// by.
pub open spec fn network(base: u32, prefix: u8) -> int {
    base - base as int % (pow2(host_bits(prefix)) as int)
}

/// Whether an address is one of a range: the bits before its host bits are
/// those of the range.
pub open spec fn in_range(base: u32, prefix: u8, ip: u32) -> bool {
    ip as int / (pow2(host_bits(prefix)) as int) == base as int / (pow2(host_bits(prefix)) as int)
}

/// The hosts of a range, without its first and its last address. A range of
/// one address is that host, and one that is too wide has none listed.
pub open spec fn hosts_of(base: u32, prefix: u8) -> Seq<u32> {
    let bits = host_bits(prefix);
    if bits == 0 {
        seq![base]
    } else if bits > MAX_LISTED_BITS {
        Seq::empty()
    } else {
        Seq::new((pow2(bits) - 2) as nat, |i: int| (network(base, prefix) + 1 + i) as u32)
    }
}

/// How many hosts a range has to sample from.
pub open spec fn usable_hosts(prefix: u8) -> int {
    if host_bits(prefix) >= 32 {
        0xffff_fffd
    } else {
        pow2(host_bits(prefix)) - 2
    }
}

/// Whether this is a sample of `n` hosts of a range: different ones, all of
/// them where there are no more. A range without usable hosts is sampled by
/// its own address.
pub open spec fn is_sample(base: u32, prefix: u8, n: nat, sample: Seq<u32>) -> bool {
    let usable = usable_hosts(prefix);
    if usable <= 0 {
        sample == seq![base]
    } else {
        &&& sample.len() == if n < usable {
            n as int
        } else {
            usable
        }
        &&& sample.no_duplicates()
        &&& forall|i: int|
            0 <= i < sample.len() ==> 1 <= #[trigger] sample[i] - network(base, prefix) <= usable
    }
}

proof fn small_powers()
    ensures
        pow2(0) == 1,
        pow2(1) == 2,
        forall|n: nat| 1 <= n <= 12 ==> 2 <= #[trigger] pow2(n) <= 4096,
        forall|n: nat| 1 <= n <= 31 ==> 2 <= #[trigger] pow2(n) <= 0x8000_0000,
        forall|n: nat| 2 <= n ==> 4 <= #[trigger] pow2(n),
        pow2(32) == 0x1_0000_0000,
{
    vstd::arithmetic::power2::lemma2_to64();
    assert forall|n: nat| 1 <= n <= 12 implies 2 <= #[trigger] pow2(n) <= 4096 by {
        if 1 < n {
            vstd::arithmetic::power2::lemma_pow2_strictly_increases(1, n);
        }
        if n < 12 {
            vstd::arithmetic::power2::lemma_pow2_strictly_increases(n, 12);
        }
    }
    assert forall|n: nat| 1 <= n <= 31 implies 2 <= #[trigger] pow2(n) <= 0x8000_0000 by {
        if 1 < n {
            vstd::arithmetic::power2::lemma_pow2_strictly_increases(1, n);
        }
        if n < 31 {
            vstd::arithmetic::power2::lemma_pow2_strictly_increases(n, 31);
        }
    }
    assert forall|n: nat| 2 <= n implies 4 <= #[trigger] pow2(n) by {
        if 2 < n {
            vstd::arithmetic::power2::lemma_pow2_strictly_increases(2, n);
        }
    }
}

/// Two to the power of `n`.
fn two_to(n: u32) -> (r: u64)
    requires
        n <= 32,
    ensures
        r == pow2(n as nat),
{
    proof {
        small_powers();
        vstd::bits::lemma_u64_shl_is_mul(1, n as u64);
    }
    1u64 << (n as u64)
}

/// How many bits number the hosts.
fn count_host_bits(prefix: u8) -> (r: u32)
    ensures
        r == host_bits(prefix),
        r <= 32,
{
    if prefix >= 32 {
        0
    } else {
        32 - prefix as u32
    }
}

/// What lies at an offset inside a range is an address, and one of the range.
pub(crate) proof fn offsets_stay_inside(base: u32, prefix: u8, offset: int)
    requires
        0 <= offset < pow2(host_bits(prefix)),
    ensures
        0 <= network(base, prefix) <= base,
        network(base, prefix) + offset <= u32::MAX,
        in_range(base, prefix, (network(base, prefix) + offset) as u32),
        in_range(base, prefix, base),
{
    let bits = host_bits(prefix);
    let size = pow2(bits) as int;
    vstd::arithmetic::power2::lemma_pow2_pos(bits);
    small_powers();
    let above = pow2((32 - bits) as nat) as int;
    vstd::arithmetic::power2::lemma_pow2_adds(bits, (32 - bits) as nat);
    let q = base as int / size;
    vstd::arithmetic::div_mod::lemma_fundamental_div_mod(base as int, size);
    vstd::arithmetic::div_mod::lemma_mod_bound(base as int, size);
    assert(network(base, prefix) == size * q);
    assert(0 <= size * q && (q < above)) by (nonlinear_arith)
        requires
            size > 0,
            size * q <= base,
            base == size * q + base as int % size,
            0 <= base as int % size < size,
            size * above == 0x1_0000_0000,
            base < 0x1_0000_0000,
    ;
    assert(size * q + offset < size * above) by (nonlinear_arith)
        requires
            q < above,
            0 <= offset < size,
    ;
    vstd::arithmetic::div_mod::lemma_fundamental_div_mod_converse(
        size * q + offset,
        size,
        q,
        offset,
    );
}

/// The addresses that agree with a range in the bits before its host bits are
/// those from its first address to its last.
pub proof fn a_range_is_a_run_of_addresses(base: u32, prefix: u8, ip: u32)
    ensures
        in_range(base, prefix, ip) <==> 0 <= ip - network(base, prefix) < pow2(host_bits(prefix)),
{
    let size = pow2(host_bits(prefix)) as int;
    vstd::arithmetic::power2::lemma_pow2_pos(host_bits(prefix));
    vstd::arithmetic::div_mod::lemma_fundamental_div_mod(base as int, size);
    vstd::arithmetic::div_mod::lemma_fundamental_div_mod(ip as int, size);
    vstd::arithmetic::div_mod::lemma_mod_bound(ip as int, size);
    if 0 <= ip - network(base, prefix) < size {
        offsets_stay_inside(base, prefix, ip - network(base, prefix));
    }
}

/// The first address of the range.
fn first_address(base: u32, prefix: u8) -> (r: u32)
    ensures
        r == network(base, prefix),
{
    proof {
        vstd::arithmetic::power2::lemma_pow2_pos(host_bits(prefix));
        offsets_stay_inside(base, prefix, 0);
    }
    let size: u64 = two_to(count_host_bits(prefix));
    (base as u64 - base as u64 % size) as u32
}

/// Lists the hosts of a range.
pub fn list_hosts(base: u32, prefix: u8) -> (r: Vec<u32>)
    ensures
        r@ == hosts_of(base, prefix),
{
    let bits: u32 = count_host_bits(prefix);
    let mut hosts: Vec<u32> = Vec::new();
    if bits == 0 {
        hosts.push(base);
        return hosts;
    }
    if bits > MAX_LISTED_BITS {
        return hosts;
    }
    proof {
        small_powers();
    }
    let size: u32 = two_to(bits) as u32;
    let first: u32 = first_address(base, prefix);
    let mut offset: u32 = 1;
    while offset < size - 1
        invariant
            1 <= offset <= size - 1,
            size == pow2(host_bits(prefix)),
            first == network(base, prefix),
            hosts@ == Seq::new(
                (offset - 1) as nat,
                |i: int| (network(base, prefix) + 1 + i) as u32,
            ),
        decreases size - offset,
    {
        proof {
            offsets_stay_inside(base, prefix, offset as int);
        }
        hosts.push(first + offset);
        offset = offset + 1;
        assert(hosts@ =~= Seq::new(
            (offset - 1) as nat,
            |i: int| (network(base, prefix) + 1 + i) as u32,
        ));
    }
    hosts
}

/// Lists the hosts of a range given as text; none where it is no range.
pub fn enumerate_cidr_v4(cidr: &str) -> (r: Vec<u32>)
    ensures
        r@ == match range_v4(cidr@) {
            Some((base, prefix)) => hosts_of(base, prefix),
            None => Seq::empty(),
        },
{
    match parse_cidr_v4(cidr) {
        Some((base, prefix)) => list_hosts(base, prefix),
        None => Vec::new(),
    }
}

/// Whether the numbers rise.
pub open spec fn rising(s: Seq<u32>) -> bool {
    forall|i: int, j: int| 0 <= i < j < s.len() ==> s[i] < s[j]
}

/// Finds the unused offset that has `draw` unused ones before it, counted from
/// one, and its place among those that are used.
pub fn nth_unused(used: &Vec<u32>, draw: u32) -> (r: (u32, usize))
    requires
        rising(used@),
        used@.len() > 0 ==> used@[0] >= 1,
        draw + used@.len() < u32::MAX,
    ensures
        r.1 <= used@.len(),
        r.0 == 1 + draw + r.1,
        forall|i: int| 0 <= i < r.1 ==> #[trigger] used@[i] < r.0,
        forall|i: int| r.1 <= i < used@.len() ==> r.0 < #[trigger] used@[i],
{
    let mut at: usize = 0;
    let mut offset: u32 = draw + 1;
    while at < used.len() && used[at] <= offset
        invariant
            at <= used@.len(),
            rising(used@),
            draw + used@.len() < u32::MAX,
            offset == 1 + draw + at,
            forall|i: int| 0 <= i < at ==> #[trigger] used@[i] < offset,
        decreases used@.len() - at,
    {
        at = at + 1;
        offset = offset + 1;
    }
    (offset, at)
}

/// Samples the hosts of a range.
pub fn sample_hosts(base: u32, prefix: u8, n: u32) -> (r: Vec<u32>)
    ensures
        is_sample(base, prefix, n as nat, r@),
{
    let bits: u32 = count_host_bits(prefix);
    proof {
        small_powers();
    }
    let size: u32 = if bits >= 32 {
        0xffff_ffff
    } else {
        two_to(bits) as u32
    };
    let mut sample: Vec<u32> = Vec::new();
    if size <= 2 {
        sample.push(base);
        assert(sample@ =~= seq![base]);
        return sample;
    }
    let usable: u32 = size - 2;
    let first: u32 = first_address(base, prefix);
    let want: u32 = if n < usable {
        n
    } else {
        usable
    };
    let mut used: Vec<u32> = Vec::new();
    while sample.len() < want as usize
        invariant
            usable == usable_hosts(prefix),
            1 <= usable <= 0xffff_fffd,
            usable < pow2(host_bits(prefix)),
            first == network(base, prefix),
            want <= usable,
            sample@.len() == used@.len(),
            sample@.len() <= want,
            rising(used@),
            forall|i: int| 0 <= i < used@.len() ==> 1 <= #[trigger] used@[i] <= usable,
            sample@.no_duplicates(),
            forall|i: int|
                0 <= i < sample@.len() ==> used@.contains((#[trigger] sample@[i] - first) as u32)
                    && 1 <= sample@[i] - first <= usable,
        decreases want - sample@.len(),
    {
        let left: u32 = usable - sample.len() as u32;
        let draw: u32 = random_range(0, left as u64) as u32;
        let (offset, at) = nth_unused(&used, draw);
        proof {
            offsets_stay_inside(base, prefix, offset as int);
        }
        let ip: u32 = first + offset;
        let ghost before = used@;
        let ghost had = sample@;
        used.insert(at, offset);
        sample.push(ip);
        proof {
            assert forall|i: int, j: int| 0 <= i < j < used@.len() implies used@[i] < used@[j] by {
                if i < at {
                    assert(used@[i] == before[i]);
                } else if i > at {
                    assert(used@[i] == before[i - 1]);
                }
                if j < at {
                    assert(used@[j] == before[j]);
                } else if j > at {
                    assert(used@[j] == before[j - 1]);
                }
            }
            assert forall|x: u32| before.contains(x) implies #[trigger] used@.contains(x)
                && x != offset by {
                let i = choose|i: int| 0 <= i < before.len() && before[i] == x;
                if i < at {
                    assert(used@[i] == x);
                } else {
                    assert(used@[i + 1] == x);
                }
            }
            assert(used@[at as int] == offset);
            assert forall|i: int| 0 <= i < used@.len() implies 1 <= #[trigger] used@[i] <= usable by {
                if i < at {
                    assert(used@[i] == before[i]);
                } else if i > at {
                    assert(used@[i] == before[i - 1]);
                }
            }
            assert forall|i: int| 0 <= i < had.len() implies had[i] != ip by {
                assert(before.contains((had[i] - first) as u32));
            }
            assert forall|i: int| 0 <= i < sample@.len() implies used@.contains(
                (#[trigger] sample@[i] - first) as u32,
            ) && 1 <= sample@[i] - first <= usable by {
                if i < had.len() {
                    assert(sample@[i] == had[i]);
                    assert(before.contains((had[i] - first) as u32));
                }
            }
        }
    }
    sample
}

/// Samples the hosts of a range given as text; none where it is no range.
pub fn sample_cidr_v4(cidr: &str, n: u32) -> (r: Vec<u32>)
    ensures
        match range_v4(cidr@) {
            Some((base, prefix)) => is_sample(base, prefix, n as nat, r@),
            None => r@.len() == 0,
        },
{
    match parse_cidr_v4(cidr) {
        Some((base, prefix)) => sample_hosts(base, prefix, n),
        None => Vec::new(),
    }
}

/// The IPv4 ranges among the texts.
pub open spec fn ranges_of(cidrs: Seq<&'static str>) -> Seq<(u32, u8)>
    decreases cidrs.len(),
{
    if cidrs.len() == 0 {
        Seq::empty()
    } else {
        let before = ranges_of(cidrs.drop_last());
        match range_v4(cidrs.last()@) {
            Some(range) => before.push(range),
            None => before,
        }
    }
}

/// Reads the IPv4 ranges among the texts.
fn parse_ranges(cidrs: &[&'static str]) -> (r: Vec<(u32, u8)>)
    ensures
        r@ == ranges_of(cidrs@),
{
    let mut ranges: Vec<(u32, u8)> = Vec::new();
    let mut i: usize = 0;
    assert(cidrs@.take(0) =~= Seq::empty());
    while i < cidrs.len()
        invariant
            i <= cidrs@.len(),
            ranges@ == ranges_of(cidrs@.take(i as int)),
        decreases cidrs@.len() - i,
    {
        assert(cidrs@.take(i + 1).drop_last() =~= cidrs@.take(i as int));
        if let Some(range) = parse_cidr_v4(cidrs[i]) {
            ranges.push(range);
        }
        i = i + 1;
    }
    assert(cidrs@.take(i as int) =~= cidrs@);
    ranges
}

/// A host of an IPv4 range as the low bits of an IPv6 address: the number picks
/// the host.
pub open spec fn embedded_host(base: u128, range: (u32, u8), number: u32) -> u128 {
    base | ((range.0 | ((number as nat % pow2(host_bits(range.1))) as u32)) as u128)
}

/// Whether an address is one that a sample of an IPv6 range can hold: it has a
/// host of one of the IPv4 ranges in its low bits, or any number where there
/// are no such ranges.
pub open spec fn can_sample_v6(base: u128, ranges: Seq<(u32, u8)>, ip: u128) -> bool {
    if ranges.len() == 0 {
        exists|number: u32| ip == #[trigger] (base | (number as u128))
    } else {
        exists|k: int, number: u32|
            0 <= k < ranges.len() && ip == #[trigger] embedded_host(base, ranges[k], number)
    }
}

/// Whether this is a sample of `n` hosts of an IPv6 range. A range of one
/// address is sampled by that address.
pub open spec fn is_sample_v6(
    base: u128,
    prefix: u8,
    n: nat,
    ranges: Seq<(u32, u8)>,
    sample: Seq<u128>,
) -> bool {
    if prefix >= 128 {
        sample == seq![base]
    } else {
        &&& sample.len() == n
        &&& forall|i: int|
            0 <= i < sample.len() ==> can_sample_v6(base, ranges, #[trigger] sample[i])
    }
}

/// Puts the host of an IPv4 range that a number picks into an IPv6 address.
pub fn embed_host(base: u128, range: (u32, u8), number: u32) -> (r: u128)
    ensures
        r == embedded_host(base, range, number),
{
    let size: u64 = two_to(count_host_bits(range.1));
    proof {
        small_powers();
        vstd::arithmetic::power2::lemma_pow2_pos(host_bits(range.1));
        vstd::arithmetic::div_mod::lemma_mod_decreases(number as nat, pow2(host_bits(range.1)));
    }
    let host: u32 = (number as u64 % size) as u32;
    base | ((range.0 | host) as u128)
}

/// The hosts that are listed or sampled are addresses of their range.
pub proof fn hosts_are_in_range(base: u32, prefix: u8, n: nat, sample: Seq<u32>)
    ensures
        forall|i: int|
            0 <= i < hosts_of(base, prefix).len() ==> in_range(
                base,
                prefix,
                #[trigger] hosts_of(base, prefix)[i],
            ),
        is_sample(base, prefix, n, sample) ==> forall|i: int|
            0 <= i < sample.len() ==> in_range(base, prefix, #[trigger] sample[i]),
{
    small_powers();
    let bits = host_bits(prefix);
    vstd::arithmetic::power2::lemma_pow2_pos(bits);
    offsets_stay_inside(base, prefix, 0);
    assert forall|i: int| 0 <= i < hosts_of(base, prefix).len() implies in_range(
        base,
        prefix,
        #[trigger] hosts_of(base, prefix)[i],
    ) by {
        if bits > 0 {
            offsets_stay_inside(base, prefix, i + 1);
        }
    }
    if is_sample(base, prefix, n, sample) {
        assert forall|i: int| 0 <= i < sample.len() implies in_range(
            base,
            prefix,
            #[trigger] sample[i],
        ) by {
            if usable_hosts(prefix) > 0 {
                offsets_stay_inside(base, prefix, sample[i] - network(base, prefix));
            }
        }
    }
}

/// Samples the hosts of an IPv6 range.
pub fn sample_hosts_v6(base: u128, prefix: u8, n: u32, ranges: &Vec<(u32, u8)>) -> (r: Vec<u128>)
    ensures
        is_sample_v6(base, prefix, n as nat, ranges@, r@),
{
    let mut sample: Vec<u128> = Vec::new();
    if prefix >= 128 {
        sample.push(base);
        assert(sample@ =~= seq![base]);
        return sample;
    }
    while sample.len() < n as usize
        invariant
            sample@.len() <= n,
            forall|i: int|
                0 <= i < sample@.len() ==> can_sample_v6(base, ranges@, #[trigger] sample@[i]),
        decreases n - sample@.len(),
    {
        let ip: u128 = if ranges.len() == 0 {
            let number: u32 = random_u32();
            let ip: u128 = base | (number as u128);
            assert(can_sample_v6(base, ranges@, ip));
            ip
        } else {
            let k: usize = random_range(0, ranges.len() as u64) as usize;
            let number: u32 = random_u32();
            let ip: u128 = embed_host(base, ranges[k], number);
            assert(ip == embedded_host(base, ranges@[k as int], number));
            ip
        };
        sample.push(ip);
    }
    sample
}

/// Samples the hosts of an IPv6 range given as text, with hosts of the IPv4
/// ranges in their low bits; none where the text is no range.
pub fn sample_cidr_v6(cidr: &str, n: u32, v4_cidrs: &[&'static str]) -> (r: Vec<u128>)
    ensures
        match range_v6(cidr@) {
            Some((base, prefix)) => is_sample_v6(
                base,
                prefix,
                n as nat,
                ranges_of(v4_cidrs@),
                r@,
            ),
            None => r@.len() == 0,
        },
{
    match parse_cidr_v6(cidr) {
        Some((base, prefix)) => {
            let ranges = parse_ranges(v4_cidrs);
            sample_hosts_v6(base, prefix, n, &ranges)
        },
        None => Vec::new(),
    }
}

} // verus!
