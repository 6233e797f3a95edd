//! Addresses and ranges as text.

use vstd::prelude::*;

use crate::text::{chars_of, find, parse_number, part, push_number};
#[allow(unused_imports)]
use crate::text::{
    all_digits,
    decimal,
    decimal_value,
    decimals_read_back,
    digits_are_those_of_their_value,
    first_index,
    first_index_is_first,
    is_digit,
    number,
    the_first_index,
};

verus! {

/// The value of one part of a dotted address: up to three digits, without
/// leading zeros, no more than 255.
pub open spec fn octet(s: Seq<char>) -> Option<nat> {
    if 1 <= s.len() <= 3 && all_digits(s) && (s.len() > 1 ==> s[0] != '0') && decimal_value(s)
        <= 255 {
        Some(decimal_value(s))
    } else {
        None
    }
}

/// 256 to the power of `n`.
pub open spec fn place(n: nat) -> nat
    decreases n,
{
    if n == 0 {
        1
    } else {
        256 * place((n - 1) as nat)
    }
}

/// The value of `n` parts with dots between them, the first the most
/// significant.
pub open spec fn dotted_value(s: Seq<char>, n: nat) -> Option<nat>
    decreases n,
{
    if n <= 1 {
        octet(s)
    } else {
        let dot = first_index(s, '.');
        if dot < s.len() {
            match (octet(s.take(dot)), dotted_value(s.skip(dot + 1), (n - 1) as nat)) {
                (Some(a), Some(rest)) => Some(a * place((n - 1) as nat) + rest),
                _ => None,
            }
        } else {
            None
        }
    }
}

/// The IPv4 address that a text spells.
pub open spec fn ipv4_value(s: Seq<char>) -> Option<u32> {
    match dotted_value(s, 4) {
        Some(v) => Some(v as u32),
        None => None,
    }
}

/// The text of an IPv4 address.
pub open spec fn ipv4_text(ip: u32) -> Seq<char> {
    decimal((ip / 0x100_0000) as nat) + seq!['.'] + (decimal((ip / 0x1_0000 % 256) as nat)
        + seq!['.'] + (decimal((ip / 0x100 % 256) as nat) + seq!['.'] + decimal(
        (ip % 256) as nat,
    )))
}

fn parse_octet(s: &Vec<char>) -> (r: Option<u64>)
    ensures
        match r {
            Some(v) => octet(s@) == Some(v as nat) && v <= 255,
            None => octet(s@) is None,
        },
{
    let n: usize = s.len();
    if n < 1 || n > 3 || s[0] == '+' || (n > 1 && s[0] == '0') {
        assert(n >= 1 && s@[0] == '+' ==> !is_digit(s@[0]));
        return None;
    }
    parse_number(s, 255)
}

proof fn dotted_value_is_small(s: Seq<char>, n: nat)
    requires
        1 <= n <= 4,
    ensures
        dotted_value(s, n) matches Some(v) ==> v < place(n),
    decreases n,
{
    reveal_with_fuel(place, 5);
    if n > 1 {
        let tail = s.skip(first_index(s, '.') + 1);
        dotted_value_is_small(tail, (n - 1) as nat);
        if let (Some(a), Some(rest)) = (
            octet(s.take(first_index(s, '.'))),
            dotted_value(tail, (n - 1) as nat),
        ) {
            let unit = place((n - 1) as nat);
            assert(a * unit + rest < 256 * unit) by (nonlinear_arith)
                requires
                    a <= 255,
                    rest < unit,
            ;
        }
    }
}

fn parse_dotted(s: &Vec<char>, n: u8) -> (r: Option<u64>)
    requires
        1 <= n <= 4,
    ensures
        match r {
            Some(v) => dotted_value(s@, n as nat) == Some(v as nat) && v < place(n as nat),
            None => dotted_value(s@, n as nat) is None,
        },
    decreases n,
{
    proof {
        dotted_value_is_small(s@, n as nat);
        first_index_is_first(s@, '.');
        reveal_with_fuel(place, 5);
    }
    if n == 1 {
        return parse_octet(s);
    }
    let dot: usize = find(s, '.');
    if dot == s.len() {
        return None;
    }
    let head = part(s, 0, dot);
    let tail = part(s, dot + 1, s.len());
    assert(head@ =~= s@.take(dot as int));
    assert(tail@ =~= s@.skip(dot + 1));
    let unit: u64 = if n == 4 {
        0x100_0000
    } else if n == 3 {
        0x1_0000
    } else {
        0x100
    };
    assert(unit == place((n - 1) as nat));
    match (parse_octet(&head), parse_dotted(&tail, n - 1)) {
        (Some(a), Some(rest)) => {
            assert(a * unit <= 255 * 0x100_0000) by (nonlinear_arith)
                requires
                    a <= 255,
                    unit <= 0x100_0000,
            ;
            Some(a * unit + rest)
        },
        _ => None,
    }
}

/// Reads an IPv4 address.
pub fn parse_ipv4(s: &Vec<char>) -> (r: Option<u32>)
    ensures
        r == ipv4_value(s@),
{
    proof {
        reveal_with_fuel(place, 5);
    }
    match parse_dotted(s, 4) {
        Some(v) => Some(v as u32),
        None => None,
    }
}

/// Appends the text of an IPv4 address.
pub fn push_ipv4(out: &mut String, ip: u32)
    ensures
        final(out)@ == old(out)@ + ipv4_text(ip),
{
    let ghost before = out@;
    proof {
        reveal_strlit(".");
        assert("."@ =~= seq!['.']);
    }
    push_number(out, (ip / 0x100_0000) as u64);
    out.append(".");
    push_number(out, (ip / 0x1_0000 % 256) as u64);
    out.append(".");
    push_number(out, (ip / 0x100 % 256) as u64);
    out.append(".");
    push_number(out, (ip % 256) as u64);
    assert(out@ =~= before + ipv4_text(ip));
}

/// A part written in decimal is read back.
proof fn octet_reads_back(n: nat)
    requires
        n <= 255,
    ensures
        octet(decimal(n)) == Some(n),
        forall|i: int| 0 <= i < decimal(n).len() ==> (#[trigger] decimal(n)[i]) != '.',
        forall|i: int| 0 <= i < decimal(n).len() ==> (#[trigger] decimal(n)[i]) != '/',
{
    decimals_read_back(n);
    assert forall|i: int| 0 <= i < decimal(n).len() implies (#[trigger] decimal(n)[i]) != '.'
        && decimal(n)[i] != '/' by {
        assert(is_digit(decimal(n)[i]));
    }
}

proof fn dotted_reads_back(head: nat, tail: Seq<char>, rest: nat, n: nat)
    requires
        head <= 255,
        2 <= n,
        dotted_value(tail, (n - 1) as nat) == Some(rest),
    ensures
        dotted_value(decimal(head) + seq!['.'] + tail, n) == Some(
            head * place((n - 1) as nat) + rest,
        ),
{
    octet_reads_back(head);
    let s = decimal(head) + seq!['.'] + tail;
    let k = decimal(head).len() as int;
    assert forall|i: int| 0 <= i < k implies s[i] != '.' by {
        assert(s[i] == decimal(head)[i]);
    }
    the_first_index(s, '.', k);
    assert(s.take(k) =~= decimal(head));
    assert(s.skip(k + 1) =~= tail);
}

proof fn places()
    ensures
        place(1) == 0x100,
        place(2) == 0x1_0000,
        place(3) == 0x100_0000,
{
    reveal_with_fuel(place, 4);
}

proof fn parts_make_an_address(ip: u32)
    ensures
        ip / 0x100_0000 <= 255,
        (ip / 0x100_0000) * 0x100_0000 + ((ip / 0x1_0000 % 256) * 0x1_0000 + ((ip / 0x100 % 256)
            * 0x100 + ip % 256)) == ip,
{
}

/// An IPv4 address is read back from its text.
pub proof fn ipv4_reads_back(ip: u32)
    ensures
        ipv4_value(ipv4_text(ip)) == Some(ip),
{
    let a = (ip / 0x100_0000) as nat;
    let b = (ip / 0x1_0000 % 256) as nat;
    let c = (ip / 0x100 % 256) as nat;
    let d = (ip % 256) as nat;
    places();
    parts_make_an_address(ip);
    let t1 = decimal(c) + seq!['.'] + decimal(d);
    let t2 = decimal(b) + seq!['.'] + t1;
    let t3 = decimal(a) + seq!['.'] + t2;
    assert(dotted_value(decimal(d), 1) == Some(d)) by {
        octet_reads_back(d);
    }
    let v1 = c * 0x100 + d;
    let v2 = b * 0x1_0000 + v1;
    assert(dotted_value(t1, 2) == Some(v1)) by {
        dotted_reads_back(c, decimal(d), d, 2);
    }
    assert(dotted_value(t2, 3) == Some(v2)) by {
        dotted_reads_back(b, t1, v1, 3);
    }
    assert(dotted_value(t3, 4) == Some(a * 0x100_0000 + v2)) by {
        dotted_reads_back(a, t2, v2, 4);
    }
    assert(ipv4_text(ip) == t3);
}

/// The IPv6 address that a text spells, as `core` reads it.
pub uninterp spec fn ipv6_value(s: Seq<char>) -> Option<u128>;

/// `core`'s reading of an IPv6 address, through `smoltcp::wire::Ipv6Address`.
/// Which texts it takes is not stated here, only that the text decides.
#[verifier::external_body]
pub(crate) fn parse_ipv6(s: &str) -> (r: Option<u128>)
    ensures
        r == ipv6_value(s@),
{
    s.parse::<smoltcp::wire::Ipv6Address>().ok().map(u128::from)
}

/// The text before the first slash.
pub open spec fn before_slash(s: Seq<char>) -> Seq<char> {
    s.take(first_index(s, '/'))
}

/// The text after the first slash.
pub open spec fn after_slash(s: Seq<char>) -> Seq<char> {
    s.skip(first_index(s, '/') + 1)
}

pub open spec fn has_slash(s: Seq<char>) -> bool {
    first_index(s, '/') < s.len()
}

/// The prefix length of a range, where one is given.
pub open spec fn prefix_of(s: Seq<char>) -> Option<u8> {
    if has_slash(s) {
        match number(after_slash(s), 255) {
            Some(p) => Some(p as u8),
            None => None,
        }
    } else {
        None
    }
}

/// The text without a prefix length.
pub fn strip_cidr(s: &str) -> (r: &str)
    ensures
        r@ == before_slash(s@),
{
    let chars = chars_of(s);
    let slash: usize = find(&chars, '/');
    proof {
        first_index_is_first(s@, '/');
    }
    let r = s.substring_char(0, slash);
    assert(r@ =~= before_slash(s@));
    r
}

/// The prefix length, where there is one that can be read.
pub fn cidr_prefix(s: &str) -> (r: Option<u8>)
    ensures
        r == prefix_of(s@),
{
    let chars = chars_of(s);
    let slash: usize = find(&chars, '/');
    proof {
        first_index_is_first(s@, '/');
    }
    if slash == chars.len() {
        return None;
    }
    let tail = part(&chars, slash + 1, chars.len());
    assert(tail@ =~= after_slash(s@));
    match parse_number(&tail, 255) {
        Some(p) => Some(p as u8),
        None => None,
    }
}

/// A text that is no address.
#[derive(Clone, Copy, Debug, PartialEq, Eq, Structural)]
pub struct BadAddress;

/// The address and prefix length of an interface, as a setting gives them: none
/// for an empty text, a host prefix where none can be read.
pub open spec fn v4_setting(s: Seq<char>) -> Result<Option<(u32, u8)>, BadAddress> {
    if s.len() == 0 {
        Ok(None)
    } else {
        match ipv4_value(before_slash(s)) {
            Some(ip) => Ok(
                Some(
                    (
                        ip,
                        match prefix_of(s) {
                            Some(p) => p,
                            None => 32,
                        },
                    ),
                ),
            ),
            None => Err(BadAddress),
        }
    }
}

/// The same for an IPv6 address.
pub open spec fn v6_setting(s: Seq<char>) -> Result<Option<(u128, u8)>, BadAddress> {
    if s.len() == 0 {
        Ok(None)
    } else {
        match ipv6_value(before_slash(s)) {
            Some(ip) => Ok(
                Some(
                    (
                        ip,
                        match prefix_of(s) {
                            Some(p) => p,
                            None => 128,
                        },
                    ),
                ),
            ),
            None => Err(BadAddress),
        }
    }
}

pub fn parse_v4(s: &str) -> (r: Result<Option<(u32, u8)>, BadAddress>)
    ensures
        r == v4_setting(s@),
{
    if s.unicode_len() == 0 {
        return Ok(None);
    }
    let ip = chars_of(strip_cidr(s));
    match parse_ipv4(&ip) {
        None => Err(BadAddress),
        Some(ip) => {
            let prefix: u8 = match cidr_prefix(s) {
                Some(p) => p,
                None => 32,
            };
            Ok(Some((ip, prefix)))
        },
    }
}

pub fn parse_v6(s: &str) -> (r: Result<Option<(u128, u8)>, BadAddress>)
    ensures
        r == v6_setting(s@),
{
    if s.unicode_len() == 0 {
        return Ok(None);
    }
    match parse_ipv6(strip_cidr(s)) {
        None => Err(BadAddress),
        Some(ip) => {
            let prefix: u8 = match cidr_prefix(s) {
                Some(p) => p,
                None => 128,
            };
            Ok(Some((ip, prefix)))
        },
    }
}

/// The IPv4 range that a text spells: an address and a prefix length with a
/// slash between them.
pub open spec fn range_v4(s: Seq<char>) -> Option<(u32, u8)> {
    match (ipv4_value(before_slash(s)), prefix_of(s)) {
        (Some(ip), Some(p)) => Some((ip, p)),
        _ => None,
    }
}

/// The IPv6 range that a text spells.
pub open spec fn range_v6(s: Seq<char>) -> Option<(u128, u8)> {
    match (ipv6_value(before_slash(s)), prefix_of(s)) {
        (Some(ip), Some(p)) => Some((ip, p)),
        _ => None,
    }
}

pub fn parse_cidr_v4(cidr: &str) -> (r: Option<(u32, u8)>)
    ensures
        r == range_v4(cidr@),
{
    let ip = chars_of(strip_cidr(cidr));
    match (parse_ipv4(&ip), cidr_prefix(cidr)) {
        (Some(ip), Some(p)) => Some((ip, p)),
        _ => None,
    }
}

pub fn parse_cidr_v6(cidr: &str) -> (r: Option<(u128, u8)>)
    ensures
        r == range_v6(cidr@),
{
    match (parse_ipv6(strip_cidr(cidr)), cidr_prefix(cidr)) {
        (Some(ip), Some(p)) => Some((ip, p)),
        _ => None,
    }
}

/// The text of an IPv4 range.
pub open spec fn range_text(ip: u32, prefix: u8) -> Seq<char> {
    ipv4_text(ip) + seq!['/'] + decimal(prefix as nat)
}

/// The text of an IPv4 range.
pub fn cidr_text(ip: u32, prefix: u8) -> (r: String)
    ensures
        r@ == range_text(ip, prefix),
{
    let mut out = String::new();
    proof {
        reveal_strlit("/");
        assert("/"@ =~= seq!['/']);
    }
    push_ipv4(&mut out, ip);
    out.append("/");
    push_number(&mut out, prefix as u64);
    assert(out@ =~= range_text(ip, prefix));
    out
}

/// The text of an address has no slash.
pub proof fn no_slash_in_ipv4(ip: u32)
    ensures
        forall|i: int| 0 <= i < ipv4_text(ip).len() ==> (#[trigger] ipv4_text(ip)[i]) != '/',
{
    octet_reads_back((ip / 0x100_0000) as nat);
    octet_reads_back((ip / 0x1_0000 % 256) as nat);
    octet_reads_back((ip / 0x100 % 256) as nat);
    octet_reads_back((ip % 256) as nat);
}

/// An IPv4 range is read back from its text.
pub proof fn ranges_read_back(ip: u32, prefix: u8)
    ensures
        range_v4(range_text(ip, prefix)) == Some((ip, prefix)),
{
    let s = range_text(ip, prefix);
    let k = ipv4_text(ip).len() as int;
    no_slash_in_ipv4(ip);
    assert forall|i: int| 0 <= i < k implies s[i] != '/' by {
        assert(s[i] == ipv4_text(ip)[i]);
    }
    the_first_index(s, '/', k);
    assert(before_slash(s) =~= ipv4_text(ip));
    assert(after_slash(s) =~= decimal(prefix as nat));
    ipv4_reads_back(ip);
    decimals_read_back(prefix as nat);
    assert(is_digit(decimal(prefix as nat)[0]));
}

proof fn octets_are_canonical(s: Seq<char>)
    ensures
        octet(s) matches Some(n) ==> s == decimal(n) && n <= 255,
{
    if octet(s) is Some {
        digits_are_those_of_their_value(s);
    }
}

proof fn a_dotted_text_is_canonical(s: Seq<char>, n: nat) -> (r: (nat, Seq<char>))
    requires
        n >= 2,
        dotted_value(s, n) is Some,
    ensures
        r.0 <= 255,
        s == decimal(r.0) + seq!['.'] + r.1,
        dotted_value(r.1, (n - 1) as nat) is Some,
        dotted_value(s, n)->0 == r.0 * place((n - 1) as nat) + dotted_value(
            r.1,
            (n - 1) as nat,
        )->0,
{
    let dot = first_index(s, '.');
    first_index_is_first(s, '.');
    let head = s.take(dot);
    let tail = s.skip(dot + 1);
    octets_are_canonical(head);
    assert(s =~= head + seq!['.'] + tail);
    (octet(head)->0, tail)
}

/// An IPv4 address is spelled by its own text and by no other: four numbers up
/// to 255 with dots between them and no needless zeros.
pub proof fn only_its_own_text_spells_an_address(s: Seq<char>, ip: u32)
    ensures
        ipv4_value(s) == Some(ip) <==> s == ipv4_text(ip),
{
    ipv4_reads_back(ip);
    if ipv4_value(s) == Some(ip) {
        places();
        let (a, s1) = a_dotted_text_is_canonical(s, 4);
        let (b, s2) = a_dotted_text_is_canonical(s1, 3);
        let (c, s3) = a_dotted_text_is_canonical(s2, 2);
        octets_are_canonical(s3);
        let d = octet(s3)->0;
        assert(dotted_value(s3, 1) == octet(s3));
        let v = dotted_value(s, 4)->0;
        assert(v == a * 0x100_0000 + (b * 0x1_0000 + (c * 0x100 + d)));
        parts_of_a_value(a, b, c, d);
    }
}

proof fn parts_of_a_value(a: nat, b: nat, c: nat, d: nat)
    requires
        a <= 255,
        b <= 255,
        c <= 255,
        d <= 255,
    ensures
        ({
            let ip = (a * 0x100_0000 + (b * 0x1_0000 + (c * 0x100 + d))) as u32;
            &&& ip / 0x100_0000 == a
            &&& ip / 0x1_0000 % 256 == b
            &&& ip / 0x100 % 256 == c
            &&& ip % 256 == d
        }),
{
}

/// An address setting may be left empty; otherwise it is an address, with a
/// prefix length or without. Without one it is a host.
pub proof fn an_address_setting_is_an_address(ip: u32, prefix: u8)
    ensures
        v4_setting(Seq::empty()) == Ok::<Option<(u32, u8)>, BadAddress>(None),
        v6_setting(Seq::empty()) == Ok::<Option<(u128, u8)>, BadAddress>(None),
        v4_setting(ipv4_text(ip)) == Ok::<Option<(u32, u8)>, BadAddress>(Some((ip, 32u8))),
        v4_setting(range_text(ip, prefix)) == Ok::<Option<(u32, u8)>, BadAddress>(
            Some((ip, prefix)),
        ),
{
    let s = ipv4_text(ip);
    no_slash_in_ipv4(ip);
    the_first_index(s, '/', s.len() as int);
    assert(before_slash(s) =~= s);
    ipv4_reads_back(ip);
    ranges_read_back(ip, prefix);
    assert(s.len() > 0);
}

/// A setting that is not empty and does not begin with an address is refused,
/// and nothing else is.
pub proof fn a_setting_without_an_address_is_refused(s: Seq<char>)
    ensures
        v4_setting(s) is Err <==> s.len() > 0 && ipv4_value(before_slash(s)) is None,
        v6_setting(s) is Err <==> s.len() > 0 && ipv6_value(before_slash(s)) is None,
        v6_setting(s) matches Ok(Some((ip, p))) ==> ipv6_value(before_slash(s)) == Some(ip) && (
        !has_slash(s) ==> p == 128),
{
}

} // verus!
