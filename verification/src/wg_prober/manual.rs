//! Ranges that the user gives.

use vstd::prelude::*;

use crate::cidr::{cidr_text, parse_ipv4};
#[allow(unused_imports)]
use crate::cidr::{
    after_slash,
    before_slash,
    has_slash,
    ipv4_reads_back,
    ipv4_text,
    ipv4_value,
    no_slash_in_ipv4,
    range_text,
    range_v4,
    ranges_read_back,
};
use crate::text::{chars_of, find, parse_number, part, trim};
#[allow(unused_imports)]
use crate::text::{
    decimal,
    decimals_read_back,
    first_index_is_first,
    is_digit,
    is_space,
    number,
    the_first_index,
    trimmed,
};

verus! {

/// The characters between two ranges.
pub open spec fn is_separator(c: char) -> bool {
    c == ',' || c == ';' || c == ' ' || c == '\n'
}

/// The text cut at every separator.
pub open spec fn pieces(s: Seq<char>) -> Seq<Seq<char>>
    decreases s.len(),
{
    if s.len() == 0 {
        seq![Seq::empty()]
    } else {
        let before = pieces(s.drop_last());
        if is_separator(s.last()) {
            before.push(Seq::empty())
        } else {
            before.drop_last().push(before.last().push(s.last()))
        }
    }
}

/// Whether the last part of an address is a wildcard.
pub open spec fn ends_in_wildcard(s: Seq<char>) -> bool {
    s.len() >= 2 && s[s.len() - 2] == '.' && (s.last() == 'x' || s.last() == 'X' || s.last()
        == '*')
}

/// The range that the user means: an address with a prefix length; a wildcard
/// for the last part, which leaves eight bits open; or one address.
pub open spec fn range_meant(raw: Seq<char>) -> Option<(u32, u8)> {
    let s = trimmed(raw);
    if has_slash(s) {
        match (ipv4_value(trimmed(before_slash(s))), number(trimmed(after_slash(s)), 255)) {
            (Some(ip), Some(bits)) => if bits <= 32 {
                Some((ip, bits as u8))
            } else {
                None
            },
            _ => None,
        }
    } else if ends_in_wildcard(s) {
        match ipv4_value(s.drop_last().push('0')) {
            Some(ip) => Some((ip, 24)),
            None => None,
        }
    } else {
        match ipv4_value(s) {
            Some(ip) => Some((ip, 32)),
            None => None,
        }
    }
}

/// The text of the range that the user means.
pub open spec fn normalized(raw: Seq<char>) -> Option<Seq<char>> {
    match range_meant(raw) {
        Some((ip, prefix)) => Some(range_text(ip, prefix)),
        None => None,
    }
}

fn read_range(raw: &Vec<char>) -> (r: Option<(u32, u8)>)
    ensures
        r == range_meant(raw@),
{
    let s = trim(raw);
    let slash: usize = find(&s, '/');
    proof {
        first_index_is_first(s@, '/');
    }
    let n: usize = s.len();
    if slash < n {
        let head = trim(&part(&s, 0, slash));
        let tail = trim(&part(&s, slash + 1, n));
        assert(s@.subrange(0, slash as int) =~= before_slash(s@));
        assert(s@.subrange(slash + 1, n as int) =~= after_slash(s@));
        return match (parse_ipv4(&head), parse_number(&tail, 255)) {
            (Some(ip), Some(bits)) => if bits <= 32 {
                Some((ip, bits as u8))
            } else {
                None
            },
            _ => None,
        };
    }
    if n >= 2 && s[n - 2] == '.' && (s[n - 1] == 'x' || s[n - 1] == 'X' || s[n - 1] == '*') {
        let mut whole = part(&s, 0, n - 1);
        assert(whole@ =~= s@.drop_last());
        whole.push('0');
        return match parse_ipv4(&whole) {
            Some(ip) => Some((ip, 24)),
            None => None,
        };
    }
    match parse_ipv4(&s) {
        Some(ip) => Some((ip, 32)),
        None => None,
    }
}

/// Writes a range that the user gave in the one form that the scan reads.
pub fn app_normalize_cidr_v4(raw: &Vec<char>) -> (r: Option<String>)
    ensures
        match r {
            Some(text) => normalized(raw@) == Some(text@),
            None => normalized(raw@) is None,
        },
{
    match read_range(raw) {
        Some((ip, prefix)) => Some(cidr_text(ip, prefix)),
        None => None,
    }
}

/// The ranges among the pieces.
pub open spec fn normalized_pieces(pieces: Seq<Seq<char>>) -> Seq<Seq<char>>
    decreases pieces.len(),
{
    if pieces.len() == 0 {
        Seq::empty()
    } else {
        let before = normalized_pieces(pieces.drop_last());
        match normalized(pieces.last()) {
            Some(text) => before.push(text),
            None => before,
        }
    }
}

/// The setting that counts: the first that is not blank.
pub open spec fn first_filled(first: Option<Seq<char>>, second: Option<Seq<char>>) -> Option<
    Seq<char>,
> {
    if first is Some && trimmed(first->0).len() > 0 {
        first
    } else if second is Some && trimmed(second->0).len() > 0 {
        second
    } else {
        None
    }
}

/// The ranges that a setting lists, where it lists any.
pub open spec fn ranges_listed(raw: Seq<char>) -> Option<Seq<Seq<char>>> {
    let list = normalized_pieces(pieces(raw));
    if list.len() == 0 {
        None
    } else {
        Some(list)
    }
}

/// The ranges that the user gives, where the user gives any.
pub open spec fn manual_ranges(
    first: Option<Seq<char>>,
    second: Option<Seq<char>>,
) -> Option<Seq<Seq<char>>> {
    match first_filled(first, second) {
        Some(raw) => ranges_listed(raw),
        None => None,
    }
}

/// What an optional setting holds.
pub open spec fn setting(s: Option<&str>) -> Option<Seq<char>> {
    match s {
        Some(text) => Some(text@),
        None => None,
    }
}

/// The texts of the strings.
pub open spec fn texts(list: Seq<String>) -> Seq<Seq<char>> {
    list.map_values(|s: String| s@)
}

fn list_ranges(raw: &str) -> (r: Vec<String>)
    ensures
        texts(r@) == normalized_pieces(pieces(raw@)),
{
    let chars = chars_of(raw);
    let mut list: Vec<String> = Vec::new();
    let mut current: Vec<char> = Vec::new();
    let mut i: usize = 0;
    assert(chars@.take(0) =~= Seq::empty());
    assert(pieces(chars@.take(0)).drop_last() =~= Seq::empty());
    assert(current@ =~= pieces(chars@.take(0)).last());
    assert(texts(list@) =~= Seq::empty());
    while i < chars.len()
        invariant
            i <= chars@.len(),
            pieces(chars@.take(i as int)).len() > 0,
            current@ == pieces(chars@.take(i as int)).last(),
            texts(list@) == normalized_pieces(pieces(chars@.take(i as int)).drop_last()),
        decreases chars@.len() - i,
    {
        let ghost before = pieces(chars@.take(i as int));
        let ghost now = pieces(chars@.take(i + 1));
        assert(chars@.take(i + 1).drop_last() =~= chars@.take(i as int));
        assert(chars@.take(i + 1).last() == chars@[i as int]);
        let c = chars[i];
        if c == ',' || c == ';' || c == ' ' || c == '\n' {
            assert(now.drop_last() =~= before);
            let ghost had = list@;
            if let Some(text) = app_normalize_cidr_v4(&current) {
                let ghost added = text@;
                list.push(text);
                assert(texts(list@) =~= texts(had).push(added));
            }
            current = Vec::new();
            assert(current@ =~= now.last());
        } else {
            assert(now.drop_last() =~= before.drop_last());
            current.push(c);
        }
        i = i + 1;
    }
    assert(chars@.take(i as int) =~= chars@);
    let ghost had = list@;
    if let Some(text) = app_normalize_cidr_v4(&current) {
        let ghost added = text@;
        list.push(text);
        assert(texts(list@) =~= texts(had).push(added));
    }
    list
}

fn is_filled(s: &str) -> (r: bool)
    ensures
        r == (trimmed(s@).len() > 0),
{
    let s = trim(&chars_of(s));
    s.len() > 0
}

/// The ranges that the user gives: those of the first setting, or of the second
/// where the first is blank.
pub fn custom_wg_cidrs_v4(first: Option<&str>, second: Option<&str>) -> (r: Option<Vec<String>>)
    ensures
        match r {
            Some(list) => manual_ranges(setting(first), setting(second)) == Some(texts(list@)),
            None => manual_ranges(setting(first), setting(second)) is None,
        },
{
    let mut raw: Option<&str> = None;
    if let Some(s) = second {
        if is_filled(s) {
            raw = Some(s);
        }
    }
    if let Some(s) = first {
        if is_filled(s) {
            raw = Some(s);
        }
    }
    match raw {
        None => None,
        Some(raw) => {
            let list = list_ranges(raw);
            if list.len() == 0 {
                None
            } else {
                Some(list)
            }
        },
    }
}

proof fn no_space_around(s: Seq<char>)
    requires
        s.len() > 0,
        !is_space(s[0]),
        !is_space(s.last()),
    ensures
        trimmed(s) == s,
{
}

/// A range that is given is a range once it is written again: no prefix is
/// longer than an address.
pub proof fn given_ranges_can_be_scanned(raw: Seq<char>)
    requires
        normalized(raw) is Some,
    ensures
        range_v4(normalized(raw)->0) == range_meant(raw),
        range_meant(raw) matches Some((ip, prefix)) && prefix <= 32,
{
    let (ip, prefix) = range_meant(raw)->0;
    ranges_read_back(ip, prefix);
}

/// A range that is written in full is meant as it stands.
pub proof fn full_ranges_stay(ip: u32, prefix: u8)
    requires
        prefix <= 32,
    ensures
        normalized(range_text(ip, prefix)) == Some(range_text(ip, prefix)),
{
    let s = range_text(ip, prefix);
    let head = ipv4_text(ip);
    let tail = decimal(prefix as nat);
    let k = head.len() as int;
    no_slash_in_ipv4(ip);
    address_ends_in_digits(ip);
    assert forall|i: int| 0 <= i < k implies s[i] != '/' by {
        assert(s[i] == head[i]);
    }
    the_first_index(s, '/', k);
    decimals_read_back(prefix as nat);
    assert(is_digit(tail[0]) && is_digit(tail[tail.len() - 1]));
    assert(s[0] == head[0]);
    assert(s.last() == tail.last());
    no_space_around(s);
    assert(before_slash(s) =~= head);
    assert(after_slash(s) =~= tail);
    no_space_around(head);
    no_space_around(tail);
    ipv4_reads_back(ip);
}

proof fn address_ends_in_digits(ip: u32)
    ensures
        ipv4_text(ip).len() > 0,
        is_digit(ipv4_text(ip)[0]),
        is_digit(ipv4_text(ip).last()),
{
    decimals_read_back((ip / 0x100_0000) as nat);
    decimals_read_back((ip % 256) as nat);
    let first = decimal((ip / 0x100_0000) as nat);
    let last = decimal((ip % 256) as nat);
    assert(is_digit(first[0]) && is_digit(last[last.len() - 1]));
    assert(ipv4_text(ip)[0] == first[0]);
    assert(ipv4_text(ip).last() == last.last());
}

/// A bare address is a range of one.
pub proof fn a_bare_address_is_one_host(ip: u32)
    ensures
        range_meant(ipv4_text(ip)) == Some((ip, 32u8)),
{
    let s = ipv4_text(ip);
    address_ends_in_digits(ip);
    no_slash_in_ipv4(ip);
    no_space_around(s);
    the_first_index(s, '/', s.len() as int);
    ipv4_reads_back(ip);
}

/// A wildcard for the last part of an address leaves that part open.
pub proof fn a_wildcard_leaves_eight_bits_open(ip: u32, wildcard: char)
    requires
        ip % 256 == 0,
        wildcard == 'x' || wildcard == 'X' || wildcard == '*',
    ensures
        range_meant(ipv4_text(ip).drop_last().push(wildcard)) == Some((ip, 24u8)),
{
    let full = ipv4_text(ip);
    let s = full.drop_last().push(wildcard);
    address_ends_in_digits(ip);
    no_slash_in_ipv4(ip);
    let last = decimal((ip % 256) as nat);
    assert(last =~= seq!['0']);
    assert(full.last() == '0');
    assert(full[full.len() - 2] == '.');
    assert(s[0] == full[0]);
    no_space_around(s);
    assert forall|i: int| 0 <= i < s.len() implies s[i] != '/' by {
        if i < s.len() - 1 {
            assert(s[i] == full[i]);
        }
    }
    the_first_index(s, '/', s.len() as int);
    assert(s.drop_last().push('0') =~= full);
    ipv4_reads_back(ip);
}

} // verus!
