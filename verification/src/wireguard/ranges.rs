//! Where WireGuard edges are found.

use vstd::prelude::*;

use crate::text::{chars_of, same_chars};

verus! {

pub const WG_PREFIXES_V4: [&'static str; 7] = [
    "162.159.192.0/24",
    "162.159.195.0/24",
    "188.114.96.0/24",
    "188.114.97.0/24",
    "188.114.98.0/24",
    "188.114.99.0/24",
    "162.159.193.0/24",
];

pub const WG_PREFIXES_V6: [&'static str; 3] = [
    "2606:4700:d0::/64",
    "2606:4700:d1::/64",
    "2606:4700:100::/48",
];

/// The ranges that serve the members of a team.
pub const WG_ZT_PREFIXES_V4: [&'static str; 1] = ["162.159.193.0/24"];

pub const WG_ZT_PREFIXES_V6: [&'static str; 1] = ["2606:4700:100::/48"];

/// The ports that edges answer on, the usual one first.
pub const WG_PORTS: [u16; 54] = [
    2408,
    500,
    1701,
    4500,
    854,
    859,
    864,
    878,
    880,
    890,
    891,
    894,
    903,
    908,
    928,
    934,
    939,
    942,
    943,
    945,
    946,
    955,
    968,
    987,
    988,
    1002,
    1010,
    1014,
    1018,
    1070,
    1074,
    1180,
    1387,
    1843,
    2371,
    2506,
    3138,
    3476,
    3581,
    3854,
    4177,
    4198,
    4233,
    5279,
    5956,
    7103,
    7152,
    7156,
    7281,
    7559,
    8319,
    8742,
    8854,
    8886,
];

pub const WG_SEEDS_V4: [&'static str; 5] = [
    "162.159.192.1",
    "162.159.195.1",
    "188.114.96.1",
    "188.114.97.1",
    "162.159.193.1",
];

pub const WG_SEEDS_V6: [&'static str; 4] = [
    "2606:4700:d0::a29f:c001",
    "2606:4700:d1::a29f:c001",
    "2606:4700:d0::a29f:c301",
    "2606:4700:d0::bc72:6001",
];

/// The seed that serves the members of a team.
pub const WG_ZT_SEEDS_V4: [&'static str; 1] = ["162.159.193.1"];

/// Whether the entry is one of these.
pub open spec fn is_among(entry: Seq<char>, these: Seq<&'static str>) -> bool {
    exists|i: int| 0 <= i < these.len() && (#[trigger] these[i])@ == entry
}

/// The entries that are among these, or those that are not, in order.
pub open spec fn picked(
    all: Seq<&'static str>,
    these: Seq<&'static str>,
    among: bool,
) -> Seq<&'static str>
    decreases all.len(),
{
    if all.len() == 0 {
        Seq::empty()
    } else if is_among(all.last()@, these) == among {
        picked(all.drop_last(), these, among).push(all.last())
    } else {
        picked(all.drop_last(), these, among)
    }
}

/// The entries in the order in which they are tried: for the members of a team
/// the promoted ones first, else as they stand.
pub open spec fn in_order(
    all: Seq<&'static str>,
    promoted: Seq<&'static str>,
    team: bool,
) -> Seq<&'static str> {
    if team {
        picked(all, promoted, true) + picked(all, promoted, false)
    } else {
        all
    }
}

fn same_text(a: &str, b: &str) -> (r: bool)
    ensures
        r == (a@ == b@),
{
    same_chars(&chars_of(a), &chars_of(b))
}

fn among(entry: &str, these: &[&'static str]) -> (r: bool)
    ensures
        r == is_among(entry@, these@),
{
    let mut i: usize = 0;
    while i < these.len()
        invariant
            i <= these@.len(),
            forall|j: int| 0 <= j < i ==> (#[trigger] these@[j])@ != entry@,
        decreases these@.len() - i,
    {
        if same_text(these[i], entry) {
            assert(these@[i as int]@ == entry@);
            return true;
        }
        i = i + 1;
    }
    false
}

/// Puts the entries in the order in which they are tried.
pub fn prioritize(all: &[&'static str], promoted: &[&'static str], team: bool) -> (r: Vec<
    &'static str,
>)
    ensures
        r@ == in_order(all@, promoted@, team),
{
    let mut first: Vec<&'static str> = Vec::new();
    let mut rest: Vec<&'static str> = Vec::new();
    let mut i: usize = 0;
    assert(all@.take(0) =~= Seq::empty());
    while i < all.len()
        invariant
            i <= all@.len(),
            team ==> first@ == picked(all@.take(i as int), promoted@, true),
            team ==> rest@ == picked(all@.take(i as int), promoted@, false),
            !team ==> first@.len() == 0 && rest@ == all@.take(i as int),
        decreases all@.len() - i,
    {
        assert(all@.take(i + 1).drop_last() =~= all@.take(i as int));
        assert(all@.take(i + 1) =~= all@.take(i as int).push(all@[i as int]));
        let entry = all[i];
        if team && among(entry, promoted) {
            first.push(entry);
        } else {
            rest.push(entry);
        }
        i = i + 1;
    }
    assert(all@.take(i as int) =~= all@);
    let ghost head = first@;
    let ghost tail = rest@;
    first.append(&mut rest);
    assert(first@ =~= head + tail);
    assert(!team ==> head + tail =~= tail);
    first
}

/// The IPv4 ranges of the edges, those of the team first where there is one.
pub fn wg_prefixes_v4(team: bool) -> (r: Vec<&'static str>)
    ensures
        r@ == in_order(WG_PREFIXES_V4@, WG_ZT_PREFIXES_V4@, team),
{
    prioritize(WG_PREFIXES_V4.as_slice(), WG_ZT_PREFIXES_V4.as_slice(), team)
}

/// The IPv6 ranges of the edges, those of the team first where there is one.
pub fn wg_prefixes_v6(team: bool) -> (r: Vec<&'static str>)
    ensures
        r@ == in_order(WG_PREFIXES_V6@, WG_ZT_PREFIXES_V6@, team),
{
    prioritize(WG_PREFIXES_V6.as_slice(), WG_ZT_PREFIXES_V6.as_slice(), team)
}

/// The IPv4 edges that are tried before any other, that of the team first
/// where there is one.
pub fn wg_seeds_v4(team: bool) -> (r: Vec<&'static str>)
    ensures
        r@ == in_order(WG_SEEDS_V4@, WG_ZT_SEEDS_V4@, team),
{
    prioritize(WG_SEEDS_V4.as_slice(), WG_ZT_SEEDS_V4.as_slice(), team)
}

proof fn picked_split(all: Seq<&'static str>, these: Seq<&'static str>)
    ensures
        picked(all, these, true).len() + picked(all, these, false).len() == all.len(),
        (picked(all, these, true) + picked(all, these, false)).to_multiset() == all.to_multiset(),
    decreases all.len(),
{
    broadcast use vstd::seq_lib::group_to_multiset_ensures;

    let yes = picked(all, these, true);
    let no = picked(all, these, false);
    vstd::seq_lib::lemma_multiset_commutative(yes, no);
    if all.len() > 0 {
        let before = all.drop_last();
        picked_split(before, these);
        vstd::seq_lib::lemma_multiset_commutative(
            picked(before, these, true),
            picked(before, these, false),
        );
        assert(all =~= before.push(all.last()));
    } else {
        assert(yes + no =~= all);
    }
}

/// Promoting ranges loses none and repeats none, whether there is a team or
/// not.
pub proof fn promoting_loses_nothing(
    all: Seq<&'static str>,
    promoted: Seq<&'static str>,
    team: bool,
)
    ensures
        in_order(all, promoted, team).len() == all.len(),
        in_order(all, promoted, team).to_multiset() == all.to_multiset(),
{
    picked_split(all, promoted);
}

/// For the members of a team every promoted entry comes before every other.
pub proof fn promoted_entries_lead(
    all: Seq<&'static str>,
    promoted: Seq<&'static str>,
    i: int,
    j: int,
)
    requires
        0 <= i < all.len(),
        0 <= j < all.len(),
        is_among(in_order(all, promoted, true)[j]@, promoted),
        !is_among(in_order(all, promoted, true)[i]@, promoted),
    ensures
        j < i,
{
    picked_split(all, promoted);
    picked_are(all, promoted, true);
    picked_are(all, promoted, false);
    let yes = picked(all, promoted, true);
    let no = picked(all, promoted, false);
    if j >= yes.len() {
        assert((yes + no)[j] == no[j - yes.len()]);
    }
    if i < yes.len() {
        assert((yes + no)[i] == yes[i]);
    }
}

proof fn picked_are(all: Seq<&'static str>, these: Seq<&'static str>, among: bool)
    ensures
        forall|i: int|
            0 <= i < picked(all, these, among).len() ==> is_among(
                (#[trigger] picked(all, these, among)[i])@,
                these,
            ) == among,
    decreases all.len(),
{
    if all.len() > 0 {
        let before = picked(all.drop_last(), these, among);
        picked_are(all.drop_last(), these, among);
        assert forall|i: int| 0 <= i < picked(all, these, among).len() implies is_among(
            (#[trigger] picked(all, these, among)[i])@,
            these,
        ) == among by {
            if i < before.len() {
                assert(picked(all, these, among)[i] == before[i]);
            }
        }
    }
}

} // verus!
