//! The numbers that a map or a set holds, as a list.

use std::collections::{HashMap, HashSet};
use vstd::prelude::*;
#[allow(unused_imports)]
use vstd::std_specs::iter::IteratorSpec;

verus! {

broadcast use vstd::std_specs::hash::group_hash_axioms;

/// Whether the list names each member of the set once.
pub open spec fn lists(ids: Seq<usize>, set: Set<usize>) -> bool {
    &&& ids.no_duplicates()
    &&& forall|id: usize| #[trigger] set.contains(id) <==> ids.contains(id)
}

proof fn listed(ids: Seq<usize>, set: Set<usize>)
    requires
        ids.no_duplicates(),
        ids.to_set() == set,
    ensures
        lists(ids, set),
{
    assert forall|id: usize| #[trigger] set.contains(id) <==> ids.contains(id) by {
        assert(ids.to_set().contains(id) <==> ids.contains(id));
    }
}

/// The keys of the map, in no particular order.
pub fn key_list<V>(m: &HashMap<usize, V>) -> (ids: Vec<usize>)
    ensures
        lists(ids@, m@.dom()),
{
    let ghost all = m.keys().remaining().unref();
    let mut ids: Vec<usize> = Vec::new();
    for k in it: m.keys()
        invariant
            it.seq().unref() == all,
            ids@ == all.take(it.index()),
    {
        ids.push(*k);
    }
    proof {
        assert(ids@ =~= all);
        listed(all, m@.dom());
    }
    ids
}

/// The members of the set, in no particular order.
pub fn member_list(s: &HashSet<usize>) -> (ids: Vec<usize>)
    ensures
        lists(ids@, s@),
{
    let ghost all = s.iter().remaining().unref();
    let mut ids: Vec<usize> = Vec::new();
    for k in it: s.iter()
        invariant
            it.seq().unref() == all,
            ids@ == all.take(it.index()),
    {
        ids.push(*k);
    }
    proof {
        assert(ids@ =~= all);
        listed(all, s@);
    }
    ids
}

pub(crate) proof fn next_in_list(ids: Seq<usize>, i: int)
    requires
        0 <= i < ids.len(),
        ids.no_duplicates(),
    ensures
        !ids.take(i).contains(ids[i]),
        forall|x: usize| #[trigger]
            ids.take(i + 1).contains(x) <==> ids.take(i).contains(x) || x == ids[i],
{
    assert(ids.take(i + 1) =~= ids.take(i).push(ids[i]));
    if ids.take(i).contains(ids[i]) {
        let j = choose|j: int| 0 <= j < i && ids.take(i)[j] == ids[i];
        assert(ids[j] == ids[i]);
    }
    assert forall|x: usize| #[trigger]
        ids.take(i + 1).contains(x) <==> ids.take(i).contains(x) || x == ids[i] by {
        contains_after_push(ids.take(i), ids[i], x);
    }
}

pub(crate) proof fn pushed_to_list(ids: Seq<usize>, id: usize)
    requires
        ids.no_duplicates(),
        !ids.contains(id),
    ensures
        ids.push(id).no_duplicates(),
        forall|x: usize| #[trigger] ids.push(id).contains(x) <==> ids.contains(x) || x == id,
{
    assert forall|x: usize| #[trigger]
        ids.push(id).contains(x) <==> ids.contains(x) || x == id by {
        contains_after_push(ids, id, x);
    }
}

pub(crate) proof fn contains_after_push(s: Seq<usize>, last: usize, x: usize)
    ensures
        s.push(last).contains(x) <==> s.contains(x) || x == last,
{
    if s.contains(x) {
        let j = choose|j: int| 0 <= j < s.len() && s[j] == x;
        assert(s.push(last)[j] == x);
    }
    assert(s.push(last)[s.len() as int] == last);
    if s.push(last).contains(x) && x != last {
        let j = choose|j: int| 0 <= j < s.push(last).len() && s.push(last)[j] == x;
        assert(s[j] == x);
    }
}

} // verus!
