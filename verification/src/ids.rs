//! Sets and maps keyed by session ids, as lists.

use std::collections::{HashMap, HashSet};
use vstd::prelude::*;
use vstd::std_specs::hash::{spec_hash_keys_iter, spec_keys_iter};
use vstd::std_specs::iter::IteratorSpec;

verus! {

broadcast use vstd::std_specs::hash::group_hash_axioms;

/// The keys of a map, each once, in no particular order.
pub fn keys_of<V>(m: &HashMap<u128, V>) -> (r: Vec<u128>)
    ensures
        r@.no_duplicates(),
        r@.to_set() == m@.dom(),
        r@.len() == m@.len(),
{
    let mut ids: Vec<u128> = Vec::new();
    for id in iter: m.keys()
        invariant
            iter.seq() == spec_keys_iter(m).remaining(),
            ids@ == iter.seq().unref().take(iter.index() as int),
    {
        ids.push(*id);
    }
    proof {
        let keys = spec_keys_iter(m).remaining();
        assert(ids@ =~= keys.unref());
        assert(keys.unref().to_set() == m@.dom());
        assert forall|x: int, y: int| 0 <= x < y < ids@.len() implies ids@[x] != ids@[y] by {
            assert(keys[x] != keys[y]);
        }
    }
    ids
}

/// The members of a set, each once, in no particular order.
pub fn members_of(s: &HashSet<u128>) -> (r: Vec<u128>)
    ensures
        r@.no_duplicates(),
        r@.to_set() == s@,
        r@.len() == s@.len(),
{
    let mut ids: Vec<u128> = Vec::new();
    for id in iter: s.iter()
        invariant
            iter.seq() == spec_hash_keys_iter(s).remaining(),
            ids@ == iter.seq().unref().take(iter.index() as int),
    {
        ids.push(*id);
    }
    proof {
        let all = spec_hash_keys_iter(s).remaining();
        assert(ids@ =~= all.unref());
        assert forall|x: int, y: int| 0 <= x < y < ids@.len() implies ids@[x] != ids@[y] by {
            assert(all[x] != all[y]);
        }
    }
    ids
}

/// The members of a list with one more element.
pub proof fn lemma_push_set(s: Seq<u128>, x: u128)
    ensures
        s.push(x).to_set() == s.to_set().insert(x),
        forall|y: u128| #[trigger] s.push(x).contains(y) <==> s.contains(y) || y == x,
{
    assert forall|y: u128| #[trigger] s.push(x).contains(y) <==> s.contains(y) || y == x by {
        if s.contains(y) {
            let i = choose|i: int| 0 <= i < s.len() && s[i] == y;
            assert(s.push(x)[i] == y);
        }
        if y == x {
            assert(s.push(x)[s.len() as int] == y);
        }
        if s.push(x).contains(y) {
            let i = choose|i: int| 0 <= i < s.push(x).len() && s.push(x)[i] == y;
            if i < s.len() {
                assert(s[i] == y);
            }
        }
    }
    assert(s.push(x).to_set() =~= s.to_set().insert(x));
}

/// Whether every element is less than those behind it.
pub open spec fn ascending(s: Seq<u128>) -> bool {
    forall|i: int, j: int| 0 <= i < j < s.len() ==> s[i] < s[j]
}

fn insert_ascending(list: &mut Vec<u128>, x: u128)
    requires
        ascending(old(list)@),
        !old(list)@.contains(x),
    ensures
        ascending(final(list)@),
        final(list)@.to_set() == old(list)@.to_set().insert(x),
{
    let ghost before = list@;
    let mut at: usize = 0;
    while at < list.len() && list[at] < x
        invariant
            at <= list@.len(),
            list@ == before,
            forall|j: int| 0 <= j < at ==> before[j] < x,
        decreases list@.len() - at,
    {
        at += 1;
    }
    assert forall|j: int| at <= j < before.len() implies x < before[j] by {
        assert(before.contains(before[j]));
        if j > at {
            assert(before[at as int] < before[j]);
        }
        assert(before[at as int] != x) by {
            assert(before.contains(before[at as int]));
        }
    }
    list.insert(at, x);
    proof {
        let after = list@;
        assert forall|y: u128| after.contains(y) <==> before.contains(y) || y == x by {
            if before.contains(y) {
                let i = choose|i: int| 0 <= i < before.len() && before[i] == y;
                if i < at {
                    assert(after[i] == y);
                } else {
                    assert(after[i + 1] == y);
                }
            }
            if y == x {
                assert(after[at as int] == y);
            }
            if after.contains(y) {
                let i = choose|i: int| 0 <= i < after.len() && after[i] == y;
                if i < at {
                    assert(before[i] == y);
                } else if i > at {
                    assert(before[i - 1] == y);
                }
            }
        }
        assert(after.to_set() =~= before.to_set().insert(x));
    }
}

/// The same elements in ascending order.
pub fn sorted(list: &Vec<u128>) -> (r: Vec<u128>)
    requires
        list@.no_duplicates(),
    ensures
        ascending(r@),
        r@.to_set() == list@.to_set(),
{
    let mut r: Vec<u128> = Vec::new();
    let mut i: usize = 0;
    assert(r@ =~= list@.take(0));
    while i < list.len()
        invariant
            i <= list@.len(),
            list@.no_duplicates(),
            ascending(r@),
            r@.to_set() == list@.take(i as int).to_set(),
        decreases list@.len() - i,
    {
        let x: u128 = list[i];
        proof {
            assert(list@.take(i + 1) =~= list@.take(i as int).push(x));
            lemma_push_set(list@.take(i as int), x);
            assert(!r@.contains(x)) by {
                if r@.contains(x) {
                    assert(r@.to_set().contains(x));
                    assert(list@.take(i as int).contains(x));
                    let j = choose|j: int| 0 <= j < i && list@.take(i as int)[j] == x;
                    assert(list@[j] == list@[i as int]);
                }
            }
        }
        insert_ascending(&mut r, x);
        i += 1;
    }
    assert(list@.take(i as int) =~= list@);
    r
}

/// The elements of a list in order are all of them and no others, each smaller than the next.
pub proof fn law_ordered_ids_are_the_same_ids(list: &Vec<u128>, r: Vec<u128>, x: u128)
    requires
        list@.no_duplicates(),
        call_ensures(sorted, (list,), r),
    ensures
        r@.contains(x) <==> list@.contains(x),
        forall|i: int| 0 <= i && i + 1 < r@.len() ==> #[trigger] r@[i] < r@[i + 1],
{
    assert(r@.to_set().contains(x) <==> r@.contains(x));
    assert(list@.to_set().contains(x) <==> list@.contains(x));
}

} // verus!
