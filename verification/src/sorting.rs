//! Lists in alphabetical order.

use vstd::prelude::*;
use vstd::relations::{sorted_by, total_ordering};

use crate::text::chars_of;

verus! {

/// Alphabetical order, character by character.
pub open spec fn text_leq(a: Seq<char>, b: Seq<char>) -> bool
    decreases a.len(),
{
    if a.len() == 0 {
        true
    } else if b.len() == 0 {
        false
    } else {
        a[0] < b[0] || (a[0] == b[0] && text_leq(a.drop_first(), b.drop_first()))
    }
}

/// A label with a note, as their texts.
pub type EntryView = (Seq<char>, Seq<char>);

/// Order of entries: by label, then by note.
pub open spec fn entry_leq(a: EntryView, b: EntryView) -> bool {
    if a.0 == b.0 {
        text_leq(a.1, b.1)
    } else {
        text_leq(a.0, b.0)
    }
}

/// [`entry_leq`] as a relation.
pub open spec fn entry_order() -> spec_fn(EntryView, EntryView) -> bool {
    |a: EntryView, b: EntryView| entry_leq(a, b)
}

/// The texts of a list of entries.
pub open spec fn entry_views(v: Seq<(String, String)>) -> Seq<EntryView> {
    Seq::new(v.len(), |i: int| (v[i].0@, v[i].1@))
}

pub proof fn lemma_text_reflexive(a: Seq<char>)
    ensures
        text_leq(a, a),
    decreases a.len(),
{
    if a.len() > 0 {
        lemma_text_reflexive(a.drop_first());
    }
}

proof fn lemma_text_total(a: Seq<char>, b: Seq<char>)
    ensures
        text_leq(a, b) || text_leq(b, a),
    decreases a.len(),
{
    if a.len() > 0 && b.len() > 0 {
        lemma_text_total(a.drop_first(), b.drop_first());
    }
}

proof fn lemma_text_antisymmetric(a: Seq<char>, b: Seq<char>)
    requires
        text_leq(a, b),
        text_leq(b, a),
    ensures
        a == b,
    decreases a.len(),
{
    if a.len() > 0 && b.len() > 0 {
        lemma_text_antisymmetric(a.drop_first(), b.drop_first());
        assert(a =~= seq![a[0]] + a.drop_first());
        assert(b =~= seq![b[0]] + b.drop_first());
    } else {
        assert(a =~= b);
    }
}

proof fn lemma_text_transitive(a: Seq<char>, b: Seq<char>, c: Seq<char>)
    requires
        text_leq(a, b),
        text_leq(b, c),
    ensures
        text_leq(a, c),
    decreases a.len(),
{
    if a.len() > 0 && b.len() > 0 && c.len() > 0 && a[0] == b[0] && b[0] == c[0] {
        lemma_text_transitive(a.drop_first(), b.drop_first(), c.drop_first());
    }
}

/// The order of entries is a total order.
pub proof fn law_entries_are_totally_ordered()
    ensures
        total_ordering(entry_order()),
{
    let r = entry_order();
    assert forall|x: EntryView| #[trigger] r(x, x) by {
        lemma_text_reflexive(x.1);
    }
    assert forall|x: EntryView, y: EntryView| #[trigger] r(x, y) || #[trigger] r(y, x) by {
        lemma_text_total(x.0, y.0);
        lemma_text_total(x.1, y.1);
    }
    assert forall|x: EntryView, y: EntryView| #[trigger] r(x, y) && #[trigger] r(y, x) implies x
        == y by {
        if x.0 == y.0 {
            lemma_text_antisymmetric(x.1, y.1);
        } else {
            lemma_text_antisymmetric(x.0, y.0);
        }
    }
    assert forall|x: EntryView, y: EntryView, z: EntryView| #[trigger] r(x, y) && #[trigger] r(
        y,
        z,
    ) implies r(x, z) by {
        if x.0 == y.0 && y.0 == z.0 {
            lemma_text_transitive(x.1, y.1, z.1);
        } else if x.0 != y.0 && y.0 != z.0 {
            lemma_text_transitive(x.0, y.0, z.0);
            if x.0 == z.0 {
                lemma_text_antisymmetric(x.0, y.0);
            }
        }
    }
}

/// Whether a text comes before another, or is the same.
pub fn text_before(a: &str, b: &str) -> (r: bool)
    ensures
        r == text_leq(a@, b@),
{
    let x = chars_of(a);
    let y = chars_of(b);
    let mut i: usize = 0;
    assert(a@.skip(0) =~= a@);
    assert(b@.skip(0) =~= b@);
    while i < x.len() && i < y.len()
        invariant
            i <= x@.len(),
            i <= y@.len(),
            x@ == a@,
            y@ == b@,
            text_leq(a@, b@) == text_leq(a@.skip(i as int), b@.skip(i as int)),
        decreases x@.len() - i,
    {
        assert(a@.skip(i as int)[0] == x@[i as int]);
        assert(b@.skip(i as int)[0] == y@[i as int]);
        if x[i] < y[i] {
            return true;
        }
        if y[i] < x[i] {
            return false;
        }
        assert(a@.skip(i as int).drop_first() =~= a@.skip(i + 1));
        assert(b@.skip(i as int).drop_first() =~= b@.skip(i + 1));
        i += 1;
    }
    i == x.len()
}

fn entry_before(a: &(String, String), b: &(String, String)) -> (r: bool)
    ensures
        r == entry_leq((a.0@, a.1@), (b.0@, b.1@)),
{
    if crate::text::same(&a.0, &b.0) {
        text_before(&a.1, &b.1)
    } else {
        text_before(&a.0, &b.0)
    }
}

proof fn lemma_insert_keeps_order(s: Seq<EntryView>, i: int, x: EntryView)
    requires
        0 <= i <= s.len(),
        sorted_by(s, entry_order()),
        forall|j: int| 0 <= j < i ==> entry_leq(#[trigger] s[j], x),
        i < s.len() ==> entry_leq(x, s[i]),
    ensures
        sorted_by(s.insert(i, x), entry_order()),
{
    law_entries_are_totally_ordered();
    let r = entry_order();
    let t = s.insert(i, x);
    assert forall|j: int, k: int| 0 <= j < k < t.len() implies #[trigger] r(t[j], t[k]) by {
        if k < i {
            assert(r(s[j], s[k]));
        } else if k == i {
            assert(entry_leq(s[j], x));
        } else if j == i {
            if k - 1 > i {
                assert(r(s[i], s[k - 1]));
                assert(r(x, s[i]));
            }
        } else if j < i {
            assert(r(s[j], s[k - 1]));
        } else {
            assert(r(s[j - 1], s[k - 1]));
        }
    }
}

/// Sorts entries by label, then by note.
pub fn sort_entries(v: &Vec<(String, String)>) -> (r: Vec<(String, String)>)
    ensures
        entry_views(r@) == entry_views(v@).sort_by(entry_order()),
{
    let mut out: Vec<(String, String)> = Vec::new();
    let ghost all = entry_views(v@);
    let mut n: usize = 0;
    proof {
        assert(entry_views(out@) =~= all.take(0));
    }
    while n < v.len()
        invariant
            n <= v@.len(),
            all == entry_views(v@),
            sorted_by(entry_views(out@), entry_order()),
            entry_views(out@).to_multiset() == all.take(n as int).to_multiset(),
        decreases v@.len() - n,
    {
        let item = (v[n].0.clone(), v[n].1.clone());
        let ghost x = all[n as int];
        let mut i: usize = 0;
        while i < out.len() && !entry_before(&item, &out[i])
            invariant
                i <= out@.len(),
                (item.0@, item.1@) == x,
                forall|j: int| 0 <= j < i ==> entry_leq(#[trigger] entry_views(out@)[j], x),
            decreases out@.len() - i,
        {
            proof {
                law_entries_are_totally_ordered();
                let y = entry_views(out@)[i as int];
                let r = entry_order();
                assert(r(x, y) || r(y, x));
            }
            i += 1;
        }
        let ghost before = entry_views(out@);
        out.insert(i, item);
        proof {
            assert(entry_views(out@) =~= before.insert(i as int, x));
            lemma_insert_keeps_order(before, i as int, x);
            vstd::seq_lib::to_multiset_insert(before, i as int, x);
            assert(all.take(n + 1) =~= all.take(n as int).push(x));
            vstd::seq_lib::to_multiset_build(all.take(n as int), x);
        }
        n += 1;
    }
    proof {
        assert(all.take(n as int) =~= all);
        law_entries_are_totally_ordered();
        all.lemma_sort_by_ensures(entry_order());
        vstd::seq_lib::lemma_sorted_unique(
            entry_views(out@),
            all.sort_by(entry_order()),
            entry_order(),
        );
    }
    out
}

/// The first character in which two texts differ decides which comes first, and a text comes before
/// whatever continues it.
pub proof fn law_first_difference_decides(
    same: Seq<char>,
    x: char,
    y: char,
    a: Seq<char>,
    b: Seq<char>,
)
    requires
        x != y,
    ensures
        text_leq(same + seq![x] + a, same + seq![y] + b) <==> x < y,
        text_leq(same, same + a),
        a.len() > 0 ==> !text_leq(same + a, same),
    decreases same.len(),
{
    if same.len() > 0 {
        let rest = same.drop_first();
        law_first_difference_decides(rest, x, y, a, b);
        assert((same + seq![x] + a).drop_first() =~= rest + seq![x] + a);
        assert((same + seq![y] + b).drop_first() =~= rest + seq![y] + b);
        assert((same + a).drop_first() =~= rest + a);
        assert((same + seq![x] + a)[0] == same[0]);
        assert((same + seq![y] + b)[0] == same[0]);
        assert((same + a)[0] == same[0]);
    } else {
        assert((same + seq![x] + a)[0] == x);
        assert((same + seq![y] + b)[0] == y);
    }
}

/// Sorting keeps every entry, as often as it is there, and puts each behind those whose label comes
/// first, or whose note does where the labels are the same.
pub proof fn law_sorted_entries_are_in_order(
    v: &Vec<(String, String)>,
    r: Vec<(String, String)>,
    i: int,
    j: int,
)
    requires
        call_ensures(sort_entries, (v,), r),
        0 <= i < j < r@.len(),
    ensures
        r@.len() == v@.len(),
        entry_views(r@).to_multiset() == entry_views(v@).to_multiset(),
        r@[i].0@ != r@[j].0@ ==> text_leq(r@[i].0@, r@[j].0@),
        r@[i].0@ == r@[j].0@ ==> text_leq(r@[i].1@, r@[j].1@),
{
    let all = entry_views(v@);
    law_entries_are_totally_ordered();
    all.lemma_sort_by_ensures(entry_order());
    let s = entry_views(r@);
    assert(s.len() == r@.len());
    assert(s.to_multiset().len() == s.len() && all.to_multiset().len() == all.len()) by {
        broadcast use vstd::seq_lib::group_to_multiset_ensures;

    }
    let order = entry_order();
    assert(order(s[i], s[j]));
    assert(entry_leq(s[i], s[j]));
}

/// A text comes before another, or is the same, exactly as the order says.
pub proof fn law_texts_are_compared(a: &str, b: &str, r: bool, back: bool)
    requires
        call_ensures(text_before, (a, b), r),
        call_ensures(text_before, (b, a), back),
    ensures
        r || back,
        r && back <==> a@ == b@,
{
    lemma_text_total(a@, b@);
    if r && back {
        lemma_text_antisymmetric(a@, b@);
    }
    if a@ == b@ {
        lemma_text_reflexive(a@);
    }
}

} // verus!
