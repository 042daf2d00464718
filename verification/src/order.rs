//! The order of texts: by their first differing character, and a text before its
//! extensions.
use vstd::prelude::*;

use crate::text;

verus! {

// ---------------------------------------------------------------------------
// The order
// ---------------------------------------------------------------------------

/// Whether `a` comes before `b`.
pub open spec fn before(a: Seq<char>, b: Seq<char>) -> bool
    decreases a.len(),
{
    if b.len() == 0 {
        false
    } else if a.len() == 0 {
        true
    } else if a[0] != b[0] {
        a[0] < b[0]
    } else {
        before(a.drop_first(), b.drop_first())
    }
}

/// Of two texts at most one comes before the other, and equal texts are the only ones
/// that have no order.
pub proof fn law_order_is_total(a: Seq<char>, b: Seq<char>)
    ensures
        !(before(a, b) && before(b, a)),
        a == b <==> !before(a, b) && !before(b, a),
    decreases a.len(),
{
    if a.len() > 0 && b.len() > 0 {
        law_order_is_total(a.drop_first(), b.drop_first());
        if a[0] == b[0] {
            assert(a =~= seq![a[0]] + a.drop_first());
            assert(b =~= seq![b[0]] + b.drop_first());
        }
    } else if a.len() == 0 && b.len() == 0 {
        assert(a =~= b);
    }
}

pub proof fn law_order_is_transitive(a: Seq<char>, b: Seq<char>, c: Seq<char>)
    requires
        before(a, b),
        before(b, c),
    ensures
        before(a, c),
    decreases a.len(),
{
    if a.len() > 0 && a[0] == b[0] && b[0] == c[0] {
        law_order_is_transitive(a.drop_first(), b.drop_first(), c.drop_first());
    }
}

/// A text comes before every longer text that begins with it.
pub proof fn law_prefix_comes_first(a: Seq<char>, b: Seq<char>)
    requires
        a.is_prefix_of(b),
        a.len() < b.len(),
    ensures
        before(a, b),
    decreases a.len(),
{
    if a.len() > 0 {
        assert(a.drop_first() =~= b.drop_first().take(a.len() - 1)) by {
            assert(a =~= b.take(a.len() as int));
        }
        law_prefix_comes_first(a.drop_first(), b.drop_first());
    }
}

pub fn comes_before(a: &str, b: &str) -> (r: bool)
    ensures
        r == before(a@, b@),
{
    let x = text::chars_of(a);
    let y = text::chars_of(b);
    let mut i: usize = 0;
    assert(x@.skip(0) =~= a@);
    assert(y@.skip(0) =~= b@);
    while i < x.len() && i < y.len() && x[i] == y[i]
        invariant
            i <= x@.len(),
            i <= y@.len(),
            before(x@.skip(i as int), y@.skip(i as int)) == before(a@, b@),
        decreases x@.len() - i,
    {
        assert(x@.skip(i as int).drop_first() =~= x@.skip(i + 1));
        assert(y@.skip(i as int).drop_first() =~= y@.skip(i + 1));
        i += 1;
    }
    if i >= y.len() {
        false
    } else if i >= x.len() {
        true
    } else {
        x[i] < y[i]
    }
}

// ---------------------------------------------------------------------------
// Sorting
// ---------------------------------------------------------------------------

/// Whether no text comes before one that follows it.
pub open spec fn descending(s: Seq<Seq<char>>) -> bool {
    forall|i: int, j: int| 0 <= i < j < s.len() ==> !before(#[trigger] s[i], #[trigger] s[j])
}

/// Whether `sorted` holds the texts of `s`, each as often, in descending order.
pub open spec fn sorted_down(s: Seq<Seq<char>>, sorted: Seq<Seq<char>>) -> bool {
    descending(sorted) && sorted.to_multiset() == s.to_multiset()
}

/// In descending order every text stands behind those that begin with it and are longer.
pub proof fn law_extensions_come_first(sorted: Seq<Seq<char>>, i: int, j: int)
    requires
        descending(sorted),
        0 <= i < sorted.len(),
        0 <= j < sorted.len(),
        sorted[i].is_prefix_of(sorted[j]),
        sorted[i].len() < sorted[j].len(),
    ensures
        j < i,
{
    law_prefix_comes_first(sorted[i], sorted[j]);
    if i < j {
        assert(!before(sorted[i], sorted[j]));
    }
}

/// Texts can be put in descending order in one way only.
pub proof fn law_sorting_is_unique(a: Seq<Seq<char>>, b: Seq<Seq<char>>)
    requires
        descending(a),
        descending(b),
        a.to_multiset() == b.to_multiset(),
    ensures
        a == b,
    decreases a.len(),
{
    broadcast use vstd::seq_lib::group_to_multiset_ensures;

    assert(a.to_multiset().len() == a.len());
    assert(b.to_multiset().len() == b.len());
    if a.len() > 0 {
        assert(a.to_multiset().count(a[0]) > 0) by {
            assert(a.contains(a[0]));
        }
        assert(b.contains(a[0]));
        assert(b.to_multiset().count(b[0]) > 0) by {
            assert(b.contains(b[0]));
        }
        assert(a.contains(b[0]));
        let i = choose|i: int| 0 <= i < b.len() && b[i] == a[0];
        let j = choose|j: int| 0 <= j < a.len() && a[j] == b[0];
        law_order_is_total(a[0], b[0]);
        if i > 0 {
            assert(!before(b[0], b[i]));
        }
        if j > 0 {
            assert(!before(a[0], a[j]));
        }
        assert(a[0] == b[0]);
        assert(a.remove(0) =~= a.drop_first());
        assert(b.remove(0) =~= b.drop_first());
        assert(descending(a.drop_first()));
        assert(descending(b.drop_first()));
        law_sorting_is_unique(a.drop_first(), b.drop_first());
        assert(a =~= seq![a[0]] + a.drop_first());
        assert(b =~= seq![b[0]] + b.drop_first());
    } else {
        assert(a =~= b);
    }
}

/// Inserting an element anywhere adds it to the elements.
pub proof fn lemma_insert_multiset<A>(s: Seq<A>, i: int, a: A)
    requires
        0 <= i <= s.len(),
    ensures
        s.insert(i, a).to_multiset() == s.to_multiset().insert(a),
{
    broadcast use vstd::seq_lib::group_to_multiset_ensures;

    let t = s.insert(i, a);
    assert(t.remove(i) =~= s);
    assert(t[i] == a);
    assert(t.contains(a));
    assert(t.to_multiset().count(a) > 0);
    assert(t.to_multiset().remove(a).insert(a) =~= t.to_multiset());
}

/// The texts in descending order.
pub fn sort_descending(list: Vec<String>) -> (out: Vec<String>)
    ensures
        sorted_down(text::views(list@), text::views(out@)),
{
    let ghost all = list@;
    let mut out: Vec<String> = Vec::new();
    proof {
        assert(text::views(out@) =~= text::views(all.take(0)));
    }
    for s in it: list
        invariant
            it.seq() == all,
            sorted_down(text::views(all.take(it.index() as int)), text::views(out@)),
    {
        let ghost done = it.index() as int;
        let ghost earlier = text::views(out@);
        let mut at: usize = 0;
        while at < out.len() && comes_before(s.as_str(), out[at].as_str())
            invariant
                at <= out@.len(),
                earlier == text::views(out@),
                forall|k: int| 0 <= k < at ==> before(s@, #[trigger] earlier[k]),
            decreases out@.len() - at,
        {
            at += 1;
        }
        proof {
            assert(at < earlier.len() ==> !before(s@, earlier[at as int]));
            assert forall|k: int| at <= k < earlier.len() implies !before(
                s@,
                #[trigger] earlier[k],
            ) by {
                if at < k {
                    assert(!before(earlier[at as int], earlier[k]));
                    law_order_is_total(s@, earlier[at as int]);
                    law_order_is_total(earlier[at as int], earlier[k]);
                    if before(s@, earlier[k]) {
                        if before(earlier[k], earlier[at as int]) {
                            law_order_is_transitive(s@, earlier[k], earlier[at as int]);
                        }
                    }
                }
            }
            assert forall|k: int| 0 <= k < at implies !before(#[trigger] earlier[k], s@) by {
                law_order_is_total(s@, earlier[k]);
            }
            lemma_insert_multiset(earlier, at as int, s@);
        }
        let ghost text = s@;
        out.insert(at, s);
        proof {
            let now = text::views(out@);
            assert(now =~= earlier.insert(at as int, text));
            assert(text::views(all.take(done + 1)) =~= text::views(all.take(done)).push(text));
            broadcast use vstd::seq_lib::group_to_multiset_ensures;

            assert(now.to_multiset() == text::views(all.take(done + 1)).to_multiset());
            assert forall|i: int, j: int| 0 <= i < j < now.len() implies !before(
                #[trigger] now[i],
                #[trigger] now[j],
            ) by {
                let a = if i < at {
                    i
                } else {
                    i - 1
                };
                let b = if j < at {
                    j
                } else {
                    j - 1
                };
                if i != at && j != at {
                    assert(now[i] == earlier[a]);
                    assert(now[j] == earlier[b]);
                } else if i == at {
                    assert(now[j] == earlier[b]);
                } else {
                    assert(now[i] == earlier[a]);
                }
            }
        }
    }
    assert(all.take(all.len() as int) =~= all);
    out
}

/// The first character in which two texts differ decides, whatever follows it.
pub proof fn law_first_difference_decides(
    front: Seq<char>,
    x: char,
    y: char,
    a: Seq<char>,
    b: Seq<char>,
)
    requires
        x < y,
    ensures
        before(front + (seq![x] + a), front + (seq![y] + b)),
    decreases front.len(),
{
    let (s, t) = (front + (seq![x] + a), front + (seq![y] + b));
    if front.len() > 0 {
        let rest = front.drop_first();
        law_first_difference_decides(rest, x, y, a, b);
        assert(s.drop_first() =~= rest + (seq![x] + a));
        assert(t.drop_first() =~= rest + (seq![y] + b));
    }
}

} // verus!
