//! The order of texts, character by character, and sorting by it.

use crate::text::{chars_of, texts};
use vstd::prelude::*;

verus! {

/// The order of the dictionary: characters are held against each other by
/// their code points, and a text comes before every text that it starts.
pub open spec fn text_le(a: Seq<char>, b: Seq<char>) -> bool
    decreases a.len(),
{
    if a.len() == 0 {
        true
    } else if b.len() == 0 {
        false
    } else if a[0] != b[0] {
        a[0] < b[0]
    } else {
        text_le(a.drop_first(), b.drop_first())
    }
}

/// Each text before the ones behind it.
pub open spec fn is_sorted(s: Seq<Seq<char>>) -> bool {
    forall|i: int, j: int| 0 <= i < j < s.len() ==> text_le(#[trigger] s[i], #[trigger] s[j])
}

pub proof fn lemma_text_le_total(a: Seq<char>, b: Seq<char>)
    ensures
        text_le(a, b) || text_le(b, a),
    decreases a.len(),
{
    if a.len() > 0 && b.len() > 0 && a[0] == b[0] {
        lemma_text_le_total(a.drop_first(), b.drop_first());
    }
}

pub proof fn lemma_text_le_transitive(a: Seq<char>, b: Seq<char>, c: Seq<char>)
    requires
        text_le(a, b),
        text_le(b, c),
    ensures
        text_le(a, c),
    decreases a.len(),
{
    if a.len() > 0 && b.len() > 0 && c.len() > 0 {
        if a[0] == b[0] && b[0] == c[0] {
            lemma_text_le_transitive(a.drop_first(), b.drop_first(), c.drop_first());
        }
    }
}

pub proof fn lemma_text_le_antisymmetric(a: Seq<char>, b: Seq<char>)
    requires
        text_le(a, b),
        text_le(b, a),
    ensures
        a == b,
    decreases a.len(),
{
    if a.len() > 0 && b.len() > 0 {
        assert(a[0] == b[0]);
        lemma_text_le_antisymmetric(a.drop_first(), b.drop_first());
        assert(a =~= seq![a[0]] + a.drop_first());
        assert(b =~= seq![b[0]] + b.drop_first());
    } else {
        assert(a =~= b);
    }
}

/// Tells whether `a` comes before `b`, or is `b`.
pub fn text_before_or_same(a: &str, b: &str) -> (r: bool)
    ensures
        r == text_le(a@, b@),
{
    let x = chars_of(a);
    let y = chars_of(b);
    let mut i: usize = 0;
    assert(x@.skip(0) =~= x@ && y@.skip(0) =~= y@);
    while i < x.len() && i < y.len()
        invariant
            i <= x.len(),
            i <= y.len(),
            x@ == a@,
            y@ == b@,
            text_le(a@, b@) == text_le(x@.skip(i as int), y@.skip(i as int)),
        decreases x.len() - i,
    {
        proof {
            assert(x@.skip(i as int)[0] == x@[i as int]);
            assert(y@.skip(i as int)[0] == y@[i as int]);
            assert(x@.skip(i as int).drop_first() =~= x@.skip(i + 1));
            assert(y@.skip(i as int).drop_first() =~= y@.skip(i + 1));
        }
        if x[i] != y[i] {
            return x[i] < y[i];
        }
        i += 1;
    }
    assert(x@.skip(i as int).len() == x.len() - i);
    assert(y@.skip(i as int).len() == y.len() - i);
    i == x.len()
}

/// The strings in the order of the dictionary: the same texts, as often as
/// they came, each before the ones behind it.
pub fn sorted(items: Vec<String>) -> (r: Vec<String>)
    ensures
        is_sorted(texts(r@)),
        texts(r@).to_multiset() == texts(items@).to_multiset(),
{
    let mut out: Vec<String> = Vec::new();
    let mut items = items;
    let ghost all = texts(items@);
    assert(texts(out@) =~= Seq::<Seq<char>>::empty());
    assert(Seq::<Seq<char>>::empty().to_multiset().add(all.to_multiset()) =~= all.to_multiset())
        by {
        broadcast use vstd::seq_lib::group_to_multiset_ensures;

    }
    while items.len() > 0
        invariant
            is_sorted(texts(out@)),
            texts(out@).to_multiset().add(texts(items@).to_multiset()) == all.to_multiset(),
        decreases items.len(),
    {
        let ghost before_items = texts(items@);
        let ghost before_out = texts(out@);
        let item = items.pop().unwrap();
        proof {
            assert(texts(items@) =~= before_items.drop_last());
            assert(before_items =~= texts(items@).push(item@));
            vstd::seq_lib::to_multiset_build(texts(items@), item@);
        }
        let mut p: usize = 0;
        while p < out.len() && text_before_or_same(out[p].as_str(), item.as_str())
            invariant
                p <= out.len(),
                forall|k: int| 0 <= k < p ==> text_le(#[trigger] texts(out@)[k], item@),
            decreases out.len() - p,
        {
            p += 1;
        }
        proof {
            if p < out.len() {
                lemma_text_le_total(texts(out@)[p as int], item@);
            }
        }
        out.insert(p, item);
        proof {
            let after = texts(out@);
            assert(after =~= before_out.insert(p as int, item@));
            assert(after.remove(p as int) =~= before_out);
            vstd::seq_lib::to_multiset_remove(after, p as int);
            assert(after.to_multiset().count(item@) > 0) by {
                broadcast use vstd::seq_lib::group_to_multiset_ensures;

                assert(after[p as int] == item@);
                assert(after.contains(item@));
            }
            assert(after.to_multiset() =~= before_out.to_multiset().insert(item@));
            assert(after.to_multiset().add(texts(items@).to_multiset()) =~= all.to_multiset());
            assert forall|i: int, j: int| 0 <= i < j < after.len() implies text_le(
                #[trigger] after[i],
                #[trigger] after[j],
            ) by {
                if j < p {
                    assert(after[i] == before_out[i] && after[j] == before_out[j]);
                } else if j == p {
                    assert(after[i] == before_out[i]);
                } else if i == p {
                    assert(after[j] == before_out[j - 1]);
                    if j - 1 > p {
                        assert(text_le(before_out[p as int], before_out[j - 1]));
                        lemma_text_le_transitive(item@, before_out[p as int], before_out[j - 1]);
                    }
                } else if i < p {
                    assert(after[i] == before_out[i] && after[j] == before_out[j - 1]);
                } else {
                    assert(after[i] == before_out[i - 1] && after[j] == before_out[j - 1]);
                }
            }
        }
    }
    assert(texts(items@) =~= Seq::<Seq<char>>::empty());
    assert(texts(out@).to_multiset().add(Seq::<Seq<char>>::empty().to_multiset())
        =~= texts(out@).to_multiset()) by {
        broadcast use vstd::seq_lib::group_to_multiset_ensures;

    }
    out
}

/// There is one way to sort: two sorted lists of the same texts, each as
/// often in the one as in the other, are the same list.
pub proof fn lemma_sorted_is_unique(a: Seq<Seq<char>>, b: Seq<Seq<char>>)
    requires
        is_sorted(a),
        is_sorted(b),
        a.to_multiset() == b.to_multiset(),
    ensures
        a == b,
    decreases a.len(),
{
    broadcast use vstd::seq_lib::group_to_multiset_ensures;

    assert(a.len() == b.len()) by {
        a.to_multiset_ensures();
        b.to_multiset_ensures();
    }
    if a.len() == 0 {
        assert(a =~= b);
    } else {
        assert(a.contains(a[0]));
        assert(b.to_multiset().count(a[0]) > 0);
        assert(b.contains(a[0]));
        let i = choose|i: int| 0 <= i < b.len() && b[i] == a[0];
        assert(b.contains(b[0]));
        assert(a.to_multiset().count(b[0]) > 0);
        assert(a.contains(b[0]));
        let j = choose|j: int| 0 <= j < a.len() && a[j] == b[0];
        assert(text_le(b[0], a[0])) by {
            if i > 0 {
                assert(text_le(b[0], b[i]));
            } else {
                lemma_text_le_total(b[0], b[0]);
            }
        }
        assert(text_le(a[0], b[0])) by {
            if j > 0 {
                assert(text_le(a[0], a[j]));
            } else {
                lemma_text_le_total(a[0], a[0]);
            }
        }
        lemma_text_le_antisymmetric(a[0], b[0]);
        let a_rest = a.drop_first();
        let b_rest = b.drop_first();
        assert(a.remove(0) =~= a_rest);
        assert(b.remove(0) =~= b_rest);
        vstd::seq_lib::to_multiset_remove(a, 0);
        vstd::seq_lib::to_multiset_remove(b, 0);
        assert forall|x: int, y: int| 0 <= x < y < a_rest.len() implies text_le(
            #[trigger] a_rest[x],
            #[trigger] a_rest[y],
        ) by {
            assert(text_le(a[x + 1], a[y + 1]));
        }
        assert forall|x: int, y: int| 0 <= x < y < b_rest.len() implies text_le(
            #[trigger] b_rest[x],
            #[trigger] b_rest[y],
        ) by {
            assert(text_le(b[x + 1], b[y + 1]));
        }
        lemma_sorted_is_unique(a_rest, b_rest);
        assert(a =~= seq![a[0]] + a_rest);
        assert(b =~= seq![b[0]] + b_rest);
    }
}

} // verus!
