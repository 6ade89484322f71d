//! The canonical form of a plan: its `(target, source)` pairs sorted by
//! target path, and among equal targets by source path. Two plans with the
//! same pairs have the same canonical form, in whatever order the pairs were
//! found.

use vstd::prelude::*;
use vstd::multiset::Multiset;
use vstd::relations::sorted_by;
use vstd::relations::total_ordering;
use vstd::seq_lib::lemma_seq_union_to_multiset_commutative;
use vstd::seq_lib::lemma_sorted_unique;
use vstd::seq_lib::to_multiset_build;
use vstd::seq_lib::to_multiset_insert;
use crate::mapping::flattened;
use crate::mapping::MappingView;
use crate::mapping::PairView;
use crate::mapping::Plan;
use crate::mapping::RuleView;
use crate::mapping::SourceView;
use crate::order::lemma_bytes_le_connected;
use crate::order::lemma_bytes_le_reflexive;
use crate::order::lemma_bytes_le_transitive;
use crate::order::lemma_text_le_antisymmetric;
use crate::order::str_le;
use crate::order::text_le;
use vstd::utf8::encode_utf8;

verus! {

/// "Less than or equal" on pairs: by target, and among equal targets by
/// source.
pub open spec fn pair_le(a: PairView, b: PairView) -> bool {
    if a.0 == b.0 {
        text_le(a.1, b.1)
    } else {
        text_le(a.0, b.0)
    }
}

/// [`pair_le`] as a relation.
pub open spec fn pair_order() -> spec_fn(PairView, PairView) -> bool {
    |a: PairView, b: PairView| pair_le(a, b)
}

/// The pairs of `pairs`, sorted.
pub open spec fn sorted_pairs(pairs: Seq<PairView>) -> Seq<PairView> {
    pairs.sort_by(pair_order())
}

/// The canonical pairs of a plan.
pub open spec fn canonical(plan: Seq<MappingView>) -> Seq<PairView> {
    sorted_pairs(flattened(plan))
}

/// The order on pairs is total: any two pairs compare, and two pairs that are
/// below each other are the same pair.
pub proof fn lemma_pair_order_total()
    ensures
        total_ordering(pair_order()),
{
    let r = pair_order();
    assert forall|x: PairView| #[trigger] r(x, x) by {
        lemma_bytes_le_reflexive(encode_utf8(x.1));
    }
    assert forall|x: PairView, y: PairView| #[trigger] r(x, y) && #[trigger] r(y, x) implies x
        == y by {
        if x.0 == y.0 {
            lemma_text_le_antisymmetric(x.1, y.1);
        } else {
            lemma_text_le_antisymmetric(x.0, y.0);
        }
    }
    assert forall|x: PairView, y: PairView, z: PairView| #[trigger]
        r(x, y) && #[trigger] r(y, z) implies r(x, z) by {
        lemma_pair_le_transitive(x, y, z);
    }
    assert forall|x: PairView, y: PairView| #[trigger] r(x, y) || #[trigger] r(y, x) by {
        if x.0 == y.0 {
            lemma_bytes_le_connected(encode_utf8(x.1), encode_utf8(y.1));
        } else {
            lemma_bytes_le_connected(encode_utf8(x.0), encode_utf8(y.0));
        }
    }
}

proof fn lemma_pair_le_transitive(x: PairView, y: PairView, z: PairView)
    requires
        pair_le(x, y),
        pair_le(y, z),
    ensures
        pair_le(x, z),
{
    lemma_bytes_le_reflexive(encode_utf8(x.0));
    if x.0 == y.0 && y.0 == z.0 {
        lemma_bytes_le_transitive(encode_utf8(x.1), encode_utf8(y.1), encode_utf8(z.1));
    } else if x.0 == y.0 {
    } else if y.0 == z.0 {
    } else {
        lemma_bytes_le_transitive(encode_utf8(x.0), encode_utf8(y.0), encode_utf8(z.0));
        if x.0 == z.0 {
            lemma_text_le_antisymmetric(x.0, y.0);
        }
    }
}

/// What [`sorted_pairs`] returns is the one sequence that is sorted and holds
/// the given pairs, each as often as it was given.
pub proof fn lemma_sorted_pairs(pairs: Seq<PairView>, sorted: Seq<PairView>)
    ensures
        sorted_by(sorted_pairs(pairs), pair_order()),
        sorted_pairs(pairs).to_multiset() == pairs.to_multiset(),
        sorted_by(sorted, pair_order()) && sorted.to_multiset() == pairs.to_multiset()
            ==> sorted == sorted_pairs(pairs),
{
    lemma_pair_order_total();
    pairs.lemma_sort_by_ensures(pair_order());
    if sorted_by(sorted, pair_order()) && sorted.to_multiset() == pairs.to_multiset() {
        lemma_sorted_unique(sorted, sorted_pairs(pairs), pair_order());
    }
}

/// Two lists of the same pairs, in whatever order, have the same sorted form.
pub proof fn lemma_sorted_pairs_ignores_order(a: Seq<PairView>, b: Seq<PairView>)
    requires
        a.to_multiset() == b.to_multiset(),
    ensures
        sorted_pairs(a) == sorted_pairs(b),
{
    lemma_sorted_pairs(a, sorted_pairs(b));
    lemma_sorted_pairs(b, sorted_pairs(b));
}

/// Two plans that stand for the same pairs have the same canonical pairs,
/// whatever the order of their mappings and of the files that each fan-out
/// found.
pub proof fn lemma_canonical_ignores_order(p: Seq<MappingView>, q: Seq<MappingView>)
    requires
        flattened(p).to_multiset() == flattened(q).to_multiset(),
    ensures
        canonical(p) == canonical(q),
{
    lemma_sorted_pairs_ignores_order(flattened(p), flattened(q));
}

/// The pairs of two plans put one behind the other are the pairs of the
/// first, then those of the second.
pub proof fn lemma_flattened_concat(p: Seq<MappingView>, q: Seq<MappingView>)
    ensures
        flattened(p + q) == flattened(p) + flattened(q),
    decreases q.len(),
{
    if q.len() == 0 {
        assert(p + q =~= p);
        assert(flattened(p) + flattened(q) =~= flattened(p));
    } else {
        assert((p + q).drop_last() =~= p + q.drop_last());
        assert((p + q).last() == q.last());
        lemma_flattened_concat(p, q.drop_last());
        assert(flattened(p + q) =~= flattened(p) + flattened(q));
    }
}

/// The pairs of a plan of one mapping are the pairs of that mapping.
pub proof fn lemma_flattened_single(mapping: MappingView)
    ensures
        flattened(seq![mapping]) == mapping.pairs(),
{
    let plan = seq![mapping];
    assert(plan.drop_last() =~= Seq::<MappingView>::empty());
    assert(flattened(plan.drop_last()) =~= Seq::<PairView>::empty());
    assert(plan.last() == mapping);
    assert(flattened(plan) =~= mapping.pairs());
}

/// The canonical pairs do not depend on which part of a plan comes first.
pub proof fn lemma_canonical_ignores_parts(p: Seq<MappingView>, q: Seq<MappingView>)
    ensures
        canonical(p + q) == canonical(q + p),
{
    lemma_flattened_concat(p, q);
    lemma_flattened_concat(q, p);
    lemma_seq_union_to_multiset_commutative(flattened(p), flattened(q));
    lemma_canonical_ignores_order(p + q, q + p);
}

/// The canonical pairs of a fan-out do not depend on whether its files were
/// found from the first to the last or from the last to the first.
pub proof fn lemma_canonical_ignores_reversal(
    sources: Seq<SourceView>,
    target: Seq<char>,
    rule: RuleView,
)
    ensures
        canonical(seq![MappingView::FanOut { sources, target, rule }]) == canonical(
            seq![MappingView::FanOut { sources: sources.reverse(), target, rule }],
        ),
{
    let forth = MappingView::FanOut { sources, target, rule };
    let back = MappingView::FanOut { sources: sources.reverse(), target, rule };
    lemma_flattened_single(forth);
    lemma_flattened_single(back);
    assert(back.pairs() =~= forth.pairs().reverse());
    forth.pairs().lemma_reverse_to_multiset();
    lemma_canonical_ignores_order(seq![forth], seq![back]);
}

/// Whether pair `a` comes before pair `b`, or is equal to it.
pub fn pair_before(a: &(String, String), b: &(String, String)) -> (le: bool)
    ensures
        le == pair_le(a.deep_view(), b.deep_view()),
{
    if a.0 == b.0 {
        str_le(a.1.as_str(), b.1.as_str())
    } else {
        str_le(a.0.as_str(), b.0.as_str())
    }
}

/// Sorts pairs by target, and among equal targets by source.
pub fn sort_pairs(pairs: Vec<(String, String)>) -> (sorted: Vec<(String, String)>)
    ensures
        sorted.deep_view() == sorted_pairs(pairs.deep_view()),
{
    let ghost all = pairs.deep_view();
    let mut rest = pairs;
    let mut out: Vec<(String, String)> = Vec::new();
    proof {
        lemma_pair_order_total();
        assert(out.deep_view() =~= Seq::<PairView>::empty());
        assert(out.deep_view().to_multiset() =~= Multiset::<PairView>::empty()) by {
            broadcast use vstd::seq_lib::group_to_multiset_ensures;

        }
        assert(out.deep_view().to_multiset().add(rest.deep_view().to_multiset())
            =~= all.to_multiset());
    }
    while rest.len() > 0
        invariant
            total_ordering(pair_order()),
            sorted_by(out.deep_view(), pair_order()),
            out.deep_view().to_multiset().add(rest.deep_view().to_multiset())
                == all.to_multiset(),
        decreases rest.len(),
    {
        let ghost rest_before = rest.deep_view();
        let ghost out_before = out.deep_view();
        let item = rest.pop().unwrap();
        let mut k: usize = 0;
        while k < out.len() && pair_before(&out[k], &item)
            invariant
                k <= out.len(),
                out.deep_view() == out_before,
                forall|j: int| 0 <= j < k ==> pair_le(out_before[j], item.deep_view()),
            decreases out.len() - k,
        {
            k += 1;
        }
        let ghost x = item.deep_view();
        out.insert(k, item);
        proof {
            assert(out.deep_view() =~= out_before.insert(k as int, x));
            assert(rest_before =~= rest.deep_view().push(x));
            to_multiset_build(rest.deep_view(), x);
            to_multiset_insert(out_before, k as int, x);
            assert(out.deep_view().to_multiset().add(rest.deep_view().to_multiset())
                =~= out_before.to_multiset().add(rest_before.to_multiset()));
            lemma_insert_keeps_sorted(out_before, k as int, x);
        }
    }
    proof {
        assert(rest.deep_view() =~= Seq::<PairView>::empty());
        assert(rest.deep_view().to_multiset() =~= Multiset::<PairView>::empty()) by {
            broadcast use vstd::seq_lib::group_to_multiset_ensures;

        }
        assert(out.deep_view().to_multiset() =~= all.to_multiset());
        lemma_sorted_pairs(all, out.deep_view());
    }
    out
}

/// A pair put into a sorted sequence behind all that are below it, and in
/// front of one that is not, leaves the sequence sorted.
proof fn lemma_insert_keeps_sorted(s: Seq<PairView>, k: int, x: PairView)
    requires
        total_ordering(pair_order()),
        sorted_by(s, pair_order()),
        0 <= k <= s.len(),
        forall|j: int| 0 <= j < k ==> pair_le(s[j], x),
        k < s.len() ==> !pair_le(s[k], x),
    ensures
        sorted_by(s.insert(k, x), pair_order()),
{
    let r = pair_order();
    let t = s.insert(k, x);
    assert forall|i: int, j: int| 0 <= i < j < t.len() implies #[trigger] r(t[i], t[j]) by {
        if j == k {
            assert(t[i] == s[i]);
        } else if i == k {
            assert(t[j] == s[j - 1]);
            assert(r(s[k], x) || r(x, s[k]));
            if j - 1 > k {
                assert(r(s[k], s[j - 1]));
                assert(r(x, s[k]) && r(s[k], s[j - 1]) ==> r(x, s[j - 1]));
            }
        } else {
            let a = if i < k { i } else { i - 1 };
            let b = if j < k { j } else { j - 1 };
            assert(t[i] == s[a] && t[j] == s[b]);
            assert(r(s[a], s[b]));
        }
    }
}

impl Plan {
    /// The canonical pairs of the plan.
    pub fn canonical_pairs(&self) -> (pairs: Vec<(String, String)>)
        ensures
            pairs.deep_view() == canonical(self@),
    {
        sort_pairs(self.flatten())
    }
}

} // verus!
