//! Totals over sequences, and the facts about them the fee computation
//! rests on: a total is unchanged by reordering, and a total of
//! non-negative contributions is non-negative.

use vstd::prelude::*;

verus! {

/// Total of `value` over the elements of `s`.
pub open spec fn sum_by<T>(s: Seq<T>, value: spec_fn(T) -> int) -> int
    decreases s.len(),
{
    if s.len() == 0 {
        0
    } else {
        value(s[0]) + sum_by(s.drop_first(), value)
    }
}

/// Removing element `i` removes exactly its contribution from the total.
pub proof fn lemma_sum_by_remove<T>(s: Seq<T>, value: spec_fn(T) -> int, i: int)
    requires
        0 <= i < s.len(),
    ensures
        sum_by(s, value) == value(s[i]) + sum_by(s.remove(i), value),
    decreases i,
{
    if i == 0 {
        assert(s.remove(0) =~= s.drop_first());
    } else {
        lemma_sum_by_remove(s.drop_first(), value, i - 1);
        assert(s.drop_first()[i - 1] == s[i]);
        assert(s.remove(i)[0] == s[0]);
        assert(s.remove(i).drop_first() =~= s.drop_first().remove(i - 1));
    }
}

/// The total over the tail starting at `i` is the contribution of `s[i]`
/// plus the total over the tail starting at `i + 1`.
pub proof fn lemma_sum_by_skip_step<T>(s: Seq<T>, value: spec_fn(T) -> int, i: int)
    requires
        0 <= i < s.len(),
    ensures
        sum_by(s.skip(i), value) == value(s[i]) + sum_by(s.skip(i + 1), value),
{
    assert(s.skip(i)[0] == s[i]);
    assert(s.skip(i).drop_first() =~= s.skip(i + 1));
}

/// A total of non-negative contributions is non-negative.
pub proof fn lemma_sum_by_nonneg<T>(s: Seq<T>, value: spec_fn(T) -> int)
    requires
        forall|i: int| 0 <= i < s.len() ==> #[trigger] value(s[i]) >= 0,
    ensures
        sum_by(s, value) >= 0,
    decreases s.len(),
{
    if s.len() > 0 {
        assert(value(s[0]) >= 0);
        assert forall|i: int| 0 <= i < s.drop_first().len() implies #[trigger] value(
            s.drop_first()[i],
        ) >= 0 by {
            assert(s.drop_first()[i] == s[i + 1]);
        }
        lemma_sum_by_nonneg(s.drop_first(), value);
    }
}

/// Two sequences with the same elements, counted with multiplicity, have
/// the same total: reordering never changes a sum.
pub proof fn lemma_sum_by_permutation<T>(s1: Seq<T>, s2: Seq<T>, value: spec_fn(T) -> int)
    requires
        s1.to_multiset() == s2.to_multiset(),
    ensures
        sum_by(s1, value) == sum_by(s2, value),
    decreases s1.len(),
{
    broadcast use vstd::seq_lib::group_to_multiset_ensures;

    if s1.len() == 0 {
        assert(s1.to_multiset().len() == 0);
        assert(s2.to_multiset().len() == s2.len());
    } else {
        let x = s1[0];
        assert(s1.contains(x));
        assert(s2.to_multiset().count(x) > 0);
        assert(s2.contains(x));
        let i = choose|i: int| 0 <= i < s2.len() && s2[i] == x;
        assert(s1.remove(0).to_multiset() == s2.remove(i).to_multiset());
        lemma_sum_by_permutation(s1.remove(0), s2.remove(i), value);
        lemma_sum_by_remove(s2, value, i);
        assert(s1.remove(0) =~= s1.drop_first());
    }
}

} // verus!
