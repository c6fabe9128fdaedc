use vstd::prelude::*;

verus! {

use vstd::multiset::Multiset;

/// How many times `x` occurs in `s`.
pub open spec fn occurrence_count<T>(s: Seq<T>, x: T) -> nat
    decreases s.len(),
{
    if s.len() == 0 {
        0
    } else {
        occurrence_count(s.drop_last(), x) + (if s.last() == x {
            1nat
        } else {
            0nat
        })
    }
}

/// The position of the first occurrence of `x` in `s` (meaningful only when
/// `s` contains `x`).
pub open spec fn first_index<T>(s: Seq<T>, x: T) -> int
    decreases s.len(),
{
    if s.len() == 0 {
        0
    } else if s[0] == x {
        0
    } else {
        1 + first_index(s.drop_first(), x)
    }
}

/// Scanning one more element adds one occurrence of that element.
pub proof fn lemma_occurrence_count_take_succ<T>(s: Seq<T>, k: int, x: T)
    requires
        0 <= k < s.len(),
    ensures
        occurrence_count(s.take(k + 1), x) == occurrence_count(s.take(k), x) + (if s[k] == x {
            1int
        } else {
            0int
        }),
{
    assert(s.take(k + 1).drop_last() =~= s.take(k));
    assert(s.take(k + 1).last() == s[k]);
}

/// Occurrence counting agrees with the multiset view of the sequence.
pub proof fn lemma_occurrence_count_multiset<T>(s: Seq<T>, x: T)
    ensures
        occurrence_count(s, x) == s.to_multiset().count(x),
    decreases s.len(),
{
    broadcast use vstd::seq_lib::group_seq_properties;

    if s.len() == 0 {
        assert(s.to_multiset() =~= Multiset::<T>::empty());
    } else {
        lemma_occurrence_count_multiset(s.drop_last(), x);
        s.drop_last().to_multiset_ensures();
        assert(s.drop_last().push(s.last()) =~= s);
    }
}

/// Characterizes `first_index`: it is an in-range position of `x` and nothing
/// before it equals `x`.
pub proof fn lemma_first_index_ensures<T>(s: Seq<T>, x: T)
    requires
        s.contains(x),
    ensures
        0 <= first_index(s, x) < s.len(),
        s[first_index(s, x)] == x,
        forall|j: int| 0 <= j < first_index(s, x) ==> s[j] != x,
    decreases s.len(),
{
    if s[0] != x {
        let i = choose|i: int| 0 <= i < s.len() && s[i] == x;
        assert(s.drop_first()[i - 1] == x);
        lemma_first_index_ensures(s.drop_first(), x);
        assert forall|j: int| 0 <= j < first_index(s, x) implies s[j] != x by {
            if j > 0 {
                assert(s.drop_first()[j - 1] == s[j]);
            }
        };
    }
}

/// An element first seen at position k has first index k.
pub proof fn lemma_first_index_of_new<T>(s: Seq<T>, k: int)
    requires
        0 <= k < s.len(),
        !s.take(k).contains(s[k]),
    ensures
        first_index(s, s[k]) == k,
{
    let x = s[k];
    assert(s.contains(x));
    lemma_first_index_ensures(s, x);
    let fi = first_index(s, x);
    if fi < k {
        assert(s.take(k)[fi] == x);
    }
}

/// An element of a prefix has its first index inside that prefix.
pub proof fn lemma_first_index_in_prefix<T>(s: Seq<T>, k: int, x: T)
    requires
        0 <= k <= s.len(),
        s.take(k).contains(x),
    ensures
        s.contains(x),
        0 <= first_index(s, x) < k,
{
    let j = choose|j: int| 0 <= j < k && s.take(k)[j] == x;
    assert(s[j] == x);
    lemma_first_index_ensures(s, x);
    if first_index(s, x) > j {
        assert(s[j] != x);
    }
}

/// Membership in a prefix extended by one element.
pub proof fn lemma_take_one_more<T>(s: Seq<T>, k: int)
    requires
        0 <= k < s.len(),
    ensures
        forall|x: T| s.take(k + 1).contains(x) <==> s.take(k).contains(x) || s[k] == x,
{
    assert forall|x: T| s.take(k + 1).contains(x) implies s.take(k).contains(x) || s[k] == x by {
        let i = choose|i: int| 0 <= i < s.take(k + 1).len() && #[trigger] s.take(k + 1)[i] == x;
        if i < k {
            assert(s.take(k)[i] == x);
        }
    };
    assert forall|x: T| s.take(k).contains(x) || s[k] == x implies s.take(k + 1).contains(x) by {
        if s.take(k).contains(x) {
            let i = choose|i: int| 0 <= i < s.take(k).len() && #[trigger] s.take(k)[i] == x;
            assert(s.take(k + 1)[i] == x);
        } else {
            assert(s.take(k + 1)[k] == x);
        }
    };
}

} // verus!
