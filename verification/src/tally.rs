//! Keyed tallies: folding a sequence of (key, amount) contributions
//! into one summed amount per distinct key, keys kept in order of
//! first occurrence.
use vstd::prelude::*;

verus! {

/// True when some contribution carries the key.
pub open spec fn key_present(s: Seq<(Seq<char>, int)>, k: Seq<char>) -> bool
    decreases s.len(),
{
    s.len() > 0 && (s.last().0 == k || key_present(s.drop_last(), k))
}

/// The summed amount of the key's contributions.
pub open spec fn key_sum(s: Seq<(Seq<char>, int)>, k: Seq<char>) -> int
    decreases s.len(),
{
    if s.len() == 0 {
        0
    } else {
        key_sum(s.drop_last(), k) + if s.last().0 == k {
            s.last().1
        } else {
            0
        }
    }
}

/// The summed amount of all contributions.
pub open spec fn total_sum(s: Seq<(Seq<char>, int)>) -> int
    decreases s.len(),
{
    if s.len() == 0 {
        0
    } else {
        total_sum(s.drop_last()) + s.last().1
    }
}

/// The distinct keys of the sequence, in order of first occurrence.
pub open spec fn distinct_keys(s: Seq<(Seq<char>, int)>) -> Seq<Seq<char>>
    decreases s.len(),
{
    if s.len() == 0 {
        Seq::empty()
    } else {
        let rest = distinct_keys(s.drop_last());
        if key_present(s.drop_last(), s.last().0) {
            rest
        } else {
            rest.push(s.last().0)
        }
    }
}

/// What it means for `out` to tally `s`: one (key, sum) row per
/// distinct key, in first-occurrence order.
pub open spec fn is_tally(out: Seq<(Seq<char>, int)>, s: Seq<(Seq<char>, int)>) -> bool {
    &&& out.len() == distinct_keys(s).len()
    &&& forall|i: int|
        0 <= i < out.len() ==> (#[trigger] out[i]) == (
            distinct_keys(s)[i],
            key_sum(s, distinct_keys(s)[i]),
        )
}

/// A key nobody contributes to sums to zero.
pub proof fn lemma_key_absent(s: Seq<(Seq<char>, int)>, k: Seq<char>)
    requires
        !key_present(s, k),
    ensures
        key_sum(s, k) == 0,
    decreases s.len(),
{
    if s.len() > 0 {
        lemma_key_absent(s.drop_last(), k);
    }
}

/// With nonnegative amounts, a key's sum lies between zero and the
/// total.
pub proof fn lemma_key_sum_bounds(s: Seq<(Seq<char>, int)>, k: Seq<char>)
    requires
        forall|i: int| 0 <= i < s.len() ==> 0 <= (#[trigger] s[i]).1,
    ensures
        0 <= key_sum(s, k) <= total_sum(s),
    decreases s.len(),
{
    if s.len() > 0 {
        assert(forall|i: int|
            0 <= i < s.len() - 1 ==> 0 <= (#[trigger] s.drop_last()[i]).1);
        lemma_key_sum_bounds(s.drop_last(), k);
        assert(0 <= s[s.len() - 1].1);
    }
}

/// The distinct keys never repeat.
pub proof fn lemma_distinct_keys_nodup(s: Seq<(Seq<char>, int)>)
    ensures
        forall|i: int, j: int|
            0 <= i < j < distinct_keys(s).len() ==> distinct_keys(s)[i] != distinct_keys(s)[j],
    decreases s.len(),
{
    if s.len() > 0 {
        lemma_distinct_keys_nodup(s.drop_last());
        if !key_present(s.drop_last(), s.last().0) {
            lemma_distinct_keys_present(s.drop_last(), s.last().0);
            assert forall|i: int|
                0 <= i < distinct_keys(s.drop_last()).len() implies distinct_keys(
                s.drop_last(),
            )[i] != s.last().0 by {
                if distinct_keys(s.drop_last())[i] == s.last().0 {
                    assert(distinct_keys(s.drop_last()).contains(s.last().0));
                }
            }
        }
    }
}

/// A key is listed among the distinct keys exactly when some
/// contribution carries it.
pub proof fn lemma_distinct_keys_present(s: Seq<(Seq<char>, int)>, k: Seq<char>)
    ensures
        distinct_keys(s).contains(k) <==> key_present(s, k),
    decreases s.len(),
{
    if s.len() > 0 {
        lemma_distinct_keys_present(s.drop_last(), k);
        let rest = distinct_keys(s.drop_last());
        if !key_present(s.drop_last(), s.last().0) {
            assert forall|x: Seq<char>| rest.push(s.last().0).contains(x) <==> (rest.contains(x)
                || x == s.last().0) by {
                if rest.contains(x) {
                    let j = choose|j: int| 0 <= j < rest.len() && rest[j] == x;
                    assert(rest.push(s.last().0)[j] == x);
                }
                if x == s.last().0 {
                    assert(rest.push(x)[rest.len() as int] == x);
                }
            }
        }
    }
}

} // verus!
