use vstd::prelude::*;

verus! {

/// The sum of `val(x)` over the elements `x` of `s` that satisfy `key`.
///
/// Both the stake ledger (stakes of one farm summing to its minted shares)
/// and the asset ledger (the balance held at one address) are stated with it.
pub open spec fn sum_where<T>(s: Seq<T>, key: spec_fn(T) -> bool, val: spec_fn(T) -> int) -> int
    decreases s.len(),
{
    if s.len() == 0 {
        0
    } else {
        sum_where(s.drop_last(), key, val) + if key(s.last()) {
            val(s.last())
        } else {
            0
        }
    }
}

/// Appending one element adds exactly its contribution.
pub proof fn lemma_sum_where_push<T>(s: Seq<T>, key: spec_fn(T) -> bool, val: spec_fn(T) -> int, x: T)
    ensures
        sum_where(s.push(x), key, val) == sum_where(s, key, val) + if key(x) {
            val(x)
        } else {
            0
        },
{
    assert(s.push(x).drop_last() =~= s);
    assert(s.push(x).last() == x);
}

/// Replacing one element swaps its contribution for the new one's.
pub proof fn lemma_sum_where_update<T>(
    s: Seq<T>,
    key: spec_fn(T) -> bool,
    val: spec_fn(T) -> int,
    j: int,
    x: T,
)
    requires
        0 <= j < s.len(),
    ensures
        sum_where(s.update(j, x), key, val) == sum_where(s, key, val) - (if key(s[j]) {
            val(s[j])
        } else {
            0
        }) + if key(x) {
            val(x)
        } else {
            0
        },
    decreases s.len(),
{
    let su = s.update(j, x);
    if j == s.len() - 1 {
        assert(su.drop_last() =~= s.drop_last());
        assert(su.last() == x);
    } else {
        assert(su.drop_last() =~= s.drop_last().update(j, x));
        assert(su.last() == s.last());
        lemma_sum_where_update(s.drop_last(), key, val, j, x);
    }
}

/// A sum of non-negative contributions is non-negative.
pub proof fn lemma_sum_where_nonneg<T>(s: Seq<T>, key: spec_fn(T) -> bool, val: spec_fn(T) -> int)
    requires
        forall|j: int| 0 <= j < s.len() ==> val(s[j]) >= 0,
    ensures
        sum_where(s, key, val) >= 0,
    decreases s.len(),
{
    if s.len() > 0 {
        lemma_sum_where_nonneg(s.drop_last(), key, val);
    }
}

/// With non-negative contributions, one selected element never exceeds the sum.
pub proof fn lemma_sum_where_element<T>(
    s: Seq<T>,
    key: spec_fn(T) -> bool,
    val: spec_fn(T) -> int,
    j: int,
)
    requires
        forall|j2: int| 0 <= j2 < s.len() ==> val(s[j2]) >= 0,
        0 <= j < s.len(),
        key(s[j]),
    ensures
        val(s[j]) <= sum_where(s, key, val),
    decreases s.len(),
{
    if j == s.len() - 1 {
        lemma_sum_where_nonneg(s.drop_last(), key, val);
    } else {
        lemma_sum_where_element(s.drop_last(), key, val, j);
        assert(s.drop_last()[j] == s[j]);
    }
}

/// With no element selected, the sum is zero.
pub proof fn lemma_sum_where_zero<T>(s: Seq<T>, key: spec_fn(T) -> bool, val: spec_fn(T) -> int)
    requires
        forall|j: int| 0 <= j < s.len() ==> !key(s[j]),
    ensures
        sum_where(s, key, val) == 0,
    decreases s.len(),
{
    if s.len() > 0 {
        lemma_sum_where_zero(s.drop_last(), key, val);
    }
}

/// With exactly one element selected, the sum is that element's value.
pub proof fn lemma_sum_where_single<T>(
    s: Seq<T>,
    key: spec_fn(T) -> bool,
    val: spec_fn(T) -> int,
    j: int,
)
    requires
        0 <= j < s.len(),
        key(s[j]),
        forall|k: int| 0 <= k < s.len() && k != j ==> !key(s[k]),
    ensures
        sum_where(s, key, val) == val(s[j]),
    decreases s.len(),
{
    if j == s.len() - 1 {
        lemma_sum_where_zero(s.drop_last(), key, val);
    } else {
        lemma_sum_where_single(s.drop_last(), key, val, j);
        assert(s.drop_last()[j] == s[j]);
    }
}

} // verus!
