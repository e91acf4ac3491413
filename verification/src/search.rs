//! First-match search over index ranges, the shape of every lookup by key
//! in the library.

use vstd::prelude::*;

verus! {

/// The least `i < n` with `pred(i)`, or -1 when there is none.
pub open spec fn first_where(pred: spec_fn(int) -> bool, n: int) -> int
    decreases n,
{
    if n <= 0 {
        -1
    } else {
        let r = first_where(pred, n - 1);
        if r >= 0 {
            r
        } else if pred(n - 1) {
            n - 1
        } else {
            -1
        }
    }
}

/// What `first_where` finds: the least index that matches, or -1 when none does.
pub proof fn lemma_first_where(pred: spec_fn(int) -> bool, n: int)
    ensures
        -1 <= first_where(pred, n) < (if n < 0 { 0 } else { n }),
        first_where(pred, n) >= 0 ==> pred(first_where(pred, n)),
        forall|i: int| 0 <= i < n && i < first_where(pred, n) ==> !#[trigger] pred(i),
        first_where(pred, n) == -1 ==> forall|i: int| 0 <= i < n ==> !#[trigger] pred(i),
    decreases n,
{
    if n > 0 {
        lemma_first_where(pred, n - 1);
    }
}

/// Scanning one more index: the search over `k + 1` indices, given none of the first `k` matched.
pub proof fn lemma_first_where_step(pred: spec_fn(int) -> bool, k: int)
    requires
        k >= 0,
        first_where(pred, k) == -1,
    ensures
        first_where(pred, k + 1) == (if pred(k) { k } else { -1 }),
{
}

/// A match found among the first `k` indices is the match among any more.
pub proof fn lemma_first_where_extend(pred: spec_fn(int) -> bool, k: int, n: int)
    requires
        0 <= k <= n,
        first_where(pred, k) >= 0,
    ensures
        first_where(pred, n) == first_where(pred, k),
    decreases n - k,
{
    if k < n {
        lemma_first_where_extend(pred, k, n - 1);
    }
}

/// Searches that agree on every index below `n` agree.
pub proof fn lemma_first_where_congruent(p: spec_fn(int) -> bool, q: spec_fn(int) -> bool, n: int)
    requires
        forall|i: int| 0 <= i < n ==> #[trigger] p(i) == q(i),
    ensures
        first_where(p, n) == first_where(q, n),
    decreases n,
{
    if n > 0 {
        lemma_first_where_congruent(p, q, n - 1);
    }
}

} // verus!
