//! Ordering by a numeric key, largest first, used for the "most time first" lists.

use vstd::prelude::*;
use crate::text::{lemma_text_lt_asymmetric, lemma_text_lt_total, lemma_text_lt_transitive, str_lt, text_lt};

verus! {

/// `k` stands somewhere in `perm`.
pub open spec fn occurs(perm: Seq<usize>, k: int) -> bool {
    exists|j: int| 0 <= j < perm.len() && #[trigger] perm[j] == k
}

/// `perm` lists each index of a sequence of length `n` exactly once.
pub open spec fn is_permutation(perm: Seq<usize>, n: nat) -> bool {
    &&& perm.len() == n
    &&& forall|j: int| 0 <= j < perm.len() ==> #[trigger] perm[j] < n
    &&& forall|j1: int, j2: int|
        0 <= j1 < j2 < perm.len() ==> #[trigger] perm[j1] != #[trigger] perm[j2]
    &&& forall|k: int| 0 <= k < n ==> #[trigger] occurs(perm, k)
}

/// Reading `keys` in the order `perm` gives never-increasing values.
pub open spec fn descending_by(keys: Seq<i64>, perm: Seq<usize>) -> bool {
    forall|j1: int, j2: int|
        0 <= j1 < j2 < perm.len() ==> keys[#[trigger] perm[j1] as int] >= keys[#[trigger] perm[j2] as int]
}

/// The indices of `keys` ordered by key, largest first.
pub fn order_desc(keys: &Vec<i64>) -> (perm: Vec<usize>)
    ensures
        is_permutation(perm@, keys@.len()),
        descending_by(keys@, perm@),
{
    let n = keys.len();
    let mut out: Vec<usize> = Vec::new();
    for i in 0..n
        invariant
            n == keys@.len(),
            out@.len() == i,
            forall|j: int| 0 <= j < out@.len() ==> #[trigger] out@[j] < i,
            forall|j1: int, j2: int|
                0 <= j1 < j2 < out@.len() ==> #[trigger] out@[j1] != #[trigger] out@[j2],
            forall|k: int| 0 <= k < i ==> #[trigger] occurs(out@, k),
            descending_by(keys@, out@),
    {
        let key = keys[i];
        let mut p: usize = 0;
        while p < out.len() && keys[out[p]] >= key
            invariant
                n == keys@.len(),
                p <= out@.len(),
                forall|j: int| 0 <= j < out@.len() ==> #[trigger] out@[j] < i,
                i < n,
                forall|q: int| 0 <= q < p ==> keys@[#[trigger] out@[q] as int] >= key,
            decreases out@.len() - p,
        {
            p = p + 1;
        }
        let ghost old_out = out@;
        out.insert(p, i);
        assert(out@ == old_out.insert(p as int, i));
        assert forall|j: int| 0 <= j < out@.len() implies #[trigger] out@[j] < i + 1 by {
            if j < p {
                assert(out@[j] == old_out[j]);
            } else if j > p {
                assert(out@[j] == old_out[j - 1]);
            }
        }
        assert forall|j1: int, j2: int| 0 <= j1 < j2 < out@.len() implies #[trigger] out@[j1]
            != #[trigger] out@[j2] by {
            if j1 != p && j2 != p {
                let a = if j1 < p { j1 } else { j1 - 1 };
                let b = if j2 < p { j2 } else { j2 - 1 };
                assert(out@[j1] == old_out[a]);
                assert(out@[j2] == old_out[b]);
            } else if j1 == p {
                assert(out@[j2] == old_out[j2 - 1]);
            } else {
                assert(out@[j1] == old_out[j1]);
            }
        }
        assert forall|k: int| 0 <= k < i + 1 implies #[trigger] occurs(out@, k) by {
            if k == i {
                assert(out@[p as int] == k);
            } else {
                assert(occurs(old_out, k));
                let j0 = choose|j: int| 0 <= j < old_out.len() && #[trigger] old_out[j] == k;
                if j0 < p {
                    assert(out@[j0] == k);
                } else {
                    assert(out@[j0 + 1] == k);
                }
            }
        }
        assert forall|j1: int, j2: int| 0 <= j1 < j2 < out@.len() implies keys@[#[trigger] out@[j1] as int]
            >= keys@[#[trigger] out@[j2] as int] by {
            if j1 != p && j2 != p {
                let a = if j1 < p { j1 } else { j1 - 1 };
                let b = if j2 < p { j2 } else { j2 - 1 };
                assert(out@[j1] == old_out[a]);
                assert(out@[j2] == old_out[b]);
            } else if j1 == p {
                assert(out@[j2] == old_out[j2 - 1]);
                assert(p < old_out.len());
                assert(keys@[old_out[p as int] as int] < key);
                if j2 - 1 > p {
                    assert(keys@[old_out[p as int] as int] >= keys@[old_out[j2 - 1] as int]);
                }
            } else {
                assert(out@[j1] == old_out[j1]);
            }
        }
    }
    out
}

/// Reading `keys` in the order `perm` gives never-increasing texts.
pub open spec fn text_descending_by(keys: Seq<String>, perm: Seq<usize>) -> bool {
    forall|j1: int, j2: int|
        0 <= j1 < j2 < perm.len() ==> !text_lt(keys[#[trigger] perm[j1] as int]@, keys[#[trigger] perm[j2] as int]@)
}

/// The indices of `keys` ordered by text, largest first.
pub fn order_text_desc(keys: &Vec<String>) -> (perm: Vec<usize>)
    ensures
        is_permutation(perm@, keys@.len()),
        text_descending_by(keys@, perm@),
{
    let n = keys.len();
    let mut out: Vec<usize> = Vec::new();
    for i in 0..n
        invariant
            n == keys@.len(),
            out@.len() == i,
            forall|j: int| 0 <= j < out@.len() ==> #[trigger] out@[j] < i,
            forall|j1: int, j2: int|
                0 <= j1 < j2 < out@.len() ==> #[trigger] out@[j1] != #[trigger] out@[j2],
            forall|k: int| 0 <= k < i ==> #[trigger] occurs(out@, k),
            text_descending_by(keys@, out@),
    {
        let mut p: usize = 0;
        while p < out.len() && !str_lt(keys[out[p]].as_str(), keys[i].as_str())
            invariant
                n == keys@.len(),
                p <= out@.len(),
                forall|j: int| 0 <= j < out@.len() ==> #[trigger] out@[j] < i,
                i < n,
                forall|q: int| 0 <= q < p ==> !text_lt(keys@[#[trigger] out@[q] as int]@, keys@[i as int]@),
            decreases out@.len() - p,
        {
            p = p + 1;
        }
        let ghost old_out = out@;
        let ghost key = keys@[i as int]@;
        out.insert(p, i);
        assert(out@ == old_out.insert(p as int, i));
        assert forall|j: int| 0 <= j < out@.len() implies #[trigger] out@[j] < i + 1 by {
            if j < p {
                assert(out@[j] == old_out[j]);
            } else if j > p {
                assert(out@[j] == old_out[j - 1]);
            }
        }
        assert forall|j1: int, j2: int| 0 <= j1 < j2 < out@.len() implies #[trigger] out@[j1]
            != #[trigger] out@[j2] by {
            if j1 != p && j2 != p {
                let a = if j1 < p { j1 } else { j1 - 1 };
                let b = if j2 < p { j2 } else { j2 - 1 };
                assert(out@[j1] == old_out[a]);
                assert(out@[j2] == old_out[b]);
            } else if j1 == p {
                assert(out@[j2] == old_out[j2 - 1]);
            } else {
                assert(out@[j1] == old_out[j1]);
            }
        }
        assert forall|k: int| 0 <= k < i + 1 implies #[trigger] occurs(out@, k) by {
            if k == i {
                assert(out@[p as int] == k);
            } else {
                assert(occurs(old_out, k));
                let j0 = choose|j: int| 0 <= j < old_out.len() && #[trigger] old_out[j] == k;
                if j0 < p {
                    assert(out@[j0] == k);
                } else {
                    assert(out@[j0 + 1] == k);
                }
            }
        }
        assert forall|j1: int, j2: int| 0 <= j1 < j2 < out@.len() implies !text_lt(
            keys@[#[trigger] out@[j1] as int]@,
            keys@[#[trigger] out@[j2] as int]@,
        ) by {
            if j1 != p && j2 != p {
                let a = if j1 < p { j1 } else { j1 - 1 };
                let b = if j2 < p { j2 } else { j2 - 1 };
                assert(out@[j1] == old_out[a]);
                assert(out@[j2] == old_out[b]);
            } else if j1 == p {
                assert(out@[j2] == old_out[j2 - 1]);
                assert(p < old_out.len());
                let kp = keys@[old_out[p as int] as int]@;
                let kj = keys@[old_out[j2 - 1] as int]@;
                assert(text_lt(kp, key));
                lemma_text_lt_asymmetric(kp, key);
                if j2 - 1 > p {
                    assert(!text_lt(kp, kj));
                    lemma_text_lt_total(kp, kj);
                    if text_lt(key, kj) {
                        lemma_text_lt_transitive(kp, key, kj);
                    }
                }
            } else {
                assert(out@[j1] == old_out[j1]);
            }
        }
    }
    out
}

} // verus!
