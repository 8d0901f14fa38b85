//! Stable top-k selection by a descending integer key, used to pick the
//! processes listed first (for instance by resident memory).
use vstd::prelude::*;

verus! {

/// Item `a` comes before item `b`: a larger key first, equal keys in
/// input order.
pub open spec fn precedes(keys: Seq<u64>, a: int, b: int) -> bool {
    keys[a] > keys[b] || (keys[a] == keys[b] && a < b)
}

/// `r` holds the first `limit` positions of the stable descending order
/// of `keys` (all positions when there are fewer).
pub open spec fn is_top_by_key(keys: Seq<u64>, limit: nat, r: Seq<usize>) -> bool {
    &&& r.len() == if keys.len() < limit { keys.len() } else { limit }
    &&& forall|i: int| 0 <= i < r.len() ==> #[trigger] r[i] < keys.len()
    &&& forall|i: int, j: int| 0 <= i < j < r.len() ==> precedes(keys, #[trigger] r[i] as int, #[trigger] r[j] as int)
    &&& forall|x: int, i: int|
        0 <= x < keys.len() && !r.contains(x as usize) && 0 <= i < r.len()
            ==> #[trigger] precedes(keys, r[i] as int, x)
}

/// Positions of the `limit` items with the largest keys, largest first;
/// among equal keys the earlier item comes first (as a stable sort by
/// descending key, cut to `limit`).
pub fn top_by_key(keys: &Vec<u64>, limit: usize) -> (r: Vec<usize>)
    ensures
        is_top_by_key(keys@, limit as nat, r@),
{
    let n = keys.len();
    let mut r: Vec<usize> = Vec::new();
    let mut i: usize = 0;
    while i < n
        invariant
            n == keys@.len(),
            0 <= i <= n,
            r@.len() == if i < limit { i as nat } else { limit as nat },
            forall|k: int| 0 <= k < r@.len() ==> #[trigger] r@[k] < i,
            forall|a: int, b: int| 0 <= a < b < r@.len() ==> precedes(keys@, #[trigger] r@[a] as int, #[trigger] r@[b] as int),
            r@.len() < limit ==> forall|x: usize| x < i ==> #[trigger] r@.contains(x),
            forall|x: int, k: int|
                0 <= x < i && !r@.contains(x as usize) && 0 <= k < r@.len()
                    ==> #[trigger] precedes(keys@, r@[k] as int, x),
        decreases n - i,
    {
        // Position of item `i`: after every listed item whose key is at least its key.
        let ki = keys[i];
        let len = r.len();
        let mut pos: usize = 0;
        while pos < len && keys[r[pos]] >= ki
            invariant
                n == keys@.len(),
                i < n,
                ki == keys@[i as int],
                len == r@.len(),
                0 <= pos <= len,
                forall|k: int| 0 <= k < r@.len() ==> #[trigger] r@[k] < i,
                forall|k: int| 0 <= k < pos ==> precedes(keys@, #[trigger] r@[k] as int, i as int),
            decreases len - pos,
        {
            pos = pos + 1;
        }
        let ghost old_r = r@;
        proof {
            assert forall|k: int| pos <= k < len implies precedes(keys@, i as int, #[trigger] old_r[k] as int) by {
                if k > pos {
                    assert(precedes(keys@, old_r[pos as int] as int, old_r[k] as int));
                }
                assert(old_r[pos as int] < i);
            }
        }
        if pos < limit {
            r.insert(pos, i);
            let ghost ins = r@;
            proof {
                assert(ins == old_r.insert(pos as int, i));
                assert forall|k: int| 0 <= k < ins.len() implies #[trigger] ins[k] < i + 1 by {
                    if k < pos {
                        assert(ins[k] == old_r[k]);
                    } else if k > pos {
                        assert(ins[k] == old_r[k - 1]);
                    }
                }
            }
            if r.len() > limit {
                let ghost dropped = r@[limit as int];
                r.truncate(limit);
                proof {
                    assert(r@ =~= ins.take(limit as int));
                }
            }
            proof {
                let fin = r@;
                assert forall|a: int, b: int| 0 <= a < b < fin.len() implies precedes(keys@, #[trigger] fin[a] as int, #[trigger] fin[b] as int) by {
                    assert(fin[a] == ins[a]);
                    assert(fin[b] == ins[b]);
                    if a < pos && b < pos {
                    } else if a < pos && b == pos {
                    } else if a < pos {
                        assert(ins[b] == old_r[b - 1]);
                    } else if a == pos {
                        assert(ins[b] == old_r[b - 1]);
                    } else {
                        assert(ins[a] == old_r[a - 1]);
                        assert(ins[b] == old_r[b - 1]);
                    }
                }
                assert forall|k: int| 0 <= k < fin.len() implies #[trigger] fin[k] < i + 1 by {
                    assert(fin[k] == ins[k]);
                }
                assert forall|x: usize| x < i + 1 && #[trigger] ins.contains(x) implies fin.contains(x) || (ins.len() > limit && ins[limit as int] == x) by {
                    let w = choose|w: int| 0 <= w < ins.len() && ins[w] == x;
                    if w < fin.len() {
                        assert(fin[w] == ins[w]);
                    } else {
                        assert(w == limit);
                    }
                }
                assert forall|x: usize| x < i && #[trigger] old_r.contains(x) implies ins.contains(x) by {
                    let w = choose|w: int| 0 <= w < old_r.len() && old_r[w] == x;
                    if w < pos {
                        assert(ins[w] == old_r[w]);
                    } else {
                        assert(ins[w + 1] == old_r[w]);
                    }
                }
                assert(ins[pos as int] == i);
                if fin.len() < limit {
                    assert forall|x: usize| x < i + 1 implies #[trigger] fin.contains(x) by {
                        if x == i {
                            assert(fin[pos as int] == i);
                        } else {
                            assert(old_r.contains(x));
                            assert(ins.contains(x));
                        }
                    }
                }
                assert forall|x: int, k: int|
                    0 <= x < i + 1 && !fin.contains(x as usize) && 0 <= k < fin.len()
                        implies #[trigger] precedes(keys@, fin[k] as int, x) by {
                    assert(fin[k] == ins[k]);
                    if x == i {
                        assert(fin[pos as int] == i);
                    } else if old_r.contains(x as usize) {
                        // x was listed and has just been pushed out: it was the last one.
                        assert(ins.contains(x as usize));
                        assert(ins.len() > limit && ins[limit as int] == x);
                        assert(k < limit);
                        if k < pos {
                            assert(ins[limit as int] == old_r[limit - 1]);
                        } else if k == pos {
                            assert(ins[limit as int] == old_r[limit - 1]);
                        } else {
                            assert(ins[k] == old_r[k - 1]);
                            assert(ins[limit as int] == old_r[limit - 1]);
                        }
                    } else {
                        // x was already left out, so the list was full.
                        assert(old_r.len() == limit);
                        assert(precedes(keys@, old_r[old_r.len() - 1] as int, x));
                        if k < pos {
                            assert(ins[k] == old_r[k]);
                        } else if k == pos {
                            assert(precedes(keys@, i as int, old_r[pos as int] as int));
                            assert(precedes(keys@, old_r[pos as int] as int, x));
                        } else {
                            assert(ins[k] == old_r[k - 1]);
                        }
                    }
                }
            }
        } else {
            proof {
                assert(pos == len);
                assert forall|x: int, k: int|
                    0 <= x < i + 1 && !r@.contains(x as usize) && 0 <= k < r@.len()
                        implies #[trigger] precedes(keys@, r@[k] as int, x) by {
                    if x == i {
                    }
                }
                assert forall|k: int| 0 <= k < r@.len() implies #[trigger] r@[k] < i + 1 by {}
            }
        }
        i = i + 1;
    }
    proof {
        assert forall|k: int| 0 <= k < r@.len() implies #[trigger] r@[k] < keys@.len() by {}
    }
    r
}

/// Rankings cut at different limits agree: the shorter one is the
/// start of the longer one, so a ranking is the first `limit` items of
/// one stable descending order (and is unique for its limit).
pub proof fn lemma_top_by_key_prefix(keys: Seq<u64>, l1: nat, r1: Seq<usize>, l2: nat, r2: Seq<usize>)
    requires
        is_top_by_key(keys, l1, r1),
        is_top_by_key(keys, l2, r2),
        l1 <= l2,
    ensures
        r1.len() <= r2.len(),
        r1 == r2.take(r1.len() as int),
{
    assert forall|i: int| 0 <= i < r1.len() implies r1[i] == r2[i] by {
        lemma_top_by_key_agree_at(keys, l1, r1, l2, r2, i);
    }
    assert(r1 =~= r2.take(r1.len() as int));
}

proof fn lemma_top_by_key_agree_at(keys: Seq<u64>, l1: nat, r1: Seq<usize>, l2: nat, r2: Seq<usize>, i: int)
    requires
        is_top_by_key(keys, l1, r1),
        is_top_by_key(keys, l2, r2),
        l1 <= l2,
        0 <= i < r1.len(),
    ensures
        r1[i] == r2[i],
    decreases i,
{
    if i > 0 {
        lemma_top_by_key_agree_at(keys, l1, r1, l2, r2, i - 1);
    }
    assert forall|j: int| 0 <= j < i implies r1[j] == r2[j] by {
        if j < i - 1 {
            lemma_top_by_key_agree_at(keys, l1, r1, l2, r2, j);
        }
    }
    let a = r1[i];
    let b = r2[i];
    assert(a < keys.len());
    assert(b < keys.len());
    if a != b {
        if precedes(keys, a as int, b as int) {
            if r2.contains(a) {
                let p = choose|p: int| 0 <= p < r2.len() && r2[p] == a;
                if p < i {
                    assert(r1[p] == r2[p]);
                    assert(precedes(keys, r1[p] as int, r1[i] as int));
                } else {
                    assert(p != i);
                    assert(precedes(keys, r2[i] as int, r2[p] as int));
                }
            } else {
                assert(precedes(keys, r2[i] as int, a as int));
            }
        } else {
            assert(precedes(keys, b as int, a as int));
            if r1.contains(b) {
                let p = choose|p: int| 0 <= p < r1.len() && r1[p] == b;
                if p < i {
                    assert(r1[p] == r2[p]);
                    assert(precedes(keys, r2[p] as int, r2[i] as int));
                } else {
                    assert(p != i);
                    assert(precedes(keys, r1[i] as int, r1[p] as int));
                }
            } else {
                assert(precedes(keys, r1[i] as int, b as int));
            }
        }
    }
}

/// A ranking lists distinct items, by non-increasing key, equal keys in
/// input order, and every item left out has a key no larger than any
/// listed one (and, on a tie, comes later in the input).
pub proof fn lemma_top_by_key_descending(keys: Seq<u64>, limit: nat, r: Seq<usize>)
    requires
        is_top_by_key(keys, limit, r),
    ensures
        forall|i: int, j: int| 0 <= i < j < r.len() ==> keys[r[i] as int] >= keys[r[j] as int],
        forall|i: int, j: int| 0 <= i < j < r.len() && keys[r[i] as int] == keys[r[j] as int] ==> r[i] < r[j],
        forall|i: int, j: int| 0 <= i < j < r.len() ==> r[i] != r[j],
        forall|x: int, i: int| #![trigger keys[x], r[i]] 0 <= x < keys.len() && !r.contains(x as usize) && 0 <= i < r.len()
            ==> keys[x] <= keys[r[i] as int] && (keys[x] == keys[r[i] as int] ==> r[i] < x),
        r.len() <= limit,
        r.len() <= keys.len(),
        r.len() == limit || r.len() == keys.len(),
{
    assert forall|i: int, j: int| 0 <= i < j < r.len() implies keys[r[i] as int] >= keys[r[j] as int]
        && (keys[r[i] as int] == keys[r[j] as int] ==> r[i] < r[j]) && r[i] != r[j] by {
        assert(precedes(keys, r[i] as int, r[j] as int));
    }
    assert forall|x: int, i: int| #![trigger keys[x], r[i]] 0 <= x < keys.len() && !r.contains(x as usize) && 0 <= i < r.len()
        implies keys[x] <= keys[r[i] as int] && (keys[x] == keys[r[i] as int] ==> r[i] < x) by {
        assert(precedes(keys, r[i] as int, x));
    }
}

} // verus!
