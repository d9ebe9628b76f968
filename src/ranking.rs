use vstd::prelude::*;

verus! {

/// `a` comes strictly before `b` when ranking `keys`: by key (ascending, or
/// descending when `descending`), ties broken by the smaller index.
pub open spec fn ranks_before(keys: Seq<u64>, descending: bool, a: int, b: int) -> bool {
    if keys[a] == keys[b] {
        a < b
    } else if descending {
        keys[a] > keys[b]
    } else {
        keys[a] < keys[b]
    }
}

/// `r` lists the first `min(k, keys.len())` indices of `keys` in rank order:
/// strictly ordered by `ranks_before`, and every index left out ranks after
/// every index kept.
pub open spec fn is_top_ranking(keys: Seq<u64>, descending: bool, k: nat, r: Seq<usize>) -> bool {
    &&& r.len() == if k < keys.len() { k } else { keys.len() }
    &&& forall|p: int| 0 <= p < r.len() ==> (r[p] as int) < keys.len()
    &&& forall|p: int, q: int|
        0 <= p < q < r.len() ==> ranks_before(keys, descending, r[p] as int, r[q] as int)
    &&& forall|x: int, p: int|
        0 <= x < keys.len() && 0 <= p < r.len() && !r.contains(x as usize) ==> ranks_before(
            keys,
            descending,
            r[p] as int,
            x,
        )
}

/// Maps the bit pattern of a single-precision float to a `u32` whose unsigned
/// order is the float's total order (negative values below positive ones).
pub open spec fn order_key_of(bits: u32) -> u32 {
    if bits >= 0x8000_0000 {
        (0xFFFF_FFFFu32 - bits) as u32
    } else {
        (bits + 0x8000_0000u32) as u32
    }
}

/// The unsigned key that orders single-precision distances as the floats
/// themselves are ordered.
pub fn distance_order_key(bits: u32) -> (r: u32)
    ensures
        r == order_key_of(bits),
{
    if bits >= 0x8000_0000 {
        0xFFFF_FFFFu32 - bits
    } else {
        bits + 0x8000_0000u32
    }
}

/// Whether a key `a` ranks strictly after a key `b`, whatever their indices.
fn ranks_strictly_after(a: u64, b: u64, descending: bool) -> (r: bool)
    ensures
        r == if descending {
            a < b
        } else {
            a > b
        },
{
    if descending {
        a < b
    } else {
        a > b
    }
}

/// Stable ranking of the indices of `keys`, truncated to the first `k`.
pub fn rank_indices(keys: &Vec<u64>, descending: bool, k: usize) -> (r: Vec<usize>)
    ensures
        is_top_ranking(keys@, descending, k as nat, r@),
{
    let n = keys.len();
    let mut order: Vec<usize> = Vec::new();
    let mut i: usize = 0;
    while i < n
        invariant
            n == keys.len(),
            i <= n,
            order.len() == i,
            forall|p: int| 0 <= p < order.len() ==> (order[p] as int) < i,
            forall|x: int| 0 <= x < i ==> #[trigger] order@.contains(x as usize),
            forall|p: int, q: int|
                0 <= p < q < order.len() ==> ranks_before(
                    keys@,
                    descending,
                    order[p] as int,
                    order[q] as int,
                ),
        decreases n - i,
    {
        // every earlier index with a key that does not rank after keys[i]
        // stays in front of i
        let mut pos: usize = order.len();
        while pos > 0 && ranks_strictly_after(keys[order[pos - 1]], keys[i], descending)
            invariant
                n == keys.len(),
                i < n,
                pos <= order.len(),
                order.len() == i,
                forall|p: int| 0 <= p < order.len() ==> (order[p] as int) < i,
                forall|p: int| pos <= p < order.len() ==> ranks_before(
                    keys@,
                    descending,
                    i as int,
                    order[p] as int,
                ),
            decreases pos,
        {
            pos = pos - 1;
        }
        proof {
            if pos > 0 {
                assert(!ranks_before(keys@, descending, i as int, order[pos - 1] as int));
            }
            assert forall|p: int| 0 <= p < pos implies ranks_before(
                keys@,
                descending,
                order[p] as int,
                i as int,
            ) by {
                if p < pos - 1 {
                    assert(ranks_before(
                        keys@,
                        descending,
                        order[p] as int,
                        order[pos - 1] as int,
                    ));
                }
            }
        }
        let ghost prev = order@;
        order.insert(pos, i);
        proof {
            assert(order@ == prev.insert(pos as int, i));
            assert forall|x: int| 0 <= x < i + 1 implies #[trigger] order@.contains(x as usize) by {
                if x == i {
                    assert(order@[pos as int] == i);
                } else {
                    assert(prev.contains(x as usize));
                    let p = choose|p: int| 0 <= p < prev.len() && prev[p] == x as usize;
                    if p < pos {
                        assert(order@[p] == x as usize);
                    } else {
                        assert(order@[p + 1] == x as usize);
                    }
                }
            }
        }
        i = i + 1;
    }
    let m: usize = if k < n {
        k
    } else {
        n
    };
    let mut r: Vec<usize> = Vec::new();
    let mut j: usize = 0;
    while j < m
        invariant
            m <= n,
            n == keys.len(),
            order.len() == n,
            j <= m,
            r@ == order@.take(j as int),
        decreases m - j,
    {
        r.push(order[j]);
        j = j + 1;
        assert(r@ =~= order@.take(j as int));
    }
    proof {
        assert forall|x: int, p: int|
            0 <= x < keys.len() && 0 <= p < r.len() && !r@.contains(x as usize) implies ranks_before(
            keys@,
            descending,
            r[p] as int,
            x,
        ) by {
            assert(order@.contains(x as usize));
            let q = choose|q: int| 0 <= q < order.len() && order[q] == x as usize;
            assert(r@[p] == order@[p]);
            if q < m {
                assert(r@[q] == x as usize);
            }
        }
    }
    r
}

/// The ranking keys of a list of distance bit patterns.
pub open spec fn order_keys(bits: Seq<u32>) -> Seq<u64> {
    bits.map_values(|b: u32| order_key_of(b) as u64)
}

/// The indices of a list of `(index, distance)` results.
pub open spec fn result_indices(r: Seq<(usize, u32)>) -> Seq<usize> {
    r.map_values(|e: (usize, u32)| e.0)
}

/// `r` holds the `min(k, distances.len())` nearest entries, nearest first,
/// ties in index order, each with its own distance.
pub open spec fn is_nearest(distances: Seq<u32>, k: nat, r: Seq<(usize, u32)>) -> bool {
    &&& is_top_ranking(order_keys(distances), false, k, result_indices(r))
    &&& forall|p: int| 0 <= p < r.len() ==> #[trigger] r[p].1 == distances[r[p].0 as int]
}

/// The `k` nearest entries of a list of single-precision distances (bit
/// patterns), nearest first; equal distances keep their index order.
pub fn nearest(distances: &Vec<u32>, k: usize) -> (r: Vec<(usize, u32)>)
    ensures
        is_nearest(distances@, k as nat, r@),
{
    let mut keys: Vec<u64> = Vec::new();
    let mut i: usize = 0;
    while i < distances.len()
        invariant
            i <= distances.len(),
            keys@ == order_keys(distances@).take(i as int),
        decreases distances.len() - i,
    {
        keys.push(distance_order_key(distances[i]) as u64);
        i = i + 1;
        assert(keys@ =~= order_keys(distances@).take(i as int));
    }
    assert(keys@ =~= order_keys(distances@));
    let order = rank_indices(&keys, false, k);
    let mut r: Vec<(usize, u32)> = Vec::new();
    let mut p: usize = 0;
    while p < order.len()
        invariant
            keys@ == order_keys(distances@),
            is_top_ranking(keys@, false, k as nat, order@),
            p <= order.len(),
            r@.len() == p,
            forall|q: int| 0 <= q < p ==> #[trigger] r@[q] == (order@[q], distances@[order@[q] as int]),
        decreases order.len() - p,
    {
        let idx = order[p];
        r.push((idx, distances[idx]));
        p = p + 1;
    }
    assert(result_indices(r@) =~= order@);
    r
}

} // verus!
