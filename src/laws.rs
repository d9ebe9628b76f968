use vstd::prelude::*;
use crate::dedup::{first_occurrences, lemma_first_occurrences, lemma_first_occurrences_distinct};
use crate::ranking::{is_nearest, is_top_ranking, order_key_of, order_keys, ranks_before, result_indices};
use crate::store::{NumpyGraphStore, adjacent_indices, built_texts, document_texts, is_text_search_result};
use crate::types::{Document, TextNode};

verus! {

proof fn lemma_top_ranking_prefix(
    keys: Seq<u64>,
    descending: bool,
    k: nat,
    r1: Seq<usize>,
    r2: Seq<usize>,
    p: int,
)
    requires
        is_top_ranking(keys, descending, k, r1),
        is_top_ranking(keys, descending, k, r2),
        0 <= p < r1.len(),
    ensures
        forall|q: int| 0 <= q <= p ==> r1[q] == r2[q],
    decreases p,
{
    if p > 0 {
        lemma_top_ranking_prefix(keys, descending, k, r1, r2, p - 1);
    }
    let a = r1[p];
    let b = r2[p];
    if a != b {
        if ranks_before(keys, descending, a as int, b as int) {
            if r2.contains(a) {
                let q = choose|q: int| 0 <= q < r2.len() && r2[q] == a;
                if q < p {
                    assert(r1[q] == a);
                    assert(ranks_before(keys, descending, r1[q] as int, r1[p] as int));
                } else {
                    assert(ranks_before(keys, descending, r2[p] as int, r2[q] as int));
                }
            } else {
                assert(ranks_before(keys, descending, r2[p] as int, a as int));
            }
        } else {
            assert(ranks_before(keys, descending, b as int, a as int));
            if r1.contains(b) {
                let q = choose|q: int| 0 <= q < r1.len() && r1[q] == b;
                if q < p {
                    assert(r2[q] == b);
                    assert(ranks_before(keys, descending, r2[q] as int, r2[p] as int));
                } else {
                    assert(ranks_before(keys, descending, r1[p] as int, r1[q] as int));
                }
            } else {
                assert(ranks_before(keys, descending, r1[p] as int, b as int));
            }
        }
    }
}

/// A ranking is determined by its keys, direction and bound: two rankings
/// of the same keys are the same sequence.
pub proof fn lemma_top_ranking_unique(
    keys: Seq<u64>,
    descending: bool,
    k: nat,
    r1: Seq<usize>,
    r2: Seq<usize>,
)
    requires
        is_top_ranking(keys, descending, k, r1),
        is_top_ranking(keys, descending, k, r2),
    ensures
        r1 == r2,
{
    if r1.len() > 0 {
        lemma_top_ranking_prefix(keys, descending, k, r1, r2, r1.len() - 1);
    }
    assert(r1 =~= r2);
}

/// Nearest-neighbour results are deterministic: for the same distances and
/// bound, any two results are identical, indices and distances alike.
pub proof fn law_nearest_deterministic(d: Seq<u32>, k: nat, r1: Seq<(usize, u32)>, r2: Seq<(usize, u32)>)
    requires
        is_nearest(d, k, r1),
        is_nearest(d, k, r2),
    ensures
        r1 == r2,
{
    lemma_top_ranking_unique(order_keys(d), false, k, result_indices(r1), result_indices(r2));
    assert forall|p: int| 0 <= p < r1.len() implies r1[p] == r2[p] by {
        assert(result_indices(r1)[p] == result_indices(r2)[p]);
    }
    assert(r1 =~= r2);
}

/// Searching an unchanged store twice with the same deterministic distance
/// function gives identical results, indices and distances alike.
pub proof fn law_search_deterministic<F: Fn(&Vec<u32>) -> u32>(
    store: NumpyGraphStore,
    distance: F,
    k: nat,
    r1: Seq<(usize, u32)>,
    r2: Seq<(usize, u32)>,
)
    requires
        forall|e: &Vec<u32>, x: u32, y: u32|
            distance.ensures((e,), x) && distance.ensures((e,), y) ==> x == y,
        is_text_search_result(store, distance, k, r1),
        is_text_search_result(store, distance, k, r2),
    ensures
        r1 == r2,
{
    let t = store.text_nodes();
    let d1 = choose|d: Seq<u32>|
        {
            &&& d.len() == t.len()
            &&& forall|i: int|
                0 <= i < d.len() ==> distance.ensures((&t[i].embedding,), #[trigger] d[i])
            &&& is_nearest(d, k, r1)
        };
    let d2 = choose|d: Seq<u32>|
        {
            &&& d.len() == t.len()
            &&& forall|i: int|
                0 <= i < d.len() ==> distance.ensures((&t[i].embedding,), #[trigger] d[i])
            &&& is_nearest(d, k, r2)
        };
    assert forall|i: int| 0 <= i < d1.len() implies d1[i] == d2[i] by {
        assert(distance.ensures((&t[i].embedding,), d1[i]));
        assert(distance.ensures((&t[i].embedding,), d2[i]));
    }
    assert(d1 =~= d2);
    law_nearest_deterministic(d1, k, r1, r2);
}

/// A search returns exactly `min(k, n)` results for `n` candidates, and none
/// when there are no candidates or `k` is zero.
pub proof fn law_nearest_count(d: Seq<u32>, k: nat, r: Seq<(usize, u32)>)
    requires
        is_nearest(d, k, r),
    ensures
        r.len() == if k < d.len() { k } else { d.len() },
        (k == 0 || d.len() == 0) ==> r.len() == 0,
{
}

/// Search results come in non-decreasing order of distance.
pub proof fn law_nearest_sorted(d: Seq<u32>, k: nat, r: Seq<(usize, u32)>)
    requires
        is_nearest(d, k, r),
    ensures
        forall|p: int, q: int|
            0 <= p < q < r.len() ==> order_key_of(#[trigger] r[p].1) <= order_key_of(
                #[trigger] r[q].1,
            ),
{
    assert forall|p: int, q: int| 0 <= p < q < r.len() implies order_key_of(
        #[trigger] r[p].1,
    ) <= order_key_of(#[trigger] r[q].1) by {
        let ri = result_indices(r);
        assert(ranks_before(order_keys(d), false, ri[p] as int, ri[q] as int));
    }
}

/// A relevance ranking never holds more than `min(k, n)` indices.
pub proof fn law_ranking_bounded(keys: Seq<u64>, descending: bool, k: nat, r: Seq<usize>)
    requires
        is_top_ranking(keys, descending, k, r),
    ensures
        r.len() <= k && r.len() <= keys.len(),
{
}

/// The keywords adjacent to `idx`, among `n` keywords, exclude `idx` itself
/// and number at most `min(k, n - 1)` (none when `n` is zero), whether or
/// not `idx` is in range.
pub proof fn law_adjacent_bounded(n: nat, idx: int, k: nat)
    requires
        0 <= idx,
        n <= usize::MAX,
    ensures
        adjacent_indices(n, idx, k).len() <= k,
        n > 0 ==> adjacent_indices(n, idx, k).len() <= n - 1,
        n == 0 ==> adjacent_indices(n, idx, k).len() == 0,
        forall|p: int|
            0 <= p < adjacent_indices(n, idx, k).len() ==> #[trigger] adjacent_indices(n, idx, k)[p]
                != idx,
{
    let a = adjacent_indices(n, idx, k);
    assert forall|p: int| 0 <= p < a.len() implies #[trigger] a[p] != idx by {
        if p < idx {
            assert(a[p] == p);
        } else {
            assert(a[p] == p + 1);
        }
    }
}

/// Building from documents with repeated texts leaves one text node per
/// distinct text, and no two text nodes share a text.
pub proof fn law_build_deduplicates<F: Fn(&String) -> Vec<u32>>(
    documents: Seq<Document>,
    embed: F,
    texts: Seq<TextNode>,
)
    requires
        built_texts(documents, embed, texts),
    ensures
        texts.len() == document_texts(documents).to_set().len(),
        forall|p: int, q: int|
            0 <= p < q < texts.len() ==> (#[trigger] texts[p]).text@ != (#[trigger] texts[q]).text@,
{
    let dt = document_texts(documents);
    let f = first_occurrences(dt, documents.len());
    law_dedup_distinct(dt);
    lemma_first_occurrences(dt, documents.len());
    assert forall|p: int, q: int| 0 <= p < q < texts.len() implies (#[trigger] texts[p]).text@ != (
    #[trigger] texts[q]).text@ by {
        assert(texts[p].text@ == dt[f[p]]);
        assert(texts[q].text@ == dt[f[q]]);
    }
}

/// Deduplication keeps one entry per distinct text: the number kept equals
/// the number of distinct texts, and no two kept entries are equal.
pub proof fn law_dedup_distinct(texts: Seq<Seq<char>>)
    ensures
        first_occurrences(texts, texts.len()).len() == texts.to_set().len(),
        forall|p: int, q: int|
            0 <= p < q < first_occurrences(texts, texts.len()).len() ==> texts[#[trigger] first_occurrences(
                texts,
                texts.len(),
            )[p]] != texts[#[trigger] first_occurrences(texts, texts.len())[q]],
{
    lemma_first_occurrences_distinct(texts, texts.len());
    lemma_first_occurrences_count(texts, texts.len());
    assert(texts.take(texts.len() as int) =~= texts);
}

proof fn lemma_first_occurrences_count(texts: Seq<Seq<char>>, n: nat)
    requires
        n <= texts.len(),
    ensures
        first_occurrences(texts, n).len() == texts.take(n as int).to_set().len(),
    decreases n,
{
    if n == 0 {
        assert(texts.take(0).to_set() =~= Set::empty());
    } else {
        lemma_first_occurrences_count(texts, (n - 1) as nat);
        let prev = texts.take(n - 1);
        let cur = texts.take(n as int);
        assert(cur =~= prev.push(texts[n - 1]));
        assert(cur.to_set() =~= prev.to_set().insert(texts[n - 1])) by {
            assert forall|x| cur.to_set().contains(x) <==> prev.to_set().insert(texts[n - 1]).contains(x) by {
                if cur.contains(x) && x != texts[n - 1] {
                    let i = choose|i: int| 0 <= i < cur.len() && cur[i] == x;
                    assert(prev[i] == x);
                }
                if prev.contains(x) {
                    let i = choose|i: int| 0 <= i < prev.len() && prev[i] == x;
                    assert(cur[i] == x);
                }
                if x == texts[n - 1] {
                    assert(cur[n - 1] == x);
                }
            }
        }
        vstd::seq_lib::seq_to_set_is_finite(prev);
        if crate::dedup::is_first_occurrence(texts, n - 1) {
            assert(!prev.to_set().contains(texts[n - 1])) by {
                if prev.contains(texts[n - 1]) {
                    let i = choose|i: int| 0 <= i < prev.len() && prev[i] == texts[n - 1];
                    assert(texts[i] == texts[n - 1]);
                }
            }
        } else {
            let j = choose|j: int| 0 <= j < n - 1 && #[trigger] texts[j] == texts[n - 1];
            assert(prev[j] == texts[n - 1]);
            assert(prev.to_set().contains(texts[n - 1]));
            assert(prev.to_set().insert(texts[n - 1]) =~= prev.to_set());
        }
    }
}

} // verus!
