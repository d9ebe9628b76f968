use vstd::prelude::*;
use crate::types::{SourceInfo, copy_words};

verus! {

/// The characters of each string.
pub open spec fn string_views(v: Seq<String>) -> Seq<Seq<char>> {
    v.map_values(|s: String| s@)
}

/// No earlier entry equals entry `i`.
pub open spec fn is_first_occurrence(texts: Seq<Seq<char>>, i: int) -> bool {
    forall|j: int| 0 <= j < i ==> texts[j] != texts[i]
}

/// The positions, in order, among the first `n` entries, of those entries
/// that do not repeat an earlier one.
pub open spec fn first_occurrences(texts: Seq<Seq<char>>, n: nat) -> Seq<int>
    decreases n,
{
    if n == 0 {
        Seq::empty()
    } else {
        let prev = first_occurrences(texts, (n - 1) as nat);
        if is_first_occurrence(texts, n - 1) {
            prev.push(n - 1)
        } else {
            prev
        }
    }
}

/// The kept positions are increasing, in range and first occurrences, and
/// every one of the first `n` entries equals a kept one.
pub proof fn lemma_first_occurrences(texts: Seq<Seq<char>>, n: nat)
    requires
        n <= texts.len(),
    ensures
        forall|p: int|
            0 <= p < first_occurrences(texts, n).len() ==> 0 <= #[trigger] first_occurrences(
                texts,
                n,
            )[p] < n && is_first_occurrence(texts, first_occurrences(texts, n)[p]),
        forall|p: int, q: int|
            0 <= p < q < first_occurrences(texts, n).len() ==> #[trigger] first_occurrences(
                texts,
                n,
            )[p] < #[trigger] first_occurrences(texts, n)[q],
        forall|j: int|
            #![trigger texts[j]]
            0 <= j < n ==> exists|p: int|
                0 <= p < first_occurrences(texts, n).len() && texts[#[trigger] first_occurrences(
                    texts,
                    n,
                )[p]] == texts[j],
    decreases n,
{
    if n > 0 {
        lemma_first_occurrences(texts, (n - 1) as nat);
        let prev = first_occurrences(texts, (n - 1) as nat);
        let f = first_occurrences(texts, n);
        assert forall|j: int| #![trigger texts[j]] 0 <= j < n implies exists|p: int|
            0 <= p < f.len() && texts[#[trigger] f[p]] == texts[j] by {
            if j < n - 1 {
                let p = choose|p: int| 0 <= p < prev.len() && texts[#[trigger] prev[p]] == texts[j];
                assert(f[p] == prev[p]);
            } else if is_first_occurrence(texts, j) {
                assert(f[prev.len() as int] == j);
            } else {
                let i = choose|i: int| 0 <= i < j && texts[i] == texts[j];
                let p = choose|p: int| 0 <= p < prev.len() && texts[#[trigger] prev[p]] == texts[i];
                assert(f[p] == prev[p]);
            }
        }
    }
}

/// Two kept positions never hold equal entries.
pub proof fn lemma_first_occurrences_distinct(texts: Seq<Seq<char>>, n: nat)
    requires
        n <= texts.len(),
    ensures
        forall|p: int, q: int|
            0 <= p < q < first_occurrences(texts, n).len() ==> texts[#[trigger] first_occurrences(
                texts,
                n,
            )[p]] != texts[#[trigger] first_occurrences(texts, n)[q]],
{
    lemma_first_occurrences(texts, n);
}

/// Whether `t` equals one of `kept`.
pub(crate) fn holds_text(kept: &Vec<String>, t: &String) -> (r: bool)
    ensures
        r == string_views(kept@).contains(t@),
{
    let mut i: usize = 0;
    while i < kept.len()
        invariant
            i <= kept.len(),
            forall|j: int| 0 <= j < i ==> kept@[j]@ != t@,
        decreases kept.len() - i,
    {
        if kept[i] == *t {
            assert(string_views(kept@)[i as int] == t@);
            return true;
        }
        i = i + 1;
    }
    proof {
        if string_views(kept@).contains(t@) {
            let j = choose|j: int| 0 <= j < kept@.len() && string_views(kept@)[j] == t@;
            assert(kept@[j]@ == t@);
        }
    }
    false
}

/// Keeps the first occurrence of each distinct text, with the source, vector
/// and token count that came with it, in input order.
pub fn remove_duplicates(
    texts: &Vec<String>,
    sources: &Vec<SourceInfo>,
    vectors: &Vec<Vec<u32>>,
    token_counts: &Vec<usize>,
) -> (r: (Vec<String>, Vec<SourceInfo>, Vec<Vec<u32>>, Vec<usize>))
    requires
        sources.len() == texts.len(),
        vectors.len() == texts.len(),
        token_counts.len() == texts.len(),
    ensures
        ({
            let f = first_occurrences(string_views(texts@), texts.len() as nat);
            &&& r.0.len() == f.len()
            &&& r.1.len() == f.len()
            &&& r.2.len() == f.len()
            &&& r.3.len() == f.len()
            &&& forall|j: int| 0 <= j < f.len() ==> (#[trigger] r.0@[j])@ == texts@[f[j]]@
            &&& forall|j: int| 0 <= j < f.len() ==> (#[trigger] r.1@[j])@ == sources@[f[j]]@
            &&& forall|j: int| 0 <= j < f.len() ==> (#[trigger] r.2@[j])@ == vectors@[f[j]]@
            &&& forall|j: int| 0 <= j < f.len() ==> #[trigger] r.3@[j] == token_counts@[f[j]]
        }),
{
    let ghost tv = string_views(texts@);
    let mut out_t: Vec<String> = Vec::new();
    let mut out_s: Vec<SourceInfo> = Vec::new();
    let mut out_v: Vec<Vec<u32>> = Vec::new();
    let mut out_c: Vec<usize> = Vec::new();
    let mut i: usize = 0;
    while i < texts.len()
        invariant
            tv == string_views(texts@),
            i <= texts.len(),
            sources.len() == texts.len(),
            vectors.len() == texts.len(),
            token_counts.len() == texts.len(),
            ({
                let f = first_occurrences(tv, i as nat);
                &&& out_t.len() == f.len()
                &&& out_s.len() == f.len()
                &&& out_v.len() == f.len()
                &&& out_c.len() == f.len()
                &&& forall|j: int| 0 <= j < f.len() ==> (#[trigger] out_t@[j])@ == texts@[f[j]]@
                &&& forall|j: int| 0 <= j < f.len() ==> (#[trigger] out_s@[j])@ == sources@[f[j]]@
                &&& forall|j: int| 0 <= j < f.len() ==> (#[trigger] out_v@[j])@ == vectors@[f[j]]@
                &&& forall|j: int| 0 <= j < f.len() ==> #[trigger] out_c@[j] == token_counts@[f[j]]
            }),
        decreases texts.len() - i,
    {
        proof {
            lemma_first_occurrences(tv, i as nat);
        }
        let ghost f = first_occurrences(tv, i as nat);
        let seen = holds_text(&out_t, &texts[i]);
        proof {
            if seen {
                let p = choose|p: int|
                    0 <= p < out_t@.len() && string_views(out_t@)[p] == texts@[i as int]@;
                assert(out_t@[p]@ == texts@[f[p]]@);
                assert(tv[f[p]] == tv[i as int]);
                assert(!is_first_occurrence(tv, i as int));
            } else {
                assert forall|j: int| 0 <= j < i implies tv[j] != tv[i as int] by {
                    let p = choose|p: int| 0 <= p < f.len() && tv[#[trigger] f[p]] == tv[j];
                    assert(out_t@[p]@ == texts@[f[p]]@);
                    assert(string_views(out_t@)[p] == tv[j]);
                }
            }
        }
        if !seen {
            out_t.push(texts[i].clone());
            out_s.push(sources[i].duplicate());
            out_v.push(copy_words(&vectors[i]));
            out_c.push(token_counts[i]);
            assert(first_occurrences(tv, (i + 1) as nat) == f.push(i as int));
        } else {
            assert(first_occurrences(tv, (i + 1) as nat) == f);
        }
        i = i + 1;
    }
    assert(tv.len() == texts.len());
    (out_t, out_s, out_v, out_c)
}

} // verus!
