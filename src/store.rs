use vstd::prelude::*;
use crate::dedup::{first_occurrences, remove_duplicates, string_views};
use crate::keywords::{extract_keywords, is_keyword_of, node_texts, split_words, words_of};
use crate::ranking::{is_nearest, is_top_ranking, nearest, rank_indices};
use crate::relevance::RelevanceMatrix;
use crate::types::{Document, KeywordNode, SourceInfo, TextNode, copy_words};

verus! {

/// The texts of the documents.
pub open spec fn document_texts(docs: Seq<Document>) -> Seq<Seq<char>> {
    docs.map_values(|d: Document| d.text@)
}

/// The texts of keyword nodes.
pub open spec fn keyword_texts(nodes: Seq<KeywordNode>) -> Seq<Seq<char>> {
    nodes.map_values(|n: KeywordNode| n.text@)
}

/// The relevance column of keyword `j` over `n_texts` texts.
pub open spec fn relevance_column(n_texts: nat, j: int) -> Seq<u64> {
    Seq::new(n_texts, |i: int| (i + j) as u64)
}

/// The first `min(k, n - 1)` keyword indices other than `idx`, in
/// ascending order (none when there are no keywords).
pub open spec fn adjacent_indices(n: nat, idx: int, k: nat) -> Seq<usize> {
    let avail: nat = if n > 0 { (n - 1) as nat } else { 0 };
    let len: nat = if k < avail { k } else { avail };
    Seq::new(len, |p: int| if p < idx { p as usize } else { (p + 1) as usize })
}

/// The texts of `documents` kept after deduplication, as built by
/// `build_kg`: node `j` is the `j`-th first occurrence, with its source,
/// word count and an embedding that `embed` returned for it.
pub open spec fn built_texts<F: Fn(&String) -> Vec<u32>>(
    documents: Seq<Document>,
    embed: F,
    texts: Seq<TextNode>,
) -> bool {
    let f = first_occurrences(document_texts(documents), documents.len());
    &&& texts.len() == f.len()
    &&& forall|j: int|
        #![trigger texts[j]]
        0 <= j < texts.len() ==> {
            &&& texts[j].id == j
            &&& texts[j].text@ == documents[f[j]].text@
            &&& texts[j].source@ == documents[f[j]].source@
            &&& texts[j].token_count == words_of(documents[f[j]].text@).len()
            &&& exists|v: Vec<u32>|
                v@ == texts[j].embedding@ && embed.ensures((&documents[f[j]].text,), v)
        }
}

/// The keyword nodes built from `texts`: each distinct keyword of the texts
/// once, numbered in order, with an embedding that `embed` returned for it.
pub open spec fn built_keywords<F: Fn(&String) -> Vec<u32>>(
    texts: Seq<TextNode>,
    embed: F,
    keywords: Seq<KeywordNode>,
) -> bool {
    &&& forall|p: int, q: int|
        0 <= p < q < keywords.len() ==> (#[trigger] keywords[p]).text@ != (
        #[trigger] keywords[q]).text@
    &&& forall|kw: Seq<char>|
        #[trigger] keyword_texts(keywords).contains(kw) <==> is_keyword_of(node_texts(texts), kw)
    &&& forall|j: int|
        #![trigger keywords[j]]
        0 <= j < keywords.len() ==> {
            &&& keywords[j].id == j
            &&& exists|v: Vec<u32>|
                v@ == keywords[j].embedding@ && embed.ensures((&keywords[j].text,), v)
        }
}

/// What `search_similar_texts` promises of a result `r` for `store`.
pub open spec fn is_text_search_result<F: Fn(&Vec<u32>) -> u32>(
    store: NumpyGraphStore,
    distance: F,
    k: nat,
    r: Seq<(usize, u32)>,
) -> bool {
    exists|d: Seq<u32>|
        {
            &&& d.len() == store.text_nodes().len()
            &&& forall|i: int|
                0 <= i < d.len() ==> distance.ensures(
                    (&store.text_nodes()[i].embedding,),
                    #[trigger] d[i],
                )
            &&& is_nearest(d, k, r)
        }
}

/// The in-memory knowledge graph: text nodes, keyword nodes and the
/// text-by-keyword relevance matrix.
pub struct NumpyGraphStore {
    texts: Vec<TextNode>,
    keywords: Vec<KeywordNode>,
    u_mat: Option<RelevanceMatrix>,
}

impl NumpyGraphStore {
    pub closed spec fn text_nodes(&self) -> Seq<TextNode> {
        self.texts@
    }

    pub closed spec fn keyword_nodes(&self) -> Seq<KeywordNode> {
        self.keywords@
    }

    /// The relevance matrix, if present.
    pub closed spec fn relevance(&self) -> Option<RelevanceMatrix> {
        self.u_mat
    }

    /// Whether the relevance matrix is present.
    pub open spec fn has_relevance(&self) -> bool {
        self.relevance() is Some
    }

    /// A present relevance matrix is the placeholder one, shaped texts by
    /// keywords.
    pub open spec fn wf(&self) -> bool {
        self.relevance() matches Some(m) ==> {
            &&& m.wf()
            &&& m.is_placeholder()
            &&& m.rows() == self.text_nodes().len()
            &&& m.cols() == self.keyword_nodes().len()
        }
    }

    /// An empty store.
    pub fn new() -> (r: Self)
        ensures
            r.wf(),
            r.text_nodes().len() == 0,
            r.keyword_nodes().len() == 0,
            !r.has_relevance(),
    {
        NumpyGraphStore { texts: Vec::new(), keywords: Vec::new(), u_mat: None }
    }

    /// A store holding the given nodes and no relevance matrix, as a saved
    /// snapshot is read back.
    pub fn from_snapshot(texts: Vec<TextNode>, keywords: Vec<KeywordNode>) -> (r: Self)
        ensures
            r.wf(),
            r.text_nodes() == texts@,
            r.keyword_nodes() == keywords@,
            !r.has_relevance(),
    {
        NumpyGraphStore { texts, keywords, u_mat: None }
    }

    /// Replaces the graph with one built from `documents`, embedding each
    /// text and keyword with `embed`.
    pub fn build_kg<F: Fn(&String) -> Vec<u32>>(&mut self, documents: &[Document], embed: &F)
        requires
            forall|s: &String| #[trigger] embed.requires((s,)),
        ensures
            final(self).wf(),
            built_texts(documents@, *embed, final(self).text_nodes()),
            built_keywords(final(self).text_nodes(), *embed, final(self).keyword_nodes()),
            final(self).has_relevance() <==> (final(self).text_nodes().len() > 0
                && final(self).keyword_nodes().len() > 0 && final(self).text_nodes().len()
                * final(self).keyword_nodes().len() <= usize::MAX
                && final(self).text_nodes().len() + final(self).keyword_nodes().len()
                <= usize::MAX),
    {
        let ghost dt = document_texts(documents@);
        let n = documents.len();
        let mut texts: Vec<String> = Vec::new();
        let mut sources: Vec<SourceInfo> = Vec::new();
        let mut vectors: Vec<Vec<u32>> = Vec::new();
        let mut counts: Vec<usize> = Vec::new();
        let mut i: usize = 0;
        while i < n
            invariant
                n == documents.len(),
                dt == document_texts(documents@),
                forall|s: &String| #[trigger] embed.requires((s,)),
                i <= n,
                texts.len() == i,
                sources.len() == i,
                vectors.len() == i,
                counts.len() == i,
                forall|a: int| 0 <= a < i ==> (#[trigger] texts@[a])@ == dt[a],
                forall|a: int| 0 <= a < i ==> (#[trigger] sources@[a])@ == documents@[a].source@,
                forall|a: int|
                    0 <= a < i ==> #[trigger] counts@[a] == words_of(documents@[a].text@).len(),
                forall|a: int|
                    0 <= a < i ==> embed.ensures((&documents@[a].text,), #[trigger] vectors@[a]),
            decreases n - i,
        {
            let doc = &documents[i];
            texts.push(doc.text.clone());
            sources.push(doc.source.duplicate());
            let v = embed(&doc.text);
            vectors.push(v);
            let words = split_words(doc.text.as_str());
            counts.push(words.len());
            proof {
                assert(vectors@[i as int] == v);
                assert(string_views(words@).len() == words@.len());
            }
            i = i + 1;
        }
        assert(string_views(texts@) =~= dt);
        let (t, s, v, c) = remove_duplicates(&texts, &sources, &vectors, &counts);
        let ghost f = first_occurrences(dt, n as nat);
        let mut nodes: Vec<TextNode> = Vec::new();
        let mut j: usize = 0;
        while j < t.len()
            invariant
                f == first_occurrences(dt, n as nat),
                n == documents.len(),
                dt == document_texts(documents@),
                texts.len() == n,
                vectors.len() == n,
                counts.len() == n,
                forall|a: int| 0 <= a < n ==> (#[trigger] texts@[a])@ == dt[a],
                forall|a: int| 0 <= a < n ==> (#[trigger] sources@[a])@ == documents@[a].source@,
                forall|a: int|
                    0 <= a < n ==> #[trigger] counts@[a] == words_of(documents@[a].text@).len(),
                forall|a: int|
                    0 <= a < n ==> embed.ensures((&documents@[a].text,), #[trigger] vectors@[a]),
                t.len() == f.len(),
                s.len() == f.len(),
                v.len() == f.len(),
                c.len() == f.len(),
                forall|q: int| 0 <= q < f.len() ==> (#[trigger] t@[q])@ == texts@[f[q]]@,
                forall|q: int| 0 <= q < f.len() ==> (#[trigger] s@[q])@ == sources@[f[q]]@,
                forall|q: int| 0 <= q < f.len() ==> (#[trigger] v@[q])@ == vectors@[f[q]]@,
                forall|q: int| 0 <= q < f.len() ==> #[trigger] c@[q] == counts@[f[q]],
                j <= t.len(),
                nodes.len() == j,
                forall|q: int|
                    #![trigger nodes@[q]]
                    0 <= q < j ==> {
                        &&& nodes@[q].id == q
                        &&& nodes@[q].text@ == documents@[f[q]].text@
                        &&& nodes@[q].source@ == documents@[f[q]].source@
                        &&& nodes@[q].token_count == words_of(documents@[f[q]].text@).len()
                        &&& exists|v: Vec<u32>|
                            v@ == nodes@[q].embedding@ && embed.ensures(
                                (&documents@[f[q]].text,),
                                v,
                            )
                    },
            decreases t.len() - j,
        {
            proof {
                crate::dedup::lemma_first_occurrences(dt, n as nat);
                assert(0 <= f[j as int] < n);
                assert(dt[f[j as int]] == documents@[f[j as int]].text@);
                assert(texts@[f[j as int]]@ == dt[f[j as int]]);
                assert(sources@[f[j as int]]@ == documents@[f[j as int]].source@);
                assert(counts@[f[j as int]] == words_of(documents@[f[j as int]].text@).len());
                assert(embed.ensures((&documents@[f[j as int]].text,), vectors@[f[j as int]]));
            }
            let node = TextNode {
                id: j,
                text: t[j].clone(),
                source: s[j].duplicate(),
                embedding: copy_words(&v[j]),
                token_count: c[j],
            };
            nodes.push(node);
            proof {
                assert(nodes@[j as int] == node);
                let w = vectors@[f[j as int]];
                assert(w@ == nodes@[j as int].embedding@ && embed.ensures(
                    (&documents@[f[j as int]].text,),
                    w,
                ));
            }
            j = j + 1;
        }
        let kws = extract_keywords(nodes.as_slice());
        let mut knodes: Vec<KeywordNode> = Vec::new();
        let mut j: usize = 0;
        while j < kws.len()
            invariant
                forall|s: &String| #[trigger] embed.requires((s,)),
                j <= kws.len(),
                knodes.len() == j,
                forall|q: int|
                    #![trigger knodes@[q]]
                    0 <= q < j ==> {
                        &&& knodes@[q].id == q
                        &&& knodes@[q].text == kws@[q]
                        &&& exists|v: Vec<u32>|
                            v@ == knodes@[q].embedding@ && embed.ensures((&knodes@[q].text,), v)
                    },
            decreases kws.len() - j,
        {
            let text = kws[j].clone();
            let e = embed(&text);
            let node = KeywordNode { id: j, text, embedding: e };
            knodes.push(node);
            proof {
                assert(knodes@[j as int] == node);
                assert(knodes@[j as int].embedding == e);
            }
            j = j + 1;
        }
        proof {
            assert(keyword_texts(knodes@) =~= string_views(kws@));
        }
        self.texts = nodes;
        self.keywords = knodes;
        self.build_keyword_relationships();
    }

    /// Rebuilds the relevance matrix for the current texts and keywords.
    fn build_keyword_relationships(&mut self)
        ensures
            final(self).wf(),
            final(self).texts == old(self).texts,
            final(self).keywords == old(self).keywords,
            final(self).has_relevance() <==> (old(self).texts.len() > 0 && old(self).keywords.len()
                > 0 && old(self).texts.len() * old(self).keywords.len() <= usize::MAX
                && old(self).texts.len() + old(self).keywords.len() <= usize::MAX),
    {
        self.u_mat = RelevanceMatrix::build(self.texts.len(), self.keywords.len());
    }

    /// The `k` texts nearest to a query, nearest first. `distance` gives the
    /// single-precision distance (bit pattern) from the query to an
    /// embedding; equal distances keep index order.
    pub fn search_similar_texts<F: Fn(&Vec<u32>) -> u32>(&self, distance: &F, k: usize) -> (r: Vec<
        (usize, u32),
    >)
        requires
            forall|e: &Vec<u32>| #[trigger] distance.requires((e,)),
        ensures
            is_text_search_result(*self, *distance, k as nat, r@),
    {
        let mut d: Vec<u32> = Vec::new();
        let mut i: usize = 0;
        while i < self.texts.len()
            invariant
                forall|e: &Vec<u32>| #[trigger] distance.requires((e,)),
                i <= self.texts.len(),
                d.len() == i,
                forall|a: int|
                    0 <= a < i ==> distance.ensures((&self.texts@[a].embedding,), #[trigger] d@[a]),
            decreases self.texts.len() - i,
        {
            let x = distance(&self.texts[i].embedding);
            d.push(x);
            i = i + 1;
        }
        nearest(&d, k)
    }

    /// The `k` keywords nearest to a query, as `search_similar_texts` does
    /// for texts.
    pub fn search_similar_keywords<F: Fn(&Vec<u32>) -> u32>(&self, distance: &F, k: usize) -> (r:
        Vec<(usize, u32)>)
        requires
            forall|e: &Vec<u32>| #[trigger] distance.requires((e,)),
        ensures
            exists|d: Seq<u32>|
                {
                    &&& d.len() == self.keyword_nodes().len()
                    &&& forall|i: int|
                        0 <= i < d.len() ==> distance.ensures(
                            (&self.keyword_nodes()[i].embedding,),
                            #[trigger] d[i],
                        )
                    &&& is_nearest(d, k as nat, r@)
                },
    {
        let mut d: Vec<u32> = Vec::new();
        let mut i: usize = 0;
        while i < self.keywords.len()
            invariant
                forall|e: &Vec<u32>| #[trigger] distance.requires((e,)),
                i <= self.keywords.len(),
                d.len() == i,
                forall|a: int|
                    0 <= a < i ==> distance.ensures(
                        (&self.keywords@[a].embedding,),
                        #[trigger] d@[a],
                    ),
            decreases self.keywords.len() - i,
        {
            let x = distance(&self.keywords[i].embedding);
            d.push(x);
            i = i + 1;
        }
        nearest(&d, k)
    }

    /// The `k` texts most relevant to keyword `keyword_idx`, most relevant
    /// first; empty when the matrix is absent or the keyword out of range.
    pub fn get_keyword_related_texts(&self, keyword_idx: usize, k: usize) -> (r: Vec<usize>)
        requires
            self.wf(),
        ensures
            !(self.has_relevance() && keyword_idx < self.keyword_nodes().len()) ==> r@.len() == 0,
            self.has_relevance() && keyword_idx < self.keyword_nodes().len() ==> is_top_ranking(
                relevance_column(self.text_nodes().len(), keyword_idx as int),
                true,
                k as nat,
                r@,
            ),
    {
        match &self.u_mat {
            Some(m) => {
                if keyword_idx >= m.ncols() {
                    return Vec::new();
                }
                let col = m.column(keyword_idx);
                proof {
                    assert(col@ =~= relevance_column(self.texts.len() as nat, keyword_idx as int));
                }
                rank_indices(&col, true, k)
            },
            None => Vec::new(),
        }
    }

    /// Up to `k` keyword indices other than `keyword_idx`, ascending.
    pub fn get_adjacent_keywords(&self, keyword_idx: usize, k: usize) -> (r: Vec<usize>)
        ensures
            r@ == adjacent_indices(self.keyword_nodes().len(), keyword_idx as int, k as nat),
    {
        let n = self.keywords.len();
        let mut r: Vec<usize> = Vec::new();
        if n == 0 {
            assert(r@ =~= adjacent_indices(0, keyword_idx as int, k as nat));
            return r;
        }
        let mut i: usize = 0;
        while i < n && r.len() < k && r.len() < n - 1
            invariant
                n == self.keywords.len(),
                n > 0,
                i <= n,
                r.len() <= k,
                r.len() <= n - 1,
                r.len() == if keyword_idx < i { i - 1 } else { i as int },
                forall|p: int|
                    0 <= p < r.len() ==> #[trigger] r@[p] == if p < keyword_idx {
                        p
                    } else {
                        p + 1
                    },
            decreases n - i,
        {
            if i != keyword_idx {
                r.push(i);
            }
            i = i + 1;
        }
        assert(r@ =~= adjacent_indices(n as nat, keyword_idx as int, k as nat));
        r
    }

    /// The text nodes.
    pub fn get_texts(&self) -> (r: &[TextNode])
        ensures
            r@ == self.text_nodes(),
    {
        self.texts.as_slice()
    }

    /// The keyword nodes.
    pub fn get_keywords(&self) -> (r: &[KeywordNode])
        ensures
            r@ == self.keyword_nodes(),
    {
        self.keywords.as_slice()
    }

    /// The source of each text node, in node order.
    pub fn get_sources(&self) -> (r: Vec<&SourceInfo>)
        ensures
            r@.len() == self.text_nodes().len(),
            forall|i: int| 0 <= i < r@.len() ==> *(#[trigger] r@[i]) == self.text_nodes()[i].source,
    {
        let mut r: Vec<&SourceInfo> = Vec::new();
        let mut i: usize = 0;
        while i < self.texts.len()
            invariant
                i <= self.texts.len(),
                r@.len() == i,
                forall|a: int| 0 <= a < i ==> *(#[trigger] r@[a]) == self.texts@[a].source,
            decreases self.texts.len() - i,
        {
            r.push(&self.texts[i].source);
            i = i + 1;
        }
        r
    }

    /// The relevance matrix, absent until a build that has both texts and
    /// keywords.
    pub fn get_relevance(&self) -> (r: Option<&RelevanceMatrix>)
        ensures
            r is Some <==> self.has_relevance(),
            r matches Some(m) ==> self.relevance() == Some(*m),
    {
        match &self.u_mat {
            Some(m) => Some(m),
            None => None,
        }
    }
}

} // verus!