use vectorized_kg::dedup::remove_duplicates;
use vectorized_kg::keywords::extract_keywords;
use vectorized_kg::{
    distance_order_key, embedding_draws, nearest, rank_indices, Document, GraphConfig,
    KeywordNode, NumpyGraphStore, RelevanceMatrix, SourceInfo, TextNode,
    DEFAULT_CONNECT_THRESHOLD,
};

fn src_info(filename: &str, page: u32, file_type: &str, chunk: usize) -> SourceInfo {
    SourceInfo {
        filename: filename.to_string(),
        page_num: Some(page),
        file_type: file_type.to_string(),
        chunk_idx: Some(chunk),
    }
}

fn document(text: &str, src: SourceInfo) -> Document {
    Document { text: text.to_string(), source: src }
}

fn raw_embed(t: &String) -> Vec<u32> {
    embedding_draws(t.as_str(), 8)
}

fn build_raw(documents: &[Document]) -> NumpyGraphStore {
    let mut store = NumpyGraphStore::new();
    store.build_kg(documents, &raw_embed);
    store
}

#[test]
fn duplicates_keep_first_occurrence() {
    let documents = vec![
        document("Doc 1", src_info("a.txt", 1, "txt", 0)),
        document("Doc 2", src_info("b.txt", 2, "txt", 1)),
        document("Doc 1", src_info("c.txt", 3, "txt", 2)),
    ];
    let store = build_raw(&documents);
    let texts = store.get_texts();
    assert_eq!(texts.len(), 2);
    assert_eq!(texts[0].text, "Doc 1");
    assert_eq!(texts[0].source, src_info("a.txt", 1, "txt", 0));
    assert_eq!(texts[0].embedding, raw_embed(&"Doc 1".to_string()));
    assert_eq!(texts[0].token_count, 2);
    assert_eq!(texts[1].text, "Doc 2");
    assert_eq!(texts[1].id, 1);
    assert_eq!(texts[1].source, src_info("b.txt", 2, "txt", 1));
}

#[test]
fn empty_build_is_empty() {
    let store = build_raw(&[]);
    assert_eq!(store.get_texts().len(), 0);
    assert_eq!(store.get_keywords().len(), 0);
    assert!(store.get_relevance().is_none());
}

#[test]
fn keywords_are_long_lowercased_distinct_words() {
    let documents = vec![
        document("The Quick brown FOX", src_info("a.txt", 1, "txt", 0)),
        document("quick  foxes\tjump", src_info("b.txt", 2, "txt", 1)),
    ];
    let store = build_raw(&documents);
    let mut kws: Vec<String> = store.get_keywords().iter().map(|k| k.text.clone()).collect();
    kws.sort();
    assert_eq!(kws, vec!["brown", "foxes", "jump", "quick"]);
    for (i, k) in store.get_keywords().iter().enumerate() {
        assert_eq!(k.id, i);
        assert_eq!(k.embedding.len(), 8);
    }
    assert_eq!(store.get_texts()[1].token_count, 3);
    let m = store.get_relevance().unwrap();
    assert_eq!(m.nrows(), 2);
    assert_eq!(m.ncols(), 4);
}

#[test]
fn keyword_length_counts_characters() {
    let nodes = vec![TextNode {
        id: 0,
        text: "día ÉCOLE".to_string(),
        source: src_info("a.txt", 1, "txt", 0),
        embedding: vec![],
        token_count: 2,
    }];
    assert_eq!(extract_keywords(&nodes), vec!["école".to_string()]);
}

#[test]
fn related_texts_rank_by_relevance() {
    let documents = vec![
        document("alpha", src_info("a.txt", 1, "txt", 0)),
        document("beta", src_info("b.txt", 2, "txt", 1)),
        document("gamma", src_info("c.txt", 3, "txt", 2)),
    ];
    let store = build_raw(&documents);
    assert_eq!(store.get_keywords().len(), 3);
    assert_eq!(store.get_keyword_related_texts(0, 2), vec![2, 1]);
    assert_eq!(store.get_keyword_related_texts(1, 10), vec![2, 1, 0]);
    assert!(store.get_keyword_related_texts(3, 10).is_empty());
    let m = store.get_relevance().unwrap();
    assert_eq!(m.column(1), vec![1, 2, 3]);
}

#[test]
fn related_texts_absent_matrix() {
    let store = NumpyGraphStore::new();
    assert!(store.get_keyword_related_texts(0, 3).is_empty());
    let loaded = NumpyGraphStore::from_snapshot(
        vec![],
        vec![KeywordNode { id: 0, text: "word".to_string(), embedding: vec![] }],
    );
    assert!(loaded.get_keyword_related_texts(0, 3).is_empty());
}

#[test]
fn adjacent_keywords_skip_self() {
    let documents = vec![document("alpha beta gamma delta", src_info("a.txt", 1, "txt", 0))];
    let store = build_raw(&documents);
    assert_eq!(store.get_keywords().len(), 4);
    assert_eq!(store.get_adjacent_keywords(1, 10), vec![0, 2, 3]);
    assert_eq!(store.get_adjacent_keywords(1, 2), vec![0, 2]);
    assert_eq!(store.get_adjacent_keywords(9, 10), vec![0, 1, 2]);
    assert_eq!(store.get_adjacent_keywords(4, 2), vec![0, 1]);
    assert!(store.get_adjacent_keywords(0, 0).is_empty());
    assert!(NumpyGraphStore::new().get_adjacent_keywords(0, 5).is_empty());
}

#[test]
fn nearest_sorted_stable_and_bounded() {
    let d: Vec<u32> = vec![0.5f32, 0.1, 0.5, -0.0, 1.0, 0.1]
        .into_iter()
        .map(f32::to_bits)
        .collect();
    let r = nearest(&d, 4);
    let idx: Vec<usize> = r.iter().map(|p| p.0).collect();
    assert_eq!(idx, vec![3, 1, 5, 0]);
    assert_eq!(f32::from_bits(r[1].1), 0.1);
    assert_eq!(nearest(&d, 100).len(), 6);
    assert!(nearest(&d, 0).is_empty());
    assert!(nearest(&vec![], 3).is_empty());
    assert_eq!(nearest(&d, 4), nearest(&d, 4));
}

#[test]
fn order_key_follows_float_order() {
    let vals = [-2.0f32, -0.5, 0.0, 0.25, 1.0, 2.0];
    for w in vals.windows(2) {
        assert!(distance_order_key(w[0].to_bits()) < distance_order_key(w[1].to_bits()));
    }
    assert_eq!(distance_order_key(0), 0x8000_0000);
}

#[test]
fn rank_descending_and_ascending() {
    let keys = vec![3u64, 7, 3, 1];
    assert_eq!(rank_indices(&keys, true, 10), vec![1, 0, 2, 3]);
    assert_eq!(rank_indices(&keys, false, 3), vec![3, 0, 2]);
}

#[test]
fn relevance_matrix_placeholder_values() {
    assert!(RelevanceMatrix::build(0, 3).is_none());
    assert!(RelevanceMatrix::build(3, 0).is_none());
    let m = RelevanceMatrix::build(2, 3).unwrap();
    assert_eq!(m.column(0), vec![0, 1]);
    assert_eq!(m.column(2), vec![2, 3]);
    assert_eq!(m.denominator(), 5);
}

#[test]
fn remove_duplicates_parallel_lists() {
    let texts = vec!["a".to_string(), "b".to_string(), "a".to_string()];
    let sources = vec![src_info("1", 1, "t", 0), src_info("2", 2, "t", 1), src_info("3", 3, "t", 2)];
    let vectors = vec![vec![1u32], vec![2], vec![3]];
    let counts = vec![1usize, 1, 1];
    let (t, s, v, c) = remove_duplicates(&texts, &sources, &vectors, &counts);
    assert_eq!(t, vec!["a".to_string(), "b".to_string()]);
    assert_eq!(s[0], src_info("1", 1, "t", 0));
    assert_eq!(v, vec![vec![1u32], vec![2]]);
    assert_eq!(c, vec![1, 1]);
}

#[test]
fn embedding_draws_deterministic_length() {
    let a = embedding_draws("hello", 16);
    assert_eq!(a.len(), 16);
    assert_eq!(a, embedding_draws("hello", 16));
    assert_eq!(embedding_draws("hello", 4), a[..4].to_vec());
    assert!(embedding_draws("hello", 0).is_empty());
    assert_ne!(a, embedding_draws("world", 16));
}

#[test]
fn config_defaults() {
    let c = GraphConfig::default();
    assert_eq!(c.embedding_dim, 768);
    assert_eq!(c.k_neighbors, 30);
    assert_eq!(c.trust_num, 5);
    assert_eq!(c.negative_multiplier, 7);
    assert_eq!(f32::from_bits(c.connect_threshold), 0.2);
    assert_eq!(DEFAULT_CONNECT_THRESHOLD, 0.2f32.to_bits());
}

#[test]
fn provenance_round_trip() {
    let src = src_info("test.pdf", 5, "pdf", 2);
    let store = build_raw(&[document("Test document", src.clone())]);
    assert_eq!(*store.get_sources()[0], src);
    let copy = NumpyGraphStore::from_snapshot(
        store.get_texts().to_vec(),
        store.get_keywords().to_vec(),
    );
    assert_eq!(copy.get_texts()[0].source, src);
    assert_eq!(copy.get_keywords().len(), store.get_keywords().len());
    assert!(copy.get_relevance().is_none());
}

#[test]
fn hello_world_graph_shape() {
    let store = build_raw(&[document("Hello world", src_info("test.txt", 1, "txt", 0))]);
    assert_eq!(store.get_texts().len(), 1);
    assert_eq!(store.get_texts()[0].token_count, 2);
    let mut kws: Vec<String> = store.get_keywords().iter().map(|k| k.text.clone()).collect();
    kws.sort();
    assert_eq!(kws, vec!["hello", "world"]);
    let m = store.get_relevance().unwrap();
    assert_eq!((m.nrows(), m.ncols()), (1, 2));
    assert_eq!(m.column(1), vec![1]);
    assert_eq!(m.denominator(), 3);
}

#[test]
fn rebuild_replaces_matrix() {
    let mut store = build_raw(&[document("alpha beta", src_info("a.txt", 1, "txt", 0))]);
    assert!(store.get_relevance().is_some());
    store.build_kg(&[document("a b", src_info("b.txt", 1, "txt", 0))], &raw_embed);
    assert_eq!(store.get_keywords().len(), 0);
    assert!(store.get_relevance().is_none());
}
