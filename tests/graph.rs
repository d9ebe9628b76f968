use vectorized_kg::{embedding_draws, Document, GraphConfig, NumpyGraphStore, SourceInfo};

fn source(filename: &str, page: u32, file_type: &str, chunk: usize) -> SourceInfo {
    SourceInfo {
        filename: filename.to_string(),
        page_num: Some(page),
        file_type: file_type.to_string(),
        chunk_idx: Some(chunk),
    }
}

fn doc(text: &str, src: SourceInfo) -> Document {
    Document { text: text.to_string(), source: src }
}

/// The placeholder embedding: draws mapped to [-1, 1] and scaled to unit
/// length, as bit patterns.
fn embed(text: &String, dim: usize) -> Vec<u32> {
    let mut v: Vec<f32> = embedding_draws(text.as_str(), dim)
        .iter()
        .map(|&d| (d as f32) / (u32::MAX as f32) * 2.0 - 1.0)
        .collect();
    let norm: f32 = v.iter().map(|x| x * x).sum::<f32>().sqrt();
    if norm > 0.0 {
        v.iter_mut().for_each(|x| *x /= norm);
    }
    v.iter().map(|x| x.to_bits()).collect()
}

/// Cosine distance from `q` to an embedding, as a bit pattern; 1.0 for a
/// zero norm or mismatched lengths.
fn cosine_bits(q: &[f32], e: &Vec<u32>) -> u32 {
    if q.len() != e.len() {
        return 1.0f32.to_bits();
    }
    let (mut dot, mut na, mut nb) = (0.0f32, 0.0f32, 0.0f32);
    for i in 0..q.len() {
        let b = f32::from_bits(e[i]);
        dot += q[i] * b;
        na += q[i] * q[i];
        nb += b * b;
    }
    let (na, nb) = (na.sqrt(), nb.sqrt());
    if na == 0.0 || nb == 0.0 {
        return 1.0f32.to_bits();
    }
    (1.0 - dot / (na * nb)).to_bits()
}

fn build(documents: &[Document], config: &GraphConfig) -> NumpyGraphStore {
    let dim = config.embedding_dim;
    let mut store = NumpyGraphStore::new();
    store.build_kg(documents, &|t: &String| embed(t, dim));
    store
}

fn search(store: &NumpyGraphStore, q: &[f32], k: usize) -> Vec<(usize, f32)> {
    store
        .search_similar_texts(&|e: &Vec<u32>| cosine_bits(q, e), k)
        .into_iter()
        .map(|(i, d)| (i, f32::from_bits(d)))
        .collect()
}

fn three_docs() -> Vec<Document> {
    vec![
        doc("Doc 1", source("doc1.txt", 1, "txt", 0)),
        doc("Doc 2", source("doc2.txt", 2, "txt", 1)),
        doc("Doc 3", source("doc3.txt", 3, "txt", 2)),
    ]
}

#[test]
fn test_basic_graph() {
    let config = GraphConfig::default();
    let documents = vec![doc("Hello world", source("test.txt", 1, "txt", 0))];
    let store = build(&documents, &config);
    assert!(store.get_texts().len() > 0);
}

#[test]
fn test_search_bounds() {
    let config = GraphConfig::default();
    let documents = vec![
        doc("Doc 1", source("doc1.txt", 1, "txt", 0)),
        doc("Doc 2", source("doc2.txt", 2, "txt", 1)),
    ];
    let store = build(&documents, &config);
    let query_vec = vec![0.0; config.embedding_dim];
    let results = search(&store, &query_vec, 100);
    assert_eq!(results.len(), store.get_texts().len());
}

#[test]
fn test_empty_store_search() {
    let store = NumpyGraphStore::new();
    let query_vec = vec![0.0; 128];
    let text_results = search(&store, &query_vec, 5);
    assert!(text_results.is_empty());
}

#[test]
fn test_zero_k_search() {
    let config = GraphConfig::default();
    let documents = vec![doc("Doc 1", source("doc1.txt", 1, "txt", 0))];
    let store = build(&documents, &config);
    let query_vec = vec![0.0; config.embedding_dim];
    let results = search(&store, &query_vec, 0);
    assert!(results.is_empty());
}

#[test]
fn test_monotonic_distances() {
    let config = GraphConfig::default();
    let store = build(&three_docs(), &config);
    let query_vec = vec![0.0; config.embedding_dim];
    let results = search(&store, &query_vec, 5);
    for i in 0..results.len().saturating_sub(1) {
        assert!(results[i].1 <= results[i + 1].1 + 1e-6);
    }
}

#[test]
fn test_finite_distances() {
    let config = GraphConfig::default();
    let documents = vec![doc("Doc 1", source("doc1.txt", 1, "txt", 0))];
    let store = build(&documents, &config);
    let query_vec = vec![0.0; config.embedding_dim];
    let results = search(&store, &query_vec, 5);
    for (_, dist) in results {
        assert!(dist.is_finite());
    }
}

#[test]
fn test_duplicate_removal() {
    let config = GraphConfig::default();
    let documents = vec![
        doc("Unique text", source("doc1.txt", 1, "txt", 0)),
        doc("Unique text", source("doc2.txt", 2, "txt", 1)),
    ];
    let store = build(&documents, &config);
    assert_eq!(store.get_texts().len(), 1);
}

#[test]
fn test_provenance_preserved() {
    let config = GraphConfig::default();
    let documents = vec![doc("Test document", source("test.pdf", 5, "pdf", 2))];
    let store = build(&documents, &config);
    let sources = store.get_sources();
    assert_eq!(sources.len(), 1);
    assert_eq!(sources[0].filename, "test.pdf");
    assert_eq!(sources[0].page_num, Some(5));
    assert_eq!(sources[0].file_type, "pdf");
    assert_eq!(sources[0].chunk_idx, Some(2));
}

#[test]
fn test_keyword_related_texts_bounds() {
    let config = GraphConfig::default();
    let documents = vec![
        doc("Doc 1 with some words", source("doc1.txt", 1, "txt", 0)),
        doc("Doc 2 with different words", source("doc2.txt", 2, "txt", 1)),
    ];
    let store = build(&documents, &config);
    if !store.get_keywords().is_empty() {
        let keyword_idx = 0;
        let results = store.get_keyword_related_texts(keyword_idx, 100);
        assert!(results.len() <= store.get_texts().len());
    }
}

#[test]
fn test_adjacent_keywords_bounds() {
    let config = GraphConfig::default();
    let documents = vec![doc("Doc 1", source("doc1.txt", 1, "txt", 0))];
    let store = build(&documents, &config);
    if !store.get_keywords().is_empty() {
        let keyword_idx = 0;
        let adjacent = store.get_adjacent_keywords(keyword_idx, 100);
        assert!(adjacent.len() <= store.get_keywords().len().saturating_sub(1));
    }
}

#[test]
fn test_identical_queries_deterministic() {
    let config = GraphConfig::default();
    let documents = vec![doc("Doc 1", source("doc1.txt", 1, "txt", 0))];
    let store = build(&documents, &config);
    let query_vec = vec![0.0; config.embedding_dim];
    let results1 = search(&store, &query_vec, 5);
    let results2 = search(&store, &query_vec, 5);
    assert_eq!(results1.len(), results2.len());
    for i in 0..results1.len() {
        assert!((results1[i].1 - results2[i].1).abs() < 1e-6);
    }
}
