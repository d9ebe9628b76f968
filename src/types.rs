use vstd::prelude::*;

verus! {

/// Provenance of a passage: the file it came from and where in that file.
#[derive(Debug, Clone, Eq, Hash)]
pub struct SourceInfo {
    pub filename: String,
    pub page_num: Option<u32>,
    pub file_type: String,
    pub chunk_idx: Option<usize>,
}

impl View for SourceInfo {
    type V = (Seq<char>, Option<u32>, Seq<char>, Option<usize>);

    open spec fn view(&self) -> Self::V {
        (self.filename@, self.page_num, self.file_type@, self.chunk_idx)
    }
}

impl PartialEq for SourceInfo {
    fn eq(&self, o: &SourceInfo) -> (r: bool) {
        self.filename == o.filename && self.page_num == o.page_num && self.file_type
            == o.file_type && self.chunk_idx == o.chunk_idx
    }
}

impl vstd::std_specs::cmp::PartialEqSpecImpl for SourceInfo {
    open spec fn obeys_eq_spec() -> bool {
        true
    }

    open spec fn eq_spec(&self, o: &SourceInfo) -> bool {
        self@ == o@
    }
}

impl SourceInfo {
    /// A field-for-field copy.
    pub fn duplicate(&self) -> (r: SourceInfo)
        ensures
            r@ == self@,
    {
        SourceInfo {
            filename: self.filename.clone(),
            page_num: self.page_num,
            file_type: self.file_type.clone(),
            chunk_idx: self.chunk_idx,
        }
    }
}

/// A passage handed in to be added to the graph.
#[derive(Debug, Clone)]
pub struct Document {
    pub text: String,
    pub source: SourceInfo,
}

/// A deduplicated passage. `embedding` holds the bit patterns of its
/// single-precision components.
#[derive(Debug, Clone)]
pub struct TextNode {
    pub id: usize,
    pub text: String,
    pub source: SourceInfo,
    pub embedding: Vec<u32>,
    pub token_count: usize,
}

/// A distinct lowercased keyword with its embedding (bit patterns, as for
/// [`TextNode`]).
#[derive(Debug, Clone)]
pub struct KeywordNode {
    pub id: usize,
    pub text: String,
    pub embedding: Vec<u32>,
}

/// Build parameters. Only `embedding_dim` shapes a build; the others are
/// kept for relationship strategies that do not use them yet.
/// `connect_threshold` holds the bit pattern of a single-precision value.
#[derive(Debug, Clone, Copy)]
pub struct GraphConfig {
    pub embedding_dim: usize,
    pub k_neighbors: usize,
    pub trust_num: usize,
    pub negative_multiplier: usize,
    pub connect_threshold: u32,
}

/// Bit pattern of the single-precision value 0.2.
pub const DEFAULT_CONNECT_THRESHOLD: u32 = 0x3E4C_CCCD;

impl Default for GraphConfig {
    fn default() -> (r: GraphConfig)
        ensures
            r.embedding_dim == 768,
            r.k_neighbors == 30,
            r.trust_num == 5,
            r.negative_multiplier == 7,
            r.connect_threshold == DEFAULT_CONNECT_THRESHOLD,
    {
        GraphConfig {
            embedding_dim: 768,
            k_neighbors: 30,
            trust_num: 5,
            negative_multiplier: 7,
            connect_threshold: DEFAULT_CONNECT_THRESHOLD,
        }
    }
}

/// Copies a vector of bit patterns element for element.
pub(crate) fn copy_words(v: &Vec<u32>) -> (r: Vec<u32>)
    ensures
        r@ == v@,
{
    let mut r: Vec<u32> = Vec::new();
    let mut i: usize = 0;
    while i < v.len()
        invariant
            i <= v.len(),
            r@ == v@.take(i as int),
        decreases v.len() - i,
    {
        r.push(v[i]);
        i = i + 1;
        assert(r@ =~= v@.take(i as int));
    }
    assert(r@ =~= v@);
    r
}

} // verus!
