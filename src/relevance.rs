use vstd::prelude::*;
use ndarray::Array2;

verus! {

/// A two-dimensional array of `u64` held by `ndarray`; Verus sees it only
/// through the functions below.
#[verifier::external_body]
pub struct Grid {
    inner: Array2<u64>,
}

/// The entries of a two-dimensional array, row after row.
pub uninterp spec fn grid_cells(m: Grid) -> Seq<u64>;

/// The number of rows of a two-dimensional array.
pub uninterp spec fn grid_rows(m: Grid) -> nat;

/// The number of columns of a two-dimensional array.
pub uninterp spec fn grid_cols(m: Grid) -> nat;

/// Relies on `Array2::from_shape_vec`: with both axes non-empty and a vector
/// of exactly `rows * cols` entries it succeeds (the vector's length already
/// bounds the product) and lays them out row after row.
#[verifier::external_body]
fn grid_from_cells(rows: usize, cols: usize, cells: Vec<u64>) -> (r: Option<Grid>)
    ensures
        rows > 0 && cols > 0 && cells@.len() == rows * cols ==> r is Some,
        r matches Some(m) ==> grid_rows(m) == rows && grid_cols(m) == cols && grid_cells(m)
            == cells@,
{
    Array2::from_shape_vec((rows, cols), cells).ok().map(|inner| Grid { inner })
}

/// Relies on `ArrayBase::nrows`.
#[verifier::external_body]
fn grid_nrows(m: &Grid) -> (r: usize)
    ensures
        r == grid_rows(*m),
{
    m.inner.nrows()
}

/// Relies on `ArrayBase::ncols`.
#[verifier::external_body]
fn grid_ncols(m: &Grid) -> (r: usize)
    ensures
        r == grid_cols(*m),
{
    m.inner.ncols()
}

/// Relies on `ArrayBase::get` with a `(row, column)` index: the entry there,
/// or `None` out of bounds.
#[verifier::external_body]
fn grid_get(m: &Grid, i: usize, j: usize) -> (r: Option<u64>)
    ensures
        (i < grid_rows(*m) && j < grid_cols(*m)) ==> r == Some(
            grid_cells(*m)[i * grid_cols(*m) + j],
        ),
        !(i < grid_rows(*m) && j < grid_cols(*m)) ==> r is None,
{
    m.inner.get((i, j)).copied()
}

/// The relevance of text `i` to keyword `j`: the value `(i + j) / (n_texts +
/// n_keywords)`, held as its numerator over the common denominator.
pub open spec fn relevance_numerator(i: int, j: int) -> int {
    i + j
}

/// A dense text-by-keyword relevance matrix. Entry `(i, j)` stands for
/// `cells[i][j] / denominator`.
pub struct RelevanceMatrix {
    cells: Grid,
    denominator: u64,
}

impl RelevanceMatrix {
    pub closed spec fn rows(&self) -> nat {
        grid_rows(self.cells)
    }

    pub closed spec fn cols(&self) -> nat {
        grid_cols(self.cells)
    }

    /// The numerator of entry `(i, j)`.
    pub closed spec fn entry(&self, i: int, j: int) -> u64 {
        grid_cells(self.cells)[i * self.cols() + j]
    }

    pub closed spec fn denom(&self) -> u64 {
        self.denominator
    }

    /// Shape `rows × cols`, each entry the placeholder relevance.
    pub open spec fn is_placeholder(&self) -> bool {
        &&& self.rows() > 0 && self.cols() > 0
        &&& self.denom() == self.rows() + self.cols()
        &&& forall|i: int, j: int|
            0 <= i < self.rows() && 0 <= j < self.cols() ==> #[trigger] self.entry(i, j)
                == relevance_numerator(i, j)
    }

    pub closed spec fn wf(&self) -> bool {
        grid_cells(self.cells).len() == grid_rows(self.cells) * grid_cols(self.cells)
    }

    /// The placeholder matrix for `n_texts` texts and `n_keywords` keywords;
    /// `None` when either is zero.
    pub fn build(n_texts: usize, n_keywords: usize) -> (r: Option<RelevanceMatrix>)
        ensures
            (n_texts == 0 || n_keywords == 0 || n_texts * n_keywords > usize::MAX || n_texts
                + n_keywords > usize::MAX) <==> r is None,
            r matches Some(m) ==> m.wf() && m.is_placeholder() && m.rows() == n_texts
                && m.cols() == n_keywords,
    {
        if n_texts == 0 || n_keywords == 0 {
            return None;
        }
        if n_texts.checked_mul(n_keywords).is_none() || n_texts.checked_add(n_keywords).is_none() {
            return None;
        }
        let mut cells: Vec<u64> = Vec::new();
        let mut i: usize = 0;
        while i < n_texts
            invariant
                n_texts * n_keywords <= usize::MAX,
                n_texts + n_keywords <= usize::MAX,
                i <= n_texts,
                cells@.len() == i * n_keywords,
                forall|a: int, b: int|
                    0 <= a < i && 0 <= b < n_keywords ==> #[trigger] cells@[a * n_keywords + b]
                        == a + b,
            decreases n_texts - i,
        {
            let mut j: usize = 0;
            while j < n_keywords
                invariant
                    n_texts * n_keywords <= usize::MAX,
                    n_texts + n_keywords <= usize::MAX,
                    i < n_texts,
                    j <= n_keywords,
                    cells@.len() == i * n_keywords + j,
                    forall|a: int, b: int|
                        0 <= a < i && 0 <= b < n_keywords ==> #[trigger] cells@[a * n_keywords
                            + b] == a + b,
                    forall|b: int| 0 <= b < j ==> #[trigger] cells@[i * n_keywords + b] == i + b,
                decreases n_keywords - j,
            {
                proof {
                    assert(i * n_keywords + j < n_texts * n_keywords) by (nonlinear_arith)
                        requires
                            i < n_texts,
                            j < n_keywords,
                    ;
                }
                let ghost prev = cells@;
                cells.push((i + j) as u64);
                proof {
                    assert forall|a: int, b: int|
                        0 <= a < i && 0 <= b < n_keywords implies #[trigger] cells@[a * n_keywords
                        + b] == a + b by {
                        assert(a * n_keywords + b < i * n_keywords) by (nonlinear_arith)
                            requires
                                a < i,
                                b < n_keywords,
                        ;
                        assert(cells@[a * n_keywords + b] == prev[a * n_keywords + b]);
                    }
                }
                j = j + 1;
            }
            proof {
                assert((i + 1) * n_keywords == i * n_keywords + n_keywords) by (nonlinear_arith);
                assert forall|a: int, b: int|
                    0 <= a < i + 1 && 0 <= b < n_keywords implies #[trigger] cells@[a
                    * n_keywords + b] == a + b by {
                    if a == i {
                        assert(cells@[i * n_keywords + b] == i + b);
                    }
                }
            }
            i = i + 1;
        }
        match grid_from_cells(n_texts, n_keywords, cells) {
            Some(g) => {
                let m = RelevanceMatrix { cells: g, denominator: (n_texts + n_keywords) as u64 };
                proof {
                    assert forall|a: int, b: int|
                        0 <= a < m.rows() && 0 <= b < m.cols() implies #[trigger] m.entry(a, b)
                        == relevance_numerator(a, b) by {
                        assert(cells@[a * n_keywords + b] == a + b);
                    }
                }
                Some(m)
            },
            None => None,
        }
    }

    /// Number of rows (texts).
    pub fn nrows(&self) -> (r: usize)
        ensures
            r == self.rows(),
    {
        grid_nrows(&self.cells)
    }

    /// Number of columns (keywords).
    pub fn ncols(&self) -> (r: usize)
        ensures
            r == self.cols(),
    {
        grid_ncols(&self.cells)
    }

    /// The common denominator of the entries.
    pub fn denominator(&self) -> (r: u64)
        ensures
            r == self.denom(),
    {
        self.denominator
    }

    /// The numerators of column `j`, row by row.
    pub fn column(&self, j: usize) -> (r: Vec<u64>)
        requires
            self.wf(),
            j < self.cols(),
        ensures
            r@.len() == self.rows(),
            forall|i: int| 0 <= i < self.rows() ==> r@[i] == self.entry(i, j as int),
    {
        let n = grid_nrows(&self.cells);
        let mut r: Vec<u64> = Vec::new();
        let mut i: usize = 0;
        while i < n
            invariant
                n == self.rows(),
                j < self.cols(),
                i <= n,
                r@.len() == i,
                forall|a: int| 0 <= a < i ==> r@[a] == self.entry(a, j as int),
            decreases n - i,
        {
            match grid_get(&self.cells, i, j) {
                Some(v) => r.push(v),
                None => {
                    proof {
                        assert(false);
                    }
                    r.push(0)
                },
            }
            i = i + 1;
        }
        r
    }
}

} // verus!
