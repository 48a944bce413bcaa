use vstd::prelude::*;

use rayon::iter::IndexedParallelIterator;
use rayon::iter::IntoParallelRefIterator;
use rayon::iter::ParallelIterator;

use crate::dtype::Shape;
use crate::raw_bool::RawBool;

verus! {

/// Element count above which elementwise kernels fan work across a
/// thread pool; below it they stay sequential.
pub const MULTI_THREAD_THRESHOLD: usize = 1000000;

/// Addition on the scalar cells, wrapping around on overflow.
pub open spec fn wadd(a: i64, b: i64) -> i64 {
    a.wrapping_add(b)
}

/// Multiplication on the scalar cells, wrapping around on overflow.
pub open spec fn wmul(a: i64, b: i64) -> i64 {
    a.wrapping_mul(b)
}

/// Subtraction on the scalar cells, wrapping around on overflow.
pub open spec fn wsub(a: i64, b: i64) -> i64 {
    a.wrapping_sub(b)
}

/// Elementwise sum of two equally long cell sequences.
pub open spec fn ew_add(a: Seq<i64>, b: Seq<i64>) -> Seq<i64> {
    Seq::new(a.len(), |i: int| wadd(a[i], b[i]))
}

/// Elementwise difference of two equally long cell sequences.
pub open spec fn ew_sub(a: Seq<i64>, b: Seq<i64>) -> Seq<i64> {
    Seq::new(a.len(), |i: int| wsub(a[i], b[i]))
}

/// Every cell multiplied by one scalar.
pub open spec fn scalar_mul_seq(a: Seq<i64>, s: i64) -> Seq<i64> {
    Seq::new(a.len(), |i: int| wmul(a[i], s))
}

/// The first `k` terms of the dot product behind cell (`i`, `j`) of a
/// matrix product, accumulated left to right.
pub open spec fn dot_upto(a: Seq<i64>, b: Seq<i64>, m: int, o: int, i: int, j: int, k: int) -> i64
    decreases k,
{
    if k <= 0 {
        0
    } else {
        wadd(dot_upto(a, b, m, o, i, j, k - 1), wmul(a[i * m + (k - 1)], b[(k - 1) * o + j]))
    }
}

/// Cell (`i`, `j`) of the product of an n-by-m and an m-by-o matrix.
pub open spec fn matmul_elem(a: Seq<i64>, b: Seq<i64>, m: int, o: int, i: int, j: int) -> i64 {
    dot_upto(a, b, m, o, i, j, m)
}

/// Row-major product of an n-by-m and an m-by-o matrix.
pub open spec fn matmul_seq(a: Seq<i64>, b: Seq<i64>, n: int, m: int, o: int) -> Seq<i64> {
    Seq::new((n * o) as nat, |t: int| matmul_elem(a, b, m, o, t / o, t % o))
}

/// The transpose of an r-by-c row-major matrix: a c-by-r matrix.
pub open spec fn transpose_seq(a: Seq<i64>, r: int, c: int) -> Seq<i64> {
    Seq::new((r * c) as nat, |t: int| a[(t % r) * c + t / r])
}

/// Sum of the first `k` entries of column `j` of an r-by-c matrix.
pub open spec fn col_sum_upto(a: Seq<i64>, c: int, j: int, k: int) -> i64
    decreases k,
{
    if k <= 0 {
        0
    } else {
        wadd(col_sum_upto(a, c, j, k - 1), a[(k - 1) * c + j])
    }
}

/// The c column sums of an r-by-c matrix.
pub open spec fn col_sums(a: Seq<i64>, r: int, c: int) -> Seq<i64> {
    Seq::new(c as nat, |j: int| col_sum_upto(a, c, j, r))
}

/// Every cell plus the bias entry of its column, rows of width `c`.
pub open spec fn broadcast_add_seq(a: Seq<i64>, bias: Seq<i64>, c: int) -> Seq<i64> {
    Seq::new(a.len(), |i: int| wadd(a[i], bias[i % c]))
}

/// One flag per cell: whether the cell exceeds `t`.
pub open spec fn mask_larger(a: Seq<i64>, t: i64) -> Seq<bool> {
    Seq::new(a.len(), |i: int| a[i] > t)
}

/// One flag per cell: whether the cell is below `t`.
pub open spec fn mask_smaller(a: Seq<i64>, t: i64) -> Seq<bool> {
    Seq::new(a.len(), |i: int| a[i] < t)
}

/// The sequence with every masked cell replaced by `to`.
pub open spec fn replace_masked(a: Seq<i64>, mask: Seq<bool>, to: i64) -> Seq<i64> {
    Seq::new(a.len(), |i: int| if mask[i] { to } else { a[i] })
}

/// Wrapping addition as executable code, for the parallel kernel.
fn wadd_exec(a: i64, b: i64) -> (r: i64)
    ensures
        r == wadd(a, b),
{
    a.wrapping_add(b)
}

/// Relies on rayon: `par_iter().zip(..).map(..).collect()` over indexed
/// parallel iterators keeps element order, so cell i of the result is
/// the mapped pair of cells i of the inputs.
#[verifier::external_body]
fn par_ew_add(a: &Vec<i64>, b: &Vec<i64>) -> (r: Vec<i64>)
    requires
        a@.len() == b@.len(),
    ensures
        r@ == ew_add(a@, b@),
{
    a.par_iter().zip(b.par_iter()).map(|(x, y)| wadd_exec(*x, *y)).collect()
}

/// Dense row-major scalar storage: the cells of one tensor.
#[derive(Debug)]
pub struct RawDense {
    pub body: Vec<i64>,
}

impl View for RawDense {
    type V = Seq<i64>;

    open spec fn view(&self) -> Seq<i64> {
        self.body@
    }
}

/// A fresh vector holding the same cells.
pub fn copy_cells(v: &Vec<i64>) -> (r: Vec<i64>)
    ensures
        r@ == v@,
{
    let mut r: Vec<i64> = Vec::new();
    let n = v.len();
    let mut i: usize = 0;
    while i < n
        invariant
            n == v@.len(),
            i <= n,
            r@ == v@.subrange(0, i as int),
        decreases n - i,
    {
        r.push(v[i]);
        i = i + 1;
        proof {
            assert(r@ =~= v@.subrange(0, i as int));
        }
    }
    proof {
        assert(r@ =~= v@);
    }
    r
}

impl Clone for RawDense {
    fn clone(&self) -> (r: Self)
        ensures
            r@ == self@,
    {
        Self { body: copy_cells(&self.body) }
    }
}

impl RawDense {
    /// Elementwise sum; parallel above the thread threshold.
    pub fn add(&self, other: &Self) -> (r: Self)
        requires
            self@.len() == other@.len(),
        ensures
            r@ == ew_add(self@, other@),
    {
        if self.body.len() > MULTI_THREAD_THRESHOLD {
            Self { body: par_ew_add(&self.body, &other.body) }
        } else {
            let n = self.body.len();
            let mut out: Vec<i64> = Vec::new();
            let mut i: usize = 0;
            while i < n
                invariant
                    n == self@.len(),
                    self@.len() == other@.len(),
                    i <= n,
                    out@ == ew_add(self@, other@).subrange(0, i as int),
                decreases n - i,
            {
                out.push(self.body[i].wrapping_add(other.body[i]));
                i = i + 1;
                proof {
                    assert(out@ =~= ew_add(self@, other@).subrange(0, i as int));
                }
            }
            proof {
                assert(out@ =~= ew_add(self@, other@));
            }
            Self { body: out }
        }
    }

    /// Elementwise difference, always sequential.
    pub fn sub(&self, other: &Self) -> (r: Self)
        requires
            self@.len() == other@.len(),
        ensures
            r@ == ew_sub(self@, other@),
    {
        let n = self.body.len();
        let mut out: Vec<i64> = Vec::new();
        let mut i: usize = 0;
        while i < n
            invariant
                n == self@.len(),
                self@.len() == other@.len(),
                i <= n,
                out@ == ew_sub(self@, other@).subrange(0, i as int),
            decreases n - i,
        {
            out.push(self.body[i].wrapping_sub(other.body[i]));
            i = i + 1;
            proof {
                assert(out@ =~= ew_sub(self@, other@).subrange(0, i as int));
            }
        }
        proof {
            assert(out@ =~= ew_sub(self@, other@));
        }
        Self { body: out }
    }

    /// Every cell multiplied by `scalar`.
    pub fn mul_scalar(&self, scalar: i64) -> (r: Self)
        ensures
            r@ == scalar_mul_seq(self@, scalar),
    {
        let n = self.body.len();
        let mut out: Vec<i64> = Vec::new();
        let mut i: usize = 0;
        while i < n
            invariant
                n == self@.len(),
                i <= n,
                out@ == scalar_mul_seq(self@, scalar).subrange(0, i as int),
            decreases n - i,
        {
            out.push(self.body[i].wrapping_mul(scalar));
            i = i + 1;
            proof {
                assert(out@ =~= scalar_mul_seq(self@, scalar).subrange(0, i as int));
            }
        }
        proof {
            assert(out@ =~= scalar_mul_seq(self@, scalar));
        }
        Self { body: out }
    }

    /// Row-major matrix product.
    pub fn matmul(lhs: &Self, lhs_shape: Shape, rhs: &Self, rhs_shape: Shape) -> (r: Self)
        requires
            lhs_shape is D2,
            rhs_shape is D2,
            shape_cols(lhs_shape) == shape_rows(rhs_shape),
            lhs@.len() == lhs_shape.count(),
            rhs@.len() == rhs_shape.count(),
            shape_rows(lhs_shape) * shape_cols(rhs_shape) <= usize::MAX,
        ensures
            r@ == matmul_seq(
                lhs@,
                rhs@,
                shape_rows(lhs_shape),
                shape_cols(lhs_shape),
                shape_cols(rhs_shape),
            ),
    {
        match (lhs_shape, rhs_shape) {
            (Shape::D2(n, m), Shape::D2(_m2, o)) => {
                let lhs_len = lhs.body.len();
                let rhs_len = rhs.body.len();
                let ghost target = matmul_seq(lhs@, rhs@, n as int, m as int, o as int);
                let mut out: Vec<i64> = Vec::new();
                let mut i: usize = 0;
                while i < n
                    invariant
                        lhs_len == lhs@.len(),
                        rhs_len == rhs@.len(),
                        lhs@.len() == n * m,
                        rhs@.len() == m * o,
                        n * o <= usize::MAX,
                        i <= n,
                        out@.len() == i * o,
                        forall|t: int| 0 <= t < i * o ==> out@[t] == target[t],
                        target == matmul_seq(lhs@, rhs@, n as int, m as int, o as int),
                    decreases n - i,
                {
                    let mut j: usize = 0;
                    while j < o
                        invariant
                            lhs_len == lhs@.len(),
                            rhs_len == rhs@.len(),
                            lhs@.len() == n * m,
                            rhs@.len() == m * o,
                            n * o <= usize::MAX,
                            i < n,
                            j <= o,
                            out@.len() == i * o + j,
                            forall|t: int| 0 <= t < i * o + j ==> out@[t] == target[t],
                            target == matmul_seq(lhs@, rhs@, n as int, m as int, o as int),
                        decreases o - j,
                    {
                        let mut acc: i64 = 0;
                        let mut k: usize = 0;
                        while k < m
                            invariant
                                lhs_len == lhs@.len(),
                                rhs_len == rhs@.len(),
                                lhs@.len() == n * m,
                                rhs@.len() == m * o,
                                i < n,
                                j < o,
                                k <= m,
                                acc == dot_upto(
                                    lhs@,
                                    rhs@,
                                    m as int,
                                    o as int,
                                    i as int,
                                    j as int,
                                    k as int,
                                ),
                            decreases m - k,
                        {
                            proof {
                                lemma_grid_index(i as int, k as int, n as int, m as int);
                                lemma_grid_index(k as int, j as int, m as int, o as int);
                            }
                            let x = lhs.body[i * m + k];
                            let y = rhs.body[k * o + j];
                            acc = acc.wrapping_add(x.wrapping_mul(y));
                            k = k + 1;
                        }
                        proof {
                            lemma_grid_index(i as int, j as int, n as int, o as int);
                            vstd::arithmetic::div_mod::lemma_fundamental_div_mod_converse(
                                i as int * o as int + j as int,
                                o as int,
                                i as int,
                                j as int,
                            );
                            assert(target[i as int * o as int + j as int] == acc);
                        }
                        out.push(acc);
                        j = j + 1;
                    }
                    i = i + 1;
                    proof {
                        assert(i as int * o as int == (i - 1) as int * o as int + o as int)
                            by (nonlinear_arith);
                    }
                }
                proof {
                    assert(out@ =~= target);
                }
                Self { body: out }
            },
            _ => unreached(),
        }
    }

    /// Adds a one-row bias to every row of an r-by-c matrix.
    pub fn add_broadcast(&self, bias: &Self, shape: Shape) -> (r: Self)
        requires
            shape is D2,
            self@.len() == shape.count(),
            bias@.len() == shape_cols(shape),
        ensures
            r@ == broadcast_add_seq(self@, bias@, shape_cols(shape)),
    {
        match shape {
            Shape::D2(rows, c) => {
                let n = self.body.len();
                let mut out: Vec<i64> = Vec::new();
                let mut i: usize = 0;
                while i < n
                    invariant
                        n == self@.len(),
                        n == rows * c,
                        bias@.len() == c,
                        i <= n,
                        out@ == broadcast_add_seq(self@, bias@, c as int).subrange(0, i as int),
                    decreases n - i,
                {
                    proof {
                        // a cell exists, so the row width cannot be zero
                        assert(c > 0) by (nonlinear_arith)
                            requires 0 <= i < n, n == rows * c;
                    }
                    out.push(self.body[i].wrapping_add(bias.body[i % c]));
                    i = i + 1;
                    proof {
                        assert(out@ =~= broadcast_add_seq(self@, bias@, c as int).subrange(
                            0,
                            i as int,
                        ));
                    }
                }
                proof {
                    assert(out@ =~= broadcast_add_seq(self@, bias@, c as int));
                }
                Self { body: out }
            },
            _ => unreached(),
        }
    }

    /// Column sums of an r-by-c matrix; a vector shape is handed back
    /// unchanged.
    pub fn sum_batch(&self, shape: Shape) -> (r: Self)
        requires
            self@.len() == shape.count(),
        ensures
            match shape {
                Shape::D1(_) => r@ == self@,
                Shape::D2(rows, c) => r@ == col_sums(self@, rows as int, c as int),
            },
    {
        match shape {
            Shape::D1(_n) => Self { body: copy_cells(&self.body) },
            Shape::D2(rows, c) => {
                let total = self.body.len();
                let mut out: Vec<i64> = Vec::new();
                let mut j: usize = 0;
                while j < c
                    invariant
                        total == self@.len(),
                        self@.len() == rows * c,
                        j <= c,
                        out@ == col_sums(self@, rows as int, c as int).subrange(0, j as int),
                    decreases c - j,
                {
                    let mut acc: i64 = 0;
                    let mut k: usize = 0;
                    while k < rows
                        invariant
                            total == self@.len(),
                            self@.len() == rows * c,
                            j < c,
                            k <= rows,
                            acc == col_sum_upto(self@, c as int, j as int, k as int),
                        decreases rows - k,
                    {
                        proof {
                            lemma_grid_index(k as int, j as int, rows as int, c as int);
                        }
                        acc = acc.wrapping_add(self.body[k * c + j]);
                        k = k + 1;
                    }
                    out.push(acc);
                    j = j + 1;
                    proof {
                        assert(out@ =~= col_sums(self@, rows as int, c as int).subrange(
                            0,
                            j as int,
                        ));
                    }
                }
                proof {
                    assert(out@ =~= col_sums(self@, rows as int, c as int));
                }
                Self { body: out }
            },
        }
    }

    /// One flag per cell: cell strictly above `condition`.
    pub fn select_larger_than(&self, condition: i64) -> (r: RawBool)
        ensures
            r.wf(),
            r@ == mask_larger(self@, condition),
    {
        let mut bools = RawBool::new();
        let n = self.body.len();
        let mut i: usize = 0;
        while i < n
            invariant
                n == self@.len(),
                i <= n,
                bools.wf(),
                bools.len == i,
                bools@ == mask_larger(self@, condition).subrange(0, i as int),
            decreases n - i,
        {
            bools.push(self.body[i] > condition);
            i = i + 1;
            proof {
                assert(bools@ =~= mask_larger(self@, condition).subrange(0, i as int));
            }
        }
        proof {
            assert(bools@ =~= mask_larger(self@, condition));
        }
        bools
    }

    /// One flag per cell: cell strictly below `condition`.
    pub fn select_smaller_than(&self, condition: i64) -> (r: RawBool)
        ensures
            r.wf(),
            r@ == mask_smaller(self@, condition),
    {
        let mut bools = RawBool::new();
        let n = self.body.len();
        let mut i: usize = 0;
        while i < n
            invariant
                n == self@.len(),
                i <= n,
                bools.wf(),
                bools.len == i,
                bools@ == mask_smaller(self@, condition).subrange(0, i as int),
            decreases n - i,
        {
            bools.push(self.body[i] < condition);
            i = i + 1;
            proof {
                assert(bools@ =~= mask_smaller(self@, condition).subrange(0, i as int));
            }
        }
        proof {
            assert(bools@ =~= mask_smaller(self@, condition));
        }
        bools
    }

    /// The cells with every masked one replaced by `to`.
    pub fn replace_where_to_scalar(&self, mask: &RawBool, to: i64) -> (r: Self)
        requires
            mask.wf(),
            mask@.len() == self@.len(),
        ensures
            r@ == replace_masked(self@, mask@, to),
    {
        let n = self.body.len();
        let mut out: Vec<i64> = Vec::new();
        let mut i: usize = 0;
        while i < n
            invariant
                n == self@.len(),
                mask.wf(),
                mask@.len() == self@.len(),
                i <= n,
                out@ == replace_masked(self@, mask@, to).subrange(0, i as int),
            decreases n - i,
        {
            if mask.get(i) {
                out.push(to);
            } else {
                out.push(self.body[i]);
            }
            i = i + 1;
            proof {
                assert(out@ =~= replace_masked(self@, mask@, to).subrange(0, i as int));
            }
        }
        proof {
            assert(out@ =~= replace_masked(self@, mask@, to));
        }
        Self { body: out }
    }

    /// The transpose of an r-by-c matrix; a vector is handed back
    /// unchanged.
    pub fn transpose(&self, shape: Shape) -> (r: Self)
        requires
            self@.len() == shape.count(),
        ensures
            match shape {
                Shape::D1(_) => r@ == self@,
                Shape::D2(rows, c) => r@ == transpose_seq(self@, rows as int, c as int),
            },
    {
        match shape {
            Shape::D1(_n) => Self { body: copy_cells(&self.body) },
            Shape::D2(rows, c) => {
                let total = self.body.len();
                let ghost target = transpose_seq(self@, rows as int, c as int);
                let mut out: Vec<i64> = Vec::new();
                let mut col: usize = 0;
                while col < c
                    invariant
                        total == self@.len(),
                        self@.len() == rows * c,
                        col <= c,
                        out@.len() == col * rows,
                        forall|t: int| 0 <= t < col * rows ==> out@[t] == target[t],
                        target == transpose_seq(self@, rows as int, c as int),
                    decreases c - col,
                {
                    let mut row: usize = 0;
                    while row < rows
                        invariant
                            total == self@.len(),
                            self@.len() == rows * c,
                            col < c,
                            row <= rows,
                            out@.len() == col * rows + row,
                            forall|t: int| 0 <= t < col * rows + row ==> out@[t] == target[t],
                            target == transpose_seq(self@, rows as int, c as int),
                        decreases rows - row,
                    {
                        proof {
                            lemma_grid_index(row as int, col as int, rows as int, c as int);
                            lemma_grid_index(col as int, row as int, c as int, rows as int);
                            vstd::arithmetic::div_mod::lemma_fundamental_div_mod_converse(
                                col as int * rows as int + row as int,
                                rows as int,
                                col as int,
                                row as int,
                            );
                            assert(c as int * rows as int == rows as int * c as int)
                                by (nonlinear_arith);
                            assert(target[col as int * rows as int + row as int] == self@[
                                row as int * c as int + col as int
                            ]);
                        }
                        out.push(self.body[row * c + col]);
                        row = row + 1;
                    }
                    col = col + 1;
                    proof {
                        assert(col as int * rows as int == (col - 1) as int * rows as int
                            + rows as int) by (nonlinear_arith);
                    }
                }
                proof {
                    assert(out@.len() == c as int * rows as int);
                    assert(c as int * rows as int == rows as int * c as int)
                        by (nonlinear_arith);
                    assert(out@ =~= target);
                }
                Self { body: out }
            },
        }
    }
}

/// The row count a shape declares; a vector counts as one row.
pub open spec fn shape_rows(s: Shape) -> int {
    match s {
        Shape::D1(_) => 1,
        Shape::D2(r, _) => r as int,
    }
}

/// The column count a shape declares.
pub open spec fn shape_cols(s: Shape) -> int {
    match s {
        Shape::D1(n) => n as int,
        Shape::D2(_, c) => c as int,
    }
}

/// Cell (`i`, `j`) of an r-by-c grid lies inside the flat storage.
pub proof fn lemma_grid_index(i: int, j: int, r: int, c: int)
    requires
        0 <= i < r,
        0 <= j < c,
    ensures
        0 <= i * c + j < r * c,
{
    assert(0 <= i && i < r && 0 <= j && j < c ==> 0 <= i * c + j && i * c + j < r * c)
        by (nonlinear_arith);
}

} // verus!
