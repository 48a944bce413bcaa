use vstd::prelude::*;
use vstd::string::StringExecFns;

use crate::dtype::Shape;
use crate::errors::EngineError;
use crate::raw_bool::RawBool;
use crate::raw_dense::RawDense;
use crate::raw_dense::broadcast_add_seq;
use crate::raw_dense::col_sums;
use crate::raw_dense::ew_add;
use crate::raw_dense::mask_larger;
use crate::raw_dense::mask_smaller;
use crate::raw_dense::matmul_seq;
use crate::raw_dense::replace_masked;
use crate::raw_dense::transpose_seq;
use crate::rng::sample_range;
use crate::rng::fresh_rng;
use crate::storage::Storage;
use crate::storage::StorageModel;
use crate::tensor::Tensor;
use crate::tensor::TensorModel;

verus! {

/// How many flags of a sequence are set.
pub open spec fn count_trues(s: Seq<bool>) -> int
    decreases s.len(),
{
    if s.len() == 0 {
        0
    } else {
        count_trues(s.drop_last()) + if s.last() { 1int } else { 0int }
    }
}

/// A statically shape-tagged r-by-c tensor. The tag pins the cell
/// count; the storage says whether the cells are scalars or flags.
#[derive(Debug)]
pub struct Tensor2d<const R: usize, const C: usize> {
    pub name: String,
    pub storage: Storage,
}

impl<const R: usize, const C: usize> View for Tensor2d<R, C> {
    type V = StorageModel;

    open spec fn view(&self) -> StorageModel {
        self.storage@
    }
}

impl<const R: usize, const C: usize> Clone for Tensor2d<R, C> {
    fn clone(&self) -> (r: Self)
        ensures
            r@ == self@,
            r.name@ == self.name@,
            self.wf() ==> r.wf(),
    {
        Self { name: self.name.clone(), storage: self.storage.clone() }
    }
}

impl<const R: usize, const C: usize> Tensor2d<R, C> {
    /// The storage holds exactly the r-by-c cells the tag declares.
    pub open spec fn wf(self) -> bool {
        &&& self.storage.wf()
        &&& !(self.storage@ is Absent)
        &&& self.storage@.size() == R * C
    }

    /// An all-zero scalar tensor.
    pub fn new_zeros() -> (r: Self)
        requires
            R * C <= usize::MAX,
        ensures
            r.wf(),
            r@ == StorageModel::Cells(Seq::new((R * C) as nat, |i: int| 0i64)),
    {
        Self::new_filled(0)
    }

    /// An all-one scalar tensor.
    pub fn new_ones() -> (r: Self)
        requires
            R * C <= usize::MAX,
        ensures
            r.wf(),
            r@ == StorageModel::Cells(Seq::new((R * C) as nat, |i: int| 1i64)),
    {
        Self::new_filled(1)
    }

    /// A scalar tensor with every cell `fill`.
    fn new_filled(fill: i64) -> (r: Self)
        requires
            R * C <= usize::MAX,
        ensures
            r.wf(),
            r@ == StorageModel::Cells(Seq::new((R * C) as nat, |i: int| fill)),
    {
        let total: usize = R * C;
        let mut body: Vec<i64> = Vec::new();
        let mut i: usize = 0;
        while i < total
            invariant
                i <= total,
                body@ == Seq::new(i as nat, |k: int| fill),
            decreases total - i,
        {
            body.push(fill);
            i = i + 1;
            proof {
                assert(body@ =~= Seq::new(i as nat, |k: int| fill));
            }
        }
        let r = Self { name: "no_name".to_owned(), storage: Storage::Dense(RawDense { body }) };
        proof {
            assert(r@.cells() =~= Seq::new((R * C) as nat, |i: int| fill));
        }
        r
    }

    /// The type's textual tag, e.g. `Tensor2d<2, 3, i64>`.
    pub fn type_label() -> (r: String)
        ensures
            r@ == "Tensor2d<"@ + Shape::dec_digits(R as int) + ", "@ + Shape::dec_digits(C as int)
                + ", i64>"@,
    {
        let mut s = String::new();
        s.append("Tensor2d<");
        crate::dtype::append_usize(&mut s, R);
        s.append(", ");
        crate::dtype::append_usize(&mut s, C);
        s.append(", i64>");
        proof {
            assert(s@ =~= "Tensor2d<"@ + Shape::dec_digits(R as int) + ", "@ + Shape::dec_digits(
                C as int,
            ) + ", i64>"@);
        }
        s
    }

    /// Read access to the raw storage.
    pub fn storage(&self) -> (r: &Storage)
        ensures
            r@ == self@,
    {
        &self.storage
    }

    /// Replaces the stored contents with those of `new_value`.
    pub fn override_value(&mut self, new_value: Self)
        ensures
            final(self)@ == new_value@,
            final(self).name@ == old(self).name@,
            new_value.wf() ==> final(self).wf(),
    {
        self.storage = new_value.storage;
    }

    /// Erases the static tag into a dynamically shaped tensor with the
    /// same contents, declared as r-by-c.
    pub fn to_untyped(&self) -> (r: Tensor)
        ensures
            r@ == (TensorModel { shape: Shape::D2(R, C), data: self@ }),
            r.name@ == self.name@,
            self.wf() ==> r.wf(),
    {
        Tensor {
            name: self.name.clone(),
            shape: Shape::D2(R, C),
            storage: self.storage.clone(),
        }
    }

    /// Renames the tensor, leaving the contents alone.
    pub fn name(self, name: &str) -> (r: Self)
        ensures
            r@ == self@,
            r.name@ == name@,
            self.wf() ==> r.wf(),
    {
        Self { name: name.to_owned(), storage: self.storage }
    }

    /// Elementwise sum of two scalar tensors of one shape.
    pub fn add(&self, other: &Self) -> (r: Self)
        requires
            self.wf(),
            other.wf(),
            self@ is Cells,
            other@ is Cells,
        ensures
            r.wf(),
            r@ == StorageModel::Cells(ew_add(self@.cells(), other@.cells())),
    {
        match (&self.storage, &other.storage) {
            (Storage::Dense(a), Storage::Dense(b)) => {
                Self { name: "added".to_owned(), storage: Storage::Dense(a.add(b)) }
            },
            _ => unreached(),
        }
    }

    /// Adds a one-row bias to every row.
    pub fn add_broadcast(&self, bias: &Tensor2d<1, C>) -> (r: Self)
        requires
            self.wf(),
            bias.wf(),
            self@ is Cells,
            bias@ is Cells,
        ensures
            r.wf(),
            r@ == StorageModel::Cells(broadcast_add_seq(self@.cells(), bias@.cells(), C as int)),
    {
        match (&self.storage, &bias.storage) {
            (Storage::Dense(raw), Storage::Dense(raw_bias)) => {
                let summed = raw.add_broadcast(raw_bias, Shape::D2(R, C));
                Self { name: "add_broadcast".to_owned(), storage: Storage::Dense(summed) }
            },
            _ => unreached(),
        }
    }

    /// The column sums, as a one-row tensor.
    pub fn sum_batch(&self) -> (r: Tensor2d<1, C>)
        requires
            self.wf(),
            self@ is Cells,
        ensures
            r.wf(),
            r@ == StorageModel::Cells(col_sums(self@.cells(), R as int, C as int)),
    {
        match &self.storage {
            Storage::Dense(raw) => {
                let summed = raw.sum_batch(Shape::D2(R, C));
                let r = Tensor2d::<1, C> {
                    name: "sum_batch".to_owned(),
                    storage: Storage::Dense(summed),
                };
                proof {
                    assert(1int * C as int == C as int) by (nonlinear_arith);
                }
                r
            },
            _ => unreached(),
        }
    }

    /// One flag per cell: cell strictly above `condition`.
    pub fn select_larger_than(&self, condition: i64) -> (r: Tensor2d<R, C>)
        requires
            self.wf(),
            self@ is Cells,
        ensures
            r.wf(),
            r@ == StorageModel::Bools(mask_larger(self@.cells(), condition)),
    {
        match &self.storage {
            Storage::Dense(raw) => {
                let raw_bool = raw.select_larger_than(condition);
                Tensor2d::<R, C> {
                    name: "select_larger_than".to_owned(),
                    storage: Storage::DenseBool(raw_bool),
                }
            },
            _ => unreached(),
        }
    }

    /// One flag per cell: cell strictly below `condition`.
    pub fn select_smaller_than(&self, condition: i64) -> (r: Tensor2d<R, C>)
        requires
            self.wf(),
            self@ is Cells,
        ensures
            r.wf(),
            r@ == StorageModel::Bools(mask_smaller(self@.cells(), condition)),
    {
        match &self.storage {
            Storage::Dense(raw) => {
                let raw_bool = raw.select_smaller_than(condition);
                Tensor2d::<R, C> {
                    name: "select_smaller_than".to_owned(),
                    storage: Storage::DenseBool(raw_bool),
                }
            },
            _ => unreached(),
        }
    }

    /// The cells with every one under a set mask flag replaced by `to`.
    pub fn replace_scalar_where(&self, mask: &Tensor2d<R, C>, to: i64) -> (r: Self)
        requires
            self.wf(),
            mask.wf(),
            self@ is Cells,
            mask@ is Bools,
        ensures
            r.wf(),
            r@ == StorageModel::Cells(replace_masked(self@.cells(), mask@.bools(), to)),
    {
        match (&self.storage, &mask.storage) {
            (Storage::Dense(raw), Storage::DenseBool(raw_mask)) => {
                let replaced = raw.replace_where_to_scalar(raw_mask, to);
                Self {
                    name: "replace_scalar_where".to_owned(),
                    storage: Storage::Dense(replaced),
                }
            },
            _ => unreached(),
        }
    }

    /// The transposed c-by-r tensor.
    pub fn transpose(&self) -> (r: Tensor2d<C, R>)
        requires
            self.wf(),
            self@ is Cells,
        ensures
            r.wf(),
            r@ == StorageModel::Cells(transpose_seq(self@.cells(), R as int, C as int)),
    {
        match &self.storage {
            Storage::Dense(raw) => {
                let transposed = raw.transpose(Shape::D2(R, C));
                let r = Tensor2d::<C, R> {
                    name: "transposed".to_owned(),
                    storage: Storage::Dense(transposed),
                };
                proof {
                    assert(C as int * R as int == R as int * C as int) by (nonlinear_arith);
                }
                r
            },
            _ => unreached(),
        }
    }

    /// For each row, the column of its greatest cell; the first such
    /// column when the greatest value repeats.
    pub fn top_index_per_batch(&self) -> (r: Vec<usize>)
        requires
            self.wf(),
            self@ is Cells,
            C > 0,
        ensures
            r@.len() == R,
            forall|i: int| 0 <= i < R ==> 0 <= #[trigger] r@[i] < C,
            forall|i: int, j: int|
                0 <= i < R && 0 <= j < C ==> self@.cells()[#[trigger] (i * C + j)]
                    <= self@.cells()[i * C + r@[i]],
            forall|i: int, j: int|
                0 <= i < R && 0 <= j < r@[i] ==> self@.cells()[#[trigger] (i * C + j)]
                    < self@.cells()[i * C + r@[i]],
    {
        match &self.storage {
            Storage::Dense(raw) => {
                let ghost cells = self@.cells();
                let total = raw.body.len();
                let mut indices: Vec<usize> = Vec::new();
                let mut i: usize = 0;
                while i < R
                    invariant
                        self@ is Cells,
                        cells == self@.cells(),
                        cells.len() == R * C,
                        total == cells.len(),
                        C > 0,
                        raw@ == cells,
                        i <= R,
                        indices@.len() == i,
                        forall|p: int| 0 <= p < i ==> 0 <= #[trigger] indices@[p] < C,
                        forall|p: int, j: int|
                            0 <= p < i && 0 <= j < C ==> cells[#[trigger] (p * C + j)] <= cells[
                                p * C + indices@[p]
                            ],
                        forall|p: int, j: int|
                            0 <= p < i && 0 <= j < indices@[p] ==> cells[#[trigger] (p * C + j)]
                                < cells[p * C + indices@[p]],
                    decreases R - i,
                {
                    proof {
                        crate::raw_dense::lemma_grid_index(i as int, 0, R as int, C as int);
                    }
                    let mut best: usize = 0;
                    let mut largest: i64 = raw.body[i * C];
                    let mut j: usize = 1;
                    while j < C
                        invariant
                            self@ is Cells,
                            cells == self@.cells(),
                            cells.len() == R * C,
                            total == cells.len(),
                            raw@ == cells,
                            i < R,
                            C > 0,
                            1 <= j <= C,
                            best < j,
                            largest == cells[i as int * C as int + best as int],
                            forall|q: int|
                                0 <= q < j ==> #[trigger] cells[i as int * C as int + q]
                                    <= largest,
                            forall|q: int|
                                0 <= q < best ==> #[trigger] cells[i as int * C as int + q]
                                    < largest,
                        decreases C - j,
                    {
                        proof {
                            crate::raw_dense::lemma_grid_index(
                                i as int,
                                j as int,
                                R as int,
                                C as int,
                            );
                        }
                        let val = raw.body[i * C + j];
                        if val > largest {
                            largest = val;
                            best = j;
                        }
                        j = j + 1;
                    }
                    indices.push(best);
                    i = i + 1;
                }
                indices
            },
            _ => unreached(),
        }
    }

    /// An all-true flag tensor.
    pub fn new_tures() -> (r: Self)
        requires
            R * C <= usize::MAX,
        ensures
            r.wf(),
            r@ == StorageModel::Bools(Seq::new((R * C) as nat, |i: int| true)),
    {
        Self::new_flags(true)
    }

    /// An all-false flag tensor.
    pub fn new_falses() -> (r: Self)
        requires
            R * C <= usize::MAX,
        ensures
            r.wf(),
            r@ == StorageModel::Bools(Seq::new((R * C) as nat, |i: int| false)),
    {
        Self::new_flags(false)
    }

    /// A flag tensor with every flag `fill`.
    fn new_flags(fill: bool) -> (r: Self)
        requires
            R * C <= usize::MAX,
        ensures
            r.wf(),
            r@ == StorageModel::Bools(Seq::new((R * C) as nat, |i: int| fill)),
    {
        let total: usize = R * C;
        let mut bools = RawBool::new();
        let mut i: usize = 0;
        while i < total
            invariant
                i <= total,
                total <= usize::MAX,
                bools.wf(),
                bools.len == i,
                bools@ == Seq::new(i as nat, |k: int| fill),
            decreases total - i,
        {
            bools.push(fill);
            i = i + 1;
            proof {
                assert(bools@ =~= Seq::new(i as nat, |k: int| fill));
            }
        }
        let r = Self { name: "bool new_trues".to_owned(), storage: Storage::DenseBool(bools) };
        proof {
            assert(r@.bools() =~= Seq::new((R * C) as nat, |i: int| fill));
        }
        r
    }

    /// How many flags of a flag tensor are set.
    pub fn count_true(&self) -> (r: usize)
        requires
            self.wf(),
            self@ is Bools,
        ensures
            r == count_trues(self@.bools()),
    {
        match &self.storage {
            Storage::DenseBool(raw) => {
                let ghost flags = self@.bools();
                let total = raw.len;
                let mut counter: usize = 0;
                let mut it = raw.iter();
                let mut seen: usize = 0;
                while seen < total
                    invariant
                        raw.wf(),
                        flags == raw@,
                        flags.len() == R * C,
                        total == raw.len,
                        it.raw_bool == raw,
                        it.current_index == seen,
                        seen <= total,
                        counter == count_trues(flags.subrange(0, seen as int)),
                        counter <= seen,
                    decreases total - seen,
                {
                    match it.next() {
                        Some(b) => {
                            proof {
                                assert(flags.subrange(0, seen as int + 1).drop_last() =~= flags
                                    .subrange(0, seen as int));
                            }
                            if b {
                                counter = counter + 1;
                            }
                            seen = seen + 1;
                        },
                        None => {
                            unreached()
                        },
                    }
                }
                proof {
                    assert(flags.subrange(0, seen as int) =~= flags);
                }
                counter
            },
            _ => unreached(),
        }
    }

    /// Wraps a matrix literal, row by row.
    pub fn new_from_martix(matrix: [[i64; C]; R]) -> (r: Self)
        requires
            R * C <= usize::MAX,
        ensures
            r.wf(),
            r@ is Cells,
            forall|i: int, j: int|
                0 <= i < R && 0 <= j < C ==> r@.cells()[#[trigger] (i * C + j)]
                    == matrix@[i]@[j],
    {
        let mut body: Vec<i64> = Vec::new();
        let mut i: usize = 0;
        while i < R
            invariant
                i <= R,
                R * C <= usize::MAX,
                body@.len() == i * C,
                forall|p: int, j: int|
                    0 <= p < i && 0 <= j < C ==> body@[#[trigger] (p * C + j)] == matrix@[p]@[j],
            decreases R - i,
        {
            let row = matrix[i];
            let mut j: usize = 0;
            while j < C
                invariant
                    i < R,
                    j <= C,
                    R * C <= usize::MAX,
                    row == matrix@[i as int],
                    body@.len() == i * C + j,
                    forall|p: int, q: int|
                        0 <= p < i && 0 <= q < C ==> body@[#[trigger] (p * C + q)]
                            == matrix@[p]@[q],
                    forall|q: int| 0 <= q < j ==> body@[i as int * C as int + q] == matrix@[
                        i as int
                    ]@[q],
                decreases C - j,
            {
                proof {
                    crate::raw_dense::lemma_grid_index(i as int, j as int, R as int, C as int);
                }
                body.push(row[j]);
                j = j + 1;
                proof {
                    assert forall|p: int, q: int|
                        0 <= p < i && 0 <= q < C implies body@[#[trigger] (p * C + q)]
                            == matrix@[p]@[q] by {
                        crate::raw_dense::lemma_grid_index(p, q, i as int, C as int);
                    }
                }
            }
            proof {
                assert((i + 1) as int * C as int == i as int * C as int + C as int)
                    by (nonlinear_arith);
                assert forall|p: int, q: int|
                    0 <= p < i + 1 && 0 <= q < C implies body@[#[trigger] (p * C + q)]
                        == matrix@[p]@[q] by {
                    if p == i as int {
                        assert(body@[i as int * C as int + q] == matrix@[i as int]@[q]);
                    } else {
                        crate::raw_dense::lemma_grid_index(p, q, i as int, C as int);
                    }
                }
            }
            i = i + 1;
        }
        proof {
            assert(R as int * C as int == (R * C) as int);
        }
        Self { name: "no_name".to_owned(), storage: Storage::Dense(RawDense { body }) }
    }

    /// Wraps a flat cell vector, when its length is r times c.
    pub fn new_from_vec(data: Vec<i64>) -> (r: Result<Self, EngineError>)
        ensures
            match r {
                Ok(t) => {
                    &&& data@.len() == R * C
                    &&& t.wf()
                    &&& t@ == StorageModel::Cells(data@)
                },
                Err(e) => {
                    &&& data@.len() != R * C
                    &&& e == (EngineError::ShapeMismatch {
                        expected: Shape::D2(R, C),
                        found: Shape::D1(data@.len() as usize),
                    })
                },
            },
    {
        let n = data.len();
        let fits = match R.checked_mul(C) {
            Some(total) => total == n,
            None => false,
        };
        if !fits {
            return Err(
                EngineError::ShapeMismatch { expected: Shape::D2(R, C), found: Shape::D1(n) },
            );
        }
        Ok(Self { name: String::new(), storage: Storage::Dense(RawDense { body: data }) })
    }

    /// Cells drawn uniformly at random from `low..high`.
    pub fn new_uniform(low: i64, high: i64) -> (r: Self)
        requires
            low < high,
            R * C <= usize::MAX,
        ensures
            r.wf(),
            r@ is Cells,
            forall|i: int| 0 <= i < R * C ==> low <= #[trigger] r@.cells()[i] < high,
    {
        let total: usize = R * C;
        let mut rng = fresh_rng();
        let mut body: Vec<i64> = Vec::new();
        let mut i: usize = 0;
        while i < total
            invariant
                i <= total,
                low < high,
                body@.len() == i,
                forall|k: int| 0 <= k < i ==> low <= #[trigger] body@[k] < high,
            decreases total - i,
        {
            body.push(sample_range(&mut rng, low, high));
            i = i + 1;
        }
        Self { name: "created by new_uniform()".to_owned(), storage: Storage::Dense(RawDense { body }) }
    }
}

/// Row-major matrix product of two shape-tagged tensors.
pub fn matmul<const N: usize, const M: usize, const O: usize>(
    lhs: &Tensor2d<N, M>,
    rhs: &Tensor2d<M, O>,
) -> (r: Tensor2d<N, O>)
    requires
        lhs.wf(),
        rhs.wf(),
        lhs@ is Cells,
        rhs@ is Cells,
        N * O <= usize::MAX,
    ensures
        r.wf(),
        r@ == StorageModel::Cells(
            matmul_seq(lhs@.cells(), rhs@.cells(), N as int, M as int, O as int),
        ),
{
    let result_storage = Storage::matmul(
        &lhs.storage,
        Shape::D2(N, M),
        &rhs.storage,
        Shape::D2(M, O),
    );
    Tensor2d::<N, O> { name: "matmul".to_owned(), storage: result_storage }
}

} // verus!
