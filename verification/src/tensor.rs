use vstd::prelude::*;
use vstd::string::StringExecFns;

use crate::dtype::Shape;
use crate::errors::EngineError;
use crate::raw_dense::RawDense;
use crate::raw_dense::col_sums;
use crate::raw_dense::ew_add;
use crate::raw_dense::ew_sub;
use crate::raw_dense::scalar_mul_seq;
use crate::storage::Storage;
use crate::storage::StorageModel;
use crate::tensor2d::Tensor2d;

verus! {

/// Spec-level image of one tensor: its declared shape and its contents.
#[verifier::ext_equal]
pub struct TensorModel {
    pub shape: Shape,
    pub data: StorageModel,
}

impl TensorModel {
    /// The contents, when present, hold exactly the cells the shape
    /// declares.
    pub open spec fn wf(self) -> bool {
        self.data is Absent || self.data.size() == self.shape.count()
    }
}

/// A dynamically shaped tensor: the untyped counterpart of `Tensor2d`.
#[derive(Debug)]
pub struct Tensor {
    pub name: String,
    pub shape: Shape,
    pub storage: Storage,
}

impl View for Tensor {
    type V = TensorModel;

    open spec fn view(&self) -> TensorModel {
        TensorModel { shape: self.shape, data: self.storage@ }
    }
}

impl Clone for Tensor {
    fn clone(&self) -> (r: Self)
        ensures
            r@ == self@,
            r.name@ == self.name@,
            self.wf() ==> r.wf(),
    {
        Self { name: self.name.clone(), shape: self.shape, storage: self.storage.clone() }
    }
}

impl Tensor {
    /// Contents match the declared shape, and packed flags keep their
    /// packing invariant.
    pub open spec fn wf(self) -> bool {
        self.storage.wf() && self@.wf()
    }

    /// A tensor with no contents yet.
    pub fn new_empty() -> (r: Self)
        ensures
            r@ == (TensorModel { shape: Shape::D1(0), data: StorageModel::Absent }),
            r.wf(),
    {
        Self {
            name: "created by Tensor::new_empty".to_owned(),
            shape: Shape::D1(0),
            storage: Storage::Empty,
        }
    }

    /// A tensor of the given shape with every cell one.
    pub fn new_ones(shape: Shape) -> (r: Self)
        requires
            shape.count() <= usize::MAX,
        ensures
            r@.shape == shape,
            r@.data == StorageModel::Cells(Seq::new(shape.count() as nat, |i: int| 1i64)),
            r.wf(),
    {
        let total = match shape.element_count() {
            Some(n) => n,
            None => unreached(),
        };
        let mut body: Vec<i64> = Vec::new();
        let mut i: usize = 0;
        while i < total
            invariant
                i <= total,
                body@ == Seq::new(i as nat, |k: int| 1i64),
            decreases total - i,
        {
            body.push(1);
            i = i + 1;
            proof {
                assert(body@ =~= Seq::new(i as nat, |k: int| 1i64));
            }
        }
        let r = Self { name: "ones".to_owned(), shape, storage: Storage::Dense(RawDense { body }) };
        proof {
            assert(r@.data.cells() =~= Seq::new(shape.count() as nat, |i: int| 1i64));
        }
        r
    }

    /// Wraps a cell vector, when its length fits the shape.
    pub fn new_from_vec(data: Vec<i64>, shape: Shape) -> (r: Result<Self, EngineError>)
        ensures
            match r {
                Ok(t) => {
                    &&& data@.len() == shape.count()
                    &&& t@ == (TensorModel { shape, data: StorageModel::Cells(data@) })
                    &&& t.wf()
                },
                Err(e) => {
                    &&& data@.len() != shape.count()
                    &&& e == (EngineError::ShapeMismatch {
                        expected: shape,
                        found: Shape::D1(data@.len() as usize),
                    })
                },
            },
    {
        let n = data.len();
        let fits = match shape.element_count() {
            Some(total) => total == n,
            None => false,
        };
        if !fits {
            return Err(EngineError::ShapeMismatch { expected: shape, found: Shape::D1(n) });
        }
        Ok(Self { name: String::new(), shape, storage: Storage::Dense(RawDense { body: data }) })
    }

    /// Read access to the raw storage.
    pub fn storage(&self) -> (r: &Storage)
        ensures
            r@ == self@.data,
    {
        &self.storage
    }

    /// Replaces the stored contents with those of `new_value`, keeping
    /// the name and declared shape.
    pub fn override_value(&mut self, new_value: Self)
        ensures
            final(self)@.shape == old(self)@.shape,
            final(self)@.data == new_value@.data,
            final(self).name@ == old(self).name@,
            new_value.storage.wf() ==> final(self).storage.wf(),
    {
        self.storage = new_value.storage;
    }

    /// Typed view of a dynamically shaped tensor: lossless exactly when
    /// the declared shape is the requested r-by-c shape.
    pub fn to_typed2d<const R: usize, const C: usize>(&self) -> (r: Result<
        Tensor2d<R, C>,
        EngineError,
    >)
        ensures
            match r {
                Ok(t) => {
                    &&& self@.shape == Shape::D2(R, C)
                    &&& t@ == self@.data
                    &&& t.name@ == self.name@
                    &&& (self.wf() && !(self@.data is Absent) ==> t.wf())
                },
                Err(e) => {
                    &&& self@.shape != Shape::D2(R, C)
                    &&& e == (EngineError::ShapeMismatch {
                        expected: Shape::D2(R, C),
                        found: self@.shape,
                    })
                },
            },
    {
        match self.shape {
            Shape::D2(r, c) => {
                if r == R && c == C {
                    Ok(Tensor2d { name: self.name.clone(), storage: self.storage.clone() })
                } else {
                    Err(
                        EngineError::ShapeMismatch {
                            expected: Shape::D2(R, C),
                            found: self.shape,
                        },
                    )
                }
            },
            _ => Err(EngineError::ShapeMismatch { expected: Shape::D2(R, C), found: self.shape }),
        }
    }

    /// Renames the tensor, leaving shape and contents alone.
    pub fn name(self, name: &str) -> (r: Self)
        ensures
            r@ == self@,
            r.name@ == name@,
            self.wf() ==> r.wf(),
    {
        Self { name: name.to_owned(), shape: self.shape, storage: self.storage }
    }

    /// Elementwise sum of two dense tensors; rejects unequal shapes.
    pub fn add(&self, other: &Self) -> (r: Result<Self, EngineError>)
        requires
            self.wf(),
            other.wf(),
            self@.data is Cells,
            other@.data is Cells,
        ensures
            match r {
                Ok(t) => {
                    &&& self@.shape == other@.shape
                    &&& t@.shape == self@.shape
                    &&& t@.data == StorageModel::Cells(
                        ew_add(self@.data.cells(), other@.data.cells()),
                    )
                    &&& t.wf()
                },
                Err(e) => {
                    &&& self@.shape != other@.shape
                    &&& e == (EngineError::ShapeMismatch {
                        expected: self@.shape,
                        found: other@.shape,
                    })
                },
            },
    {
        if self.shape != other.shape {
            return Err(EngineError::ShapeMismatch { expected: self.shape, found: other.shape });
        }
        match (&self.storage, &other.storage) {
            (Storage::Dense(a), Storage::Dense(b)) => {
                Ok(
                    Self {
                        name: "added".to_owned(),
                        shape: self.shape,
                        storage: Storage::Dense(a.add(b)),
                    },
                )
            },
            _ => unreached(),
        }
    }

    /// Elementwise difference of two dense tensors; rejects unequal
    /// shapes.
    pub fn sub(&self, other: &Self) -> (r: Result<Self, EngineError>)
        requires
            self.wf(),
            other.wf(),
            self@.data is Cells,
            other@.data is Cells,
        ensures
            match r {
                Ok(t) => {
                    &&& self@.shape == other@.shape
                    &&& t@.shape == self@.shape
                    &&& t@.data == StorageModel::Cells(
                        ew_sub(self@.data.cells(), other@.data.cells()),
                    )
                    &&& t.wf()
                },
                Err(e) => {
                    &&& self@.shape != other@.shape
                    &&& e == (EngineError::ShapeMismatch {
                        expected: self@.shape,
                        found: other@.shape,
                    })
                },
            },
    {
        if self.shape != other.shape {
            return Err(EngineError::ShapeMismatch { expected: self.shape, found: other.shape });
        }
        match (&self.storage, &other.storage) {
            (Storage::Dense(a), Storage::Dense(b)) => {
                Ok(
                    Self {
                        name: "tensor Sub".to_owned(),
                        shape: self.shape,
                        storage: Storage::Dense(a.sub(b)),
                    },
                )
            },
            _ => unreached(),
        }
    }

    /// Sums a matrix over its rows into one row.
    pub fn add_batch(&self) -> (r: Self)
        requires
            self.wf(),
            self@.data is Cells,
            self@.shape is D2,
        ensures
            match self@.shape {
                Shape::D2(rows, c) => {
                    &&& r@.shape == Shape::D1(c)
                    &&& r@.data == StorageModel::Cells(
                        col_sums(self@.data.cells(), rows as int, c as int),
                    )
                    &&& r.wf()
                },
                _ => false,
            },
    {
        match (&self.storage, self.shape) {
            (Storage::Dense(raw), Shape::D2(_rows, c)) => {
                let summed = raw.sum_batch(self.shape);
                Self {
                    name: "add_batch".to_owned(),
                    shape: Shape::D1(c),
                    storage: Storage::Dense(summed),
                }
            },
            _ => unreached(),
        }
    }

    /// Every cell multiplied by `scalar`.
    pub fn mul_scalar(&self, scalar: i64) -> (r: Self)
        requires
            self.wf(),
            self@.data is Cells,
        ensures
            r@.shape == self@.shape,
            r@.data == StorageModel::Cells(scalar_mul_seq(self@.data.cells(), scalar)),
            r.name@ == self.name@,
            r.wf(),
    {
        match &self.storage {
            Storage::Dense(raw) => {
                Self {
                    name: self.name.clone(),
                    shape: self.shape,
                    storage: Storage::Dense(raw.mul_scalar(scalar)),
                }
            },
            _ => unreached(),
        }
    }
}

} // verus!
