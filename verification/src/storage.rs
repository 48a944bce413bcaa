use vstd::prelude::*;
use vstd::string::StringExecFns;

use crate::dtype::Shape;
use crate::raw_bool::RawBool;
use crate::raw_dense::RawDense;
use crate::raw_dense::matmul_seq;
use crate::raw_dense::shape_cols;
use crate::raw_dense::shape_rows;
use crate::raw_dense::transpose_seq;

verus! {

/// What one storage value holds, at the specification level.
#[verifier::ext_equal]
pub enum StorageModel {
    Absent,
    Bools(Seq<bool>),
    Cells(Seq<i64>),
}

impl StorageModel {
    /// How many entries the storage holds.
    pub open spec fn size(self) -> int {
        match self {
            StorageModel::Absent => 0,
            StorageModel::Bools(b) => b.len() as int,
            StorageModel::Cells(c) => c.len() as int,
        }
    }

    /// The scalar cells, where the storage holds scalar cells.
    pub open spec fn cells(self) -> Seq<i64> {
        match self {
            StorageModel::Cells(c) => c,
            _ => Seq::empty(),
        }
    }

    /// The flags, where the storage holds flags.
    pub open spec fn bools(self) -> Seq<bool> {
        match self {
            StorageModel::Bools(b) => b,
            _ => Seq::empty(),
        }
    }
}

/// Raw storage of one tensor: nothing yet, packed flags, or dense
/// scalar cells.
#[derive(Debug)]
pub enum Storage {
    Empty,
    DenseBool(RawBool),
    Dense(RawDense),
}

impl View for Storage {
    type V = StorageModel;

    open spec fn view(&self) -> StorageModel {
        match self {
            Storage::Empty => StorageModel::Absent,
            Storage::DenseBool(b) => StorageModel::Bools(b@),
            Storage::Dense(d) => StorageModel::Cells(d@),
        }
    }
}

impl Clone for Storage {
    fn clone(&self) -> (r: Self)
        ensures
            r@ == self@,
            self.wf() ==> r.wf(),
    {
        match self {
            Storage::Empty => Storage::Empty,
            Storage::DenseBool(b) => Storage::DenseBool(b.clone()),
            Storage::Dense(d) => Storage::Dense(d.clone()),
        }
    }
}

impl Storage {
    /// Packed flags keep their byte-level invariant.
    pub open spec fn wf(self) -> bool {
        match self {
            Storage::DenseBool(b) => b.wf(),
            _ => true,
        }
    }

    /// Names the storage flavour, for diagnostics.
    pub fn info(&self) -> (r: String)
        ensures
            match self@ {
                StorageModel::Absent => r@ == "RawData::None"@,
                StorageModel::Bools(_) => r@ == "RawData::DenseBool"@,
                StorageModel::Cells(_) => r@ == "RawData::Dense"@,
            },
    {
        match self {
            Self::Empty => "RawData::None".to_owned(),
            Self::DenseBool(_) => "RawData::DenseBool".to_owned(),
            Self::Dense(_) => "RawData::Dense".to_owned(),
        }
    }

    /// Matrix product of two dense storages.
    pub fn matmul(lhs: &Self, lhs_shape: Shape, rhs: &Self, rhs_shape: Shape) -> (r: Self)
        requires
            lhs@ is Cells,
            rhs@ is Cells,
            lhs_shape is D2,
            rhs_shape is D2,
            shape_cols(lhs_shape) == shape_rows(rhs_shape),
            lhs@.size() == lhs_shape.count(),
            rhs@.size() == rhs_shape.count(),
            shape_rows(lhs_shape) * shape_cols(rhs_shape) <= usize::MAX,
        ensures
            r@ == StorageModel::Cells(
                matmul_seq(
                    lhs@.cells(),
                    rhs@.cells(),
                    shape_rows(lhs_shape),
                    shape_cols(lhs_shape),
                    shape_cols(rhs_shape),
                ),
            ),
    {
        match (lhs, rhs) {
            (Storage::Dense(lhs_dense), Storage::Dense(rhs_dense)) => {
                Storage::Dense(RawDense::matmul(lhs_dense, lhs_shape, rhs_dense, rhs_shape))
            },
            _ => unreached(),
        }
    }

    /// Transpose of a dense storage.
    pub fn transpose(&self, shape: Shape) -> (r: Self)
        requires
            self@ is Cells,
            self@.size() == shape.count(),
        ensures
            match shape {
                Shape::D1(_) => r@ == self@,
                Shape::D2(rows, c) => r@ == StorageModel::Cells(
                    transpose_seq(self@.cells(), rows as int, c as int),
                ),
            },
    {
        match self {
            Storage::Dense(raw) => Storage::Dense(raw.transpose(shape)),
            _ => unreached(),
        }
    }
}

} // verus!
