use vstd::prelude::*;
use vstd::string::StringExecFns;

use crate::context::Context;
use crate::context::CtxModel;
use crate::context::m_add_assign_grad;
use crate::context::m_get_grad_cells;
use crate::context::m_get_tensor_bools;
use crate::context::m_get_val_cells;
use crate::context::m_insert_tensor;
use crate::context::m_insert_val;
use crate::dtype::Shape;
use crate::errors::EngineError;
use crate::nten::NtenID;
use crate::raw_dense::broadcast_add_seq;
use crate::raw_dense::col_sums;
use crate::raw_dense::ew_add;
use crate::raw_dense::mask_smaller;
use crate::raw_dense::matmul_seq;
use crate::raw_dense::replace_masked;
use crate::raw_dense::transpose_seq;
use crate::raw_dense::RawDense;
use crate::storage::Storage;
use crate::storage::StorageModel;
use crate::tensor::Tensor;
use crate::tensor::TensorModel;

verus! {

/// Identifier of one operation edge; equal to the edge's index in the
/// graph arena that owns it.
#[derive(Eq, Hash, PartialEq, Structural, Clone, Copy, Debug)]
pub struct FnEdgeID(pub u32);

/// Sentinel edge terminating traversal at runtime-synthesized nodes.
pub struct DummyFnEdge {
    pub id: FnEdgeID,
}

impl DummyFnEdge {
    pub fn new(id: FnEdgeID) -> (r: Self)
        ensures
            r.id == id,
    {
        Self { id }
    }
}

/// Sentinel edge marking user-created parameters and inputs.
pub struct HumanCreatedFnEdge {
    pub id: FnEdgeID,
}

impl HumanCreatedFnEdge {
    pub fn new(id: FnEdgeID) -> (r: Self)
        ensures
            r.id == id,
    {
        Self { id }
    }
}

/// Elementwise addition of two r-by-c nodes.
pub struct Add2d {
    pub id: FnEdgeID,
    pub name: String,
    pub sources: Vec<FnEdgeID>,
    pub input1_id: NtenID,
    pub input2_id: NtenID,
    pub output_id: NtenID,
    pub rows: usize,
    pub cols: usize,
}

/// Broadcast addition of a one-row bias onto an r-by-c node.
pub struct AddBroadcast2d {
    pub id: FnEdgeID,
    pub name: String,
    pub sources: Vec<FnEdgeID>,
    pub input1_id: NtenID,
    pub input2_id: NtenID,
    pub output_id: NtenID,
    pub rows: usize,
    pub cols: usize,
}

/// Matrix product of an n-by-m node with an m-by-o node.
pub struct Matmul {
    pub id: FnEdgeID,
    pub name: String,
    pub sources: Vec<FnEdgeID>,
    pub lhs_id: NtenID,
    pub rhs_id: NtenID,
    pub output_id: NtenID,
    pub n: usize,
    pub m: usize,
    pub o: usize,
}

/// Rectified linear unit over an r-by-c node; the selection mask is
/// cached ephemerally for the backward pass.
pub struct Relu2d {
    pub id: FnEdgeID,
    pub name: String,
    pub sources: Vec<FnEdgeID>,
    pub input_id: NtenID,
    pub output_id: NtenID,
    pub mask_cach_id: NtenID,
    pub rows: usize,
    pub cols: usize,
}

/// One operation edge: the closed set of op kinds, dispatched by
/// pattern match.
pub enum FnEdge {
    Dummy(DummyFnEdge),
    HumanCreated(HumanCreatedFnEdge),
    Add2d(Add2d),
    AddBroadcast2d(AddBroadcast2d),
    Matmul(Matmul),
    Relu2d(Relu2d),
}

impl FnEdge {
    /// The edge's own id.
    pub open spec fn spec_id(self) -> u32 {
        match self {
            FnEdge::Dummy(e) => e.id.0,
            FnEdge::HumanCreated(e) => e.id.0,
            FnEdge::Add2d(e) => e.id.0,
            FnEdge::AddBroadcast2d(e) => e.id.0,
            FnEdge::Matmul(e) => e.id.0,
            FnEdge::Relu2d(e) => e.id.0,
        }
    }

    /// The ids of the edges this edge's operands come from; sentinels
    /// declare none, which stops graph traversal.
    pub open spec fn spec_sources(self) -> Seq<u32> {
        match self {
            FnEdge::Dummy(_) => Seq::empty(),
            FnEdge::HumanCreated(_) => Seq::empty(),
            FnEdge::Add2d(e) => e.sources@.map_values(|s: FnEdgeID| s.0),
            FnEdge::AddBroadcast2d(e) => e.sources@.map_values(|s: FnEdgeID| s.0),
            FnEdge::Matmul(e) => e.sources@.map_values(|s: FnEdgeID| s.0),
            FnEdge::Relu2d(e) => e.sources@.map_values(|s: FnEdgeID| s.0),
        }
    }

    /// Sentinel edges mark leaves and placeholders; asking one to
    /// compute is a fatal tape corruption.
    pub open spec fn is_sentinel(self) -> bool {
        self is Dummy || self is HumanCreated
    }

    /// The declared dimensions keep every kernel's index arithmetic
    /// inside machine bounds.
    pub open spec fn wf(self) -> bool {
        match self {
            FnEdge::Dummy(_) => true,
            FnEdge::HumanCreated(_) => true,
            FnEdge::Add2d(e) => e.rows * e.cols <= usize::MAX,
            FnEdge::AddBroadcast2d(e) => e.rows * e.cols <= usize::MAX,
            FnEdge::Matmul(e) => e.n * e.m <= usize::MAX && e.m * e.o <= usize::MAX && e.n * e.o
                <= usize::MAX,
            FnEdge::Relu2d(e) => e.rows * e.cols <= usize::MAX,
        }
    }

    /// The edge's own id.
    pub fn get_id(&self) -> (r: FnEdgeID)
        ensures
            r.0 == self.spec_id(),
    {
        match self {
            FnEdge::Dummy(e) => e.id,
            FnEdge::HumanCreated(e) => e.id,
            FnEdge::Add2d(e) => e.id,
            FnEdge::AddBroadcast2d(e) => e.id,
            FnEdge::Matmul(e) => e.id,
            FnEdge::Relu2d(e) => e.id,
        }
    }

    /// Whether this edge is a traversal-stopping sentinel.
    pub fn sentinel(&self) -> (r: bool)
        ensures
            r == self.is_sentinel(),
    {
        match self {
            FnEdge::Dummy(_) => true,
            FnEdge::HumanCreated(_) => true,
            _ => false,
        }
    }

    /// The source-edge ids, for graph traversal.
    pub fn sources(&self) -> (r: Vec<FnEdgeID>)
        ensures
            r@.map_values(|s: FnEdgeID| s.0) == self.spec_sources(),
    {
        let empty: Vec<FnEdgeID> = Vec::new();
        let r = match self {
            FnEdge::Dummy(_) => empty,
            FnEdge::HumanCreated(_) => empty,
            FnEdge::Add2d(e) => copy_ids(&e.sources),
            FnEdge::AddBroadcast2d(e) => copy_ids(&e.sources),
            FnEdge::Matmul(e) => copy_ids(&e.sources),
            FnEdge::Relu2d(e) => copy_ids(&e.sources),
        };
        proof {
            assert(r@.map_values(|s: FnEdgeID| s.0) =~= self.spec_sources());
        }
        r
    }

    /// The operand node ids the edge consumes.
    pub fn inputs(&self) -> (r: Vec<NtenID>)
        ensures
            match self {
                FnEdge::Dummy(_) => r@ == Seq::<NtenID>::empty(),
                FnEdge::HumanCreated(_) => r@ == Seq::<NtenID>::empty(),
                FnEdge::Add2d(e) => r@ == seq![e.input1_id, e.input2_id],
                FnEdge::AddBroadcast2d(e) => r@ == seq![e.input1_id, e.input2_id],
                FnEdge::Matmul(e) => r@ == seq![e.lhs_id, e.rhs_id],
                FnEdge::Relu2d(e) => r@ == seq![e.input_id],
            },
    {
        let mut r: Vec<NtenID> = Vec::new();
        match self {
            FnEdge::Dummy(_) => {},
            FnEdge::HumanCreated(_) => {},
            FnEdge::Add2d(e) => {
                r.push(e.input1_id);
                r.push(e.input2_id);
            },
            FnEdge::AddBroadcast2d(e) => {
                r.push(e.input1_id);
                r.push(e.input2_id);
            },
            FnEdge::Matmul(e) => {
                r.push(e.lhs_id);
                r.push(e.rhs_id);
            },
            FnEdge::Relu2d(e) => {
                r.push(e.input_id);
            },
        }
        proof {
            match self {
                FnEdge::Add2d(e) => assert(r@ =~= seq![e.input1_id, e.input2_id]),
                FnEdge::AddBroadcast2d(e) => assert(r@ =~= seq![e.input1_id, e.input2_id]),
                FnEdge::Matmul(e) => assert(r@ =~= seq![e.lhs_id, e.rhs_id]),
                FnEdge::Relu2d(e) => assert(r@ =~= seq![e.input_id]),
                _ => assert(r@ =~= Seq::<NtenID>::empty()),
            }
        }
        r
    }

    /// Runs the op forward: reads operand values, computes through the
    /// backend, writes the output value under the edge's output id.
    pub fn forward(&self, ctx: &mut Context) -> (r: Result<(), EngineError>)
        requires
            old(ctx).wf(),
            self.wf(),
        ensures
            final(ctx).wf(),
            match edge_fwd(*self, old(ctx)@) {
                Ok(s2) => r is Ok && final(ctx)@ == s2,
                Err(e) => r == Err::<(), EngineError>(e) && final(ctx)@ == old(ctx)@,
            },
    {
        match self {
            FnEdge::Dummy(e) => Err(EngineError::InvalidEdge(e.id)),
            FnEdge::HumanCreated(e) => Err(EngineError::InvalidEdge(e.id)),
            FnEdge::Add2d(e) => e.forward(ctx),
            FnEdge::AddBroadcast2d(e) => e.forward(ctx),
            FnEdge::Matmul(e) => e.forward(ctx),
            FnEdge::Relu2d(e) => e.forward(ctx),
        }
    }

    /// Runs the op backward: reads the output gradient and accumulates
    /// the operand gradients by the local derivative rule.
    pub fn backward(&self, ctx: &mut Context) -> (r: Result<(), EngineError>)
        requires
            old(ctx).wf(),
            self.wf(),
        ensures
            final(ctx).wf(),
            match edge_bwd(*self, old(ctx)@) {
                Ok(s2) => r is Ok && final(ctx)@ == s2,
                Err(e) => r == Err::<(), EngineError>(e),
            },
    {
        match self {
            FnEdge::Dummy(e) => Err(EngineError::InvalidEdge(e.id)),
            FnEdge::HumanCreated(e) => Err(EngineError::InvalidEdge(e.id)),
            FnEdge::Add2d(e) => e.backward(ctx),
            FnEdge::AddBroadcast2d(e) => e.backward(ctx),
            FnEdge::Matmul(e) => e.backward(ctx),
            FnEdge::Relu2d(e) => e.backward(ctx),
        }
    }
}

/// A fresh vector holding the same edge ids.
fn copy_ids(v: &Vec<FnEdgeID>) -> (r: Vec<FnEdgeID>)
    ensures
        r@ == v@,
{
    let mut r: Vec<FnEdgeID> = Vec::new();
    let n = v.len();
    let mut i: usize = 0;
    while i < n
        invariant
            n == v@.len(),
            i <= n,
            r@ == v@.subrange(0, i as int),
        decreases n - i,
    {
        r.push(v[i]);
        i = i + 1;
        proof {
            assert(r@ =~= v@.subrange(0, i as int));
        }
    }
    proof {
        assert(r@ =~= v@);
    }
    r
}

/// What one forward step does to the context, per op kind; sentinels
/// refuse to compute.
pub open spec fn edge_fwd(e: FnEdge, s: CtxModel) -> Result<CtxModel, EngineError> {
    match e {
        FnEdge::Dummy(d) => Err(EngineError::InvalidEdge(d.id)),
        FnEdge::HumanCreated(h) => Err(EngineError::InvalidEdge(h.id)),
        FnEdge::Add2d(a) => fwd_add(a, s),
        FnEdge::AddBroadcast2d(b) => fwd_add_broadcast(b, s),
        FnEdge::Matmul(m) => fwd_matmul(m, s),
        FnEdge::Relu2d(r) => fwd_relu(r, s),
    }
}

/// What one backward step does to the context, per op kind.
pub open spec fn edge_bwd(e: FnEdge, s: CtxModel) -> Result<CtxModel, EngineError> {
    match e {
        FnEdge::Dummy(d) => Err(EngineError::InvalidEdge(d.id)),
        FnEdge::HumanCreated(h) => Err(EngineError::InvalidEdge(h.id)),
        FnEdge::Add2d(a) => bwd_add(a, s),
        FnEdge::AddBroadcast2d(b) => bwd_add_broadcast(b, s),
        FnEdge::Matmul(m) => bwd_matmul(m, s),
        FnEdge::Relu2d(r) => bwd_relu(r, s),
    }
}

/// Forward of Add: y = a + b, elementwise.
pub open spec fn fwd_add(e: Add2d, s: CtxModel) -> Result<CtxModel, EngineError> {
    let sh = Shape::D2(e.rows, e.cols);
    match m_get_val_cells(s, e.input1_id.0, sh) {
        Err(er) => Err(er),
        Ok(a) => match m_get_val_cells(s, e.input2_id.0, sh) {
            Err(er) => Err(er),
            Ok(b) => Ok(
                m_insert_val(
                    s,
                    e.output_id.0,
                    TensorModel { shape: sh, data: StorageModel::Cells(ew_add(a, b)) },
                ),
            ),
        },
    }
}

/// Backward of Add: both operands accumulate the output gradient.
pub open spec fn bwd_add(e: Add2d, s: CtxModel) -> Result<CtxModel, EngineError> {
    let sh = Shape::D2(e.rows, e.cols);
    match m_get_grad_cells(s, e.output_id.0, sh) {
        Err(er) => Err(er),
        Ok(dout) => {
            let g = TensorModel { shape: sh, data: StorageModel::Cells(dout) };
            match m_add_assign_grad(s, e.input1_id.0, g) {
                Err(er) => Err(er),
                Ok(s1) => m_add_assign_grad(s1, e.input2_id.0, g),
            }
        },
    }
}

/// Forward of AddBroadcast: the one-row bias is added to every row.
pub open spec fn fwd_add_broadcast(e: AddBroadcast2d, s: CtxModel) -> Result<
    CtxModel,
    EngineError,
> {
    let sh = Shape::D2(e.rows, e.cols);
    let bias_sh = Shape::D2(1, e.cols);
    match m_get_val_cells(s, e.input1_id.0, sh) {
        Err(er) => Err(er),
        Ok(w) => match m_get_val_cells(s, e.input2_id.0, bias_sh) {
            Err(er) => Err(er),
            Ok(b) => Ok(
                m_insert_val(
                    s,
                    e.output_id.0,
                    TensorModel {
                        shape: sh,
                        data: StorageModel::Cells(broadcast_add_seq(w, b, e.cols as int)),
                    },
                ),
            ),
        },
    }
}

/// Backward of AddBroadcast: the weight accumulates the output
/// gradient as it is; the bias accumulates its column-wise sum over
/// all rows.
pub open spec fn bwd_add_broadcast(e: AddBroadcast2d, s: CtxModel) -> Result<
    CtxModel,
    EngineError,
> {
    let sh = Shape::D2(e.rows, e.cols);
    let bias_sh = Shape::D2(1, e.cols);
    match m_get_grad_cells(s, e.output_id.0, sh) {
        Err(er) => Err(er),
        Ok(dout) => {
            let gw = TensorModel { shape: sh, data: StorageModel::Cells(dout) };
            match m_add_assign_grad(s, e.input1_id.0, gw) {
                Err(er) => Err(er),
                Ok(s1) => {
                    let gb = TensorModel {
                        shape: bias_sh,
                        data: StorageModel::Cells(col_sums(dout, e.rows as int, e.cols as int)),
                    };
                    m_add_assign_grad(s1, e.input2_id.0, gb)
                },
            }
        },
    }
}

/// Forward of Matmul: y = lhs · rhs.
pub open spec fn fwd_matmul(e: Matmul, s: CtxModel) -> Result<CtxModel, EngineError> {
    let lhs_sh = Shape::D2(e.n, e.m);
    let rhs_sh = Shape::D2(e.m, e.o);
    match m_get_val_cells(s, e.lhs_id.0, lhs_sh) {
        Err(er) => Err(er),
        Ok(a) => match m_get_val_cells(s, e.rhs_id.0, rhs_sh) {
            Err(er) => Err(er),
            Ok(b) => Ok(
                m_insert_val(
                    s,
                    e.output_id.0,
                    TensorModel {
                        shape: Shape::D2(e.n, e.o),
                        data: StorageModel::Cells(
                            matmul_seq(a, b, e.n as int, e.m as int, e.o as int),
                        ),
                    },
                ),
            ),
        },
    }
}

/// Backward of Matmul: lhs accumulates dout · rhs-transposed, rhs
/// accumulates lhs-transposed · dout; the forward operand values are
/// read back for this.
pub open spec fn bwd_matmul(e: Matmul, s: CtxModel) -> Result<CtxModel, EngineError> {
    let lhs_sh = Shape::D2(e.n, e.m);
    let rhs_sh = Shape::D2(e.m, e.o);
    let out_sh = Shape::D2(e.n, e.o);
    match m_get_val_cells(s, e.lhs_id.0, lhs_sh) {
        Err(er) => Err(er),
        Ok(a) => match m_get_val_cells(s, e.rhs_id.0, rhs_sh) {
            Err(er) => Err(er),
            Ok(b) => match m_get_grad_cells(s, e.output_id.0, out_sh) {
                Err(er) => Err(er),
                Ok(dout) => {
                    let dlhs = matmul_seq(
                        dout,
                        transpose_seq(b, e.m as int, e.o as int),
                        e.n as int,
                        e.o as int,
                        e.m as int,
                    );
                    let drhs = matmul_seq(
                        transpose_seq(a, e.n as int, e.m as int),
                        dout,
                        e.m as int,
                        e.n as int,
                        e.o as int,
                    );
                    match m_add_assign_grad(
                        s,
                        e.lhs_id.0,
                        TensorModel { shape: lhs_sh, data: StorageModel::Cells(dlhs) },
                    ) {
                        Err(er) => Err(er),
                        Ok(s1) => m_add_assign_grad(
                            s1,
                            e.rhs_id.0,
                            TensorModel { shape: rhs_sh, data: StorageModel::Cells(drhs) },
                        ),
                    }
                },
            },
        },
    }
}

/// Forward of Relu: y = max(x, 0); the selection mask (x below zero)
/// is cached in the ephemeral store under the edge's private mask id.
pub open spec fn fwd_relu(e: Relu2d, s: CtxModel) -> Result<CtxModel, EngineError> {
    let sh = Shape::D2(e.rows, e.cols);
    match m_get_val_cells(s, e.input_id.0, sh) {
        Err(er) => Err(er),
        Ok(x) => {
            let mask = mask_smaller(x, 0);
            let s1 = m_insert_tensor(
                s,
                e.mask_cach_id.0,
                TensorModel { shape: sh, data: StorageModel::Bools(mask) },
            );
            Ok(
                m_insert_val(
                    s1,
                    e.output_id.0,
                    TensorModel { shape: sh, data: StorageModel::Cells(replace_masked(x, mask, 0)) },
                ),
            )
        },
    }
}

/// Backward of Relu: the input accumulates the output gradient with
/// the entries under the cached mask zeroed.
pub open spec fn bwd_relu(e: Relu2d, s: CtxModel) -> Result<CtxModel, EngineError> {
    let sh = Shape::D2(e.rows, e.cols);
    match m_get_grad_cells(s, e.output_id.0, sh) {
        Err(er) => Err(er),
        Ok(dout) => match m_get_tensor_bools(s, e.mask_cach_id.0, sh) {
            Err(er) => Err(er),
            Ok(mask) => m_add_assign_grad(
                s,
                e.input_id.0,
                TensorModel {
                    shape: sh,
                    data: StorageModel::Cells(replace_masked(dout, mask, 0)),
                },
            ),
        },
    }
}

impl Add2d {
    pub fn forward(&self, ctx: &mut Context) -> (r: Result<(), EngineError>)
        requires
            old(ctx).wf(),
            FnEdge::Add2d(*self).wf(),
        ensures
            final(ctx).wf(),
            match fwd_add(*self, old(ctx)@) {
                Ok(s2) => r is Ok && final(ctx)@ == s2,
                Err(e) => r == Err::<(), EngineError>(e) && final(ctx)@ == old(ctx)@,
            },
    {
        let sh = Shape::D2(self.rows, self.cols);
        let a = ctx.take_val_cells(&self.input1_id, sh)?;
        let b = ctx.take_val_cells(&self.input2_id, sh)?;
        let out = a.add(&b);
        ctx.insert_val(
            &self.output_id,
            Tensor { name: "added".to_owned(), shape: sh, storage: Storage::Dense(out) },
        );
        Ok(())
    }

    pub fn backward(&self, ctx: &mut Context) -> (r: Result<(), EngineError>)
        requires
            old(ctx).wf(),
            FnEdge::Add2d(*self).wf(),
        ensures
            final(ctx).wf(),
            match bwd_add(*self, old(ctx)@) {
                Ok(s2) => r is Ok && final(ctx)@ == s2,
                Err(e) => r == Err::<(), EngineError>(e),
            },
    {
        let sh = Shape::D2(self.rows, self.cols);
        let dout = ctx.take_grad_cells(&self.output_id, sh)?;
        let g = Tensor { name: "grad".to_owned(), shape: sh, storage: Storage::Dense(dout) };
        ctx.add_assign_grad(&self.input1_id, &g)?;
        ctx.add_assign_grad(&self.input2_id, &g)?;
        Ok(())
    }
}

impl AddBroadcast2d {
    pub fn forward(&self, ctx: &mut Context) -> (r: Result<(), EngineError>)
        requires
            old(ctx).wf(),
            FnEdge::AddBroadcast2d(*self).wf(),
        ensures
            final(ctx).wf(),
            match fwd_add_broadcast(*self, old(ctx)@) {
                Ok(s2) => r is Ok && final(ctx)@ == s2,
                Err(e) => r == Err::<(), EngineError>(e) && final(ctx)@ == old(ctx)@,
            },
    {
        let sh = Shape::D2(self.rows, self.cols);
        let bias_sh = Shape::D2(1, self.cols);
        let w = ctx.take_val_cells(&self.input1_id, sh)?;
        let b = ctx.take_val_cells(&self.input2_id, bias_sh)?;
        proof {
            assert(1int * self.cols as int == self.cols as int) by (nonlinear_arith);
        }
        let out = w.add_broadcast(&b, sh);
        ctx.insert_val(
            &self.output_id,
            Tensor { name: "add_broadcast".to_owned(), shape: sh, storage: Storage::Dense(out) },
        );
        Ok(())
    }

    pub fn backward(&self, ctx: &mut Context) -> (r: Result<(), EngineError>)
        requires
            old(ctx).wf(),
            FnEdge::AddBroadcast2d(*self).wf(),
        ensures
            final(ctx).wf(),
            match bwd_add_broadcast(*self, old(ctx)@) {
                Ok(s2) => r is Ok && final(ctx)@ == s2,
                Err(e) => r == Err::<(), EngineError>(e),
            },
    {
        let sh = Shape::D2(self.rows, self.cols);
        let bias_sh = Shape::D2(1, self.cols);
        let dout = ctx.take_grad_cells(&self.output_id, sh)?;
        let dbias = dout.sum_batch(sh);
        ctx.add_assign_grad(
            &self.input1_id,
            &Tensor { name: "grad".to_owned(), shape: sh, storage: Storage::Dense(dout) },
        )?;
        proof {
            assert(1int * self.cols as int == self.cols as int) by (nonlinear_arith);
        }
        ctx.add_assign_grad(
            &self.input2_id,
            &Tensor { name: "grad".to_owned(), shape: bias_sh, storage: Storage::Dense(dbias) },
        )?;
        Ok(())
    }
}

impl Matmul {
    pub fn forward(&self, ctx: &mut Context) -> (r: Result<(), EngineError>)
        requires
            old(ctx).wf(),
            FnEdge::Matmul(*self).wf(),
        ensures
            final(ctx).wf(),
            match fwd_matmul(*self, old(ctx)@) {
                Ok(s2) => r is Ok && final(ctx)@ == s2,
                Err(e) => r == Err::<(), EngineError>(e) && final(ctx)@ == old(ctx)@,
            },
    {
        let lhs_sh = Shape::D2(self.n, self.m);
        let rhs_sh = Shape::D2(self.m, self.o);
        let a = ctx.take_val_cells(&self.lhs_id, lhs_sh)?;
        let b = ctx.take_val_cells(&self.rhs_id, rhs_sh)?;
        let out = RawDense::matmul(&a, lhs_sh, &b, rhs_sh);
        ctx.insert_val(
            &self.output_id,
            Tensor {
                name: "matmul".to_owned(),
                shape: Shape::D2(self.n, self.o),
                storage: Storage::Dense(out),
            },
        );
        Ok(())
    }

    pub fn backward(&self, ctx: &mut Context) -> (r: Result<(), EngineError>)
        requires
            old(ctx).wf(),
            FnEdge::Matmul(*self).wf(),
        ensures
            final(ctx).wf(),
            match bwd_matmul(*self, old(ctx)@) {
                Ok(s2) => r is Ok && final(ctx)@ == s2,
                Err(e) => r == Err::<(), EngineError>(e),
            },
    {
        let lhs_sh = Shape::D2(self.n, self.m);
        let rhs_sh = Shape::D2(self.m, self.o);
        let out_sh = Shape::D2(self.n, self.o);
        let a = ctx.take_val_cells(&self.lhs_id, lhs_sh)?;
        let b = ctx.take_val_cells(&self.rhs_id, rhs_sh)?;
        let dout = ctx.take_grad_cells(&self.output_id, out_sh)?;
        proof {
            assert(self.m as int * self.o as int == self.o as int * self.m as int)
                by (nonlinear_arith);
            assert(self.n as int * self.m as int == self.m as int * self.n as int)
                by (nonlinear_arith);
        }
        let b_t = b.transpose(rhs_sh);
        let dlhs = RawDense::matmul(&dout, out_sh, &b_t, Shape::D2(self.o, self.m));
        let a_t = a.transpose(lhs_sh);
        let drhs = RawDense::matmul(&a_t, Shape::D2(self.m, self.n), &dout, out_sh);
        ctx.add_assign_grad(
            &self.lhs_id,
            &Tensor { name: "grad".to_owned(), shape: lhs_sh, storage: Storage::Dense(dlhs) },
        )?;
        ctx.add_assign_grad(
            &self.rhs_id,
            &Tensor { name: "grad".to_owned(), shape: rhs_sh, storage: Storage::Dense(drhs) },
        )?;
        Ok(())
    }
}

impl Relu2d {
    pub fn forward(&self, ctx: &mut Context) -> (r: Result<(), EngineError>)
        requires
            old(ctx).wf(),
            FnEdge::Relu2d(*self).wf(),
        ensures
            final(ctx).wf(),
            match fwd_relu(*self, old(ctx)@) {
                Ok(s2) => r is Ok && final(ctx)@ == s2,
                Err(e) => r == Err::<(), EngineError>(e) && final(ctx)@ == old(ctx)@,
            },
    {
        let sh = Shape::D2(self.rows, self.cols);
        let x = ctx.take_val_cells(&self.input_id, sh)?;
        let mask = x.select_smaller_than(0);
        let out = x.replace_where_to_scalar(&mask, 0);
        ctx.insert_tensor(
            &self.mask_cach_id,
            Tensor { name: "relu mask".to_owned(), shape: sh, storage: Storage::DenseBool(mask) },
        );
        ctx.insert_val(
            &self.output_id,
            Tensor { name: "relu".to_owned(), shape: sh, storage: Storage::Dense(out) },
        );
        Ok(())
    }

    pub fn backward(&self, ctx: &mut Context) -> (r: Result<(), EngineError>)
        requires
            old(ctx).wf(),
            FnEdge::Relu2d(*self).wf(),
        ensures
            final(ctx).wf(),
            match bwd_relu(*self, old(ctx)@) {
                Ok(s2) => r is Ok && final(ctx)@ == s2,
                Err(e) => r == Err::<(), EngineError>(e),
            },
    {
        let sh = Shape::D2(self.rows, self.cols);
        let dout = ctx.take_grad_cells(&self.output_id, sh)?;
        let mask = ctx.take_temp_bools(&self.mask_cach_id, sh)?;
        let din = dout.replace_where_to_scalar(&mask, 0);
        ctx.add_assign_grad(
            &self.input_id,
            &Tensor { name: "grad".to_owned(), shape: sh, storage: Storage::Dense(din) },
        )?;
        Ok(())
    }
}

} // verus!
