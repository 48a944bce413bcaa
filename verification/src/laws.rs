use vstd::prelude::*;

use crate::context::CtxModel;
use crate::context::m_get_grad_cells;
use crate::dtype::Shape;
use crate::errors::EngineError;
use crate::fn_edge::Add2d;
use crate::fn_edge::AddBroadcast2d;
use crate::fn_edge::bwd_add;
use crate::fn_edge::bwd_add_broadcast;
use crate::raw_dense::col_sums;
use crate::raw_dense::ew_add;
use crate::storage::StorageModel;
use crate::tensor::TensorModel;
use crate::tensor2d::Tensor2d;
use crate::tensor::Tensor;

verus! {

/// Gradient accumulation across a shared subgraph: when one node
/// feeds both operands of an addition edge and starts the backward
/// step without a gradient, it ends the step holding the elementwise
/// sum of the two contributions — the output gradient added to
/// itself, not a single copy of it.
pub proof fn lemma_add_backward_accumulates_shared(e: Add2d, s: CtxModel)
    requires
        e.input1_id == e.input2_id,
        s.nodes.dom().contains(e.input1_id.0),
        s.nodes[e.input1_id.0].grad is None,
        m_get_grad_cells(s, e.output_id.0, Shape::D2(e.rows, e.cols)) is Ok,
    ensures
        bwd_add(e, s) is Ok,
        bwd_add(e, s).unwrap().nodes[e.input1_id.0].grad == Some(
            TensorModel {
                shape: Shape::D2(e.rows, e.cols),
                data: StorageModel::Cells(
                    ew_add(
                        m_get_grad_cells(s, e.output_id.0, Shape::D2(e.rows, e.cols)).unwrap(),
                        m_get_grad_cells(s, e.output_id.0, Shape::D2(e.rows, e.cols)).unwrap(),
                    ),
                ),
            },
        ),
{
}

/// The broadcast-addition backward rule for the bias: a one-row bias
/// that starts the backward step without a gradient ends it holding
/// exactly the column-wise sums of the output gradient over all rows.
pub proof fn lemma_bias_gradient_is_column_sums(e: AddBroadcast2d, s: CtxModel)
    requires
        e.input1_id != e.input2_id,
        s.nodes.dom().contains(e.input1_id.0),
        s.nodes.dom().contains(e.input2_id.0),
        s.nodes[e.input1_id.0].grad is None,
        s.nodes[e.input2_id.0].grad is None,
        m_get_grad_cells(s, e.output_id.0, Shape::D2(e.rows, e.cols)) is Ok,
    ensures
        bwd_add_broadcast(e, s) is Ok,
        bwd_add_broadcast(e, s).unwrap().nodes[e.input2_id.0].grad == Some(
            TensorModel {
                shape: Shape::D2(1, e.cols),
                data: StorageModel::Cells(
                    col_sums(
                        m_get_grad_cells(s, e.output_id.0, Shape::D2(e.rows, e.cols)).unwrap(),
                        e.rows as int,
                        e.cols as int,
                    ),
                ),
            },
        ),
{
}

/// Shape round trip, lossless direction: what `to_untyped` promises of
/// the erased tensor, combined with what `to_typed2d` promises of the
/// narrowing, forces the narrowing back to the declared r-by-c shape
/// to succeed and to hand the contents back unchanged.
pub proof fn lemma_shape_round_trip<const R: usize, const C: usize>(
    t2: Tensor2d<R, C>,
    u: Tensor,
    back: Result<Tensor2d<R, C>, EngineError>,
)
    requires
        u@ == (TensorModel { shape: Shape::D2(R, C), data: t2@ }),
        match back {
            Ok(t) => u@.shape == Shape::D2(R, C) && t@ == u@.data,
            Err(e) => u@.shape != Shape::D2(R, C),
        },
    ensures
        back is Ok,
        back.unwrap()@ == t2@,
{
}

/// Shape round trip, mismatch direction: narrowing the erased r-by-c
/// tensor to any other requested shape is exactly the recoverable
/// shape-mismatch error naming both shapes.
pub proof fn lemma_shape_round_trip_mismatch<
    const R: usize,
    const C: usize,
    const R2: usize,
    const C2: usize,
>(t2: Tensor2d<R, C>, u: Tensor, back: Result<Tensor2d<R2, C2>, EngineError>)
    requires
        u@ == (TensorModel { shape: Shape::D2(R, C), data: t2@ }),
        Shape::D2(R, C) != Shape::D2(R2, C2),
        match back {
            Ok(t) => u@.shape == Shape::D2(R2, C2) && t@ == u@.data,
            Err(e) => u@.shape != Shape::D2(R2, C2) && e == (EngineError::ShapeMismatch {
                expected: Shape::D2(R2, C2),
                found: u@.shape,
            }),
        },
    ensures
        back == Err::<Tensor2d<R2, C2>, EngineError>(
            EngineError::ShapeMismatch { expected: Shape::D2(R2, C2), found: Shape::D2(R, C) },
        ),
{
}

} // verus!
