use vstd::prelude::*;

use crate::context::Context;
use crate::context::CtxModel;
use crate::context::m_get_grad;
use crate::context::m_get_val;
use crate::context::m_insert_val;
use crate::errors::EngineError;
use crate::nten::NtenID;
use crate::raw_dense::ew_sub;
use crate::raw_dense::scalar_mul_seq;
use crate::storage::StorageModel;
use crate::tensor::TensorModel;

verus! {

/// One gradient-descent step on one parameter: its value becomes
/// value minus the learning-rate-scaled gradient, elementwise with
/// wrapping arithmetic. A parameter whose node is absent, whose
/// gradient or value slot is empty or non-scalar, or whose value and
/// gradient shapes disagree fails with the matching error.
pub open spec fn m_sgd_step(s: CtxModel, p: u32, learning_rate: i64) -> Result<
    CtxModel,
    EngineError,
> {
    match m_get_grad(s, p) {
        Err(e) => Err(e),
        Ok(g) => match m_get_val(s, p) {
            Err(e) => Err(e),
            Ok(v) => {
                if !(v.data is Cells) || !(g.data is Cells) {
                    Err(EngineError::Uninitialized(NtenID(p)))
                } else if v.shape != g.shape {
                    Err(EngineError::ShapeMismatch { expected: v.shape, found: g.shape })
                } else {
                    Ok(
                        m_insert_val(
                            s,
                            p,
                            TensorModel {
                                shape: v.shape,
                                data: StorageModel::Cells(
                                    ew_sub(
                                        v.data.cells(),
                                        scalar_mul_seq(g.data.cells(), learning_rate),
                                    ),
                                ),
                            },
                        ),
                    )
                }
            },
        },
    }
}

/// Gradient descent folded over the parameter ids in order, stopping
/// at the first failing parameter. Non-parameter nodes, gradients and
/// the ephemeral cache are untouched.
pub open spec fn m_sgd_run(s: CtxModel, params: Seq<u32>, learning_rate: i64) -> Result<
    CtxModel,
    EngineError,
>
    decreases params.len(),
{
    if params.len() == 0 {
        Ok(s)
    } else {
        match m_sgd_step(s, params[0], learning_rate) {
            Ok(s2) => m_sgd_run(s2, params.drop_first(), learning_rate),
            Err(e) => Err(e),
        }
    }
}

/// The parameter-update rule: walks the store's parameter set, reads
/// gradient and value per id, and writes an updated value back. The
/// engine's `zero_grad` is the post-update hook.
///
/// Each implementor declares what its `update` does to the context as
/// a spec function over the model state and the parameter ids in
/// store order, and `update` is held to it: on success the context is
/// exactly the declared outcome, on failure the declared error.
pub trait Optimizer {
    /// What one `update` call does to the context model, given the
    /// parameter ids in store order.
    spec fn update_model(&self, s: CtxModel, params: Seq<u32>) -> Result<CtxModel, EngineError>;

    fn update(&mut self, ctx: &mut Context) -> (r: Result<(), EngineError>)
        requires
            old(ctx).wf(),
        ensures
            final(ctx).wf(),
            match old(self).update_model(old(ctx)@, old(ctx).varstore.parameter_ids.items@) {
                Ok(s2) => r is Ok && final(ctx)@ == s2,
                Err(e) => r == Err::<(), EngineError>(e),
            },
    ;
}

/// Plain gradient descent on integer cells: each parameter value
/// becomes value minus learning-rate times gradient.
pub struct Sgd {
    pub learning_rate: i64,
}

impl Sgd {
    pub fn new(learning_rate: i64) -> (r: Self)
        ensures
            r.learning_rate == learning_rate,
    {
        Self { learning_rate }
    }
}

impl Optimizer for Sgd {
    open spec fn update_model(&self, s: CtxModel, params: Seq<u32>) -> Result<
        CtxModel,
        EngineError,
    > {
        m_sgd_run(s, params, self.learning_rate)
    }

    fn update(&mut self, ctx: &mut Context) -> (r: Result<(), EngineError>) {
        let ghost s0 = ctx@;
        let ghost lr = self.learning_rate;

        // snapshot the parameter ids before mutating the store
        let count = ctx.varstore.parameter_ids.id_count();
        let mut parameter_ids: Vec<u32> = Vec::new();
        let mut i: usize = 0;
        while i < count
            invariant
                ctx == old(ctx),
                old(ctx).wf(),
                count == ctx.varstore.parameter_ids.items@.len(),
                i <= count,
                parameter_ids@ == ctx.varstore.parameter_ids.items@.subrange(0, i as int),
            decreases count - i,
        {
            parameter_ids.push(ctx.varstore.parameter_ids.id_at(i));
            i = i + 1;
            proof {
                assert(parameter_ids@ =~= ctx.varstore.parameter_ids.items@.subrange(
                    0,
                    i as int,
                ));
            }
        }
        let ghost ids = parameter_ids@;
        proof {
            assert(ids =~= old(ctx).varstore.parameter_ids.items@);
        }

        let total = parameter_ids.len();
        let mut k: usize = 0;
        while k < total
            invariant
                *self == *old(self),
                lr == self.learning_rate,
                s0 == old(ctx)@,
                ids == old(ctx).varstore.parameter_ids.items@,
                ids == parameter_ids@,
                total == ids.len(),
                k <= total,
                ctx.wf(),
                m_sgd_run(ctx@, ids.skip(k as int), lr) == m_sgd_run(s0, ids, lr),
            decreases total - k,
        {
            let ghost rest = ids.skip(k as int);
            let ghost pre = ctx@;
            let parameter_id = NtenID(parameter_ids[k]);
            proof {
                assert(rest[0] == parameter_id.0);
                assert(rest.drop_first() =~= ids.skip(k as int + 1));
            }
            let grad = match ctx.get_grad(&parameter_id) {
                Ok(t) => t,
                Err(e) => {
                    proof {
                        assert(m_sgd_step(pre, parameter_id.0, lr) == Err::<
                            CtxModel,
                            EngineError,
                        >(e));
                    }
                    return Err(e);
                },
            };
            let val = match ctx.get_val(&parameter_id) {
                Ok(t) => t,
                Err(e) => {
                    proof {
                        assert(m_sgd_step(pre, parameter_id.0, lr) == Err::<
                            CtxModel,
                            EngineError,
                        >(e));
                    }
                    return Err(e);
                },
            };
            match (&val.storage, &grad.storage) {
                (crate::storage::Storage::Dense(_), crate::storage::Storage::Dense(_)) => {
                    let scaled = grad.mul_scalar(self.learning_rate);
                    let new_value = match val.sub(&scaled) {
                        Ok(t) => t,
                        Err(e) => {
                            proof {
                                assert(m_sgd_step(pre, parameter_id.0, lr) == Err::<
                                    CtxModel,
                                    EngineError,
                                >(e));
                            }
                            return Err(e);
                        },
                    };
                    ctx.insert_val(&parameter_id, new_value);
                    proof {
                        assert(m_sgd_step(pre, parameter_id.0, lr) == Ok::<
                            CtxModel,
                            EngineError,
                        >(ctx@));
                    }
                },
                _ => {
                    proof {
                        assert(m_sgd_step(pre, parameter_id.0, lr) == Err::<
                            CtxModel,
                            EngineError,
                        >(EngineError::Uninitialized(parameter_id)));
                    }
                    return Err(EngineError::Uninitialized(parameter_id));
                },
            }
            k = k + 1;
        }
        proof {
            assert(ids.skip(total as int) =~= Seq::<u32>::empty());
        }
        Ok(())
    }
}

} // verus!
