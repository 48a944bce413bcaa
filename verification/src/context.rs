use vstd::prelude::*;

use crate::dtype::Shape;
use crate::errors::EngineError;
use crate::nten::NodeModel;
use crate::nten::Nten;
use crate::nten::NtenID;
use crate::raw_dense::ew_add;
use crate::storage::StorageModel;
use crate::table::Table;
use crate::tensor::Tensor;
use crate::tensor::TensorModel;
use crate::tensor2d::Tensor2d;
use crate::varstore::VarStore;

verus! {

/// Spec-level image of one execution context: the node store, the
/// parameter-id set, and the ephemeral tensor cache.
#[verifier::ext_equal]
pub struct CtxModel {
    pub nodes: Map<u32, NodeModel>,
    pub params: Set<u32>,
    pub temps: Map<u32, TensorModel>,
}

/// Reading the value slot of a node: absent node or empty slot fails.
pub open spec fn m_get_val(s: CtxModel, id: u32) -> Result<TensorModel, EngineError> {
    if !s.nodes.dom().contains(id) {
        Err(EngineError::NotFound(NtenID(id)))
    } else {
        match s.nodes[id].val {
            Some(t) => Ok(t),
            None => Err(EngineError::Uninitialized(NtenID(id))),
        }
    }
}

/// Reading the gradient slot of a node.
pub open spec fn m_get_grad(s: CtxModel, id: u32) -> Result<TensorModel, EngineError> {
    if !s.nodes.dom().contains(id) {
        Err(EngineError::NotFound(NtenID(id)))
    } else {
        match s.nodes[id].grad {
            Some(t) => Ok(t),
            None => Err(EngineError::Uninitialized(NtenID(id))),
        }
    }
}

/// Narrowing a tensor to scalar cells of an exact shape: a different
/// shape is a shape mismatch; a slot without usable scalar cells is
/// the uninitialized-read violation.
pub open spec fn m_cells(t: TensorModel, want: Shape, id: u32) -> Result<Seq<i64>, EngineError> {
    if t.shape != want {
        Err(EngineError::ShapeMismatch { expected: want, found: t.shape })
    } else if t.data is Cells {
        Ok(t.data.cells())
    } else {
        Err(EngineError::Uninitialized(NtenID(id)))
    }
}

/// Value slot read, narrowed to cells of shape `want`.
pub open spec fn m_get_val_cells(s: CtxModel, id: u32, want: Shape) -> Result<
    Seq<i64>,
    EngineError,
> {
    match m_get_val(s, id) {
        Ok(t) => m_cells(t, want, id),
        Err(e) => Err(e),
    }
}

/// Gradient slot read, narrowed to cells of shape `want`.
pub open spec fn m_get_grad_cells(s: CtxModel, id: u32, want: Shape) -> Result<
    Seq<i64>,
    EngineError,
> {
    match m_get_grad(s, id) {
        Ok(t) => m_cells(t, want, id),
        Err(e) => Err(e),
    }
}

/// Writing a value slot: an existing node keeps its identity; an
/// unknown id grows a fresh ephemeral node whose creator is the
/// reserved placeholder edge.
pub open spec fn m_insert_val(s: CtxModel, id: u32, t: TensorModel) -> CtxModel {
    if s.nodes.dom().contains(id) {
        let n = s.nodes[id];
        CtxModel {
            nodes: s.nodes.insert(
                id,
                NodeModel { id: n.id, creator: n.creator, shape: n.shape, val: Some(t), grad: n.grad },
            ),
            params: s.params,
            temps: s.temps,
        }
    } else {
        CtxModel {
            nodes: s.nodes.insert(
                id,
                NodeModel { id, creator: 0, shape: t.shape, val: Some(t), grad: None },
            ),
            params: s.params,
            temps: s.temps,
        }
    }
}

/// The chain-rule accumulation step: the delta is summed into the
/// node's gradient, or fills an empty gradient slot.
pub open spec fn m_add_assign_grad(s: CtxModel, id: u32, delta: TensorModel) -> Result<
    CtxModel,
    EngineError,
> {
    if !s.nodes.dom().contains(id) {
        Err(EngineError::NotFound(NtenID(id)))
    } else {
        let n = s.nodes[id];
        match n.grad {
            None => Ok(
                CtxModel {
                    nodes: s.nodes.insert(
                        id,
                        NodeModel {
                            id: n.id,
                            creator: n.creator,
                            shape: n.shape,
                            val: n.val,
                            grad: Some(delta),
                        },
                    ),
                    params: s.params,
                    temps: s.temps,
                },
            ),
            Some(g) => {
                if g.shape != delta.shape {
                    Err(EngineError::ShapeMismatch { expected: g.shape, found: delta.shape })
                } else if g.data is Cells && delta.data is Cells {
                    Ok(
                        CtxModel {
                            nodes: s.nodes.insert(
                                id,
                                NodeModel {
                                    id: n.id,
                                    creator: n.creator,
                                    shape: n.shape,
                                    val: n.val,
                                    grad: Some(
                                        TensorModel {
                                            shape: g.shape,
                                            data: StorageModel::Cells(
                                                ew_add(g.data.cells(), delta.data.cells()),
                                            ),
                                        },
                                    ),
                                },
                            ),
                            params: s.params,
                            temps: s.temps,
                        },
                    )
                } else {
                    Err(EngineError::Uninitialized(NtenID(id)))
                }
            },
        }
    }
}

/// Caching one ephemeral tensor under a private id.
pub open spec fn m_insert_tensor(s: CtxModel, id: u32, t: TensorModel) -> CtxModel {
    CtxModel { nodes: s.nodes, params: s.params, temps: s.temps.insert(id, t) }
}

/// Reading the ephemeral cache.
pub open spec fn m_get_tensor(s: CtxModel, id: u32) -> Result<TensorModel, EngineError> {
    if s.temps.dom().contains(id) {
        Ok(s.temps[id])
    } else {
        Err(EngineError::NotFound(NtenID(id)))
    }
}

/// Ephemeral cache read, narrowed to flags of shape `want`.
pub open spec fn m_get_tensor_bools(s: CtxModel, id: u32, want: Shape) -> Result<
    Seq<bool>,
    EngineError,
> {
    match m_get_tensor(s, id) {
        Ok(t) => {
            if t.shape != want {
                Err(EngineError::ShapeMismatch { expected: want, found: t.shape })
            } else if t.data is Bools {
                Ok(t.data.bools())
            } else {
                Err(EngineError::Uninitialized(NtenID(id)))
            }
        },
        Err(e) => Err(e),
    }
}

/// Per-execution environment: the shared store plus an ephemeral cache
/// for values that belong to one forward pass only and never join
/// gradient bookkeeping.
pub struct Context {
    pub varstore: VarStore,
    pub temp_tensors: Table<Tensor>,
}

impl View for Context {
    type V = CtxModel;

    open spec fn view(&self) -> CtxModel {
        CtxModel {
            nodes: self.varstore.nodes(),
            params: self.varstore.parameter_ids@,
            temps: Map::new(
                |k: u32| self.temp_tensors@.dom().contains(k),
                |k: u32| self.temp_tensors@[k]@,
            ),
        }
    }
}

impl Context {
    pub open spec fn wf(self) -> bool {
        &&& self.varstore.wf()
        &&& self.temp_tensors.wf()
        &&& forall|k: u32|
            #[trigger] self.temp_tensors@.dom().contains(k) ==> self.temp_tensors@[k].wf()
    }

    pub fn new() -> (r: Self)
        ensures
            r.wf(),
            r@.nodes == Map::<u32, NodeModel>::empty(),
            r@.params == Set::<u32>::empty(),
            r@.temps == Map::<u32, TensorModel>::empty(),
    {
        let r = Self { varstore: VarStore::new(), temp_tensors: Table::new() };
        proof {
            assert(r@.temps =~= Map::<u32, TensorModel>::empty());
        }
        r
    }

    /// Puts a node into the store, overriding any node of the same id.
    pub fn insert_nten(&mut self, new_nten: Nten)
        requires
            old(self).wf(),
            new_nten.wf(),
            new_nten@.id == new_nten.id.0,
        ensures
            final(self).wf(),
            final(self)@ == (CtxModel {
                nodes: old(self)@.nodes.insert(new_nten.id.0, new_nten@),
                params: old(self)@.params,
                temps: old(self)@.temps,
            }),
    {
        let ghost id = new_nten.id.0;
        let ghost model = new_nten@;
        self.varstore.resister_input(new_nten);
        proof {
            assert(final(self)@ =~= (CtxModel {
                nodes: old(self)@.nodes.insert(id, model),
                params: old(self)@.params,
                temps: old(self)@.temps,
            }));
        }
    }

    /// The value tensor of a node; fatal when the node is absent or
    /// its value slot is still empty.
    pub fn get_val(&self, id: &NtenID) -> (r: Result<Tensor, EngineError>)
        requires
            self.wf(),
        ensures
            match r {
                Ok(t) => m_get_val(self@, id.0) == Ok::<TensorModel, EngineError>(t@) && t.wf(),
                Err(e) => m_get_val(self@, id.0) == Err::<TensorModel, EngineError>(e),
            },
    {
        match self.varstore.body.get(id.0) {
            Some(nten) => {
                match &nten.val {
                    Some(val) => Ok(val.clone()),
                    None => Err(EngineError::Uninitialized(*id)),
                }
            },
            None => Err(EngineError::NotFound(*id)),
        }
    }

    /// The gradient tensor of a node; fatal when the node is absent or
    /// its gradient slot is still empty.
    pub fn get_grad(&self, id: &NtenID) -> (r: Result<Tensor, EngineError>)
        requires
            self.wf(),
        ensures
            match r {
                Ok(t) => m_get_grad(self@, id.0) == Ok::<TensorModel, EngineError>(t@) && t.wf(),
                Err(e) => m_get_grad(self@, id.0) == Err::<TensorModel, EngineError>(e),
            },
    {
        match self.varstore.body.get(id.0) {
            Some(nten) => {
                match &nten.grad {
                    Some(grad) => Ok(grad.clone()),
                    None => Err(EngineError::Uninitialized(*id)),
                }
            },
            None => Err(EngineError::NotFound(*id)),
        }
    }

    /// The value of a node as a typed scalar tensor.
    pub fn get_val_as_2d<const R: usize, const C: usize>(&self, id: &NtenID) -> (r: Result<
        Tensor2d<R, C>,
        EngineError,
    >)
        requires
            self.wf(),
        ensures
            match r {
                Ok(t) => {
                    &&& m_get_val_cells(self@, id.0, Shape::D2(R, C)) == Ok::<
                        Seq<i64>,
                        EngineError,
                    >(t@.cells())
                    &&& t@ is Cells
                    &&& t.wf()
                },
                Err(e) => m_get_val_cells(self@, id.0, Shape::D2(R, C)) == Err::<
                    Seq<i64>,
                    EngineError,
                >(e),
            },
    {
        let tensor = self.get_val(id)?;
        let typed = tensor.to_typed2d::<R, C>()?;
        match &typed.storage {
            crate::storage::Storage::Dense(_) => Ok(typed),
            _ => Err(EngineError::Uninitialized(*id)),
        }
    }

    /// The gradient of a node as a typed scalar tensor.
    pub fn get_grad_as_2d<const R: usize, const C: usize>(&self, id: &NtenID) -> (r: Result<
        Tensor2d<R, C>,
        EngineError,
    >)
        requires
            self.wf(),
        ensures
            match r {
                Ok(t) => {
                    &&& m_get_grad_cells(self@, id.0, Shape::D2(R, C)) == Ok::<
                        Seq<i64>,
                        EngineError,
                    >(t@.cells())
                    &&& t@ is Cells
                    &&& t.wf()
                },
                Err(e) => m_get_grad_cells(self@, id.0, Shape::D2(R, C)) == Err::<
                    Seq<i64>,
                    EngineError,
                >(e),
            },
    {
        let tensor = self.get_grad(id)?;
        let typed = tensor.to_typed2d::<R, C>()?;
        match &typed.storage {
            crate::storage::Storage::Dense(_) => Ok(typed),
            _ => Err(EngineError::Uninitialized(*id)),
        }
    }

    /// Writes a node's value; an unknown id grows a fresh ephemeral
    /// node backed by the placeholder edge, modelling runtime-only
    /// values that were never registered.
    pub fn insert_val(&mut self, id: &NtenID, tensor: Tensor)
        requires
            old(self).wf(),
            tensor.wf(),
        ensures
            final(self).wf(),
            final(self)@ == m_insert_val(old(self)@, id.0, tensor@),
    {
        let ghost target = m_insert_val(old(self)@, id.0, tensor@);
        match self.varstore.remove_nten(id) {
            Some(mut nten) => {
                nten.val = Some(tensor);
                self.varstore.return_nten(nten);
                proof {
                    assert(self.varstore.lending@ =~= Set::<u32>::empty());
                    assert forall|k: u32| #[trigger] self.varstore.body@.dom().contains(k)
                        implies self.varstore.body@[k].wf() && self.varstore.body@[k]@.id == k by {
                        if k != id.0 {
                            assert(old(self).varstore.body@.dom().contains(k));
                        }
                    }
                    assert(final(self)@.nodes =~= target.nodes);
                    assert(final(self)@ =~= target);
                }
            },
            None => {
                let new = Nten {
                    id: *id,
                    name: "run time insert".to_owned(),
                    creator: crate::fn_edge::FnEdgeID(0),
                    shape: tensor.shape,
                    val: Some(tensor),
                    grad: None,
                };
                self.varstore.resister_input(new);
                proof {
                    assert(final(self)@.nodes =~= target.nodes);
                    assert(final(self)@ =~= target);
                }
            },
        }
    }

    /// Accumulates a gradient contribution into a node: the core
    /// chain-rule invariant. The delta is summed into an existing
    /// gradient and fills an empty slot.
    pub fn add_assign_grad(&mut self, id: &NtenID, new_grad: &Tensor) -> (r: Result<
        (),
        EngineError,
    >)
        requires
            old(self).wf(),
            new_grad.wf(),
            new_grad@.data is Cells,
        ensures
            final(self).wf(),
            match m_add_assign_grad(old(self)@, id.0, new_grad@) {
                Ok(s2) => r is Ok && final(self)@ == s2,
                Err(e) => r == Err::<(), EngineError>(e) && final(self)@ == old(self)@,
            },
    {
        let ghost outcome = m_add_assign_grad(old(self)@, id.0, new_grad@);
        match self.varstore.body.get(id.0) {
            None => Err(EngineError::NotFound(*id)),
            Some(found) => {
                let updated_grad: Tensor = match &found.grad {
                    None => new_grad.clone(),
                    Some(old_grad) => {
                        match (&old_grad.storage, &new_grad.storage) {
                            (
                                crate::storage::Storage::Dense(_),
                                crate::storage::Storage::Dense(_),
                            ) => {
                                match old_grad.add(new_grad) {
                                    Ok(sum) => sum,
                                    Err(e) => {
                                        return Err(e);
                                    },
                                }
                            },
                            _ => {
                                if old_grad.shape != new_grad.shape {
                                    return Err(
                                        EngineError::ShapeMismatch {
                                            expected: old_grad.shape,
                                            found: new_grad.shape,
                                        },
                                    );
                                }
                                return Err(EngineError::Uninitialized(*id));
                            },
                        }
                    },
                };
                match self.varstore.remove_nten(id) {
                    Some(mut nten) => {
                        nten.grad = Some(updated_grad);
                        self.varstore.return_nten(nten);
                        proof {
                            assert(self.varstore.lending@ =~= Set::<u32>::empty());
                            assert forall|k: u32| #[trigger] self.varstore.body@.dom().contains(k)
                                implies self.varstore.body@[k].wf() && self.varstore.body@[k]@.id
                                == k by {
                                if k != id.0 {
                                    assert(old(self).varstore.body@.dom().contains(k));
                                }
                            }
                            assert(final(self)@.nodes =~= outcome.unwrap().nodes);
                            assert(final(self)@ =~= outcome.unwrap());
                        }
                        Ok(())
                    },
                    None => unreached(),
                }
            },
        }
    }

    /// A node's value narrowed to scalar cells of an exact dynamic
    /// shape, for edge kernels.
    pub(crate) fn take_val_cells(&self, id: &NtenID, want: Shape) -> (r: Result<
        crate::raw_dense::RawDense,
        EngineError,
    >)
        requires
            self.wf(),
        ensures
            match r {
                Ok(d) => {
                    &&& m_get_val_cells(self@, id.0, want) == Ok::<Seq<i64>, EngineError>(d@)
                    &&& d@.len() == want.count()
                },
                Err(e) => m_get_val_cells(self@, id.0, want) == Err::<Seq<i64>, EngineError>(e),
            },
    {
        let t = self.get_val(id)?;
        if t.shape != want {
            return Err(EngineError::ShapeMismatch { expected: want, found: t.shape });
        }
        match &t.storage {
            crate::storage::Storage::Dense(d) => Ok(d.clone()),
            _ => Err(EngineError::Uninitialized(*id)),
        }
    }

    /// A node's gradient narrowed to scalar cells of an exact dynamic
    /// shape, for edge kernels.
    pub(crate) fn take_grad_cells(&self, id: &NtenID, want: Shape) -> (r: Result<
        crate::raw_dense::RawDense,
        EngineError,
    >)
        requires
            self.wf(),
        ensures
            match r {
                Ok(d) => {
                    &&& m_get_grad_cells(self@, id.0, want) == Ok::<Seq<i64>, EngineError>(d@)
                    &&& d@.len() == want.count()
                },
                Err(e) => m_get_grad_cells(self@, id.0, want) == Err::<Seq<i64>, EngineError>(e),
            },
    {
        let t = self.get_grad(id)?;
        if t.shape != want {
            return Err(EngineError::ShapeMismatch { expected: want, found: t.shape });
        }
        match &t.storage {
            crate::storage::Storage::Dense(d) => Ok(d.clone()),
            _ => Err(EngineError::Uninitialized(*id)),
        }
    }

    /// An ephemeral cached tensor narrowed to flags of an exact dynamic
    /// shape, for edge kernels.
    pub(crate) fn take_temp_bools(&self, id: &NtenID, want: Shape) -> (r: Result<
        crate::raw_bool::RawBool,
        EngineError,
    >)
        requires
            self.wf(),
        ensures
            match r {
                Ok(b) => {
                    &&& m_get_tensor_bools(self@, id.0, want) == Ok::<Seq<bool>, EngineError>(b@)
                    &&& b@.len() == want.count()
                    &&& b.wf()
                },
                Err(e) => m_get_tensor_bools(self@, id.0, want) == Err::<Seq<bool>, EngineError>(
                    e,
                ),
            },
    {
        let t = self.get_tensor(id)?;
        if t.shape != want {
            return Err(EngineError::ShapeMismatch { expected: want, found: t.shape });
        }
        match &t.storage {
            crate::storage::Storage::DenseBool(b) => Ok(b.clone()),
            _ => Err(EngineError::Uninitialized(*id)),
        }
    }

    /// Caches an ephemeral tensor that is not a graph node and takes
    /// no part in gradient bookkeeping.
    pub fn insert_tensor(&mut self, id: &NtenID, tensor: Tensor)
        requires
            old(self).wf(),
            tensor.wf(),
        ensures
            final(self).wf(),
            final(self)@ == m_insert_tensor(old(self)@, id.0, tensor@),
    {
        self.temp_tensors.insert(id.0, tensor);
        proof {
            assert(final(self)@.temps =~= m_insert_tensor(old(self)@, id.0, tensor@).temps);
            assert(final(self)@ =~= m_insert_tensor(old(self)@, id.0, tensor@));
        }
    }

    /// Reads an ephemeral tensor back; fatal when the id is unknown.
    pub fn get_tensor(&self, id: &NtenID) -> (r: Result<Tensor, EngineError>)
        requires
            self.wf(),
        ensures
            match r {
                Ok(t) => m_get_tensor(self@, id.0) == Ok::<TensorModel, EngineError>(t@) && t.wf(),
                Err(e) => m_get_tensor(self@, id.0) == Err::<TensorModel, EngineError>(e),
            },
    {
        match self.temp_tensors.get(id.0) {
            Some(tensor) => Ok(tensor.clone()),
            None => Err(EngineError::NotFound(*id)),
        }
    }

    /// Reads an ephemeral tensor back as a typed flag tensor.
    pub fn get_tensor_as_2d<const R: usize, const C: usize>(&self, id: &NtenID) -> (r: Result<
        Tensor2d<R, C>,
        EngineError,
    >)
        requires
            self.wf(),
        ensures
            match r {
                Ok(t) => {
                    &&& m_get_tensor_bools(self@, id.0, Shape::D2(R, C)) == Ok::<
                        Seq<bool>,
                        EngineError,
                    >(t@.bools())
                    &&& t@ is Bools
                    &&& t.wf()
                },
                Err(e) => m_get_tensor_bools(self@, id.0, Shape::D2(R, C)) == Err::<
                    Seq<bool>,
                    EngineError,
                >(e),
            },
    {
        let tensor = self.get_tensor(id)?;
        let typed = tensor.to_typed2d::<R, C>()?;
        match &typed.storage {
            crate::storage::Storage::DenseBool(_) => Ok(typed),
            _ => Err(EngineError::Uninitialized(*id)),
        }
    }
}

} // verus!
