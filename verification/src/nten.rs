use vstd::prelude::*;
use vstd::string::StringExecFns;

use crate::dtype::Shape;
use crate::fn_edge::FnEdgeID;
use crate::tensor::Tensor;
use crate::tensor::TensorModel;

verus! {

/// Identifier of one value-carrying graph node.
#[derive(Eq, Hash, PartialEq, Structural, Clone, Copy, Debug)]
pub struct NtenID(pub u32);

/// First identifier of the parameter subspace; ids below it are
/// ephemeral, ids at or above it belong to parameters.
pub const PARAMETER_ID_BASE: u32 = 0x8000_0000;

/// Whether an id lies in the parameter subspace.
pub open spec fn is_parameter_id(id: u32) -> bool {
    id >= PARAMETER_ID_BASE
}

/// Marker trait for node-handle types.
pub trait NtenTrait {

}

/// Spec-level image of one node.
#[verifier::ext_equal]
pub struct NodeModel {
    pub id: u32,
    pub creator: u32,
    pub shape: Shape,
    pub val: Option<TensorModel>,
    pub grad: Option<TensorModel>,
}

/// The untyped graph node: an id, the edge that created it, a declared
/// shape, and optional value and gradient tensors.
#[derive(Debug)]
pub struct Nten {
    pub id: NtenID,
    pub name: String,
    pub creator: FnEdgeID,
    pub shape: Shape,
    pub val: Option<Tensor>,
    pub grad: Option<Tensor>,
}

impl View for Nten {
    type V = NodeModel;

    open spec fn view(&self) -> NodeModel {
        NodeModel {
            id: self.id.0,
            creator: self.creator.0,
            shape: self.shape,
            val: match self.val {
                Some(t) => Some(t@),
                None => None,
            },
            grad: match self.grad {
                Some(t) => Some(t@),
                None => None,
            },
        }
    }
}

impl Clone for Nten {
    fn clone(&self) -> (r: Self)
        ensures
            r@ == self@,
            r.name@ == self.name@,
            self.wf() ==> r.wf(),
    {
        Self {
            id: self.id,
            name: self.name.clone(),
            creator: self.creator,
            shape: self.shape,
            val: match &self.val {
                Some(t) => Some(t.clone()),
                None => None,
            },
            grad: match &self.grad {
                Some(t) => Some(t.clone()),
                None => None,
            },
        }
    }
}

impl Nten {
    /// The value and gradient tensors, where present, are themselves
    /// well formed.
    pub open spec fn wf(self) -> bool {
        &&& match self.val {
            Some(t) => t.wf(),
            None => true,
        }
        &&& match self.grad {
            Some(t) => t.wf(),
            None => true,
        }
    }

    /// Renames the node, leaving everything else alone.
    pub fn name(self, name: &str) -> (r: Self)
        ensures
            r@ == self@,
            r.name@ == name@,
            self.wf() ==> r.wf(),
    {
        Self {
            id: self.id,
            name: name.to_owned(),
            creator: self.creator,
            shape: self.shape,
            val: self.val,
            grad: self.grad,
        }
    }
}

} // verus!
