use vstd::prelude::*;

use crate::dtype::Shape;
use crate::fn_edge::FnEdgeID;
use crate::nten::NtenID;

verus! {

/// The engine's error taxonomy.
///
/// `ShapeMismatch` is construction-time and recoverable: the graph
/// builder gets it back and can retry. The other three mark invariant
/// violations met while executing a tape: a node id that is absent
/// (`NotFound`), a value or gradient slot read while still empty
/// (`Uninitialized`), and a sentinel edge asked to compute
/// (`InvalidEdge`). Those end the current step: a corrupted tape is not
/// resumed.
#[derive(PartialEq, Eq, Structural, Clone, Copy, Debug)]
pub enum EngineError {
    NotFound(NtenID),
    Uninitialized(NtenID),
    ShapeMismatch { expected: Shape, found: Shape },
    InvalidEdge(FnEdgeID),
}

} // verus!
