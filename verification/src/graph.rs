use vstd::prelude::*;

use crate::fn_edge::DummyFnEdge;
use crate::fn_edge::FnEdge;
use crate::fn_edge::FnEdgeID;
use crate::nten::NtenID;
use crate::nten::PARAMETER_ID_BASE;
use crate::nten::is_parameter_id;

verus! {

/// Issues process-unique node identifiers from two disjoint subspaces:
/// ephemeral ids count up from one, parameter ids count up from a
/// separate high base, so independently built subgraphs sharing one
/// store cannot collide. Explicit and injectable rather than a hidden
/// process-global counter, so graphs are reproducible and isolable.
pub struct IdAlloc {
    pub next_ephemeral: u32,
    pub next_parameter: u32,
}

impl IdAlloc {
    /// Both counters stay inside their subspaces.
    pub open spec fn wf(self) -> bool {
        &&& 1 <= self.next_ephemeral
        &&& self.next_ephemeral <= PARAMETER_ID_BASE
        &&& self.next_parameter >= PARAMETER_ID_BASE
    }

    pub fn new() -> (r: Self)
        ensures
            r.wf(),
            r.next_ephemeral == 1,
            r.next_parameter == PARAMETER_ID_BASE,
    {
        Self { next_ephemeral: 1, next_parameter: PARAMETER_ID_BASE }
    }

    /// Issues a fresh node id, monotonic within its subspace: an id is
    /// never issued twice by one allocator.
    pub fn allocate_node_id(&mut self, is_parameter: bool) -> (r: NtenID)
        requires
            old(self).wf(),
            is_parameter ==> old(self).next_parameter < u32::MAX,
            !is_parameter ==> old(self).next_ephemeral < PARAMETER_ID_BASE,
        ensures
            final(self).wf(),
            is_parameter_id(r.0) == is_parameter,
            is_parameter ==> {
                &&& r.0 == old(self).next_parameter
                &&& final(self).next_parameter == old(self).next_parameter + 1
                &&& final(self).next_ephemeral == old(self).next_ephemeral
            },
            !is_parameter ==> {
                &&& r.0 == old(self).next_ephemeral
                &&& final(self).next_ephemeral == old(self).next_ephemeral + 1
                &&& final(self).next_parameter == old(self).next_parameter
            },
    {
        if is_parameter {
            let id = self.next_parameter;
            self.next_parameter = self.next_parameter + 1;
            NtenID(id)
        } else {
            let id = self.next_ephemeral;
            self.next_ephemeral = self.next_ephemeral + 1;
            NtenID(id)
        }
    }
}

/// The arena of operation edges. An edge's id is its index here, and
/// every edge's sources were created before it, so the creator
/// relation is acyclic by construction. Slot zero holds the reserved
/// placeholder edge that backs runtime-synthesized nodes.
pub struct Graph {
    pub edges: Vec<FnEdge>,
    pub alloc: IdAlloc,
}

impl Graph {
    /// Ids equal arena indices, every edge is well formed, and sources
    /// strictly precede the edge that names them.
    pub open spec fn wf(self) -> bool {
        &&& 1 <= self.edges@.len() <= u32::MAX
        &&& self.edges@[0] is Dummy
        &&& self.alloc.wf()
        &&& forall|i: int|
            0 <= i < self.edges@.len() ==> (#[trigger] self.edges@[i]).spec_id() == i
                && self.edges@[i].wf()
        &&& forall|i: int, s: u32|
            0 <= i < self.edges@.len() && #[trigger] self.edges@[i].spec_sources().contains(s)
                ==> s < i
    }

    pub fn new() -> (r: Self)
        ensures
            r.wf(),
            r.edges@.len() == 1,
            r.alloc.next_ephemeral == 1,
            r.alloc.next_parameter == PARAMETER_ID_BASE,
    {
        let mut edges: Vec<FnEdge> = Vec::new();
        edges.push(FnEdge::Dummy(DummyFnEdge::new(FnEdgeID(0))));
        let r = Self { edges, alloc: IdAlloc::new() };
        proof {
            assert(r.edges@[0].spec_sources() =~= Seq::<u32>::empty());
        }
        r
    }

    /// How many edges the arena holds.
    pub fn edge_count(&self) -> (r: usize)
        ensures
            r == self.edges@.len(),
    {
        self.edges.len()
    }

    /// The id the next recorded edge will carry.
    pub fn allocate_edge_id(&self) -> (r: FnEdgeID)
        requires
            self.wf(),
            self.edges@.len() < u32::MAX,
        ensures
            r.0 == self.edges@.len(),
    {
        FnEdgeID(self.edges.len() as u32)
    }

    /// Appends one edge; it must carry the next id and name only
    /// earlier edges as sources.
    pub fn record_edge(&mut self, edge: FnEdge)
        requires
            old(self).wf(),
            old(self).edges@.len() < u32::MAX,
            edge.spec_id() == old(self).edges@.len(),
            edge.wf(),
            !edge.is_sentinel() ==> forall|s: u32|
                edge.spec_sources().contains(s) ==> s < old(self).edges@.len(),
            edge.is_sentinel() ==> edge.spec_sources() == Seq::<u32>::empty(),
        ensures
            final(self).wf(),
            final(self).edges@ == old(self).edges@.push(edge),
            final(self).alloc == old(self).alloc,
    {
        self.edges.push(edge);
    }
}

} // verus!
