use vstd::prelude::*;
use vstd::string::StringExecFns;

use crate::dtype::Shape;
use crate::fn_edge::Add2d;
use crate::fn_edge::AddBroadcast2d;
use crate::fn_edge::FnEdge;
use crate::fn_edge::FnEdgeID;
use crate::fn_edge::HumanCreatedFnEdge;
use crate::fn_edge::Matmul;
use crate::fn_edge::Relu2d;
use crate::graph::Graph;
use crate::nten::NodeModel;
use crate::nten::Nten;
use crate::nten::NtenID;
use crate::nten::PARAMETER_ID_BASE;
use crate::nten::is_parameter_id;
use crate::tensor::TensorModel;
use crate::tensor2d::Tensor2d;
use crate::varstore::VarStore;

verus! {

/// The statically shape-tagged graph-building handle: each op method
/// allocates a fresh node id, records the matching edge in the graph
/// arena, and returns a value-less handle for the op's output.
pub struct Nten2d<const R: usize, const C: usize> {
    pub id: NtenID,
    pub name: String,
    pub creator: FnEdgeID,
    pub val: Option<Tensor2d<R, C>>,
    pub grad: Option<Tensor2d<R, C>>,
}

impl<const R: usize, const C: usize> Nten2d<R, C> {
    /// The value and gradient, where present, are well formed.
    pub open spec fn wf(self) -> bool {
        &&& match self.val {
            Some(t) => t.wf(),
            None => true,
        }
        &&& match self.grad {
            Some(t) => t.wf(),
            None => true,
        }
    }

    /// The handle was built against this graph: its creator edge is
    /// in the arena and its node id has been issued by the graph's
    /// allocator. Under it, op results get ids distinct from their
    /// operands'.
    pub open spec fn from_graph(self, g: Graph) -> bool {
        &&& self.creator.0 < g.edges@.len()
        &&& (is_parameter_id(self.id.0) ==> self.id.0 < g.alloc.next_parameter)
        &&& (!is_parameter_id(self.id.0) ==> self.id.0 < g.alloc.next_ephemeral)
    }

    /// The node this handle erases to.
    pub open spec fn node_model(self) -> NodeModel {
        NodeModel {
            id: self.id.0,
            creator: self.creator.0,
            shape: Shape::D2(R, C),
            val: match self.val {
                Some(t) => Some(TensorModel { shape: Shape::D2(R, C), data: t@ }),
                None => None,
            },
            grad: match self.grad {
                Some(t) => Some(TensorModel { shape: Shape::D2(R, C), data: t@ }),
                None => None,
            },
        }
    }

    /// Wraps a concrete tensor as a fresh leaf node backed by a
    /// leaf-sentinel edge.
    pub fn new_from_val(g: &mut Graph, val: Tensor2d<R, C>) -> (r: Self)
        requires
            old(g).wf(),
            old(g).edges@.len() < u32::MAX,
            old(g).alloc.next_ephemeral < PARAMETER_ID_BASE,
        ensures
            final(g).wf(),
            final(g).edges@ == old(g).edges@.push(
                FnEdge::HumanCreated(
                    HumanCreatedFnEdge { id: FnEdgeID(old(g).edges@.len() as u32) },
                ),
            ),
            final(g).alloc.next_ephemeral == old(g).alloc.next_ephemeral + 1,
            final(g).alloc.next_parameter == old(g).alloc.next_parameter,
            r.id.0 == old(g).alloc.next_ephemeral,
            r.creator.0 == old(g).edges@.len(),
            r.from_graph(*final(g)),
            r.val == Some(val),
            r.grad is None,
            val.wf() ==> r.wf(),
    {
        let id = g.alloc.allocate_node_id(false);
        let eid = g.allocate_edge_id();
        g.record_edge(FnEdge::HumanCreated(HumanCreatedFnEdge::new(eid)));
        Self { id, name: "no_name".to_owned(), creator: eid, val: Some(val), grad: None }
    }

    /// Renames the handle, leaving everything else alone.
    pub fn name(self, name: &str) -> (r: Self)
        ensures
            r.id == self.id,
            r.creator == self.creator,
            r.val == self.val,
            r.grad == self.grad,
            r.name@ == name@,
            self.wf() ==> r.wf(),
    {
        Self {
            id: self.id,
            name: name.to_owned(),
            creator: self.creator,
            val: self.val,
            grad: self.grad,
        }
    }

    /// Erases the static tag into an untyped node, preserving id,
    /// creator, declared shape and contents.
    pub fn to_untyped(self) -> (r: Nten)
        ensures
            r@ == self.node_model(),
            r.name@ == self.name@,
            self.wf() ==> r.wf(),
    {
        let val_untyped = match &self.val {
            Some(val) => Some(val.to_untyped()),
            None => None,
        };
        let grad_untyped = match &self.grad {
            Some(grad) => Some(grad.to_untyped()),
            None => None,
        };
        Nten {
            id: self.id,
            name: self.name,
            creator: self.creator,
            shape: Shape::D2(R, C),
            val: val_untyped,
            grad: grad_untyped,
        }
    }

    /// The type's textual tag, e.g. `Nten2d<2, 3, i64>`.
    pub fn type_label() -> (r: String)
        ensures
            r@ == "Nten2d<"@ + Shape::dec_digits(R as int) + ", "@ + Shape::dec_digits(C as int)
                + ", i64>"@,
    {
        let mut s = String::new();
        s.append("Nten2d<");
        crate::dtype::append_usize(&mut s, R);
        s.append(", ");
        crate::dtype::append_usize(&mut s, C);
        s.append(", i64>");
        proof {
            assert(s@ =~= "Nten2d<"@ + Shape::dec_digits(R as int) + ", "@ + Shape::dec_digits(
                C as int,
            ) + ", i64>"@);
        }
        s
    }

    /// Registers this node in the store as a parameter: it will
    /// survive `zero_grad` with its value intact. The value slot must
    /// already be filled.
    pub fn as_parameter(self, vs: &mut VarStore) -> (r: Self)
        requires
            old(vs).wf(),
            self.wf(),
            self.val is Some,
        ensures
            final(vs).wf(),
            final(vs).nodes() == old(vs).nodes().insert(self.id.0, self.node_model()),
            final(vs).parameter_ids@ == old(vs).parameter_ids@.insert(self.id.0),
            r == self,
    {
        let to_resistor = self.duplicate();
        vs.resister_parameter(to_resistor.to_untyped());
        self
    }

    /// Registers this node in the store as a plain input: it is
    /// ephemeral and will be purged by `zero_grad`. The value slot
    /// must already be filled.
    pub fn as_input(self, vs: &mut VarStore) -> (r: Self)
        requires
            old(vs).wf(),
            self.wf(),
            self.val is Some,
        ensures
            final(vs).wf(),
            final(vs).nodes() == old(vs).nodes().insert(self.id.0, self.node_model()),
            final(vs).parameter_ids@ == old(vs).parameter_ids@,
            r == self,
    {
        let to_resistor = self.duplicate();
        vs.resister_input(to_resistor.to_untyped());
        self
    }

    /// A structurally equal copy of the handle.
    fn duplicate(&self) -> (r: Self)
        requires
            self.wf(),
        ensures
            r.id == self.id,
            r.creator == self.creator,
            r.node_model() == self.node_model(),
            r.wf(),
    {
        Self {
            id: self.id,
            name: self.name.clone(),
            creator: self.creator,
            val: match &self.val {
                Some(t) => Some(t.clone()),
                None => None,
            },
            grad: match &self.grad {
                Some(t) => Some(t.clone()),
                None => None,
            },
        }
    }

    /// Records an elementwise-addition edge over this node and
    /// `other`, and returns the handle of its output node.
    pub fn add(&self, g: &mut Graph, other: &Self) -> (r: Self)
        requires
            old(g).wf(),
            old(g).edges@.len() < u32::MAX,
            old(g).alloc.next_ephemeral < PARAMETER_ID_BASE,
            self.from_graph(*old(g)),
            other.from_graph(*old(g)),
            R * C <= usize::MAX,
        ensures
            final(g).wf(),
            final(g).edges@.len() == old(g).edges@.len() + 1,
            final(g).edges@.subrange(0, old(g).edges@.len() as int) == old(g).edges@,
            final(g).alloc.next_ephemeral == old(g).alloc.next_ephemeral + 1,
            final(g).alloc.next_parameter == old(g).alloc.next_parameter,
            r.id.0 == old(g).alloc.next_ephemeral,
            r.creator.0 == old(g).edges@.len(),
            r.from_graph(*final(g)),
            r.id != self.id,
            r.id != other.id,
            r.val is None,
            r.grad is None,
            r.wf(),
            match final(g).edges@.last() {
                FnEdge::Add2d(e) => {
                    &&& e.id == r.creator
                    &&& e.input1_id == self.id
                    &&& e.input2_id == other.id
                    &&& e.output_id == r.id
                    &&& e.rows == R
                    &&& e.cols == C
                    &&& e.sources@ == seq![self.creator, other.creator]
                },
                _ => false,
            },
    {
        let new_id = g.alloc.allocate_node_id(false);
        let eid = g.allocate_edge_id();
        let mut sources: Vec<FnEdgeID> = Vec::new();
        sources.push(self.creator);
        sources.push(other.creator);
        proof {
            assert(sources@ =~= seq![self.creator, other.creator]);
        }
        let add2d = Add2d {
            id: eid,
            name: "auto created by Add2d".to_owned(),
            sources,
            input1_id: self.id,
            input2_id: other.id,
            output_id: new_id,
            rows: R,
            cols: C,
        };
        let edge = FnEdge::Add2d(add2d);
        proof {
            lemma_pair_sources(edge, self.creator.0, other.creator.0);
        }
        g.record_edge(edge);
        Self { id: new_id, name: "add2d".to_owned(), creator: eid, val: None, grad: None }
    }

    /// Records a broadcast-addition edge adding the one-row `bias` to
    /// every row of this node, and returns the output handle.
    pub fn add_broadcast(&self, g: &mut Graph, bias: &Nten2d<1, C>) -> (r: Self)
        requires
            old(g).wf(),
            old(g).edges@.len() < u32::MAX,
            old(g).alloc.next_ephemeral < PARAMETER_ID_BASE,
            self.from_graph(*old(g)),
            bias.from_graph(*old(g)),
            R * C <= usize::MAX,
        ensures
            final(g).wf(),
            final(g).edges@.len() == old(g).edges@.len() + 1,
            final(g).edges@.subrange(0, old(g).edges@.len() as int) == old(g).edges@,
            final(g).alloc.next_ephemeral == old(g).alloc.next_ephemeral + 1,
            final(g).alloc.next_parameter == old(g).alloc.next_parameter,
            r.id.0 == old(g).alloc.next_ephemeral,
            r.creator.0 == old(g).edges@.len(),
            r.from_graph(*final(g)),
            r.id != self.id,
            r.id != bias.id,
            r.val is None,
            r.grad is None,
            r.wf(),
            match final(g).edges@.last() {
                FnEdge::AddBroadcast2d(e) => {
                    &&& e.id == r.creator
                    &&& e.input1_id == self.id
                    &&& e.input2_id == bias.id
                    &&& e.output_id == r.id
                    &&& e.rows == R
                    &&& e.cols == C
                    &&& e.sources@ == seq![self.creator, bias.creator]
                },
                _ => false,
            },
    {
        let new_id = g.alloc.allocate_node_id(false);
        let eid = g.allocate_edge_id();
        let mut sources: Vec<FnEdgeID> = Vec::new();
        sources.push(self.creator);
        sources.push(bias.creator);
        proof {
            assert(sources@ =~= seq![self.creator, bias.creator]);
        }
        let fn_edge = AddBroadcast2d {
            id: eid,
            name: "auto created by AddBroadcast2d".to_owned(),
            sources,
            input1_id: self.id,
            input2_id: bias.id,
            output_id: new_id,
            rows: R,
            cols: C,
        };
        let edge = FnEdge::AddBroadcast2d(fn_edge);
        proof {
            lemma_pair_sources(edge, self.creator.0, bias.creator.0);
        }
        g.record_edge(edge);
        Self { id: new_id, name: "add broadcast".to_owned(), creator: eid, val: None, grad: None }
    }

    /// Records a rectified-linear edge over this node, allocating a
    /// private ephemeral id for the cached selection mask, and returns
    /// the output handle.
    pub fn relu(&self, g: &mut Graph) -> (r: Self)
        requires
            old(g).wf(),
            old(g).edges@.len() < u32::MAX,
            old(g).alloc.next_ephemeral + 1 < PARAMETER_ID_BASE,
            self.from_graph(*old(g)),
            R * C <= usize::MAX,
        ensures
            final(g).wf(),
            final(g).edges@.len() == old(g).edges@.len() + 1,
            final(g).edges@.subrange(0, old(g).edges@.len() as int) == old(g).edges@,
            final(g).alloc.next_ephemeral == old(g).alloc.next_ephemeral + 2,
            final(g).alloc.next_parameter == old(g).alloc.next_parameter,
            r.id.0 == old(g).alloc.next_ephemeral,
            r.creator.0 == old(g).edges@.len(),
            r.from_graph(*final(g)),
            r.id != self.id,
            r.val is None,
            r.grad is None,
            r.wf(),
            match final(g).edges@.last() {
                FnEdge::Relu2d(e) => {
                    &&& e.id == r.creator
                    &&& e.input_id == self.id
                    &&& e.output_id == r.id
                    &&& e.mask_cach_id.0 == old(g).alloc.next_ephemeral + 1
                    &&& e.rows == R
                    &&& e.cols == C
                    &&& e.sources@ == seq![self.creator]
                },
                _ => false,
            },
    {
        let new_id = g.alloc.allocate_node_id(false);
        let mask_id = g.alloc.allocate_node_id(false);
        let eid = g.allocate_edge_id();
        let mut sources: Vec<FnEdgeID> = Vec::new();
        sources.push(self.creator);
        proof {
            assert(sources@ =~= seq![self.creator]);
        }
        let relu = Relu2d {
            id: eid,
            name: "Relu2d".to_owned(),
            sources,
            input_id: self.id,
            output_id: new_id,
            mask_cach_id: mask_id,
            rows: R,
            cols: C,
        };
        let edge = FnEdge::Relu2d(relu);
        proof {
            assert forall|s: u32| edge.spec_sources().contains(s) implies s
                < old(g).edges@.len() by {
                let q = choose|q: int|
                    0 <= q < edge.spec_sources().len() && edge.spec_sources()[q] == s;
                assert(edge.spec_sources()[q] == self.creator.0);
            }
        }
        g.record_edge(edge);
        Self {
            id: new_id,
            name: "auto created by Relu2d".to_owned(),
            creator: eid,
            val: None,
            grad: None,
        }
    }
}

/// Records a matrix-product edge over an n-by-m and an m-by-o node,
/// and returns the handle of its n-by-o output.
pub fn matmul<const N: usize, const M: usize, const O: usize>(
    g: &mut Graph,
    lhs: &Nten2d<N, M>,
    rhs: &Nten2d<M, O>,
) -> (r: Nten2d<N, O>)
    requires
        old(g).wf(),
        old(g).edges@.len() < u32::MAX,
        old(g).alloc.next_ephemeral < PARAMETER_ID_BASE,
        lhs.from_graph(*old(g)),
        rhs.from_graph(*old(g)),
        N * M <= usize::MAX,
        M * O <= usize::MAX,
        N * O <= usize::MAX,
    ensures
        final(g).wf(),
        final(g).edges@.len() == old(g).edges@.len() + 1,
        final(g).edges@.subrange(0, old(g).edges@.len() as int) == old(g).edges@,
        final(g).alloc.next_ephemeral == old(g).alloc.next_ephemeral + 1,
        final(g).alloc.next_parameter == old(g).alloc.next_parameter,
        r.id.0 == old(g).alloc.next_ephemeral,
        r.creator.0 == old(g).edges@.len(),
        r.from_graph(*final(g)),
        r.id != lhs.id,
        r.id != rhs.id,
        r.val is None,
        r.grad is None,
        r.wf(),
        match final(g).edges@.last() {
            FnEdge::Matmul(e) => {
                &&& e.id == r.creator
                &&& e.lhs_id == lhs.id
                &&& e.rhs_id == rhs.id
                &&& e.output_id == r.id
                &&& e.n == N
                &&& e.m == M
                &&& e.o == O
                &&& e.sources@ == seq![lhs.creator, rhs.creator]
            },
            _ => false,
        },
{
    let new_id = g.alloc.allocate_node_id(false);
    let eid = g.allocate_edge_id();
    let mut sources: Vec<FnEdgeID> = Vec::new();
    sources.push(lhs.creator);
    sources.push(rhs.creator);
    proof {
        assert(sources@ =~= seq![lhs.creator, rhs.creator]);
    }
    let mm = Matmul {
        id: eid,
        name: "Matmul".to_owned(),
        sources,
        lhs_id: lhs.id,
        rhs_id: rhs.id,
        output_id: new_id,
        n: N,
        m: M,
        o: O,
    };
    let edge = FnEdge::Matmul(mm);
    proof {
        lemma_pair_sources(edge, lhs.creator.0, rhs.creator.0);
    }
    g.record_edge(edge);
    Nten2d {
        id: new_id,
        name: "auto created by Matmul".to_owned(),
        creator: eid,
        val: None,
        grad: None,
    }
}

/// Growing the graph never invalidates a handle: once built against
/// it, a handle stays built against every later state of the same
/// graph, whose arena and id counters only grow.
pub proof fn lemma_from_graph_preserved<const R: usize, const C: usize>(
    h: Nten2d<R, C>,
    g1: Graph,
    g2: Graph,
)
    requires
        h.from_graph(g1),
        g1.edges@.len() <= g2.edges@.len(),
        g1.alloc.next_ephemeral <= g2.alloc.next_ephemeral,
        g1.alloc.next_parameter <= g2.alloc.next_parameter,
    ensures
        h.from_graph(g2),
{
}

/// An edge whose source list is a two-element sequence names only
/// those two edges.
proof fn lemma_pair_sources(edge: FnEdge, a: u32, b: u32)
    requires
        edge.spec_sources().len() == 2,
        edge.spec_sources()[0] == a,
        edge.spec_sources()[1] == b,
    ensures
        forall|s: u32| edge.spec_sources().contains(s) ==> s == a || s == b,
{
    assert forall|s: u32| edge.spec_sources().contains(s) implies s == a || s == b by {
        let q = choose|q: int|
            0 <= q < edge.spec_sources().len() && edge.spec_sources()[q] == s;
    }
}

} // verus!
