use vstd::prelude::*;

use crate::context::Context;
use crate::context::CtxModel;
use crate::errors::EngineError;
use crate::fn_edge::FnEdge;
use crate::fn_edge::FnEdgeID;
use crate::fn_edge::edge_bwd;
use crate::fn_edge::edge_fwd;
use crate::graph::Graph;
use crate::nten::NodeModel;
use crate::nten::Nten;
use crate::table::IdList;
use crate::varstore::cleared;

verus! {

/// Whether `target` is reachable from edge `from` through source
/// links, along a path that meets no already-executed edge: the walk
/// prunes at executed edges, whose subgraphs are known complete.
pub open spec fn reaches(edges: Seq<FnEdge>, executed: Set<u32>, from: u32, target: u32) -> bool
    decreases from,
{
    if executed.contains(from) {
        false
    } else if from == target {
        true
    } else {
        exists|s: u32|
            #[trigger] edges[from as int].spec_sources().contains(s) && s < from && reaches(
                edges,
                executed,
                s,
                target,
            )
    }
}

/// Whether the creator edge of any sink reaches `target`.
pub open spec fn reaches_any(
    edges: Seq<FnEdge>,
    executed: Set<u32>,
    sinks: Seq<Nten>,
    target: u32,
) -> bool {
    exists|k: int|
        0 <= k < sinks.len() && reaches(edges, executed, (#[trigger] sinks[k])@.creator, target)
}

/// A reachable edge's unexecuted source is reachable too.
proof fn lemma_reaches_step(edges: Seq<FnEdge>, executed: Set<u32>, from: u32, mid: u32, s: u32)
    requires
        reaches(edges, executed, from, mid),
        edges[mid as int].spec_sources().contains(s),
        s < mid,
        !executed.contains(s),
    ensures
        reaches(edges, executed, from, s),
    decreases from,
{
    if executed.contains(from) {
    } else if from == mid {
        assert(reaches(edges, executed, s, s));
    } else {
        let s0 = choose|s0: u32|
            #[trigger] edges[from as int].spec_sources().contains(s0) && s0 < from && reaches(
                edges,
                executed,
                s0,
                mid,
            );
        lemma_reaches_step(edges, executed, s0, mid, s);
    }
}

/// A reachable target other than the start is some reachable edge's
/// unexecuted source.
proof fn lemma_reaches_last_step(edges: Seq<FnEdge>, executed: Set<u32>, from: u32, target: u32)
    requires
        reaches(edges, executed, from, target),
        from != target,
    ensures
        exists|e: u32|
            reaches(edges, executed, from, e) && #[trigger] edges[e as int].spec_sources().contains(
                target,
            ) && target < e && !executed.contains(target),
    decreases from,
{
    let s = choose|s: u32|
        #[trigger] edges[from as int].spec_sources().contains(s) && s < from && reaches(
            edges,
            executed,
            s,
            target,
        );
    if s == target {
        assert(reaches(edges, executed, from, from));
        assert(!executed.contains(target));
    } else {
        lemma_reaches_last_step(edges, executed, s, target);
        let e = choose|e: u32|
            reaches(edges, executed, s, e) && #[trigger] edges[e as int].spec_sources().contains(
                target,
            ) && target < e && !executed.contains(target);
        if from != e {
            assert(reaches(edges, executed, from, e));
        }
    }
}

/// The forward fold: runs each tape entry in order against the context
/// model, skipping sentinels, stopping at the first failure.
pub open spec fn run_forward(edges: Seq<FnEdge>, tape: Seq<u32>, s: CtxModel) -> Result<
    CtxModel,
    EngineError,
>
    decreases tape.len(),
{
    if tape.len() == 0 {
        Ok(s)
    } else {
        let e = edges[tape[0] as int];
        if e.is_sentinel() {
            run_forward(edges, tape.drop_first(), s)
        } else {
            match edge_fwd(e, s) {
                Ok(s2) => run_forward(edges, tape.drop_first(), s2),
                Err(er) => Err(er),
            }
        }
    }
}

/// The backward fold: runs the tape strictly in reverse, last entry
/// first, skipping sentinels, stopping at the first failure.
pub open spec fn run_backward(edges: Seq<FnEdge>, tape: Seq<u32>, s: CtxModel) -> Result<
    CtxModel,
    EngineError,
>
    decreases tape.len(),
{
    if tape.len() == 0 {
        Ok(s)
    } else {
        let e = edges[tape.last() as int];
        if e.is_sentinel() {
            run_backward(edges, tape.drop_last(), s)
        } else {
            match edge_bwd(e, s) {
                Ok(s2) => run_backward(edges, tape.drop_last(), s2),
                Err(er) => Err(er),
            }
        }
    }
}

/// The tape engine: it grows an ordered, append-only instruction tape
/// by walking the graph from requested sinks, runs the pending suffix
/// forward, and replays the whole tape in reverse for gradients.
pub struct Autograd {
    pub already_executed: IdList,
    pub next_execute_index: usize,
    pub tape: Vec<FnEdgeID>,
    pub ctx: Context,
}

impl Autograd {
    /// The tape as plain edge ids.
    pub open spec fn tape_ids(self) -> Seq<u32> {
        self.tape@.map_values(|e: FnEdgeID| e.0)
    }

    /// Tape well-formedness against the graph it was built from: ids
    /// are valid and distinct, the executed set is exactly the tape's
    /// contents, and every edge on the tape comes after all of its
    /// sources — a dependency-respecting order.
    pub open spec fn tape_wf(self, g: Graph) -> bool {
        &&& self.already_executed.wf()
        &&& self.ctx.wf()
        &&& self.already_executed@ == self.tape_ids().to_set()
        &&& forall|i: int, j: int|
            0 <= i < j < self.tape@.len() ==> self.tape_ids()[i] != self.tape_ids()[j]
        &&& forall|i: int|
            0 <= i < self.tape@.len() ==> #[trigger] self.tape_ids()[i] < g.edges@.len()
        &&& forall|i: int, s: u32|
            0 <= i < self.tape@.len() && #[trigger] g.edges@[self.tape_ids()[i] as int]
                .spec_sources().contains(s) ==> exists|j: int|
                0 <= j < i && self.tape_ids()[j] == s
    }

    /// Between public calls the high-water mark sits at the tape's end.
    pub open spec fn wf(self, g: Graph) -> bool {
        &&& self.tape_wf(g)
        &&& self.next_execute_index == self.tape@.len()
    }

    pub fn new() -> (r: Self)
        ensures
            forall|g: Graph| r.wf(g),
            r.tape@.len() == 0,
            r.next_execute_index == 0,
            r.already_executed@ == Set::<u32>::empty(),
            r.ctx@.nodes == Map::<u32, NodeModel>::empty(),
            r.ctx@.params == Set::<u32>::empty(),
            r.ctx@.temps == Map::<u32, crate::tensor::TensorModel>::empty(),
    {
        let r = Self {
            already_executed: IdList::new(),
            next_execute_index: 0,
            tape: Vec::new(),
            ctx: Context::new(),
        };
        proof {
            assert forall|g: Graph| r.wf(g) by {
                assert(r.tape_ids() =~= Seq::<u32>::empty());
                assert(r.already_executed@ =~= r.tape_ids().to_set());
            }
        }
        r
    }

    /// How many entries the tape holds.
    pub fn tape_len(&self) -> (r: usize)
        ensures
            r == self.tape@.len(),
    {
        self.tape.len()
    }

    /// Walks the graph from the sinks' creator edges, pruning at
    /// already-executed edges, and appends exactly the newly reachable
    /// edges to the tape in a dependency-respecting (ascending
    /// creation) order, marking them executed.
    pub fn _build_tape(&mut self, g: &Graph, results: &Vec<Nten>)
        requires
            old(self).wf(*g),
            g.wf(),
            forall|k: int|
                0 <= k < results@.len() ==> (#[trigger] results@[k])@.creator < g.edges@.len(),
        ensures
            final(self).tape_wf(*g),
            final(self).ctx == old(self).ctx,
            final(self).next_execute_index == old(self).next_execute_index,
            final(self).tape@.len() >= old(self).tape@.len(),
            final(self).tape@.subrange(0, old(self).tape@.len() as int) == old(self).tape@,
            forall|i: int, j: int|
                old(self).tape@.len() <= i < j < final(self).tape@.len()
                    ==> final(self).tape_ids()[i] < final(self).tape_ids()[j],
            forall|id: u32|
                final(self).tape_ids().skip(old(self).tape@.len() as int).contains(id)
                    <==> reaches_any(g.edges@, old(self).already_executed@, results@, id),
    {
        let ghost ex = old(self).already_executed@;
        let ghost edges = g.edges@;
        let n = g.edge_count();

        // mark[id] will say: edge id is reachable from a sink without
        // crossing an executed edge
        let mut mark: Vec<bool> = Vec::new();
        let mut fill: usize = 0;
        while fill < n
            invariant
                fill <= n,
                mark@ == Seq::new(fill as nat, |x: int| false),
            decreases n - fill,
        {
            mark.push(false);
            fill = fill + 1;
            proof {
                assert(mark@ =~= Seq::new(fill as nat, |x: int| false));
            }
        }

        // seed the sinks' creator edges
        let sink_count = results.len();
        let mut k: usize = 0;
        while k < sink_count
            invariant
                self == old(self),
                sink_count == results@.len(),
                k <= sink_count,
                ex == old(self).already_executed@,
                edges == g.edges@,
                g.wf(),
                forall|p: int|
                    0 <= p < results@.len() ==> (#[trigger] results@[p])@.creator < edges.len(),
                mark@.len() == n,
                n == edges.len(),
                forall|x: u32| x < n && mark@[x as int] ==> reaches_any(edges, ex, results@, x),
                forall|p: int|
                    0 <= p < k && !ex.contains((#[trigger] results@[p])@.creator) ==> mark@[
                        results@[p]@.creator as int
                    ],
            decreases sink_count - k,
        {
            let c = results[k].creator.0;
            if !self.already_executed.contains(c) {
                let ghost pre_mark = mark@;
                mark[c as usize] = true;
                proof {
                    assert(reaches(edges, ex, c, c));
                    assert(reaches(edges, ex, (results@[k as int])@.creator, c));
                    assert forall|x: u32| x < n && mark@[x as int] implies reaches_any(
                        edges,
                        ex,
                        results@,
                        x,
                    ) by {
                        if x != c {
                            assert(pre_mark[x as int]);
                        }
                    }
                }
            }
            k = k + 1;
        }

        // descending sweep: an edge marked reachable marks its
        // unexecuted sources, which all have smaller ids
        let mut id = n;
        while id > 0
            invariant
                self == old(self),
                ex == old(self).already_executed@,
                edges == g.edges@,
                g.wf(),
                sink_count == results@.len(),
                forall|p: int|
                    0 <= p < results@.len() ==> (#[trigger] results@[p])@.creator < edges.len(),
                mark@.len() == n,
                n == edges.len(),
                id <= n,
                // soundness
                forall|x: u32| x < n && mark@[x as int] ==> reaches_any(edges, ex, results@, x),
                // sinks stay marked
                forall|p: int|
                    0 <= p < results@.len() && !ex.contains((#[trigger] results@[p])@.creator)
                        ==> mark@[results@[p]@.creator as int],
                // completeness over the processed suffix
                forall|x: u32|
                    id <= x < n && reaches_any(edges, ex, results@, x) ==> mark@[x as int],
                // closure through processed parents
                forall|e: u32, s: u32|
                    id <= e < n && mark@[e as int] && #[trigger] edges[e as int].spec_sources()
                        .contains(s) && !ex.contains(s) ==> mark@[s as int],
            decreases id,
        {
            id = id - 1;
            let ghost mark_entry = mark@;
            // establish completeness for this id before processing it
            proof {
                if reaches_any(edges, ex, results@, id as u32) && !mark@[id as int] {
                    let kk = choose|kk: int|
                        0 <= kk < results@.len() && reaches(
                            edges,
                            ex,
                            (#[trigger] results@[kk])@.creator,
                            id as u32,
                        );
                    let c = (results@[kk])@.creator;
                    if c == id as u32 {
                        assert(mark@[id as int]);
                    } else {
                        lemma_reaches_last_step(edges, ex, c, id as u32);
                        let e = choose|e: u32|
                            reaches(edges, ex, c, e) && #[trigger] edges[e as int].spec_sources()
                                .contains(id as u32) && (id as u32) < e && !ex.contains(id as u32);
                        lemma_reaches_target_below(edges, ex, c, e, n as u32);
                        assert(e < n);
                        assert(reaches_any(edges, ex, results@, e));
                        assert(mark@[e as int]);
                        assert(mark@[id as int]);
                    }
                }
            }
            if mark[id] {
                let srcs = g.edges[id].sources();
                let ghost srcs_ids = edges[id as int].spec_sources();
                let m = srcs.len();
                let mut t: usize = 0;
                while t < m
                    invariant
                        self == old(self),
                        ex == old(self).already_executed@,
                        edges == g.edges@,
                        g.wf(),
                        sink_count == results@.len(),
                        forall|p: int|
                            0 <= p < results@.len() ==> (#[trigger] results@[p])@.creator
                                < edges.len(),
                        mark@.len() == n,
                        n == edges.len(),
                        id < n,
                        t <= m,
                        srcs@.map_values(|x: FnEdgeID| x.0) == srcs_ids,
                        m == srcs_ids.len(),
                        srcs_ids == edges[id as int].spec_sources(),
                        mark@[id as int],
                        forall|x: u32|
                            x < n && mark@[x as int] ==> reaches_any(edges, ex, results@, x),
                        forall|p: int|
                            0 <= p < results@.len() && !ex.contains(
                                (#[trigger] results@[p])@.creator,
                            ) ==> mark@[results@[p]@.creator as int],
                        forall|x: u32|
                            id < x < n && reaches_any(edges, ex, results@, x) ==> mark@[x as int],
                        forall|x: u32| x < n && mark_entry[x as int] ==> mark@[x as int],
                        forall|e: u32, s: u32|
                            id < e < n && mark@[e as int] && #[trigger] edges[e as int]
                                .spec_sources().contains(s) && !ex.contains(s) ==> mark@[s as int],
                        // sources handled so far
                        forall|q: int|
                            0 <= q < t && !ex.contains(#[trigger] srcs_ids[q]) ==> mark@[
                                srcs_ids[q] as int
                            ],
                    decreases m - t,
                {
                    let s = srcs[t].0;
                    proof {
                        assert(srcs_ids[t as int] == s);
                        assert(srcs_ids.contains(s));
                        assert(s < id as u32);
                    }
                    if !self.already_executed.contains(s) {
                        mark[s as usize] = true;
                        proof {
                            let kk = choose|kk: int|
                                0 <= kk < results@.len() && reaches(
                                    edges,
                                    ex,
                                    (#[trigger] results@[kk])@.creator,
                                    id as u32,
                                );
                            lemma_reaches_step(
                                edges,
                                ex,
                                (results@[kk])@.creator,
                                id as u32,
                                s,
                            );
                            assert(reaches_any(edges, ex, results@, s));
                        }
                    }
                    t = t + 1;
                    proof {
                        assert forall|q: int|
                            0 <= q < t && !ex.contains(#[trigger] srcs_ids[q]) implies mark@[
                            srcs_ids[q] as int
                        ] by {
                            assert(srcs_ids.contains(srcs_ids[q]));
                            assert(srcs_ids[q] < id as u32);
                            if q == t - 1 {
                                assert(srcs_ids[q] == s);
                            }
                        }
                    }
                }
                proof {
                    assert forall|e: u32, s: u32|
                        id <= e < n && mark@[e as int] && #[trigger] edges[e as int].spec_sources()
                            .contains(s) && !ex.contains(s) implies mark@[s as int] by {
                        if e == id as u32 {
                            let q = choose|q: int|
                                0 <= q < srcs_ids.len() && srcs_ids[q] == s;
                            assert(mark@[srcs_ids[q] as int]);
                        }
                    }
                }
            } else {
                proof {
                    assert forall|e: u32, s: u32|
                        id <= e < n && mark@[e as int] && #[trigger] edges[e as int].spec_sources()
                            .contains(s) && !ex.contains(s) implies mark@[s as int] by {
                        if e == id as u32 {
                            assert(false);
                        }
                    }
                }
            }
        }

        // collect the marked edges in ascending id order: every edge
        // lands after all of its sources
        let ghost old_len = self.tape@.len();
        let mut idx: usize = 0;
        while idx < n
            invariant
                ex == old(self).already_executed@,
                edges == g.edges@,
                g.wf(),
                old(self).wf(*g),
                mark@.len() == n,
                n == edges.len(),
                idx <= n,
                self.ctx == old(self).ctx,
                self.next_execute_index == old(self).next_execute_index,
                old_len == old(self).tape@.len(),
                // marking facts, now frozen
                forall|x: u32| x < n && mark@[x as int] ==> reaches_any(edges, ex, results@, x),
                forall|x: u32|
                    x < n && reaches_any(edges, ex, results@, x) ==> mark@[x as int],
                forall|e: u32, s: u32|
                    e < n && mark@[e as int] && #[trigger] edges[e as int].spec_sources().contains(
                        s,
                    ) && !ex.contains(s) ==> mark@[s as int],
                // tape growth
                self.tape@.len() >= old_len,
                self.tape@.subrange(0, old_len as int) == old(self).tape@,
                self.already_executed.wf(),
                self.already_executed@ == self.tape_ids().to_set(),
                forall|i: int, j: int|
                    0 <= i < j < self.tape@.len() ==> self.tape_ids()[i] != self.tape_ids()[j],
                forall|i: int|
                    0 <= i < self.tape@.len() ==> #[trigger] self.tape_ids()[i] < n,
                forall|i: int, s: u32|
                    0 <= i < self.tape@.len() && #[trigger] edges[self.tape_ids()[i] as int]
                        .spec_sources().contains(s) ==> exists|j: int|
                        0 <= j < i && self.tape_ids()[j] == s,
                // the delta so far: ascending, below idx, exactly the
                // marked ids below idx
                forall|i: int, j: int|
                    old_len <= i < j < self.tape@.len() ==> self.tape_ids()[i] < self.tape_ids()[
                        j
                    ],
                forall|i: int|
                    old_len <= i < self.tape@.len() ==> #[trigger] self.tape_ids()[i] < idx,
                forall|i: int|
                    old_len <= i < self.tape@.len() ==> mark@[#[trigger] self.tape_ids()[i] as int],
                forall|id2: u32|
                    id2 < idx && mark@[id2 as int] ==> self.tape_ids().skip(
                        old_len as int,
                    ).contains(id2),
            decreases n - idx,
        {
            let ghost pre_tape = self.tape_ids();
            if mark[idx] {
                proof {
                    assert(reaches_any(edges, ex, results@, idx as u32));
                    let kk = choose|kk: int|
                        0 <= kk < results@.len() && reaches(
                            edges,
                            ex,
                            (#[trigger] results@[kk])@.creator,
                            idx as u32,
                        );
                    lemma_reaches_target_unexecuted(
                        edges,
                        ex,
                        (results@[kk])@.creator,
                        idx as u32,
                    );
                    assert(!ex.contains(idx as u32));
                    assert(!pre_tape.to_set().contains(idx as u32)
                        || !old(self).already_executed@.contains(idx as u32));
                }
                self.tape.push(FnEdgeID(idx as u32));
                self.already_executed.insert(idx as u32);
                proof {
                    assert(self.tape_ids() =~= pre_tape.push(idx as u32));
                    assert(self.tape_ids().to_set() =~= pre_tape.to_set().insert(idx as u32)) by {
                        assert forall|x: u32| #[trigger] self.tape_ids().contains(x) implies
                            pre_tape.contains(x) || x == idx as u32 by {
                            let p = choose|p: int|
                                0 <= p < self.tape_ids().len() && self.tape_ids()[p] == x;
                            if p < pre_tape.len() {
                                assert(pre_tape[p] == x);
                            }
                        }
                        assert forall|x: u32| pre_tape.contains(x) implies #[trigger] self
                            .tape_ids().contains(x) by {
                            let p = choose|p: int| 0 <= p < pre_tape.len() && pre_tape[p] == x;
                            assert(self.tape_ids()[p] == x);
                        }
                        assert(self.tape_ids()[self.tape@.len() - 1] == idx as u32);
                        assert(self.tape_ids().contains(idx as u32));
                    }
                    assert(self.tape@.subrange(0, old_len as int) =~= old(self).tape@);
                    // the new edge is not on the tape yet, so the tape
                    // stays duplicate-free
                    assert forall|i: int| 0 <= i < pre_tape.len() implies pre_tape[i]
                        != idx as u32 by {
                        if i < old_len {
                            assert(self.tape@.subrange(0, old_len as int)[i] == old(
                                self,
                            ).tape@[i]);
                            assert(old(self).tape_ids()[i] == pre_tape[i]);
                            assert(old(self).tape_ids().contains(pre_tape[i]));
                            assert(old(self).already_executed@.contains(pre_tape[i]));
                        }
                    }
                    // dependency order for the appended edge
                    let pos = self.tape@.len() - 1;
                    assert forall|s: u32|
                        #[trigger] edges[self.tape_ids()[pos] as int].spec_sources().contains(s)
                            implies exists|j: int| 0 <= j < pos && self.tape_ids()[j] == s by {
                        assert(s < idx as u32);
                        if ex.contains(s) {
                            assert(old(self).tape_ids().to_set().contains(s));
                            assert(old(self).tape_ids().contains(s));
                            let j = choose|j: int|
                                0 <= j < old(self).tape_ids().len() && old(self).tape_ids()[j]
                                    == s;
                            assert(self.tape@.subrange(0, old_len as int)[j] == old(
                                self,
                            ).tape@[j]);
                            assert(self.tape_ids()[j] == s);
                        } else {
                            assert(mark@[s as int]);
                            assert(pre_tape.skip(old_len as int).contains(s));
                            let q = choose|q: int|
                                0 <= q < pre_tape.skip(old_len as int).len() && pre_tape.skip(
                                    old_len as int,
                                )[q] == s;
                            assert(pre_tape[old_len + q] == s);
                            assert(self.tape_ids()[old_len + q] == s);
                        }
                    }
                    // older tape entries keep their witnesses
                    assert forall|i: int, s: u32|
                        0 <= i < self.tape@.len() && #[trigger] edges[self.tape_ids()[i] as int]
                            .spec_sources().contains(s) implies exists|j: int|
                        0 <= j < i && self.tape_ids()[j] == s by {
                        if i < pre_tape.len() {
                            assert(pre_tape[i] == self.tape_ids()[i]);
                            assert(edges[pre_tape[i] as int].spec_sources().contains(s));
                            let j = choose|j: int| 0 <= j < i && pre_tape[j] == s;
                            assert(self.tape_ids()[j] == s);
                        }
                    }
                }
            }
            idx = idx + 1;
            proof {
                assert forall|id2: u32| id2 < idx && mark@[id2 as int] implies self.tape_ids()
                    .skip(old_len as int).contains(id2) by {
                    if id2 < idx - 1 {
                        assert(pre_tape.skip(old_len as int).contains(id2));
                        let q = choose|q: int|
                            0 <= q < pre_tape.skip(old_len as int).len() && pre_tape.skip(
                                old_len as int,
                            )[q] == id2;
                        assert(pre_tape[old_len + q] == id2);
                        assert(self.tape_ids()[old_len + q] == id2);
                        assert(self.tape_ids().skip(old_len as int)[q] == id2);
                    } else {
                        assert(self.tape_ids()[self.tape@.len() - 1] == id2);
                        assert(self.tape_ids().skip(old_len as int)[self.tape@.len() - 1
                            - old_len] == id2);
                    }
                }
            }
        }
        proof {
            assert forall|id2: u32|
                final(self).tape_ids().skip(old_len as int).contains(id2) implies reaches_any(
                edges,
                ex,
                results@,
                id2,
            ) by {
                let delta = final(self).tape_ids().skip(old_len as int);
                let q = choose|q: int| 0 <= q < delta.len() && delta[q] == id2;
                assert(final(self).tape_ids()[old_len + q] == id2);
                assert(mark@[id2 as int]);
            }
            assert forall|id2: u32| reaches_any(edges, ex, results@, id2)
                implies final(self).tape_ids().skip(old_len as int).contains(id2) by {
                let kk = choose|kk: int|
                    0 <= kk < results@.len() && reaches(
                        edges,
                        ex,
                        (#[trigger] results@[kk])@.creator,
                        id2,
                    );
                lemma_reaches_target_below(edges, ex, (results@[kk])@.creator, id2, n as u32);
                assert(mark@[id2 as int]);
            }
        }
    }
}

/// With every sink creator already executed, nothing is reachable.
proof fn lemma_all_executed_no_reach(edges: Seq<FnEdge>, executed: Set<u32>, sinks: Seq<Nten>)
    requires
        forall|k: int|
            0 <= k < sinks.len() ==> executed.contains((#[trigger] sinks[k])@.creator),
    ensures
        forall|id: u32| !reaches_any(edges, executed, sinks, id),
{
    assert forall|id: u32| !reaches_any(edges, executed, sinks, id) by {
        if reaches_any(edges, executed, sinks, id) {
            let k = choose|k: int|
                0 <= k < sinks.len() && reaches(edges, executed, (#[trigger] sinks[k])@.creator, id);
            assert(!executed.contains((sinks[k])@.creator));
        }
    }
}

impl Autograd {
    /// Builds or extends the tape from the requested sinks, executes
    /// exactly the pending suffix forward, advances the high-water
    /// mark, and hands back fresh copies of the sink nodes as the
    /// store now holds them. Re-forwarding fully executed sinks runs
    /// nothing and changes nothing.
    pub fn step_forward(&mut self, g: &Graph, results: Vec<Nten>) -> (r: Result<
        Vec<Nten>,
        EngineError,
    >)
        requires
            old(self).wf(*g),
            g.wf(),
            forall|k: int|
                0 <= k < results@.len() ==> (#[trigger] results@[k])@.creator < g.edges@.len(),
        ensures
            final(self).wf(*g),
            final(self).tape@.len() >= old(self).tape@.len(),
            final(self).tape@.subrange(0, old(self).tape@.len() as int) == old(self).tape@,
            forall|i: int, j: int|
                old(self).tape@.len() <= i < j < final(self).tape@.len()
                    ==> final(self).tape_ids()[i] < final(self).tape_ids()[j],
            forall|id: u32|
                final(self).tape_ids().skip(old(self).tape@.len() as int).contains(id)
                    <==> reaches_any(g.edges@, old(self).already_executed@, results@, id),
            match run_forward(
                g.edges@,
                final(self).tape_ids().skip(old(self).tape@.len() as int),
                old(self).ctx@,
            ) {
                Ok(s2) => {
                    &&& final(self).ctx@ == s2
                    &&& match r {
                        Ok(out) => {
                            &&& out@.len() == results@.len()
                            &&& forall|k: int|
                                0 <= k < results@.len() ==> s2.nodes.dom().contains(
                                    (#[trigger] results@[k])@.id,
                                ) && out@[k]@ == s2.nodes[results@[k]@.id]
                        },
                        Err(er) => exists|k: int|
                            {
                                &&& 0 <= k < results@.len()
                                &&& (forall|j: int|
                                    0 <= j < k ==> s2.nodes.dom().contains(
                                        (#[trigger] results@[j])@.id,
                                    ))
                                &&& !s2.nodes.dom().contains((#[trigger] results@[k])@.id)
                                &&& er == EngineError::NotFound(results@[k].id)
                            },
                    }
                },
                Err(er) => r == Err::<Vec<Nten>, EngineError>(er),
            },
            // re-forwarding the same sinks is free: with every sink
            // creator already executed, the tape and context are as
            // they were
            (forall|k: int|
                0 <= k < results@.len() ==> old(self).already_executed@.contains(
                    (#[trigger] results@[k])@.creator,
                )) ==> final(self).tape@ == old(self).tape@ && final(self).ctx@ == old(self).ctx@,
    {
        let ghost old_len = self.tape@.len();
        let ghost edges = g.edges@;
        let ghost s0 = self.ctx@;
        self._build_tape(g, &results);
        let ghost full_tape = self.tape@;
        let ghost executed_after = self.already_executed;
        let ghost delta = self.tape_ids().skip(old_len as int);

        // run the pending suffix in order
        let mut i = self.next_execute_index;
        proof {
            assert(self.tape_ids().skip(i as int) =~= delta);
        }
        while i < self.tape.len()
            invariant
                g.wf(),
                edges == g.edges@,
                old_len == old(self).tape@.len(),
                s0 == old(self).ctx@,
                old_len <= i <= self.tape@.len(),
                self.tape@ == full_tape,
                full_tape.subrange(0, old_len as int) == old(self).tape@,
                delta == self.tape_ids().skip(old_len as int),
                forall|p: int, q: int|
                    old_len <= p < q < self.tape@.len() ==> self.tape_ids()[p]
                        < self.tape_ids()[q],
                forall|id: u32|
                    delta.contains(id) <==> reaches_any(
                        edges,
                        old(self).already_executed@,
                        results@,
                        id,
                    ),
                self.already_executed == executed_after,
                self.next_execute_index == old_len,
                self.tape_wf(*g),
                run_forward(edges, self.tape_ids().skip(i as int), self.ctx@) == run_forward(
                    edges,
                    delta,
                    s0,
                ),
            decreases self.tape@.len() - i,
        {
            let ghost pre = self.ctx@;
            let ghost rest = self.tape_ids().skip(i as int);
            proof {
                assert(rest[0] == self.tape_ids()[i as int]);
                assert(rest.drop_first() =~= self.tape_ids().skip(i as int + 1));
            }
            let eid = self.tape[i].0;
            let e = &g.edges[eid as usize];
            if !e.sentinel() {
                match e.forward(&mut self.ctx) {
                    Ok(()) => {},
                    Err(er) => {
                        self.next_execute_index = self.tape.len();
                        proof {
                            assert(run_forward(edges, delta, s0) == Err::<CtxModel, EngineError>(
                                er,
                            ));
                            if forall|k: int|
                                0 <= k < results@.len() ==> old(self).already_executed@.contains(
                                    (#[trigger] results@[k])@.creator,
                                ) {
                                lemma_all_executed_no_reach(
                                    edges,
                                    old(self).already_executed@,
                                    results@,
                                );
                                assert(delta.contains(delta[0]));
                                assert(reaches_any(
                                    edges,
                                    old(self).already_executed@,
                                    results@,
                                    delta[0],
                                ));
                                assert(false);
                            }
                        }
                        return Err(er);
                    },
                }
            }
            i = i + 1;
        }
        self.next_execute_index = self.tape.len();
        let ghost s2 = self.ctx@;
        proof {
            assert(self.tape_ids().skip(self.tape@.len() as int) =~= Seq::<u32>::empty());
            assert(run_forward(edges, delta, s0) == Ok::<CtxModel, EngineError>(s2));
        }

        // hand back fresh copies of the sink nodes from the store
        let sink_count = results.len();
        let mut out: Vec<Nten> = Vec::new();
        let mut k: usize = 0;
        while k < sink_count
            invariant
                g.wf(),
                edges == g.edges@,
                old_len == old(self).tape@.len(),
                s0 == old(self).ctx@,
                sink_count == results@.len(),
                k <= sink_count,
                self.tape@ == full_tape,
                full_tape.subrange(0, old_len as int) == old(self).tape@,
                full_tape.len() >= old_len,
                delta == self.tape_ids().skip(old_len as int),
                forall|p: int, q: int|
                    old_len <= p < q < self.tape@.len() ==> self.tape_ids()[p]
                        < self.tape_ids()[q],
                forall|id: u32|
                    delta.contains(id) <==> reaches_any(
                        edges,
                        old(self).already_executed@,
                        results@,
                        id,
                    ),
                self.already_executed == executed_after,
                self.next_execute_index == self.tape@.len(),
                self.tape_wf(*g),
                self.ctx@ == s2,
                run_forward(edges, delta, s0) == Ok::<CtxModel, EngineError>(s2),
                out@.len() == k,
                forall|j: int|
                    0 <= j < k ==> s2.nodes.dom().contains((#[trigger] results@[j])@.id)
                        && out@[j]@ == s2.nodes[results@[j]@.id],
            decreases sink_count - k,
        {
            let id = results[k].id;
            let ghost pre_ctx = self.ctx;
            match self.ctx.varstore.remove_nten(&id) {
                Some(n) => {
                    let copy = n.clone();
                    self.ctx.varstore.return_nten(n);
                    out.push(copy);
                    proof {
                        assert(self.ctx.varstore.lending@ =~= pre_ctx.varstore.lending@);
                        assert(self.ctx.varstore.body@.dom() =~= pre_ctx.varstore.body@.dom());
                        assert forall|k2: u32|
                            #[trigger] self.ctx.varstore.body@.dom().contains(k2) implies self.ctx
                            .varstore.body@[k2]@ == pre_ctx.varstore.body@[k2]@ && self.ctx
                            .varstore.body@[k2].wf() && self.ctx.varstore.body@[k2]@.id == k2 by {
                            if k2 != id.0 {
                                assert(pre_ctx.varstore.body@.dom().contains(k2));
                            }
                        }
                        assert(self.ctx.varstore.nodes() =~= pre_ctx.varstore.nodes());
                        assert(self.ctx@ =~= s2);
                    }
                },
                None => {
                    proof {
                        if forall|kk: int|
                            0 <= kk < results@.len() ==> old(self).already_executed@.contains(
                                (#[trigger] results@[kk])@.creator,
                            ) {
                            lemma_all_executed_no_reach(
                                edges,
                                old(self).already_executed@,
                                results@,
                            );
                            if delta.len() > 0 {
                                assert(delta.contains(delta[0]));
                                assert(reaches_any(
                                    edges,
                                    old(self).already_executed@,
                                    results@,
                                    delta[0],
                                ));
                                assert(false);
                            }
                            assert(self.tape@.len() == old_len);
                            assert(self.tape@ =~= self.tape@.subrange(0, old_len as int));
                            assert(run_forward(edges, delta, s0) == Ok::<CtxModel, EngineError>(
                                s0,
                            ));
                        }
                    }
                    return Err(EngineError::NotFound(id));
                },
            }
            k = k + 1;
        }
        proof {
            if forall|kk: int|
                0 <= kk < results@.len() ==> old(self).already_executed@.contains(
                    (#[trigger] results@[kk])@.creator,
                ) {
                lemma_all_executed_no_reach(edges, old(self).already_executed@, results@);
                if delta.len() > 0 {
                    assert(delta.contains(delta[0]));
                    assert(reaches_any(
                        edges,
                        old(self).already_executed@,
                        results@,
                        delta[0],
                    ));
                    assert(false);
                }
                assert(self.tape@.len() == old_len);
                assert(self.tape@ =~= self.tape@.subrange(0, old_len as int));
                assert(run_forward(edges, delta, s0) == Ok::<CtxModel, EngineError>(s0));
            }
        }
        Ok(out)
    }

    /// Seeds the sink's gradient into the store, then replays the
    /// entire tape in strict reverse, calling backward on every edge:
    /// every parameter receives its contributions from the whole graph
    /// on every call, with no memoization.
    pub fn backward(&mut self, g: &Graph, result: &Nten) -> (r: Result<(), EngineError>)
        requires
            old(self).wf(*g),
            g.wf(),
            result.wf(),
            result@.grad is Some,
        ensures
            final(self).wf(*g),
            final(self).tape@ == old(self).tape@,
            final(self).already_executed@ == old(self).already_executed@,
            final(self).next_execute_index == old(self).next_execute_index,
            match run_backward(
                g.edges@,
                old(self).tape_ids(),
                CtxModel {
                    nodes: old(self).ctx@.nodes.insert(result.id.0, result@),
                    params: old(self).ctx@.params,
                    temps: old(self).ctx@.temps,
                },
            ) {
                Ok(s2) => r is Ok && final(self).ctx@ == s2,
                Err(er) => r == Err::<(), EngineError>(er),
            },
    {
        let ghost edges = g.edges@;
        self.ctx.insert_nten(result.clone());
        let ghost seeded = self.ctx@;
        let ghost ids = self.tape_ids();
        let mut i = self.tape.len();
        proof {
            assert(ids.subrange(0, i as int) =~= ids);
        }
        while i > 0
            invariant
                g.wf(),
                edges == g.edges@,
                old(self).wf(*g),
                i <= self.tape@.len(),
                self.tape@ == old(self).tape@,
                ids == self.tape_ids(),
                seeded == (CtxModel {
                    nodes: old(self).ctx@.nodes.insert(result.id.0, result@),
                    params: old(self).ctx@.params,
                    temps: old(self).ctx@.temps,
                }),
                self.already_executed == old(self).already_executed,
                self.next_execute_index == old(self).next_execute_index,
                self.tape_wf(*g),
                run_backward(edges, ids.subrange(0, i as int), self.ctx@) == run_backward(
                    edges,
                    ids,
                    seeded,
                ),
            decreases i,
        {
            i = i - 1;
            let ghost prefix = ids.subrange(0, i as int + 1);
            proof {
                assert(prefix.last() == ids[i as int]);
                assert(prefix.drop_last() =~= ids.subrange(0, i as int));
            }
            let eid = self.tape[i].0;
            let e = &g.edges[eid as usize];
            if !e.sentinel() {
                match e.backward(&mut self.ctx) {
                    Ok(()) => {},
                    Err(er) => {
                        proof {
                            assert(run_backward(edges, ids, seeded) == Err::<
                                CtxModel,
                                EngineError,
                            >(er));
                            assert(self.ctx.wf());
                            assert(self.tape_wf(*g));
                            assert(self.next_execute_index == self.tape@.len());
                        }
                        return Err(er);
                    },
                }
            }
        }
        proof {
            assert(ids.subrange(0, 0) =~= Seq::<u32>::empty());
        }
        Ok(())
    }

    /// Ends the training step: drops every non-parameter node, clears
    /// every parameter's gradient while preserving its value, clears
    /// the tape and resets the high-water mark.
    pub fn zero_grad(&mut self)
        requires
            old(self).ctx.wf(),
        ensures
            forall|g: Graph| final(self).wf(g),
            final(self).tape@.len() == 0,
            final(self).next_execute_index == 0,
            final(self).already_executed@ == Set::<u32>::empty(),
            final(self).ctx@.params == old(self).ctx@.params,
            final(self).ctx@.temps == old(self).ctx@.temps,
            final(self).ctx@.nodes == Map::<u32, NodeModel>::new(
                |k: u32|
                    old(self).ctx@.nodes.dom().contains(k) && old(self).ctx@.params.contains(k),
                |k: u32| cleared(old(self).ctx@.nodes[k]),
            ),
    {
        self.ctx.varstore.zero_grad();
        self.tape.clear();
        self.already_executed = IdList::new();
        self.next_execute_index = 0;
        proof {
            assert forall|g: Graph| final(self).wf(g) by {
                assert(final(self).tape_ids() =~= Seq::<u32>::empty());
                assert(final(self).already_executed@ =~= final(self).tape_ids().to_set());
            }
            assert(final(self).ctx@.temps =~= old(self).ctx@.temps);
        }
    }
}

/// A reachable target is itself unexecuted.
proof fn lemma_reaches_target_unexecuted(
    edges: Seq<FnEdge>,
    executed: Set<u32>,
    from: u32,
    target: u32,
)
    requires
        reaches(edges, executed, from, target),
    ensures
        !executed.contains(target),
    decreases from,
{
    if executed.contains(from) {
    } else if from == target {
    } else {
        let s = choose|s: u32|
            #[trigger] edges[from as int].spec_sources().contains(s) && s < from && reaches(
                edges,
                executed,
                s,
                target,
            );
        lemma_reaches_target_unexecuted(edges, executed, s, target);
    }
}

/// A target reached from a valid edge id lies inside the arena.
proof fn lemma_reaches_target_below(
    edges: Seq<FnEdge>,
    executed: Set<u32>,
    from: u32,
    target: u32,
    n: u32,
)
    requires
        reaches(edges, executed, from, target),
        from < n,
    ensures
        target <= from,
        target < n,
    decreases from,
{
    if executed.contains(from) {
    } else if from == target {
    } else {
        let s = choose|s: u32|
            #[trigger] edges[from as int].spec_sources().contains(s) && s < from && reaches(
                edges,
                executed,
                s,
                target,
            );
        lemma_reaches_target_below(edges, executed, s, target, n);
    }
}

} // verus!
