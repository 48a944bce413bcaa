use vstd::prelude::*;
use vstd::string::StringExecFns;

use crate::nten::NodeModel;
use crate::nten::Nten;
use crate::nten::NtenID;
use crate::table::IdList;
use crate::table::Table;

verus! {

/// The node map a store presents, node structs abstracted to models.
pub open spec fn nodes_of(body: Map<u32, Nten>) -> Map<u32, NodeModel> {
    Map::new(|k: u32| body.dom().contains(k), |k: u32| body[k]@)
}

/// One node with its gradient slot cleared.
pub open spec fn cleared(n: NodeModel) -> NodeModel {
    NodeModel { id: n.id, creator: n.creator, shape: n.shape, val: n.val, grad: None }
}

/// The shared table of all live nodes, split into parameters and
/// ephemeral nodes. A node may be checked out (removed) for mutation;
/// `lending` records outstanding checkouts, and a checked-out node is
/// absent from the table until returned.
pub struct VarStore {
    pub body: Table<Nten>,
    pub parameter_ids: IdList,
    pub lending: IdList,
}

impl VarStore {
    /// Tables are well formed, every stored node is well formed and
    /// keyed by its own id, and nothing is checked out.
    pub open spec fn wf(self) -> bool {
        &&& self.body.wf()
        &&& self.parameter_ids.wf()
        &&& self.lending.wf()
        &&& self.lending@ == Set::<u32>::empty()
        &&& forall|k: u32|
            #[trigger] self.body@.dom().contains(k) ==> self.body@[k].wf() && self.body@[k]@.id
                == k
    }

    /// The node models the store holds.
    pub open spec fn nodes(self) -> Map<u32, NodeModel> {
        nodes_of(self.body@)
    }

    pub fn new() -> (r: Self)
        ensures
            r.wf(),
            r.nodes() == Map::<u32, NodeModel>::empty(),
            r.parameter_ids@ == Set::<u32>::empty(),
    {
        let r = Self { body: Table::new(), parameter_ids: IdList::new(), lending: IdList::new() };
        proof {
            assert(r.nodes() =~= Map::<u32, NodeModel>::empty());
        }
        r
    }

    /// Checks a node out for exclusive mutation; it is recorded as lent
    /// and is gone from the table until `return_nten` brings it back.
    pub(crate) fn remove_nten(&mut self, id: &NtenID) -> (r: Option<Nten>)
        requires
            old(self).wf(),
        ensures
            final(self).body.wf(),
            final(self).parameter_ids == old(self).parameter_ids,
            match r {
                Some(n) => {
                    &&& old(self).nodes().dom().contains(id.0)
                    &&& n@ == old(self).nodes()[id.0]
                    &&& n.wf()
                    &&& n@.id == id.0
                    &&& final(self).body@ == old(self).body@.remove(id.0)
                    &&& final(self).lending.wf()
                    &&& final(self).lending@ == old(self).lending@.insert(id.0)
                },
                None => {
                    &&& !old(self).nodes().dom().contains(id.0)
                    &&& *final(self) == *old(self)
                },
            },
    {
        match self.body.remove(id.0) {
            Some(nten) => {
                proof {
                    assert(old(self).body@.dom().contains(id.0));
                    assert(old(self).nodes().dom().contains(id.0));
                    assert(old(self).nodes()[id.0] == old(self).body@[id.0]@);
                }
                self.lending.insert(id.0);
                Some(nten)
            },
            None => None,
        }
    }

    /// Returns a checked-out node, making it visible again.
    pub(crate) fn return_nten(&mut self, nten: Nten)
        requires
            old(self).body.wf(),
            old(self).lending.wf(),
            nten.wf(),
            nten@.id == nten.id.0,
        ensures
            final(self).body.wf(),
            final(self).lending.wf(),
            final(self).parameter_ids == old(self).parameter_ids,
            final(self).body@ == old(self).body@.insert(nten.id.0, nten),
            final(self).lending@ == old(self).lending@.remove(nten.id.0),
    {
        self.lending.remove(nten.id.0);
        self.body.insert(nten.id.0, nten);
    }

    /// Registers a node and marks its id as a parameter.
    pub fn resister_parameter(&mut self, nten: Nten)
        requires
            old(self).wf(),
            nten.wf(),
            nten@.id == nten.id.0,
        ensures
            final(self).wf(),
            final(self).nodes() == old(self).nodes().insert(nten.id.0, nten@),
            final(self).parameter_ids@ == old(self).parameter_ids@.insert(nten.id.0),
    {
        self.parameter_ids.insert(nten.id.0);
        let ghost id = nten.id.0;
        let ghost model = nten@;
        self.body.insert(nten.id.0, nten);
        proof {
            assert(self.nodes() =~= old(self).nodes().insert(id, model));
        }
    }

    /// Registers a node without marking it as a parameter.
    pub fn resister_input(&mut self, nten: Nten)
        requires
            old(self).wf(),
            nten.wf(),
            nten@.id == nten.id.0,
        ensures
            final(self).wf(),
            final(self).nodes() == old(self).nodes().insert(nten.id.0, nten@),
            final(self).parameter_ids@ == old(self).parameter_ids@,
    {
        let ghost id = nten.id.0;
        let ghost model = nten@;
        self.body.insert(nten.id.0, nten);
        proof {
            assert(self.nodes() =~= old(self).nodes().insert(id, model));
        }
    }

    /// The ids of every node currently held, in table order.
    pub fn all_ids(&self) -> (r: Vec<u32>)
        requires
            self.wf(),
        ensures
            forall|i: int| 0 <= i < r@.len() ==> self.nodes().dom().contains(#[trigger] r@[i]),
            forall|k: u32| self.nodes().dom().contains(k) ==> r@.contains(k),
    {
        let n = self.body.entry_count();
        let mut r: Vec<u32> = Vec::new();
        let mut i: usize = 0;
        while i < n
            invariant
                self.wf(),
                n == self.body.keys@.len(),
                i <= n,
                r@ == self.body.keys@.subrange(0, i as int),
            decreases n - i,
        {
            r.push(self.body.key_at(i));
            i = i + 1;
            proof {
                assert(r@ =~= self.body.keys@.subrange(0, i as int));
            }
        }
        proof {
            assert(r@ =~= self.body.keys@);
            assert forall|i: int| 0 <= i < r@.len() implies self.nodes().dom().contains(
                #[trigger] r@[i],
            ) by {
                assert(self.body.keys@.contains(r@[i]));
            }
        }
        r
    }

    /// Writes one listing line per held node (its id and declared
    /// shape) into the logger, plus a heading. Diagnostics only;
    /// nothing in the engine depends on it.
    pub fn print_all_contents_id(&self, logger: &mut crate::logger::Logger)
        requires
            self.wf(),
        ensures
            final(logger).history@.len() == old(logger).history@.len() + 1
                + self.body.keys@.len(),
    {
        logger.debug("VarStore >> now in vs, there are:".to_owned());
        let n = self.body.entry_count();
        let mut i: usize = 0;
        while i < n
            invariant
                self.wf(),
                n == self.body.keys@.len(),
                i <= n,
                logger.history@.len() == old(logger).history@.len() + 1 + i,
            decreases n - i,
        {
            let id = self.body.key_at(i);
            let node = self.body.val_at(i);
            let mut line = String::new();
            line.append("- Nten id:");
            crate::dtype::append_usize(&mut line, id as usize);
            line.append(" shape:");
            let shape_text = node.shape.to_string();
            line.append(shape_text.as_str());
            logger.debug(line);
            i = i + 1;
        }
    }

    /// Drops every non-parameter node and clears the gradient of every
    /// remaining one; parameter values survive untouched.
    pub fn zero_grad(&mut self)
        requires
            old(self).wf(),
        ensures
            final(self).wf(),
            final(self).parameter_ids@ == old(self).parameter_ids@,
            final(self).nodes() == Map::<u32, NodeModel>::new(
                |k: u32|
                    old(self).nodes().dom().contains(k) && old(self).parameter_ids@.contains(k),
                |k: u32| cleared(old(self).nodes()[k]),
            ),
    {
        let ghost target = Map::<u32, NodeModel>::new(
            |k: u32| old(self).nodes().dom().contains(k) && old(self).parameter_ids@.contains(k),
            |k: u32| cleared(old(self).nodes()[k]),
        );
        let n = self.body.entry_count();
        let mut new_body: Table<Nten> = Table::new();
        let mut i: usize = 0;
        while i < n
            invariant
                old(self).wf(),
                self == old(self),
                target == Map::<u32, NodeModel>::new(
                    |k: u32|
                        old(self).nodes().dom().contains(k) && old(self).parameter_ids@.contains(
                            k,
                        ),
                    |k: u32| cleared(old(self).nodes()[k]),
                ),
                n == self.body.keys@.len(),
                i <= n,
                new_body.wf(),
                forall|k: u32| #[trigger] new_body@.dom().contains(k) ==> target.dom().contains(k)
                    && new_body@[k]@ == target[k] && new_body@[k].wf() && new_body@[k]@.id == k,
                forall|p: int|
                    0 <= p < i && self.parameter_ids@.contains(#[trigger] self.body.keys@[p])
                        ==> new_body@.dom().contains(self.body.keys@[p]),
            decreases n - i,
        {
            let k = self.body.key_at(i);
            if self.parameter_ids.contains(k) {
                let node = self.body.val_at(i);
                let stripped = Nten {
                    id: node.id,
                    name: node.name.clone(),
                    creator: node.creator,
                    shape: node.shape,
                    val: match &node.val {
                        Some(t) => Some(t.clone()),
                        None => None,
                    },
                    grad: None,
                };
                proof {
                    assert(self.body@[k] == self.body.vals@[i as int]);
                    assert(stripped@ =~= cleared(self.body@[k]@));
                    assert(old(self).nodes().dom().contains(k));
                    assert(old(self).nodes()[k] == self.body@[k]@);
                    assert(target.dom().contains(k));
                    assert(target[k] == cleared(old(self).nodes()[k]));
                    assert(self.body@[k].wf());
                }
                new_body.insert(k, stripped);
            }
            i = i + 1;
        }
        proof {
            assert forall|k: u32| target.dom().contains(k) implies new_body@.dom().contains(k) by {
                let p = choose|p: int|
                    0 <= p < self.body.keys@.len() && self.body.keys@[p] == k;
                assert(self.parameter_ids@.contains(self.body.keys@[p]));
            }
        }
        self.body = new_body;
        proof {
            assert(final(self).nodes() =~= target);
        }
    }
}

} // verus!
