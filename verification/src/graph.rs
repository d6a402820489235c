//! The build graph: operations in the order of their construction.
//!
//! An operation consumes outputs of operations that were added before it, so
//! the graph has no cycle, and the order of construction is a topological
//! order.

use crate::ops::Operation;
use crate::ops::OperationView;
use crate::utils::OperationId;
use vstd::prelude::*;

verus! {

/// A directed acyclic graph of build operations.
#[derive(Debug)]
pub struct Graph {
    ops: Vec<Operation>,
}

impl View for Graph {
    type V = Seq<OperationView>;

    closed spec fn view(&self) -> Seq<OperationView> {
        self.ops@.map_values(|op: Operation| op@)
    }
}

impl Graph {
    /// A graph without operations.
    pub fn new() -> (graph: Self)
        ensures
            graph@ == Seq::<OperationView>::empty(),
    {
        let graph = Graph { ops: Vec::new() };
        assert(graph@ =~= Seq::<OperationView>::empty());
        graph
    }

    /// Adds an operation and returns its identifier: the number of
    /// operations that were added before it.
    pub fn add(&mut self, op: Operation) -> (id: OperationId)
        ensures
            final(self)@ == old(self)@.push(op@),
            id.0 == old(self)@.len(),
    {
        let id = OperationId(self.ops.len());
        self.ops.push(op);
        assert(self@ =~= old(self)@.push(op@));
        id
    }

    /// The number of operations.
    pub fn len(&self) -> (len: usize)
        ensures
            len == self@.len(),
    {
        self.ops.len()
    }

    /// The operation that `id` identifies, if there is one.
    pub fn operation(&self, id: OperationId) -> (found: Option<&Operation>)
        ensures
            match found {
                Some(op) => id.0 < self@.len() && op@ == self@[id.0 as int],
                None => id.0 >= self@.len(),
            },
    {
        if id.0 < self.ops.len() {
            Some(&self.ops[id.0])
        } else {
            None
        }
    }
}

} // verus!
