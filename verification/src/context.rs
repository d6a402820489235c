//! The memo table of one serialization pass.
//!
//! A context belongs to one graph and one pass. It serializes an operation
//! the first time the pass reaches it and hands out the same node every time
//! after, so that an operation with several consumers is emitted once.

use crate::error::Error;
use crate::graph::Graph;
use crate::model::entries_below;
use crate::model::lemma_reaches_through;
use crate::model::lemma_resolve_inputs_fails;
use crate::model::memo_sound;
use crate::model::node_of;
use crate::model::reaches;
use crate::model::resolve_input;
use crate::model::resolve_inputs;
use crate::node::SerializedNode;
use crate::node::SerializedNodeView;
use crate::ops::OperationView;
use crate::schema::inputs_view;
use crate::schema::Input;
use crate::utils::OperationId;
use crate::utils::OperationOutput;
use vstd::prelude::*;

verus! {

/// The nodes that one pass over a graph has serialized so far, by operation.
pub struct Context<'a> {
    graph: &'a Graph,
    nodes: Vec<Option<SerializedNode>>,
}

/// The views of a list of nodes.
pub open spec fn nodes_view(nodes: Seq<SerializedNode>) -> Seq<SerializedNodeView> {
    nodes.map_values(|node: SerializedNode| node@)
}

impl<'a> View for Context<'a> {
    type V = Map<int, SerializedNodeView>;

    closed spec fn view(&self) -> Map<int, SerializedNodeView> {
        Map::new(
            |id: int| 0 <= id < self.nodes@.len() && self.nodes@[id] is Some,
            |id: int| self.nodes@[id]->Some_0@,
        )
    }
}

impl<'a> Context<'a> {
    /// The graph that this context serializes.
    pub closed spec fn graph(&self) -> Seq<OperationView> {
        self.graph@
    }

    /// True if the table has a slot for every operation of the graph.
    pub closed spec fn sized(&self) -> bool {
        self.nodes@.len() == self.graph@.len()
    }

    /// True if the context is consistent with its graph: what it holds for
    /// an operation is that operation's node, and it holds with an operation
    /// everything that the operation reaches.
    pub open spec fn wf(&self) -> bool {
        self.sized() && memo_sound(self.graph(), self@)
    }

    /// A fresh context for one pass over `graph`.
    pub fn new(graph: &'a Graph) -> (cx: Self)
        ensures
            cx.wf(),
            cx.graph() == graph@,
            cx@ == Map::<int, SerializedNodeView>::empty(),
    {
        let mut nodes: Vec<Option<SerializedNode>> = Vec::new();
        let mut i: usize = 0;
        while i < graph.len()
            invariant
                i <= graph@.len(),
                nodes@.len() == i,
                forall|j: int| 0 <= j < i ==> nodes@[j] is None,
            decreases graph@.len() - i,
        {
            nodes.push(None);
            i += 1;
        }
        let cx = Context { graph, nodes };
        assert(cx@ =~= Map::<int, SerializedNodeView>::empty());
        cx
    }

    /// Serializes the operation `id`, and first everything it depends on,
    /// unless this pass has done so before; returns the operation's node.
    ///
    /// On success the context holds, beside what it held, exactly the
    /// operations that `id` reaches. If it held `id` already, nothing
    /// changes. A failure is that of [`node_of`].
    pub fn serialize(&mut self, id: OperationId) -> (result: Result<&SerializedNode, Error>)
        requires
            old(self).wf(),
        ensures
            final(self).wf(),
            final(self).graph() == old(self).graph(),
            old(self)@.submap_of(final(self)@),
            forall|other: int| #[trigger]
                final(self)@.contains_key(other) ==> old(self)@.contains_key(other) || reaches(
                    old(self).graph(),
                    id.0 as int,
                    other,
                ),
            old(self)@.contains_key(id.0 as int) ==> final(self)@ == old(self)@,
            match result {
                Ok(node) => {
                    &&& node_of(old(self).graph(), id.0 as int) == Ok::<SerializedNodeView, Error>(
                        node@,
                    )
                    &&& final(self)@.contains_key(id.0 as int)
                    &&& final(self)@[id.0 as int] == node@
                },
                Err(error) => node_of(old(self).graph(), id.0 as int) == Err::<
                    SerializedNodeView,
                    Error,
                >(error),
            },
        decreases id.0, 1nat,
    {
        let i: usize = id.0;
        let graph: &'a Graph = self.graph;
        let ghost ops = graph@;
        let op = match graph.operation(id) {
            Some(op) => op,
            None => {
                return Err(Error::Dependency);
            },
        };
        if self.nodes[i].is_some() {
            assert(self@.contains_key(i as int));
            return Ok(self.nodes[i].as_ref().unwrap());
        }
        let handles = op.inputs();
        let mut inputs: Vec<Input> = Vec::new();
        let mut k: usize = 0;
        assert(handles@.take(0) =~= seq![]);
        assert(inputs_view(inputs@) =~= seq![]);
        while k < handles.len()
            invariant
                k <= handles.len(),
                i == id.0,
                i < ops.len(),
                ops == graph@,
                handles@ == ops[i as int].inputs(),
                self.wf(),
                self.graph() == ops,
                old(self).graph() == ops,
                old(self)@.submap_of(self@),
                forall|other: int| #[trigger]
                    self@.contains_key(other) ==> old(self)@.contains_key(other) || reaches(
                        ops,
                        i as int,
                        other,
                    ),
                forall|j: int| 0 <= j < k ==> self@.contains_key((#[trigger] handles@[j]).op.0 as int),
                resolve_inputs(ops, i as int, handles@.take(k as int)) == Ok::<_, Error>(
                    inputs_view(inputs@),
                ),
            decreases handles.len() - k,
        {
            let ghost before = self@;
            let ghost taken = inputs_view(inputs@);
            proof {
                assert(handles@.take(k as int + 1).drop_last() =~= handles@.take(k as int));
                assert(handles@.take(k as int + 1).last() == handles@[k as int]);
            }
            match self.resolve(i, handles[k]) {
                Ok(input) => {
                    proof {
                        assert forall|other: int| #[trigger] self@.contains_key(other) implies old(
                            self,
                        )@.contains_key(other) || reaches(ops, i as int, other) by {
                            if !before.contains_key(other) {
                                lemma_reaches_through(ops, i as int, k as int, other);
                            }
                        }
                        assert forall|key: int| #[trigger]
                            old(self)@.contains_key(key) implies self@.contains_key(key) && self@[key]
                            == old(self)@[key] by {
                            assert(before.contains_key(key));
                        }
                        assert(inputs_view(inputs@.push(input)) =~= taken.push(input@));
                    }
                    inputs.push(input);
                },
                Err(error) => {
                    proof {
                        assert forall|other: int| #[trigger] self@.contains_key(other) implies old(
                            self,
                        )@.contains_key(other) || reaches(ops, i as int, other) by {
                            if !before.contains_key(other) {
                                lemma_reaches_through(ops, i as int, k as int, other);
                            }
                        }
                        assert forall|key: int| #[trigger]
                            old(self)@.contains_key(key) implies self@.contains_key(key) && self@[key]
                            == old(self)@[key] by {
                            assert(before.contains_key(key));
                        }
                        lemma_resolve_inputs_fails(ops, i as int, handles@, k as int + 1);
                    }
                    return Err(error);
                },
            }
            k += 1;
        }
        proof {
            assert(handles@.take(k as int) =~= handles@);
        }
        let node = match op.serialize(inputs) {
            Ok(node) => node,
            Err(error) => {
                return Err(error);
            },
        };
        let serialized_node = SerializedNode::from_node(node);
        let ghost before = self@;
        let ghost stored = serialized_node@;
        self.nodes.set(i, Some(serialized_node));
        proof {
            assert(self@ =~= before.insert(i as int, stored));
            assert forall|one: int, other: int|
                #![trigger self@.contains_key(one), reaches(ops, one, other)]
                self@.contains_key(one) && reaches(ops, one, other) implies self@.contains_key(
                other,
            ) by {
                if one == i && other != i {
                    let j = choose|j: int|
                        0 <= j < ops[i as int].inputs().len() && (#[trigger] ops[i as int].inputs()[j]).op.0
                            < i && reaches(ops, ops[i as int].inputs()[j].op.0 as int, other);
                    assert(before.contains_key(handles@[j].op.0 as int));
                }
            }
        }
        Ok(self.nodes[i].as_ref().unwrap())
    }

    /// Resolves the handle `handle`, held by the operation `owner`, into a
    /// reference by digest, serializing the producer if need be.
    pub fn resolve(&mut self, owner: usize, handle: OperationOutput) -> (result: Result<Input, Error>)
        requires
            old(self).wf(),
        ensures
            final(self).wf(),
            final(self).graph() == old(self).graph(),
            old(self)@.submap_of(final(self)@),
            forall|other: int| #[trigger]
                final(self)@.contains_key(other) ==> old(self)@.contains_key(other) || (handle.op.0
                    < owner && reaches(old(self).graph(), handle.op.0 as int, other)),
            match result {
                Ok(input) => {
                    &&& resolve_input(old(self).graph(), owner as int, handle) == Ok::<_, Error>(
                        input@,
                    )
                    &&& final(self)@.contains_key(handle.op.0 as int)
                },
                Err(error) => resolve_input(old(self).graph(), owner as int, handle) == Err::<
                    crate::schema::InputView,
                    Error,
                >(error),
            },
        decreases owner, 0nat,
    {
        if handle.op.0 >= owner {
            return Err(Error::Dependency);
        }
        let graph: &'a Graph = self.graph;
        let digest = match self.serialize(handle.op) {
            Ok(node) => node.digest.clone(),
            Err(error) => {
                return Err(error);
            },
        };
        let slots: u32 = match graph.operation(handle.op) {
            Some(op) => op.outputs(),
            None => 0,
        };
        if handle.index.0 >= slots {
            return Err(Error::Index);
        }
        Ok(Input { digest, index: handle.index.0 as i64 })
    }

    /// Ends the pass: the nodes that the context holds, in the order in
    /// which their operations were constructed.
    pub fn into_registered_nodes(self) -> (nodes: Vec<SerializedNode>)
        requires
            self.wf(),
        ensures
            nodes_view(nodes@) == entries_below(self@, self.graph().len() as int),
    {
        let ghost memo = self@;
        let ghost count = self.graph().len();
        let mut slots = self.nodes;
        let mut nodes: Vec<SerializedNode> = Vec::new();
        let mut i: usize = 0;
        assert(nodes_view(nodes@) =~= entries_below(memo, 0));
        while i < slots.len()
            invariant
                i <= slots.len(),
                slots@.len() == count,
                forall|j: int|
                    i <= j < slots@.len() ==> (memo.contains_key(j) <==> #[trigger] slots@[j] is Some),
                forall|j: int|
                    i <= j < slots@.len() && #[trigger] slots@[j] is Some ==> memo[j]
                        == slots@[j]->Some_0@,
                nodes_view(nodes@) == entries_below(memo, i as int),
            decreases slots.len() - i,
        {
            let ghost collected = nodes_view(nodes@);
            match slots[i].take() {
                Some(node) => {
                    assert(nodes_view(nodes@.push(node)) =~= collected.push(node@));
                    nodes.push(node);
                },
                None => {},
            }
            i += 1;
        }
        nodes
    }
}

} // verus!
