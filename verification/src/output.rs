//! Flattening a graph from a chosen root, and assembling the result into a
//! definition.

use crate::context::nodes_view;
use crate::context::Context;
use crate::definition::annotations_view;
use crate::definition::blobs_view;
use crate::definition::Definition;
use crate::definition::OpMetadata;
use crate::error::Error;
use crate::graph::Graph;
use crate::model::annotations_of;
use crate::model::bytes_of;
use crate::model::definition_of;
use crate::model::flatten_of;
use crate::model::lemma_entries_are_reachable;
use crate::model::lemma_reachable_above;
use crate::model::node_of;
use crate::model::nodes_of;
use crate::model::reachable_below;
use crate::model::OutputView;
use crate::node::SerializedNode;
use crate::utils::OperationOutput;
use vstd::prelude::*;

verus! {

/// The result of flattening: the node of the entry point, and the nodes of
/// everything it depends on, each once, a node after the nodes it refers to.
#[derive(Debug)]
pub struct Output {
    pub head: SerializedNode,
    pub tail: Vec<SerializedNode>,
}

impl View for Output {
    type V = OutputView;

    open spec fn view(&self) -> OutputView {
        OutputView { head: self.head@, tail: nodes_view(self.tail@) }
    }
}

/// Flattens `graph` from the output `root`, in a pass of its own.
///
/// Nothing is returned unless every operation that the root reaches could be
/// serialized.
pub fn flatten(graph: &Graph, root: OperationOutput) -> (result: Result<Output, Error>)
    ensures
        match result {
            Ok(output) => flatten_of(graph@, root) == Ok::<OutputView, Error>(output@),
            Err(error) => flatten_of(graph@, root) == Err::<OutputView, Error>(error),
        },
{
    let mut cx = Context::new(graph);
    match cx.resolve(graph.len(), root) {
        Ok(_) => {},
        Err(error) => {
            return Err(error);
        },
    }
    let ghost id = root.op.0 as int;
    let ghost below = reachable_below(graph@, id, id);
    proof {
        lemma_entries_are_reachable(graph@, cx@, id, graph@.len() as int);
        lemma_reachable_above(graph@, id, graph@.len() as int);
        assert(nodes_of(graph@, below.push(id)) =~= nodes_of(graph@, below).push(
            node_of(graph@, id)->Ok_0,
        ));
    }
    let mut nodes = cx.into_registered_nodes();
    let ghost all = nodes_view(nodes@);
    match nodes.pop() {
        Some(head) => {
            assert(head@ == all.last());
            assert(nodes_view(nodes@) =~= all.drop_last());
            assert(all.drop_last() =~= nodes_of(graph@, below));
            Ok(Output { head, tail: nodes })
        },
        None => Err(Error::Dependency),
    }
}

impl Output {
    /// Assembles the definition: the bytes of every node of the tail, then
    /// those of the head, and beside them their digests and metadata.
    pub fn into_definition(self) -> (definition: Definition)
        ensures
            definition@ == definition_of(self@),
    {
        let mut def: Vec<Vec<u8>> = Vec::new();
        let mut metadata: Vec<(String, OpMetadata)> = Vec::new();
        let tail = self.tail;
        assert(blobs_view(def@) =~= bytes_of(nodes_view(tail@.take(0))));
        assert(annotations_view(metadata@) =~= annotations_of(nodes_view(tail@.take(0))));
        for node in iter: tail
            invariant
                iter.seq() == tail@,
                blobs_view(def@) == bytes_of(nodes_view(tail@.take(iter.index() as int))),
                annotations_view(metadata@) == annotations_of(
                    nodes_view(tail@.take(iter.index() as int)),
                ),
        {
            proof {
                let done = nodes_view(tail@.take(iter.index() as int));
                let next = nodes_view(tail@.take(iter.index() as int + 1));
                assert(next =~= done.push(node@));
                assert(bytes_of(next) =~= bytes_of(done).push(node.bytes@));
                assert(annotations_of(next) =~= annotations_of(done).push(
                    (node.digest@, node.node.metadata@),
                ));
                assert(blobs_view(def@.push(node.bytes)) =~= blobs_view(def@).push(node.bytes@));
                assert(annotations_view(metadata@.push((node.digest, node.node.metadata)))
                    =~= annotations_view(metadata@).push((node.digest@, node.node.metadata@)));
            }
            def.push(node.bytes);
            metadata.push((node.digest, node.node.metadata));
        }
        proof {
            let done = nodes_view(tail@);
            assert(tail@.take(tail@.len() as int) =~= tail@);
            assert(bytes_of(done.push(self.head@)) =~= bytes_of(done).push(self.head.bytes@));
            assert(annotations_of(done.push(self.head@)) =~= annotations_of(done).push(
                (self.head.digest@, self.head.node.metadata@),
            ));
            assert(blobs_view(def@.push(self.head.bytes)) =~= blobs_view(def@).push(
                self.head.bytes@,
            ));
            assert(annotations_view(metadata@.push((self.head.digest, self.head.node.metadata)))
                =~= annotations_view(metadata@).push(
                (self.head.digest@, self.head.node.metadata@),
            ));
        }
        def.push(self.head.bytes);
        metadata.push((self.head.digest, self.head.node.metadata));
        Definition { def, metadata }
    }
}

} // verus!
