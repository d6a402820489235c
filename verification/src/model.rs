//! What serializing a build graph means, as functions of the graph's view.
//!
//! Everything that the executable code of this library promises is stated
//! over the functions of this module.

use crate::definition::DefinitionView;
use crate::definition::OpMetadataView;
use crate::error::Error;
use crate::node::serialized;
use crate::node::NodeView;
use crate::node::SerializedNodeView;
use crate::ops::OperationView;
use crate::schema::InputView;
use crate::schema::OpView;
use crate::utils::OperationOutput;
use vstd::prelude::*;

verus! {

/// The reference that the operation `owner` holds to the output `handle`.
///
/// It fails with [`Error::Dependency`] if the handle names an operation that
/// was not added before `owner`, with the error of that operation if it
/// cannot be serialized, and with [`Error::Index`] if that operation has no
/// such output.
pub open spec fn resolve_input(ops: Seq<OperationView>, owner: int, handle: OperationOutput) -> Result<
    InputView,
    Error,
>
    decreases owner, 0nat, 0nat,
{
    if handle.op.0 < owner {
        match node_of(ops, handle.op.0 as int) {
            Err(error) => Err(error),
            Ok(node) => if handle.index.0 < ops[handle.op.0 as int].outputs() {
                Ok(InputView { digest: node.digest, index: handle.index.0 as i64 })
            } else {
                Err(Error::Index)
            },
        }
    } else {
        Err(Error::Dependency)
    }
}

/// The references that the operation `owner` holds to `handles`, in order;
/// the error of the first handle that fails.
pub open spec fn resolve_inputs(
    ops: Seq<OperationView>,
    owner: int,
    handles: Seq<OperationOutput>,
) -> Result<Seq<InputView>, Error>
    decreases owner, 1nat, handles.len(),
{
    if handles.len() == 0 {
        Ok(seq![])
    } else {
        match resolve_inputs(ops, owner, handles.drop_last()) {
            Err(error) => Err(error),
            Ok(inputs) => match resolve_input(ops, owner, handles.last()) {
                Err(error) => Err(error),
                Ok(input) => Ok(inputs.push(input)),
            },
        }
    }
}

/// The serialized node of the operation `id`.
///
/// It fails with [`Error::Dependency`] if there is no such operation, with
/// the error of the first of its inputs that fails, and else with the error
/// of the operation itself, if its own fields cannot be encoded.
pub open spec fn node_of(ops: Seq<OperationView>, id: int) -> Result<SerializedNodeView, Error>
    decreases id, 2nat, 0nat,
{
    if 0 <= id < ops.len() {
        match resolve_inputs(ops, id, ops[id].inputs()) {
            Err(error) => Err(error),
            Ok(inputs) => match ops[id].node(inputs) {
                Err(error) => Err(error),
                Ok(node) => Ok(serialized(node)),
            },
        }
    } else {
        Err(Error::Dependency)
    }
}

/// True if the operation `from` depends on the operation `to`, directly or
/// through other operations, or is that operation.
pub open spec fn reaches(ops: Seq<OperationView>, from: int, to: int) -> bool
    decreases from,
{
    0 <= from < ops.len() && (from == to || exists|k: int|
        0 <= k < ops[from].inputs().len() && (#[trigger] ops[from].inputs()[k]).op.0 < from
            && reaches(ops, ops[from].inputs()[k].op.0 as int, to))
}

/// An operation reaches what any of its inputs reaches.
pub proof fn lemma_reaches_through(ops: Seq<OperationView>, from: int, k: int, to: int)
    requires
        0 <= from < ops.len(),
        0 <= k < ops[from].inputs().len(),
        ops[from].inputs()[k].op.0 < from,
        reaches(ops, ops[from].inputs()[k].op.0 as int, to),
    ensures
        reaches(ops, from, to),
{
}

/// An operation reaches only itself and operations that were added before it.
pub proof fn lemma_reaches_below(ops: Seq<OperationView>, from: int, to: int)
    requires
        reaches(ops, from, to),
    ensures
        0 <= to <= from < ops.len(),
    decreases from,
{
    if from != to {
        let k = choose|k: int|
            0 <= k < ops[from].inputs().len() && (#[trigger] ops[from].inputs()[k]).op.0 < from
                && reaches(ops, ops[from].inputs()[k].op.0 as int, to);
        lemma_reaches_below(ops, ops[from].inputs()[k].op.0 as int, to);
    }
}

/// A failure among the first inputs is the failure of them all.
pub proof fn lemma_resolve_inputs_fails(
    ops: Seq<OperationView>,
    owner: int,
    handles: Seq<OperationOutput>,
    count: int,
)
    requires
        0 <= count <= handles.len(),
        resolve_inputs(ops, owner, handles.take(count)) is Err,
    ensures
        resolve_inputs(ops, owner, handles) == resolve_inputs(ops, owner, handles.take(count)),
    decreases handles.len() - count,
{
    if count == handles.len() {
        assert(handles.take(count) =~= handles);
    } else {
        assert(handles.take(count + 1).drop_last() =~= handles.take(count));
        lemma_resolve_inputs_fails(ops, owner, handles, count + 1);
    }
}

/// True if a memo table is sound for a graph: it holds the node of each
/// operation it knows, and with an operation everything that it reaches.
pub open spec fn memo_sound(ops: Seq<OperationView>, memo: Map<int, SerializedNodeView>) -> bool {
    &&& forall|id: int| #[trigger]
        memo.contains_key(id) ==> node_of(ops, id) == Ok::<SerializedNodeView, Error>(memo[id])
    &&& forall|id: int, other: int|
        #![trigger memo.contains_key(id), reaches(ops, id, other)]
        memo.contains_key(id) && reaches(ops, id, other) ==> memo.contains_key(other)
}

/// The nodes that a memo table holds for the operations below `bound`, in
/// the order of their construction.
pub open spec fn entries_below(memo: Map<int, SerializedNodeView>, bound: int) -> Seq<
    SerializedNodeView,
>
    decreases bound,
{
    if bound <= 0 {
        seq![]
    } else if memo.contains_key(bound - 1) {
        entries_below(memo, bound - 1).push(memo[bound - 1])
    } else {
        entries_below(memo, bound - 1)
    }
}

/// A sound memo table that knows exactly what `root` reaches lists the nodes
/// of those operations.
pub proof fn lemma_entries_are_reachable(
    ops: Seq<OperationView>,
    memo: Map<int, SerializedNodeView>,
    root: int,
    bound: int,
)
    requires
        memo_sound(ops, memo),
        forall|id: int| memo.contains_key(id) <==> reaches(ops, root, id),
    ensures
        entries_below(memo, bound) == nodes_of(ops, reachable_below(ops, root, bound)),
    decreases bound,
{
    if bound <= 0 {
        assert(nodes_of(ops, reachable_below(ops, root, bound)) =~= seq![]);
    } else {
        lemma_entries_are_reachable(ops, memo, root, bound - 1);
        let below = reachable_below(ops, root, bound - 1);
        if reaches(ops, root, bound - 1) {
            assert(nodes_of(ops, below.push(bound - 1)) =~= nodes_of(ops, below).push(
                memo[bound - 1],
            ));
        }
    }
}

/// Above its own operation, a root reaches nothing.
pub proof fn lemma_reachable_above(ops: Seq<OperationView>, root: int, bound: int)
    requires
        0 <= root < bound <= ops.len(),
    ensures
        reachable_below(ops, root, bound) == reachable_below(ops, root, root).push(root),
    decreases bound,
{
    if bound == root + 1 {
    } else {
        if reaches(ops, root, bound - 1) {
            lemma_reaches_below(ops, root, bound - 1);
        }
        lemma_reachable_above(ops, root, bound - 1);
    }
}

/// The operations below `bound` that `root` reaches, in the order of their
/// construction.
pub open spec fn reachable_below(ops: Seq<OperationView>, root: int, bound: int) -> Seq<int>
    decreases bound,
{
    if bound <= 0 {
        seq![]
    } else if reaches(ops, root, bound - 1) {
        reachable_below(ops, root, bound - 1).push(bound - 1)
    } else {
        reachable_below(ops, root, bound - 1)
    }
}

/// The serialized nodes of the operations `ids`, in that order.
pub open spec fn nodes_of(ops: Seq<OperationView>, ids: Seq<int>) -> Seq<SerializedNodeView> {
    ids.map_values(|id: int| node_of(ops, id)->Ok_0)
}

/// The result of flattening: the node of the entry point, and before it the
/// nodes of everything it depends on.
pub struct OutputView {
    pub head: SerializedNodeView,
    pub tail: Seq<SerializedNodeView>,
}

/// The result of flattening the graph from the output `root`.
///
/// It fails exactly when a reference to `root` cannot be resolved, with the
/// same error. Otherwise the head is the node of the root's operation, and
/// the tail holds the node of every other operation that the root reaches,
/// once, in the order of construction.
pub open spec fn flatten_of(ops: Seq<OperationView>, root: OperationOutput) -> Result<
    OutputView,
    Error,
> {
    match resolve_input(ops, ops.len() as int, root) {
        Err(error) => Err(error),
        Ok(_) => Ok(
            OutputView {
                head: node_of(ops, root.op.0 as int)->Ok_0,
                tail: nodes_of(ops, reachable_below(ops, root.op.0 as int, root.op.0 as int)),
            },
        ),
    }
}

/// The node of a terminal that pins the output behind `reference`: a message
/// with that one input and no payload, and empty metadata.
pub open spec fn terminal_node(reference: InputView) -> SerializedNodeView {
    serialized(
        NodeView {
            op: OpView { inputs: seq![reference], op: None },
            metadata: OpMetadataView::empty(),
        },
    )
}

/// The result of flattening a terminal over the output `input`.
///
/// It fails exactly when the reference to `input` cannot be resolved, with
/// the same error. Otherwise the head is the terminal's node, and the tail
/// holds the node of every operation that the input reaches, its own
/// included, once, in the order of construction.
pub open spec fn terminal_output(ops: Seq<OperationView>, input: OperationOutput) -> Result<
    OutputView,
    Error,
> {
    match resolve_input(ops, ops.len() as int, input) {
        Err(error) => Err(error),
        Ok(reference) => Ok(
            OutputView {
                head: terminal_node(reference),
                tail: nodes_of(ops, reachable_below(ops, input.op.0 as int, input.op.0 as int + 1)),
            },
        ),
    }
}

/// The nodes of a flattening result in the order in which a definition lists
/// them: the tail, then the head, so that every node comes after the nodes
/// it refers to.
pub open spec fn emitted(output: OutputView) -> Seq<SerializedNodeView> {
    output.tail.push(output.head)
}

/// The canonical bytes of each of `nodes`.
pub open spec fn bytes_of(nodes: Seq<SerializedNodeView>) -> Seq<Seq<u8>> {
    nodes.map_values(|node: SerializedNodeView| node.bytes)
}

/// The digest and the metadata of each of `nodes`.
pub open spec fn annotations_of(nodes: Seq<SerializedNodeView>) -> Seq<
    (Seq<char>, OpMetadataView),
> {
    nodes.map_values(|node: SerializedNodeView| (node.digest, node.node.metadata))
}

/// The definition assembled from a flattening result: the bytes of each
/// emitted node, and beside them its digest and metadata.
pub open spec fn definition_of(output: OutputView) -> DefinitionView {
    DefinitionView {
        def: bytes_of(emitted(output)),
        metadata: annotations_of(emitted(output)),
    }
}

/// The definition that a terminal over the output `input` yields; the error
/// of [`terminal_output`] if that fails.
pub open spec fn terminal_definition(ops: Seq<OperationView>, input: OperationOutput) -> Result<
    DefinitionView,
    Error,
> {
    match terminal_output(ops, input) {
        Err(error) => Err(error),
        Ok(output) => Ok(definition_of(output)),
    }
}

} // verus!
