//! What holds of every graph: the laws that callers and the remote cache
//! rely on, each proved from the definitions of [`crate::model`].

use crate::definition::DefinitionView;
use crate::digest::digest_of;
use crate::error::Error;
use crate::graph::Graph;
use crate::model::lemma_reachable_above;
use crate::model::lemma_reaches_through;
use crate::model::lemma_resolve_inputs_fails;
use crate::model::node_of;
use crate::model::nodes_of;
use crate::model::reachable_below;
use crate::model::reaches;
use crate::model::resolve_input;
use crate::model::resolve_inputs;
use crate::model::terminal_definition;
use crate::model::terminal_output;
use crate::ops::source::GitSourceView;
use crate::ops::terminal::Terminal;
use crate::ops::OperationView;
use crate::schema::op_encoding;
use crate::schema::InputView;
use crate::utils::OperationOutput;
use vstd::prelude::*;

verus! {

/// Determinism: two graphs that hold the same operations, serialized from
/// terminals over the same output, give the same result: byte for byte the
/// same definition, and so the same digests, or the same error.
pub proof fn law_determinism(first: Graph, second: Graph, one: Terminal, other: Terminal)
    requires
        first@ == second@,
        one@ == other@,
    ensures
        terminal_definition(first@, one@) == terminal_definition(second@, other@),
{
}

/// Operations that are added to a graph leave the references that an
/// earlier operation holds as they were.
pub proof fn lemma_growth_keeps_inputs(
    ops: Seq<OperationView>,
    more: Seq<OperationView>,
    owner: int,
    handles: Seq<OperationOutput>,
)
    requires
        0 <= owner <= ops.len(),
    ensures
        resolve_inputs(ops + more, owner, handles) == resolve_inputs(ops, owner, handles),
    decreases owner, 0nat, handles.len(),
{
    if handles.len() > 0 {
        lemma_growth_keeps_inputs(ops, more, owner, handles.drop_last());
        let producer = handles.last().op.0 as int;
        if producer < owner {
            lemma_growth_keeps_nodes(ops, more, producer);
            assert((ops + more)[producer] == ops[producer]);
        }
        assert(resolve_input(ops + more, owner, handles.last()) == resolve_input(
            ops,
            owner,
            handles.last(),
        ));
    }
}

/// Operations that are added to a graph leave the node of every earlier
/// operation as it was.
pub proof fn lemma_growth_keeps_nodes(ops: Seq<OperationView>, more: Seq<OperationView>, id: int)
    requires
        0 <= id < ops.len(),
    ensures
        node_of(ops + more, id) == node_of(ops, id),
    decreases id, 1nat, 0nat,
{
    assert((ops + more)[id] == ops[id]);
    lemma_growth_keeps_inputs(ops, more, id, ops[id].inputs());
}

/// Operations that are added to a graph leave what every earlier operation
/// reaches as it was.
pub proof fn lemma_growth_keeps_reach(
    ops: Seq<OperationView>,
    more: Seq<OperationView>,
    from: int,
    to: int,
)
    requires
        0 <= from < ops.len(),
    ensures
        reaches(ops + more, from, to) == reaches(ops, from, to),
    decreases from,
{
    let all = ops + more;
    assert(all[from] == ops[from]);
    if from != to {
        if reaches(ops, from, to) {
            let k = choose|k: int|
                0 <= k < ops[from].inputs().len() && (#[trigger] ops[from].inputs()[k]).op.0 < from
                    && reaches(ops, ops[from].inputs()[k].op.0 as int, to);
            lemma_growth_keeps_reach(ops, more, ops[from].inputs()[k].op.0 as int, to);
            lemma_reaches_through(all, from, k, to);
        }
        if reaches(all, from, to) {
            let k = choose|k: int|
                0 <= k < all[from].inputs().len() && (#[trigger] all[from].inputs()[k]).op.0 < from
                    && reaches(all, all[from].inputs()[k].op.0 as int, to);
            lemma_growth_keeps_reach(ops, more, ops[from].inputs()[k].op.0 as int, to);
            lemma_reaches_through(ops, from, k, to);
        }
    }
}

/// Operations that are added to a graph leave the list of what an earlier
/// operation reaches as it was.
pub proof fn lemma_growth_keeps_reachable(
    ops: Seq<OperationView>,
    more: Seq<OperationView>,
    root: int,
    bound: int,
)
    requires
        0 <= root < ops.len(),
    ensures
        reachable_below(ops + more, root, bound) == reachable_below(ops, root, bound),
    decreases bound,
{
    if bound > 0 {
        lemma_growth_keeps_reachable(ops, more, root, bound - 1);
        lemma_growth_keeps_reach(ops, more, root, bound - 1);
    }
}

/// Determinism under growth: the definition of a terminal depends on
/// nothing that was added to the graph after the operation it pins. Adding
/// further operations leaves it byte for byte the same.
pub proof fn law_growth_keeps_definition(
    ops: Seq<OperationView>,
    more: Seq<OperationView>,
    input: OperationOutput,
)
    requires
        input.op.0 < ops.len(),
    ensures
        terminal_definition(ops + more, input) == terminal_definition(ops, input),
{
    let root = input.op.0 as int;
    let all = ops + more;
    lemma_growth_keeps_nodes(ops, more, root);
    assert(all[root] == ops[root]);
    lemma_growth_keeps_reachable(ops, more, root, root + 1);
    let ids = reachable_below(ops, root, root + 1);
    law_deduplication(ops, root, root + 1);
    assert(nodes_of(all, ids) =~= nodes_of(ops, ids)) by {
        assert forall|p: int| 0 <= p < ids.len() implies node_of(all, ids[p]) == node_of(
            ops,
            ids[p],
        ) by {
            assert(ids.contains(ids[p]));
            lemma_growth_keeps_nodes(ops, more, ids[p]);
        }
    }
}

/// The references of a list of handles that all resolve: one per handle, in
/// order.
pub proof fn lemma_resolved_inputs(
    ops: Seq<OperationView>,
    owner: int,
    handles: Seq<OperationOutput>,
)
    requires
        resolve_inputs(ops, owner, handles) is Ok,
    ensures
        resolve_inputs(ops, owner, handles)->Ok_0.len() == handles.len(),
        forall|k: int|
            0 <= k < handles.len() ==> #[trigger] resolve_input(ops, owner, handles[k]) == Ok::<
                InputView,
                Error,
            >(resolve_inputs(ops, owner, handles)->Ok_0[k]),
    decreases handles.len(),
{
    if handles.len() > 0 {
        lemma_resolved_inputs(ops, owner, handles.drop_last());
        assert forall|k: int| 0 <= k < handles.len() implies #[trigger] resolve_input(
            ops,
            owner,
            handles[k],
        ) == Ok::<InputView, Error>(resolve_inputs(ops, owner, handles)->Ok_0[k]) by {
            if k < handles.len() - 1 {
                assert(handles.drop_last()[k] == handles[k]);
            }
        }
    }
}

/// The message of a node lists the references to the outputs that its
/// operation consumes, one per handle, in order.
pub proof fn lemma_node_inputs(ops: Seq<OperationView>, id: int)
    requires
        node_of(ops, id) is Ok,
    ensures
        0 <= id < ops.len(),
        resolve_inputs(ops, id, ops[id].inputs()) == Ok::<Seq<InputView>, Error>(
            node_of(ops, id)->Ok_0.node.op.inputs,
        ),
{
}

/// The digest of a source whose locator is `url`.
pub open spec fn source_digest(url: Seq<char>) -> Seq<char> {
    digest_of(op_encoding((GitSourceView { url, name: None, ignore_cache: false }).op()))
}

/// Digest stability: the digest of a source is a function of its locator
/// alone. Where the graph holds the source, how often it was constructed,
/// what it is called and whether it may be cached do not enter.
pub proof fn law_source_digest(ops: Seq<OperationView>, id: int)
    requires
        0 <= id < ops.len(),
        ops[id] is Source,
        node_of(ops, id) is Ok,
    ensures
        node_of(ops, id)->Ok_0.digest == source_digest(ops[id]->Source_0.url),
{
}

/// True if two operations are of the same kind and agree in everything but
/// their display name and their ignore-cache flag.
pub open spec fn same_content(one: OperationView, other: OperationView) -> bool {
    match (one, other) {
        (OperationView::Source(a), OperationView::Source(b)) => a.url == b.url,
        (OperationView::Merge(a), OperationView::Merge(b)) => a.inputs == b.inputs,
        _ => false,
    }
}

/// True if two graphs agree, operation by operation, in everything but
/// display names and ignore-cache flags.
pub open spec fn same_contents(first: Seq<OperationView>, second: Seq<OperationView>) -> bool {
    &&& first.len() == second.len()
    &&& forall|id: int| 0 <= id < first.len() ==> same_content(#[trigger] first[id], second[id])
}

/// Metadata non-interference: a display name or an ignore-cache flag changes
/// neither the message, nor the bytes, nor the digest of any node. Here for
/// the references that an operation holds.
pub proof fn lemma_metadata_keeps_inputs(
    first: Seq<OperationView>,
    second: Seq<OperationView>,
    owner: int,
    handles: Seq<OperationOutput>,
)
    requires
        same_contents(first, second),
        resolve_inputs(first, owner, handles) is Ok,
        resolve_inputs(second, owner, handles) is Ok,
    ensures
        resolve_inputs(first, owner, handles) == resolve_inputs(second, owner, handles),
    decreases owner, 0nat, handles.len(),
{
    if handles.len() > 0 {
        let handle = handles.last();
        let producer = handle.op.0 as int;
        assert(resolve_inputs(first, owner, handles.drop_last()) is Ok);
        assert(resolve_inputs(second, owner, handles.drop_last()) is Ok);
        assert(resolve_input(first, owner, handle) is Ok);
        assert(resolve_input(second, owner, handle) is Ok);
        assert(producer < owner);
        assert(node_of(first, producer) is Ok);
        assert(node_of(second, producer) is Ok);
        lemma_metadata_keeps_inputs(first, second, owner, handles.drop_last());
        law_metadata_non_interference(first, second, producer);
        assert(same_content(first[producer], second[producer]));
    }
}

/// Metadata non-interference: two graphs that differ in display names and
/// ignore-cache flags only give every operation the same message, the same
/// bytes and the same digest.
pub proof fn law_metadata_non_interference(
    first: Seq<OperationView>,
    second: Seq<OperationView>,
    id: int,
)
    requires
        same_contents(first, second),
        node_of(first, id) is Ok,
        node_of(second, id) is Ok,
    ensures
        node_of(first, id)->Ok_0.node.op == node_of(second, id)->Ok_0.node.op,
        node_of(first, id)->Ok_0.bytes == node_of(second, id)->Ok_0.bytes,
        node_of(first, id)->Ok_0.digest == node_of(second, id)->Ok_0.digest,
    decreases id, 1nat, 0nat,
{
    assert(same_content(first[id], second[id]));
    lemma_metadata_keeps_inputs(first, second, id, first[id].inputs());
}

/// A display name changes the metadata of a source, not its message: the
/// named source has the same digest as the unnamed one, and a description
/// that the unnamed one has not.
pub proof fn law_custom_name(source: GitSourceView, name: Seq<char>)
    ensures
        (GitSourceView { name: Some(name), ..source }).op() == source.op(),
        (GitSourceView { name: Some(name), ..source }).metadata().description.len() == 1,
        (GitSourceView { name: None, ..source }).metadata().description.len() == 0,
{
}

/// An operation reaches whatever the operations that it reaches reach.
pub proof fn lemma_reaches_transitive(ops: Seq<OperationView>, from: int, via: int, to: int)
    requires
        reaches(ops, from, via),
        reaches(ops, via, to),
    ensures
        reaches(ops, from, to),
    decreases from,
{
    if from != via {
        let k = choose|k: int|
            0 <= k < ops[from].inputs().len() && (#[trigger] ops[from].inputs()[k]).op.0 < from
                && reaches(ops, ops[from].inputs()[k].op.0 as int, via);
        lemma_reaches_transitive(ops, ops[from].inputs()[k].op.0 as int, via, to);
        lemma_reaches_through(ops, from, k, to);
    }
}

/// Whatever an operation with a node reaches has a node too.
pub proof fn lemma_reached_nodes_exist(ops: Seq<OperationView>, from: int, to: int)
    requires
        node_of(ops, from) is Ok,
        reaches(ops, from, to),
    ensures
        node_of(ops, to) is Ok,
    decreases from,
{
    if from != to {
        let k = choose|k: int|
            0 <= k < ops[from].inputs().len() && (#[trigger] ops[from].inputs()[k]).op.0 < from
                && reaches(ops, ops[from].inputs()[k].op.0 as int, to);
        lemma_resolved_inputs(ops, from, ops[from].inputs());
        let handle = ops[from].inputs()[k];
        assert(resolve_input(ops, from, handle) is Ok);
        lemma_reached_nodes_exist(ops, handle.op.0 as int, to);
    }
}

/// Deduplication: the operations that a tail lists are exactly those below
/// the bound that the root reaches, each once, in ascending order of
/// construction. An operation with many consumers is there once.
pub proof fn law_deduplication(ops: Seq<OperationView>, root: int, bound: int)
    ensures
        forall|id: int| #[trigger]
            reachable_below(ops, root, bound).contains(id) <==> 0 <= id < bound && reaches(
                ops,
                root,
                id,
            ),
        forall|p: int, q: int|
            0 <= p < q < reachable_below(ops, root, bound).len() ==> #[trigger] reachable_below(
                ops,
                root,
                bound,
            )[p] < #[trigger] reachable_below(ops, root, bound)[q],
        reachable_below(ops, root, bound).no_duplicates(),
    decreases bound,
{
    let ids = reachable_below(ops, root, bound);
    if bound > 0 {
        law_deduplication(ops, root, bound - 1);
        let below = reachable_below(ops, root, bound - 1);
        if reaches(ops, root, bound - 1) {
            assert(ids == below.push(bound - 1));
            assert forall|id: int| ids.contains(id) implies 0 <= id < bound && reaches(
                ops,
                root,
                id,
            ) by {
                let p = choose|p: int| 0 <= p < ids.len() && ids[p] == id;
                if p < below.len() {
                    assert(below[p] == id);
                    assert(below.contains(id));
                }
            }
            assert forall|id: int| 0 <= id < bound && reaches(ops, root, id) implies ids.contains(
                id,
            ) by {
                if id == bound - 1 {
                    assert(ids[ids.len() - 1] == id);
                } else {
                    assert(below.contains(id));
                    let p = choose|p: int| 0 <= p < below.len() && below[p] == id;
                    assert(ids[p] == id);
                }
            }
            assert forall|p: int, q: int| 0 <= p < q < ids.len() implies ids[p] < ids[q] by {
                assert(below[p] == ids[p]);
                if q == ids.len() - 1 {
                    assert(below.contains(below[p]));
                } else {
                    assert(below[q] == ids[q]);
                }
            }
        } else {
            assert(ids == below);
        }
    }
    assert forall|p: int, q: int| 0 <= p < ids.len() && 0 <= q < ids.len() && p != q implies ids[p]
        != ids[q] by {
        if p < q {
            assert(ids[p] < ids[q]);
        } else {
            assert(ids[q] < ids[p]);
        }
    }
}

/// Ordering: in the tail of a terminal, every reference that a node holds is
/// to a node that comes earlier in the tail, by that node's digest. No node
/// refers forward, and none refers to a node that is missing.
pub proof fn law_ordering(ops: Seq<OperationView>, input: OperationOutput, position: int, k: int)
    requires
        terminal_output(ops, input) is Ok,
        0 <= position < terminal_output(ops, input)->Ok_0.tail.len(),
        0 <= k < terminal_output(ops, input)->Ok_0.tail[position].node.op.inputs.len(),
    ensures
        exists|earlier: int|
            0 <= earlier < position && (#[trigger] terminal_output(ops, input)->Ok_0.tail[earlier]).digest
                == terminal_output(ops, input)->Ok_0.tail[position].node.op.inputs[k].digest,
{
    let root = input.op.0 as int;
    let ids = reachable_below(ops, root, root + 1);
    let tail = terminal_output(ops, input)->Ok_0.tail;
    assert(tail == nodes_of(ops, ids));
    law_deduplication(ops, root, root + 1);
    let id = ids[position];
    assert(ids.contains(id));
    lemma_reached_nodes_exist(ops, root, id);
    lemma_node_inputs(ops, id);
    lemma_resolved_inputs(ops, id, ops[id].inputs());
    let handle = ops[id].inputs()[k];
    let producer = handle.op.0 as int;
    assert(resolve_input(ops, id, handle) is Ok);
    assert(reaches(ops, producer, producer));
    lemma_reaches_through(ops, id, k, producer);
    lemma_reaches_transitive(ops, root, id, producer);
    assert(ids.contains(producer));
    let earlier = choose|earlier: int| 0 <= earlier < ids.len() && ids[earlier] == producer;
    assert(earlier < position) by {
        if earlier > position {
            assert(ids[position] < ids[earlier]);
        }
    }
    assert(tail[earlier].digest == tail[position].node.op.inputs[k].digest);
}

/// Terminal round-trip: the head of a terminal's output is a message with
/// no payload and one input, which names the pinned output by the digest of
/// its node and by its slot. The definition lists one node more than the
/// tail holds, the head last; over an operation without inputs, two.
pub proof fn law_terminal_round_trip(ops: Seq<OperationView>, input: OperationOutput)
    requires
        terminal_output(ops, input) is Ok,
    ensures
        node_of(ops, input.op.0 as int) is Ok,
        terminal_output(ops, input)->Ok_0.head.node.op.op is None,
        terminal_output(ops, input)->Ok_0.head.node.op.inputs == seq![
            InputView {
                digest: node_of(ops, input.op.0 as int)->Ok_0.digest,
                index: input.index.0 as i64,
            },
        ],
        terminal_output(ops, input)->Ok_0.tail.len() >= 1,
        terminal_output(ops, input)->Ok_0.tail.last() == node_of(ops, input.op.0 as int)->Ok_0,
        terminal_definition(ops, input)->Ok_0.def.len() == terminal_output(
            ops,
            input,
        )->Ok_0.tail.len() + 1,
        terminal_definition(ops, input)->Ok_0.def.last() == terminal_output(
            ops,
            input,
        )->Ok_0.head.bytes,
        ops[input.op.0 as int].inputs().len() == 0 ==> {
            &&& terminal_output(ops, input)->Ok_0.tail == seq![node_of(ops, input.op.0 as int)->Ok_0]
            &&& terminal_definition(ops, input)->Ok_0.def.len() == 2
        },
{
    let root = input.op.0 as int;
    lemma_reachable_above(ops, root, root + 1);
    let below = reachable_below(ops, root, root);
    assert(nodes_of(ops, below.push(root)) =~= nodes_of(ops, below).push(node_of(ops, root)->Ok_0));
    if ops[root].inputs().len() == 0 {
        lemma_leaf_reaches_nothing(ops, root, root);
        assert(reaches(ops, root, root));
        assert(reachable_below(ops, root, root + 1) =~= seq![root]);
        assert(nodes_of(ops, seq![root]) =~= seq![node_of(ops, root)->Ok_0]);
    }
}

/// An operation without inputs reaches no other operation.
pub proof fn lemma_leaf_reaches_nothing(ops: Seq<OperationView>, leaf: int, bound: int)
    requires
        0 <= leaf < ops.len(),
        ops[leaf].inputs().len() == 0,
        bound <= leaf,
    ensures
        reachable_below(ops, leaf, bound) == Seq::<int>::empty(),
    decreases bound,
{
    if bound > 0 {
        lemma_leaf_reaches_nothing(ops, leaf, bound - 1);
    }
}

/// Failure propagation, one step: an operation whose inputs resolve up to
/// one that fails, fails with that input's error.
pub proof fn law_failure_propagates(ops: Seq<OperationView>, parent: int, k: int)
    requires
        0 <= parent < ops.len(),
        0 <= k < ops[parent].inputs().len(),
        resolve_inputs(ops, parent, ops[parent].inputs().take(k)) is Ok,
        resolve_input(ops, parent, ops[parent].inputs()[k]) is Err,
    ensures
        node_of(ops, parent) == Err::<crate::node::SerializedNodeView, Error>(
            resolve_input(ops, parent, ops[parent].inputs()[k])->Err_0,
        ),
{
    let handles = ops[parent].inputs();
    assert(handles.take(k + 1).drop_last() =~= handles.take(k));
    assert(handles.take(k + 1).last() == handles[k]);
    lemma_resolve_inputs_fails(ops, parent, handles, k + 1);
}

/// Failure propagation, to the root: if any operation that the pinned output
/// reaches cannot be serialized, the terminal yields no definition; and if
/// the pinned operation itself fails, the terminal fails with its error.
pub proof fn law_failure_aborts(ops: Seq<OperationView>, input: OperationOutput, failing: int)
    requires
        input.op.0 < ops.len(),
        reaches(ops, input.op.0 as int, failing),
        node_of(ops, failing) is Err,
    ensures
        terminal_definition(ops, input) is Err,
        failing == input.op.0 ==> terminal_definition(ops, input) == Err::<DefinitionView, Error>(
            node_of(ops, failing)->Err_0,
        ),
{
    if node_of(ops, input.op.0 as int) is Ok {
        lemma_reached_nodes_exist(ops, input.op.0 as int, failing);
    }
}

} // verus!
