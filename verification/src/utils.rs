//! Identifiers of operations and handles to their outputs: the material from
//! which the edges of a build graph are made.

use vstd::prelude::*;

verus! {

/// Identifies one operation of a graph: its position in the order in which
/// the operations were added. It never appears in the wire form, nor does it
/// affect a digest.
#[derive(Clone, Copy, Debug, PartialEq, Eq, Structural)]
pub struct OperationId(pub usize);

/// The number of an output slot of an operation.
#[derive(Clone, Copy, Debug, PartialEq, Eq, Structural)]
pub struct OutputIdx(pub u32);

/// A handle to one numbered output of an operation. Nothing is checked when
/// a handle is made: a handle that names a missing operation or a missing
/// slot is found out when the graph is serialized.
#[derive(Clone, Copy, Debug, PartialEq, Eq, Structural)]
pub struct OperationOutput {
    pub op: OperationId,
    pub index: OutputIdx,
}

impl OperationOutput {
    /// A handle to output `index` of operation `op`.
    pub fn new(op: OperationId, index: OutputIdx) -> (handle: Self)
        ensures
            handle == (OperationOutput { op, index }),
    {
        OperationOutput { op, index }
    }

    /// The operation whose output this is.
    pub fn operation(&self) -> (op: OperationId)
        ensures
            op == self.op,
    {
        self.op
    }

    /// The number of the output slot.
    pub fn index(&self) -> (index: OutputIdx)
        ensures
            index == self.index,
    {
        self.index
    }
}

impl OperationId {
    /// A handle to the first output of this operation.
    pub fn output(&self) -> (handle: OperationOutput)
        ensures
            handle == (OperationOutput { op: *self, index: OutputIdx(0) }),
    {
        OperationOutput { op: *self, index: OutputIdx(0) }
    }
}

} // verus!
