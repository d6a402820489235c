//! Nodes: the canonical form of one operation, before and after it has been
//! encoded and given its digest.

use crate::definition::OpMetadata;
use crate::definition::OpMetadataView;
use crate::digest::digest_of;
use crate::digest::get_digest;
use crate::schema::op_encoding;
use crate::schema::Op;
use crate::schema::OpView;
use vstd::prelude::*;

verus! {

/// The canonical form of one operation: its wire message, and the metadata
/// that travels beside it.
#[derive(Debug)]
pub struct Node {
    pub op: Op,
    pub metadata: OpMetadata,
}

/// What a [`Node`] holds.
pub struct NodeView {
    pub op: OpView,
    pub metadata: OpMetadataView,
}

impl View for Node {
    type V = NodeView;

    open spec fn view(&self) -> NodeView {
        NodeView { op: self.op@, metadata: self.metadata@ }
    }
}

impl Node {
    /// The node of a message and its metadata.
    pub fn new(op: Op, metadata: OpMetadata) -> (node: Self)
        ensures
            node@ == (NodeView { op: op@, metadata: metadata@ }),
    {
        Node { op, metadata }
    }
}

/// A node together with its canonical bytes and their digest.
#[derive(Debug)]
pub struct SerializedNode {
    pub node: Node,
    pub bytes: Vec<u8>,
    pub digest: String,
}

/// What a [`SerializedNode`] holds.
pub struct SerializedNodeView {
    pub node: NodeView,
    pub bytes: Seq<u8>,
    pub digest: Seq<char>,
}

impl View for SerializedNode {
    type V = SerializedNodeView;

    open spec fn view(&self) -> SerializedNodeView {
        SerializedNodeView { node: self.node@, bytes: self.bytes@, digest: self.digest@ }
    }
}

/// The serialized form of `node`: the encoding of its message, and the digest
/// of that encoding. The metadata has no part in either.
pub open spec fn serialized(node: NodeView) -> SerializedNodeView {
    SerializedNodeView {
        node,
        bytes: op_encoding(node.op),
        digest: digest_of(op_encoding(node.op)),
    }
}

impl SerializedNode {
    /// Encodes a message and computes its digest.
    pub fn new(op: Op, metadata: OpMetadata) -> (node: Self)
        ensures
            node@ == serialized(NodeView { op: op@, metadata: metadata@ }),
    {
        SerializedNode::from_node(Node::new(op, metadata))
    }

    /// Encodes the message of `node` and computes its digest.
    pub fn from_node(node: Node) -> (serialized_node: Self)
        ensures
            serialized_node@ == serialized(node@),
    {
        let bytes = node.op.encode();
        let digest = get_digest(bytes.as_slice());
        SerializedNode { node, bytes, digest }
    }
}

} // verus!
