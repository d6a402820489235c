//! The operation that layers the outputs of other operations into one
//! snapshot.

use crate::definition::OpMetadataView;
use crate::error::Error;
use crate::node::Node;
use crate::node::NodeView;
use crate::ops::build_metadata;
use crate::ops::check_name;
use crate::ops::description_of;
use crate::ops::name_encodable;
use crate::ops::name_view;
use crate::schema::inputs_view;
use crate::schema::Input;
use crate::schema::InputView;
use crate::schema::MergeOp;
use crate::schema::MergeOpView;
use crate::schema::Op;
use crate::schema::OpKind;
use crate::schema::OpKindView;
use crate::schema::OpView;
use crate::utils::OperationOutput;
use vstd::prelude::*;
use vstd::string::StringExecFns;

verus! {

/// Layers the outputs it consumes, the first one lowest. It has one output.
#[derive(Debug)]
pub struct Merge {
    inputs: Vec<OperationOutput>,
    name: Option<String>,
    ignore_cache: bool,
}

/// What a [`Merge`] holds.
pub struct MergeView {
    pub inputs: Seq<OperationOutput>,
    pub name: Option<Seq<char>>,
    pub ignore_cache: bool,
}

impl View for Merge {
    type V = MergeView;

    closed spec fn view(&self) -> MergeView {
        MergeView {
            inputs: self.inputs@,
            name: name_view(self.name),
            ignore_cache: self.ignore_cache,
        }
    }
}

/// The positions `0, 1, ..` of `count` layers among a node's inputs.
pub open spec fn layer_positions(count: nat) -> Seq<i64> {
    Seq::new(count, |position: int| position as i64)
}

impl MergeView {
    /// The wire message: the references to the layers, and a payload that
    /// names each of them by its position.
    pub open spec fn op(self, inputs: Seq<InputView>) -> OpView {
        OpView {
            inputs,
            op: Some(OpKindView::Merge(MergeOpView { inputs: layer_positions(inputs.len()) })),
        }
    }

    /// The metadata: the display name, if one was given, the ignore-cache
    /// flag, and the capability that an executor needs to layer snapshots.
    pub open spec fn metadata(self) -> OpMetadataView {
        OpMetadataView {
            ignore_cache: self.ignore_cache,
            description: description_of(self.name),
            caps: seq![("mergeop"@, true)],
        }
    }

    /// The node of the operation, or [`Error::Encoding`] if its display name
    /// is too long.
    pub open spec fn node(self, inputs: Seq<InputView>) -> Result<NodeView, Error> {
        if name_encodable(self.name) {
            Ok(NodeView { op: self.op(inputs), metadata: self.metadata() })
        } else {
            Err(Error::Encoding)
        }
    }
}

impl Merge {
    /// A merge of `inputs`, without a display name, that may be cached.
    pub fn new(inputs: Vec<OperationOutput>) -> (merge: Self)
        ensures
            merge@ == (MergeView { inputs: inputs@, name: None, ignore_cache: false }),
    {
        Merge { inputs, name: None, ignore_cache: false }
    }

    /// The same merge under the display name `name`. A name given earlier is
    /// replaced.
    pub fn custom_name(self, name: &str) -> (merge: Self)
        ensures
            merge@ == (MergeView { name: Some(name@), ..self@ }),
    {
        Merge { inputs: self.inputs, name: Some(String::from_str(name)), ignore_cache: self.ignore_cache }
    }

    /// The same merge with the ignore-cache flag set to `ignore`.
    pub fn ignore_cache(self, ignore: bool) -> (merge: Self)
        ensures
            merge@ == (MergeView { ignore_cache: ignore, ..self@ }),
    {
        Merge { inputs: self.inputs, name: self.name, ignore_cache: ignore }
    }

    /// The outputs that this merge consumes, in order.
    pub fn inputs(&self) -> (handles: Vec<OperationOutput>)
        ensures
            handles@ == self@.inputs,
    {
        let mut handles: Vec<OperationOutput> = Vec::new();
        let mut i: usize = 0;
        while i < self.inputs.len()
            invariant
                i <= self.inputs.len(),
                handles@ == self.inputs@.take(i as int),
            decreases self.inputs.len() - i,
        {
            handles.push(self.inputs[i]);
            assert(handles@ =~= self.inputs@.take(i as int + 1));
            i += 1;
        }
        assert(self.inputs@.take(i as int) =~= self.inputs@);
        handles
    }

    /// Builds the node of this merge from the references to its layers.
    pub fn serialize(&self, inputs: Vec<Input>) -> (result: Result<Node, Error>)
        ensures
            match result {
                Ok(node) => self@.node(inputs_view(inputs@)) == Ok::<NodeView, Error>(node@),
                Err(error) => self@.node(inputs_view(inputs@)) == Err::<NodeView, Error>(error),
            },
    {
        match check_name(&self.name) {
            Ok(_) => {},
            Err(error) => {
                return Err(error);
            },
        }
        let mut positions: Vec<i64> = Vec::new();
        let mut i: usize = 0;
        while i < inputs.len()
            invariant
                i <= inputs.len(),
                positions@ == layer_positions(i as nat),
            decreases inputs.len() - i,
        {
            positions.push(i as i64);
            assert(positions@ =~= layer_positions((i + 1) as nat));
            i += 1;
        }
        let mut caps: Vec<(String, bool)> = Vec::new();
        caps.push((String::from_str("mergeop"), true));
        let metadata = build_metadata(&self.name, self.ignore_cache, caps);
        assert(metadata@.caps =~= seq![("mergeop"@, true)]);
        let op = Op { inputs, op: Some(OpKind::Merge(MergeOp { inputs: positions })) };
        Ok(Node::new(op, metadata))
    }
}

} // verus!
