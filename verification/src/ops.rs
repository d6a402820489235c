//! The kinds of operation that a build graph is made of, and what they have
//! in common.

pub mod merge;
pub mod source;
pub mod terminal;

use crate::definition::OpMetadata;
use crate::definition::OpMetadataView;
use crate::error::Error;
use crate::node::Node;
use crate::node::NodeView;
use crate::ops::merge::Merge;
use crate::ops::merge::MergeView;
use crate::ops::source::GitSource;
use crate::ops::source::GitSourceView;
use crate::schema::Input;
use crate::schema::InputView;
use crate::schema::inputs_view;
use crate::utils::OperationOutput;
use crate::wire::string_encodable;
use crate::wire::check_string;
use vstd::prelude::*;

verus! {

/// The description of an operation that was given the display name `name`,
/// or none.
pub open spec fn description_of(name: Option<Seq<char>>) -> Seq<(Seq<char>, Seq<char>)> {
    match name {
        Some(text) => seq![("llb.customname"@, text)],
        None => seq![],
    }
}

/// True if the display name, where there is one, fits a string field.
pub open spec fn name_encodable(name: Option<Seq<char>>) -> bool {
    match name {
        Some(text) => string_encodable(text),
        None => true,
    }
}

/// The view of an optional display name.
pub open spec fn name_view(name: Option<String>) -> Option<Seq<char>> {
    match name {
        Some(text) => Some(text@),
        None => None,
    }
}

/// Validates that the display name, where there is one, fits a string field.
pub(crate) fn check_name(name: &Option<String>) -> (result: Result<(), Error>)
    ensures
        result is Ok <==> name_encodable(name_view(*name)),
        result is Err ==> result == Err::<(), Error>(Error::Encoding),
{
    match name {
        Some(text) => check_string(text.as_str()),
        None => Ok(()),
    }
}

/// Builds the metadata of an operation from its display name, its
/// ignore-cache flag and its capabilities.
pub(crate) fn build_metadata(
    name: &Option<String>,
    ignore_cache: bool,
    caps: Vec<(String, bool)>,
) -> (metadata: OpMetadata)
    ensures
        metadata@ == (OpMetadataView {
            ignore_cache,
            description: description_of(name_view(*name)),
            caps: crate::schema::flags_view(caps@),
        }),
{
    let mut description: Vec<(String, String)> = Vec::new();
    match name {
        Some(text) => {
            description.push((String::from_str("llb.customname"), text.clone()));
        },
        None => {},
    }
    let metadata = OpMetadata { ignore_cache, description, caps };
    assert(metadata@.description =~= description_of(name_view(*name)));
    metadata
}

/// One operation of a build graph.
#[derive(Debug)]
pub enum Operation {
    /// Fetches a source.
    Source(GitSource),
    /// Layers the outputs of other operations into one snapshot.
    Merge(Merge),
}

/// What an [`Operation`] holds.
pub enum OperationView {
    Source(GitSourceView),
    Merge(MergeView),
}

impl View for Operation {
    type V = OperationView;

    open spec fn view(&self) -> OperationView {
        match self {
            Operation::Source(source) => OperationView::Source(source@),
            Operation::Merge(merge) => OperationView::Merge(merge@),
        }
    }
}

impl OperationView {
    /// The outputs of other operations that this one consumes, in order.
    pub open spec fn inputs(self) -> Seq<OperationOutput> {
        match self {
            OperationView::Source(_) => seq![],
            OperationView::Merge(merge) => merge.inputs,
        }
    }

    /// The number of output slots that this operation declares.
    pub open spec fn outputs(self) -> nat {
        1
    }

    /// The node of this operation, given the references to the outputs it
    /// consumes; [`Error::Encoding`] if one of its string fields is too long.
    pub open spec fn node(self, inputs: Seq<InputView>) -> Result<NodeView, Error> {
        match self {
            OperationView::Source(source) => source.node(),
            OperationView::Merge(merge) => merge.node(inputs),
        }
    }
}

impl Operation {
    /// The outputs of other operations that this one consumes, in order.
    pub fn inputs(&self) -> (handles: Vec<OperationOutput>)
        ensures
            handles@ == self@.inputs(),
    {
        match self {
            Operation::Source(_) => Vec::new(),
            Operation::Merge(merge) => merge.inputs(),
        }
    }

    /// The number of output slots that this operation declares.
    pub fn outputs(&self) -> (count: u32)
        ensures
            count == self@.outputs(),
    {
        1
    }

    /// Builds the node of this operation from the references to the outputs
    /// it consumes.
    pub fn serialize(&self, inputs: Vec<Input>) -> (result: Result<Node, Error>)
        ensures
            match result {
                Ok(node) => self@.node(inputs_view(inputs@)) == Ok::<NodeView, Error>(node@),
                Err(error) => self@.node(inputs_view(inputs@)) == Err::<NodeView, Error>(error),
            },
    {
        match self {
            Operation::Source(source) => source.serialize(),
            Operation::Merge(merge) => merge.serialize(inputs),
        }
    }
}

} // verus!
