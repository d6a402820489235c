//! The combinator that pins one output of a graph as the entry point of a
//! definition.

use crate::context::Context;
use crate::definition::definition_encoding;
use crate::definition::Definition;
use crate::definition::DefinitionView;
use crate::definition::OpMetadata;
use crate::error::Error;
use crate::graph::Graph;
use crate::model::lemma_entries_are_reachable;
use crate::model::lemma_reachable_above;
use crate::model::terminal_definition;
use crate::model::terminal_output;
use crate::model::OutputView;
use crate::node::SerializedNode;
use crate::output::Output;
use crate::schema::inputs_view;
use crate::schema::Input;
use crate::schema::Op;
use crate::utils::OperationOutput;
use vstd::prelude::*;

verus! {

/// The root of a definition: not a build step, but the node that says which
/// output the build is for.
#[derive(Debug)]
pub struct Terminal {
    input: OperationOutput,
}

impl View for Terminal {
    type V = OperationOutput;

    closed spec fn view(&self) -> OperationOutput {
        self.input
    }
}

impl Terminal {
    /// A terminal that pins the output `input`.
    pub fn with(input: OperationOutput) -> (terminal: Self)
        ensures
            terminal@ == input,
    {
        Terminal { input }
    }

    /// Flattens `graph` from this terminal, in a pass of its own: the
    /// terminal's node as the head, and as the tail the nodes of everything
    /// that the pinned output depends on.
    pub fn serialize(&self, graph: &Graph) -> (result: Result<Output, Error>)
        ensures
            match result {
                Ok(output) => terminal_output(graph@, self@) == Ok::<OutputView, Error>(output@),
                Err(error) => terminal_output(graph@, self@) == Err::<OutputView, Error>(error),
            },
    {
        let mut cx = Context::new(graph);
        let reference = match cx.resolve(graph.len(), self.input) {
            Ok(reference) => reference,
            Err(error) => {
                return Err(error);
            },
        };
        proof {
            let id = self.input.op.0 as int;
            lemma_entries_are_reachable(graph@, cx@, id, graph@.len() as int);
            lemma_reachable_above(graph@, id, graph@.len() as int);
            lemma_reachable_above(graph@, id, id + 1);
        }
        let tail = cx.into_registered_nodes();
        let mut inputs: Vec<Input> = Vec::new();
        inputs.push(reference);
        assert(inputs_view(inputs@) =~= seq![reference@]);
        let head = SerializedNode::new(Op { inputs, op: None }, OpMetadata::default());
        Ok(Output { head, tail })
    }

    /// Serializes `graph` from this terminal into a definition. No
    /// definition is produced unless every operation could be serialized.
    pub fn into_definition(self, graph: &Graph) -> (result: Result<Definition, Error>)
        ensures
            match result {
                Ok(definition) => terminal_definition(graph@, self@) == Ok::<DefinitionView, Error>(
                    definition@,
                ),
                Err(error) => terminal_definition(graph@, self@) == Err::<DefinitionView, Error>(
                    error,
                ),
            },
    {
        match self.serialize(graph) {
            Ok(output) => Ok(output.into_definition()),
            Err(error) => Err(error),
        }
    }

    /// Serializes `graph` from this terminal and appends the encoded
    /// definition to `writer`. On failure nothing is written.
    pub fn write_definition(self, graph: &Graph, writer: &mut Vec<u8>) -> (result: Result<(), Error>)
        ensures
            match result {
                Ok(_) => {
                    &&& terminal_definition(graph@, self@) is Ok
                    &&& final(writer)@ == old(writer)@ + definition_encoding(
                        terminal_definition(graph@, self@)->Ok_0,
                    )
                },
                Err(error) => {
                    &&& terminal_definition(graph@, self@) == Err::<DefinitionView, Error>(error)
                    &&& final(writer)@ == old(writer)@
                },
            },
    {
        match self.into_definition(graph) {
            Ok(definition) => {
                let mut bytes = definition.encode();
                writer.append(&mut bytes);
                Ok(())
            },
            Err(error) => Err(error),
        }
    }
}

} // verus!
