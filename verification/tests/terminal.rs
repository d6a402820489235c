use buildkit_llb::error::Error;
use buildkit_llb::graph::Graph;
use buildkit_llb::ops::merge::Merge;
use buildkit_llb::ops::source::GitSource;
use buildkit_llb::ops::terminal::Terminal;
use buildkit_llb::ops::Operation;
use buildkit_llb::utils::OperationId;
use buildkit_llb::utils::OperationOutput;
use buildkit_llb::utils::OutputIdx;

const SOURCE_DIGEST: &str =
    "sha256:ecde982e19ace932e5474e57b0ca71ba690ed7d28abff2a033e8f969e22bf2d8";
const TERMINAL_DIGEST: &str =
    "sha256:d3665afbfabced28ccf8792afc457096091743695973e247cd019bc04bf1289c";

fn hex_text(bytes: &[u8]) -> String {
    let mut text = String::new();
    for byte in bytes {
        text.push_str(&format!("{:02x}", byte));
    }
    text
}

#[test]
fn terminal_round_trip() {
    let mut graph = Graph::new();
    let a = graph.add(Operation::Source(GitSource::new("any.url")));
    let output = Terminal::with(a.output()).serialize(&graph).unwrap();
    assert_eq!(output.tail.len(), 1);
    assert_eq!(output.tail[0].digest, SOURCE_DIGEST);
    assert!(output.head.node.op.op.is_none());
    assert_eq!(output.head.node.op.inputs.len(), 1);
    assert_eq!(output.head.node.op.inputs[0].digest, SOURCE_DIGEST);
    assert_eq!(output.head.node.op.inputs[0].index, 0);
    assert_eq!(output.head.digest, TERMINAL_DIGEST);
    assert!(output.head.node.metadata.is_empty());

    let definition = Terminal::with(a.output()).into_definition(&graph).unwrap();
    assert_eq!(definition.def.len(), 2);
    assert_eq!(definition.metadata.len(), 2);
    assert_eq!(hex_text(&definition.def[0]), "1a0f0a0d6769743a2f2f616e792e75726c");
    assert_eq!(
        hex_text(&definition.def[1]),
        "0a490a477368613235363a6563646539383265313961636539333265353437346535376230636137\
         3162613639306564376432386162666632613033336538663936396532326266326438"
    );
    assert_eq!(definition.metadata[0].0, SOURCE_DIGEST);
    assert_eq!(definition.metadata[1].0, TERMINAL_DIGEST);
}

#[test]
fn definition_is_encoded_field_by_field() {
    let mut graph = Graph::new();
    let a = graph.add(Operation::Source(
        GitSource::new("any.url").custom_name("git custom name"),
    ));
    let definition = Terminal::with(a.output()).into_definition(&graph).unwrap();
    let bytes = definition.encode();
    assert_eq!(bytes.len(), 283);
    assert_eq!(
        hex_text(&bytes),
        "0a111a0f0a0d6769743a2f2f616e792e75726c0a4b0a490a477368613235363a6563646539383265\
         3139616365393332653534373465353762306361373162613639306564376432386162666632613\
         03333653866393639653232626632643812\
         6e0a477368613235363a656364653938326531396163653933326535343734653537623063613731\
         626136393065643764323861626666326130333365386639363965323262663264381223\
         12210a0e6c6c622e637573746f6d6e616d65120f67697420637573746f6d206e616d65\
         12490a477368613235363a64333636356166626661626365643238636366383739326166633435373\
         0393630393137343336393539373365323437636430313962633034626631323839\
         63"
        .replace(' ', "")
    );
}

#[test]
fn write_definition_appends_to_the_sink() {
    let mut graph = Graph::new();
    let a = graph.add(Operation::Source(GitSource::new("any.url")));
    let expected = Terminal::with(a.output())
        .into_definition(&graph)
        .unwrap()
        .encode();
    assert_eq!(expected.len(), 246);

    let mut sink = vec![0xffu8, 0x00];
    Terminal::with(a.output())
        .write_definition(&graph, &mut sink)
        .unwrap();
    assert_eq!(&sink[..2], &[0xff, 0x00]);
    assert_eq!(&sink[2..], &expected[..]);
}

#[test]
fn write_definition_writes_nothing_on_failure() {
    let graph = Graph::new();
    let mut sink = vec![1u8, 2, 3];
    let result = Terminal::with(OperationId(0).output()).write_definition(&graph, &mut sink);
    assert_eq!(result, Err(Error::Dependency));
    assert_eq!(sink, vec![1u8, 2, 3]);
}

#[test]
fn a_missing_slot_is_an_index_error() {
    let mut graph = Graph::new();
    let a = graph.add(Operation::Source(GitSource::new("any.url")));
    let handle = OperationOutput::new(a, OutputIdx(1));
    assert_eq!(handle.operation(), a);
    assert_eq!(handle.index(), OutputIdx(1));
    let result = Terminal::with(handle).into_definition(&graph);
    assert!(matches!(result, Err(Error::Index)));
}

#[test]
fn a_missing_operation_is_a_dependency_error() {
    let mut graph = Graph::new();
    graph.add(Operation::Source(GitSource::new("any.url")));
    let result = Terminal::with(OperationId(1).output()).into_definition(&graph);
    assert!(matches!(result, Err(Error::Dependency)));
}

#[test]
fn failure_of_a_dependency_is_the_failure_of_the_whole() {
    let mut graph = Graph::new();
    let a = graph.add(Operation::Source(GitSource::new("any.url")));
    let broken = graph.add(Operation::Merge(Merge::new(vec![
        a.output(),
        OperationOutput::new(a, OutputIdx(3)),
    ])));
    let parent = graph.add(Operation::Merge(Merge::new(vec![a.output(), broken.output()])));
    let result = Terminal::with(parent.output()).into_definition(&graph);
    assert!(matches!(result, Err(Error::Index)));

    let mut graph = Graph::new();
    let a = graph.add(Operation::Source(GitSource::new("any.url")));
    let forward = graph.add(Operation::Merge(Merge::new(vec![OperationId(2).output()])));
    let later = graph.add(Operation::Merge(Merge::new(vec![a.output(), forward.output()])));
    let result = Terminal::with(later.output()).serialize(&graph);
    assert!(matches!(result, Err(Error::Dependency)));

    let own = graph.add(Operation::Merge(Merge::new(vec![OperationId(3).output()])));
    let result = Terminal::with(own.output()).serialize(&graph);
    assert!(matches!(result, Err(Error::Dependency)));
}

#[test]
fn the_first_failing_input_decides_the_error() {
    let mut graph = Graph::new();
    let a = graph.add(Operation::Source(GitSource::new("any.url")));
    let parent = graph.add(Operation::Merge(Merge::new(vec![
        OperationOutput::new(a, OutputIdx(9)),
        OperationId(40).output(),
    ])));
    let result = Terminal::with(parent.output()).into_definition(&graph);
    assert!(matches!(result, Err(Error::Index)));

    let parent = graph.add(Operation::Merge(Merge::new(vec![
        OperationId(40).output(),
        OperationOutput::new(a, OutputIdx(9)),
    ])));
    let result = Terminal::with(parent.output()).into_definition(&graph);
    assert!(matches!(result, Err(Error::Dependency)));
}
