use buildkit_llb::context::Context;
use buildkit_llb::graph::Graph;
use buildkit_llb::ops::merge::Merge;
use buildkit_llb::ops::source::GitSource;
use buildkit_llb::ops::terminal::Terminal;
use buildkit_llb::ops::Operation;
use buildkit_llb::output::flatten;
use buildkit_llb::schema::OpKind;
use buildkit_llb::utils::OperationId;

const SHARED_DIGEST: &str =
    "sha256:ce0797952edb725e0772ac2a854cd56733133e7aa72df850b6236fefd75f22bd";
const BRANCH_DIGEST: &str =
    "sha256:407c65ca5e3e121c37771e757d7f9bcb7cf782ebb3365df692a9df7a75a36543";
const ROOT_DIGEST: &str =
    "sha256:b4748493fd0de8de5abfd5c4a8a0b04eb7980cb257b01e5b2f78175d4ec620ed";

fn diamond() -> (Graph, OperationId) {
    let mut graph = Graph::new();
    graph.add(Operation::Source(GitSource::new("unused.url")));
    let shared = graph.add(Operation::Source(GitSource::new("shared.url")));
    let left = graph.add(Operation::Merge(Merge::new(vec![shared.output()])));
    let right = graph.add(Operation::Merge(
        Merge::new(vec![shared.output()]).custom_name("right"),
    ));
    let root = graph.add(Operation::Merge(Merge::new(vec![
        left.output(),
        right.output(),
    ])));
    (graph, root)
}

fn to_hex(bytes: &[u8]) -> String {
    let mut text = String::new();
    for byte in bytes {
        text.push_str(&format!("{:02x}", byte));
    }
    text
}

#[test]
fn graph_hands_out_identifiers_in_order() {
    let mut graph = Graph::new();
    assert_eq!(graph.len(), 0);
    assert!(graph.operation(OperationId(0)).is_none());
    let a = graph.add(Operation::Source(GitSource::new("a.url")));
    let b = graph.add(Operation::Merge(Merge::new(vec![a.output()])));
    assert_eq!(a, OperationId(0));
    assert_eq!(b, OperationId(1));
    assert_eq!(graph.len(), 2);
    let found = graph.operation(b).unwrap();
    assert_eq!(found.inputs(), vec![a.output()]);
    assert_eq!(found.outputs(), 1);
    assert!(matches!(found, Operation::Merge(_)));
    assert!(graph.operation(OperationId(2)).is_none());
    assert_eq!(graph.operation(a).unwrap().inputs(), vec![]);
}

#[test]
fn a_shared_operation_is_emitted_once() {
    let (graph, root) = diamond();
    let output = flatten(&graph, root.output()).unwrap();
    let digests: Vec<&str> = output.tail.iter().map(|node| node.digest.as_str()).collect();
    assert_eq!(digests, vec![SHARED_DIGEST, BRANCH_DIGEST, BRANCH_DIGEST]);
    assert_eq!(output.head.digest, ROOT_DIGEST);
    let shared = output
        .tail
        .iter()
        .filter(|node| node.digest == SHARED_DIGEST)
        .count();
    assert_eq!(shared, 1);

    let definition = Terminal::with(root.output()).into_definition(&graph).unwrap();
    assert_eq!(definition.def.len(), 5);
    let sources = definition
        .def
        .iter()
        .filter(|bytes| to_hex(bytes) == "1a120a106769743a2f2f7368617265642e75726c")
        .count();
    assert_eq!(sources, 1);
}

#[test]
fn merge_node_names_its_layers_by_position() {
    let (graph, root) = diamond();
    let output = flatten(&graph, root.output()).unwrap();
    assert_eq!(
        to_hex(&output.head.bytes),
        "0a490a477368613235363a3430376336356361356533653132316333373737316537353764376639\
         62636237636637383265626233333635646636393261396466376137356133363534330a490a4773\
         68613235363a34303763363563613565336531323163333737373165373537643766396263623763\
         663738326562623333363564663639326139646637613735613336353433\
         32060a000a020801"
    );
    match &output.head.node.op.op {
        Some(OpKind::Merge(merge)) => assert_eq!(merge.inputs, vec![0, 1]),
        _ => panic!("not a merge"),
    }
    assert_eq!(
        output.head.node.metadata.caps,
        vec![("mergeop".to_string(), true)]
    );
    assert_eq!(
        to_hex(
            &Merge::new(vec![])
                .ignore_cache(true)
                .serialize(vec![])
                .unwrap()
                .metadata
                .encode()
        ),
        "08012a0b0a076d657267656f701001"
    );
}

#[test]
fn every_reference_points_to_an_earlier_node() {
    let (graph, root) = diamond();
    let output = Terminal::with(root.output()).serialize(&graph).unwrap();
    let mut seen: Vec<String> = Vec::new();
    for node in output.tail.iter() {
        for input in node.node.op.inputs.iter() {
            assert!(seen.contains(&input.digest));
        }
        seen.push(node.digest.clone());
    }
    for input in output.head.node.op.inputs.iter() {
        assert!(seen.contains(&input.digest));
    }
    assert_eq!(output.tail.len(), 4);
    assert_eq!(output.tail[3].digest, ROOT_DIGEST);
}

#[test]
fn serializing_twice_gives_the_same_bytes() {
    let (first, first_root) = diamond();
    let (second, second_root) = diamond();
    let one = Terminal::with(first_root.output())
        .into_definition(&first)
        .unwrap();
    let other = Terminal::with(second_root.output())
        .into_definition(&second)
        .unwrap();
    assert_eq!(one.def, other.def);
    assert_eq!(one.encode(), other.encode());
    let again = Terminal::with(first_root.output())
        .into_definition(&first)
        .unwrap();
    assert_eq!(one.encode(), again.encode());
    let digests: Vec<&String> = one.metadata.iter().map(|entry| &entry.0).collect();
    let others: Vec<&String> = other.metadata.iter().map(|entry| &entry.0).collect();
    assert_eq!(digests, others);
}

#[test]
fn context_serializes_an_operation_once() {
    let (graph, root) = diamond();
    let mut cx = Context::new(&graph);
    let first = cx.serialize(OperationId(2)).unwrap().digest.clone();
    assert_eq!(first, BRANCH_DIGEST);
    let again = cx.serialize(OperationId(2)).unwrap().digest.clone();
    assert_eq!(first, again);
    let top = cx.serialize(root).unwrap().digest.clone();
    assert_eq!(top, ROOT_DIGEST);
    assert!(cx.serialize(OperationId(5)).is_err());
    let reference = cx.resolve(graph.len(), OperationId(1).output()).unwrap();
    assert_eq!(reference.digest, SHARED_DIGEST);
    assert_eq!(reference.index, 0);
    let nodes = cx.into_registered_nodes();
    let digests: Vec<&str> = nodes.iter().map(|node| node.digest.as_str()).collect();
    assert_eq!(
        digests,
        vec![SHARED_DIGEST, BRANCH_DIGEST, BRANCH_DIGEST, ROOT_DIGEST]
    );
    assert_eq!(
        nodes[2].node.metadata.description,
        vec![("llb.customname".to_string(), "right".to_string())]
    );
}
