use buildkit_llb::context::Context;
use buildkit_llb::error::Error;
use buildkit_llb::graph::Graph;
use buildkit_llb::node::SerializedNode;
use buildkit_llb::ops::source::GitSource;
use buildkit_llb::ops::Operation;
use buildkit_llb::output::flatten;
use buildkit_llb::schema::OpKind;
use buildkit_llb::wire::check_len;
use buildkit_llb::wire::check_string;
use buildkit_llb::wire::MAX_FIELD_LEN;

fn hex(bytes: &[u8]) -> String {
    let mut text = String::new();
    for byte in bytes {
        text.push_str(&format!("{:02x}", byte));
    }
    text
}

fn identifier(node: &SerializedNode) -> String {
    match &node.node.op.op {
        Some(OpKind::Source(source)) => {
            assert!(source.attrs.is_empty());
            source.identifier.clone()
        }
        _ => panic!("not a source"),
    }
}

#[test]
fn serialization() {
    let mut graph = Graph::new();
    let plain = graph.add(Operation::Source(GitSource::new("any.url")));
    let named = graph.add(Operation::Source(
        GitSource::new("any.url").custom_name("git custom name"),
    ));

    let output = flatten(&graph, plain.output()).unwrap();
    assert_eq!(
        output.head.digest,
        "sha256:ecde982e19ace932e5474e57b0ca71ba690ed7d28abff2a033e8f969e22bf2d8"
    );
    assert_eq!(output.head.node.metadata.description, vec![]);
    assert_eq!(output.head.node.metadata.caps, vec![]);
    assert_eq!(output.tail.len(), 0);
    assert_eq!(output.head.node.op.inputs.len(), 0);
    assert_eq!(identifier(&output.head), "git://any.url");
    assert_eq!(hex(&output.head.bytes), "1a0f0a0d6769743a2f2f616e792e75726c");

    let output = flatten(&graph, named.output()).unwrap();
    assert_eq!(
        output.head.digest,
        "sha256:ecde982e19ace932e5474e57b0ca71ba690ed7d28abff2a033e8f969e22bf2d8"
    );
    assert_eq!(
        output.head.node.metadata.description,
        vec![("llb.customname".to_string(), "git custom name".to_string())]
    );
    assert_eq!(output.head.node.metadata.caps, vec![]);
    assert_eq!(output.tail.len(), 0);
    assert_eq!(output.head.node.op.inputs.len(), 0);
    assert_eq!(identifier(&output.head), "git://any.url");
}

#[test]
fn source_node_is_built_without_a_graph() {
    let node = GitSource::new("any.url").serialize().unwrap();
    let node = SerializedNode::from_node(node);
    assert_eq!(hex(&node.bytes), "1a0f0a0d6769743a2f2f616e792e75726c");
    assert_eq!(
        node.digest,
        "sha256:ecde982e19ace932e5474e57b0ca71ba690ed7d28abff2a033e8f969e22bf2d8"
    );
    assert!(!node.node.metadata.ignore_cache);
}

#[test]
fn digest_is_stable_across_constructions() {
    let mut graph = Graph::new();
    let padding = graph.add(Operation::Source(GitSource::new("other.url")));
    let first = graph.add(Operation::Source(GitSource::new("any.url")));
    let second = graph.add(Operation::Source(GitSource::new("any.url")));
    let mut cx = Context::new(&graph);
    let a = cx.serialize(first).unwrap().digest.clone();
    let b = cx.serialize(second).unwrap().digest.clone();
    let c = cx.serialize(padding).unwrap().digest.clone();
    assert_eq!(a, b);
    assert_ne!(a, c);
    assert_eq!(
        a,
        "sha256:ecde982e19ace932e5474e57b0ca71ba690ed7d28abff2a033e8f969e22bf2d8"
    );
}

#[test]
fn metadata_does_not_enter_the_digest() {
    let plain = SerializedNode::from_node(GitSource::new("any.url").serialize().unwrap());
    let named = SerializedNode::from_node(
        GitSource::new("any.url").custom_name("x").serialize().unwrap(),
    );
    let uncached = SerializedNode::from_node(
        GitSource::new("any.url").ignore_cache(true).serialize().unwrap(),
    );
    assert_eq!(plain.digest, named.digest);
    assert_eq!(plain.digest, uncached.digest);
    assert_eq!(plain.bytes, named.bytes);
    assert_eq!(plain.bytes, uncached.bytes);
    assert_ne!(
        plain.node.metadata.description,
        named.node.metadata.description
    );
    assert!(uncached.node.metadata.ignore_cache);
    assert!(!plain.node.metadata.ignore_cache);
    assert!(plain.node.metadata.is_empty());
    assert!(!named.node.metadata.is_empty());
}

#[test]
fn a_later_name_replaces_an_earlier_one() {
    let node = GitSource::new("any.url")
        .custom_name("first")
        .custom_name("second")
        .ignore_cache(true)
        .ignore_cache(false)
        .serialize()
        .unwrap();
    assert_eq!(
        node.metadata.description,
        vec![("llb.customname".to_string(), "second".to_string())]
    );
    assert!(!node.metadata.ignore_cache);
}

#[test]
fn a_field_that_does_not_fit_is_an_encoding_error() {
    assert_eq!(MAX_FIELD_LEN, 2147483647);
    assert_eq!(check_len(0), Ok(()));
    assert_eq!(check_len(MAX_FIELD_LEN), Ok(()));
    assert_eq!(check_len(MAX_FIELD_LEN + 1), Err(Error::Encoding));
    assert_eq!(check_len(usize::MAX), Err(Error::Encoding));
    assert_eq!(check_string("git://any.url"), Ok(()));
    assert_eq!(check_string(""), Ok(()));
}
