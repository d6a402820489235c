use buildkit_llb::definition::Definition;
use buildkit_llb::definition::OpMetadata;
use buildkit_llb::digest::get_digest;
use buildkit_llb::digest::render_digest;
use buildkit_llb::node::Node;
use buildkit_llb::node::SerializedNode;
use buildkit_llb::schema::Input;
use buildkit_llb::schema::MergeOp;
use buildkit_llb::schema::Op;
use buildkit_llb::schema::OpKind;
use buildkit_llb::schema::SourceOp;
use buildkit_llb::wire::check_string;
use buildkit_llb::wire::utf8_len;

#[test]
fn digest_of_known_bytes() {
    assert_eq!(
        get_digest(b""),
        "sha256:e3b0c44298fc1c149afbf4c8996fb92427ae41e4649b934ca495991b7852b855"
    );
    assert_eq!(
        get_digest(b"abc"),
        "sha256:ba7816bf8f01cfea414140de5dae2223b00361a396177a9cb410ff61f20015ad"
    );
}

#[test]
fn digest_text_is_lower_case_hexadecimal() {
    assert_eq!(render_digest(&[]), "sha256:");
    assert_eq!(render_digest(&[0x00, 0x0f, 0xa0, 0xff, 0x9c]), "sha256:000fa0ff9c");
}

#[test]
fn input_leaves_out_default_fields() {
    let empty = Input { digest: String::new(), index: 0 };
    assert_eq!(empty.encode(), Vec::<u8>::new());
    let indexed = Input { digest: String::new(), index: 300 };
    assert_eq!(indexed.encode(), vec![0x10, 0xac, 0x02]);
    let negative = Input { digest: String::new(), index: -1 };
    assert_eq!(
        negative.encode(),
        vec![0x10, 0xff, 0xff, 0xff, 0xff, 0xff, 0xff, 0xff, 0xff, 0xff, 0x01]
    );
    let named = Input { digest: "ab".to_string(), index: 1 };
    assert_eq!(named.encode(), vec![0x0a, 0x02, 0x61, 0x62, 0x10, 0x01]);
}

#[test]
fn string_fields_hold_utf8() {
    let source = SourceOp { identifier: "é€".to_string(), attrs: vec![] };
    assert_eq!(
        source.encode(),
        vec![0x0a, 0x05, 0xc3, 0xa9, 0xe2, 0x82, 0xac]
    );
    assert_eq!(utf8_len("é€"), 5);
    assert_eq!(utf8_len(""), 0);
    assert!(check_string("é€").is_ok());
}

#[test]
fn source_attributes_are_map_entries() {
    let source = SourceOp {
        identifier: String::new(),
        attrs: vec![
            ("k".to_string(), "v".to_string()),
            (String::new(), "w".to_string()),
            ("e".to_string(), String::new()),
        ],
    };
    assert_eq!(
        source.encode(),
        vec![
            0x12, 0x06, 0x0a, 0x01, 0x6b, 0x12, 0x01, 0x76, 0x12, 0x03, 0x12, 0x01, 0x77, 0x12,
            0x03, 0x0a, 0x01, 0x65
        ]
    );
}

#[test]
fn op_lists_inputs_before_its_payload() {
    let op = Op {
        inputs: vec![Input { digest: "d".to_string(), index: 2 }],
        op: Some(OpKind::Merge(MergeOp { inputs: vec![0, 1] })),
    };
    assert_eq!(
        op.encode(),
        vec![
            0x0a, 0x05, 0x0a, 0x01, 0x64, 0x10, 0x02, 0x32, 0x06, 0x0a, 0x00, 0x0a, 0x02, 0x08,
            0x01
        ]
    );
    let bare = Op { inputs: vec![], op: None };
    assert_eq!(bare.encode(), Vec::<u8>::new());
    let source = Op {
        inputs: vec![],
        op: Some(OpKind::Source(SourceOp { identifier: String::new(), attrs: vec![] })),
    };
    assert_eq!(source.encode(), vec![0x1a, 0x00]);
}

#[test]
fn metadata_is_encoded_in_field_order() {
    let metadata = OpMetadata::default();
    assert!(metadata.is_empty());
    assert_eq!(metadata.encode(), Vec::<u8>::new());
    let metadata = OpMetadata {
        ignore_cache: true,
        description: vec![("a".to_string(), "b".to_string())],
        caps: vec![("c".to_string(), true), ("d".to_string(), false)],
    };
    assert!(!metadata.is_empty());
    assert_eq!(
        metadata.encode(),
        vec![
            0x08, 0x01, 0x12, 0x06, 0x0a, 0x01, 0x61, 0x12, 0x01, 0x62, 0x2a, 0x05, 0x0a, 0x01,
            0x63, 0x10, 0x01, 0x2a, 0x03, 0x0a, 0x01, 0x64
        ]
    );
}

#[test]
fn definition_lists_nodes_then_metadata() {
    let definition = Definition {
        def: vec![vec![0x01, 0x02], vec![]],
        metadata: vec![
            ("x".to_string(), OpMetadata::default()),
            (
                String::new(),
                OpMetadata { ignore_cache: true, description: vec![], caps: vec![] },
            ),
        ],
    };
    assert_eq!(
        definition.encode(),
        vec![
            0x0a, 0x02, 0x01, 0x02, 0x0a, 0x00, 0x12, 0x03, 0x0a, 0x01, 0x78, 0x12, 0x04, 0x12,
            0x02, 0x08, 0x01
        ]
    );
    let empty = Definition { def: vec![], metadata: vec![] };
    assert_eq!(empty.encode(), Vec::<u8>::new());
}

#[test]
fn serialized_node_holds_bytes_and_digest_of_its_message() {
    let op = Op { inputs: vec![], op: None };
    let node = SerializedNode::new(op, OpMetadata::default());
    assert_eq!(node.bytes, Vec::<u8>::new());
    assert_eq!(
        node.digest,
        "sha256:e3b0c44298fc1c149afbf4c8996fb92427ae41e4649b934ca495991b7852b855"
    );
    let node = Node::new(
        Op { inputs: vec![Input { digest: "d".to_string(), index: 0 }], op: None },
        OpMetadata { ignore_cache: true, description: vec![], caps: vec![] },
    );
    let serialized = SerializedNode::from_node(node);
    assert_eq!(serialized.bytes, vec![0x0a, 0x03, 0x0a, 0x01, 0x64]);
    assert_eq!(serialized.digest, get_digest(&[0x0a, 0x03, 0x0a, 0x01, 0x64]));
    assert!(serialized.node.metadata.ignore_cache);
}
