//! The messages of the wire schema and their canonical encodings.
//!
//! Each message is a plain record. Its view is the same record over
//! mathematical sequences, and its encoding is a spec function of that view:
//! the fields in the order of their numbers, a field that holds its default
//! value left out.

use crate::wire::bool_field;
use crate::wire::bytes_field;
use crate::wire::concat_map;
use crate::wire::int64_field;
use crate::wire::lemma_concat_map_push;
use crate::wire::put_bool;
use crate::wire::put_bytes;
use crate::wire::put_int64;
use crate::wire::put_string;
use crate::wire::string_field;
use vstd::prelude::*;

verus! {

/// A string field, or nothing if the string is empty.
pub open spec fn optional_string_field(tag: u32, text: Seq<char>) -> Seq<u8> {
    if text.len() == 0 {
        seq![]
    } else {
        string_field(tag, text)
    }
}

/// An integer field, or nothing if the integer is zero.
pub open spec fn optional_int64_field(tag: u32, value: i64) -> Seq<u8> {
    if value == 0 {
        seq![]
    } else {
        int64_field(tag, value)
    }
}

/// A boolean field, or nothing if the boolean is `false`.
pub open spec fn optional_bool_field(tag: u32, value: bool) -> Seq<u8> {
    if value {
        bool_field(tag, true)
    } else {
        seq![]
    }
}

/// The views of a list of string pairs.
pub open spec fn pairs_view(pairs: Seq<(String, String)>) -> Seq<(Seq<char>, Seq<char>)> {
    pairs.map_values(|pair: (String, String)| (pair.0@, pair.1@))
}

/// The views of a list of flags.
pub open spec fn flags_view(flags: Seq<(String, bool)>) -> Seq<(Seq<char>, bool)> {
    flags.map_values(|flag: (String, bool)| (flag.0@, flag.1))
}

/// The body of one entry of a map from strings to strings.
pub open spec fn pair_encoding(pair: (Seq<char>, Seq<char>)) -> Seq<u8> {
    optional_string_field(1, pair.0) + optional_string_field(2, pair.1)
}

/// A map from strings to strings: one field numbered `tag` per entry.
pub open spec fn pairs_encoding(tag: u32, pairs: Seq<(Seq<char>, Seq<char>)>) -> Seq<u8> {
    concat_map(pairs, |pair: (Seq<char>, Seq<char>)| bytes_field(tag, pair_encoding(pair)))
}

/// The body of one entry of a map from strings to booleans.
pub open spec fn flag_encoding(flag: (Seq<char>, bool)) -> Seq<u8> {
    optional_string_field(1, flag.0) + optional_bool_field(2, flag.1)
}

/// A map from strings to booleans: one field numbered `tag` per entry.
pub open spec fn flags_encoding(tag: u32, flags: Seq<(Seq<char>, bool)>) -> Seq<u8> {
    concat_map(flags, |flag: (Seq<char>, bool)| bytes_field(tag, flag_encoding(flag)))
}

/// Appends a string field unless the string is empty.
pub(crate) fn put_optional_string(tag: u32, text: &String, buf: &mut Vec<u8>)
    requires
        crate::wire::valid_tag(tag),
    ensures
        final(buf)@ == old(buf)@ + optional_string_field(tag, text@),
{
    if !text.as_str().is_empty() {
        put_string(tag, text, buf);
    } else {
        assert(buf@ =~= old(buf)@ + optional_string_field(tag, text@));
    }
}

/// Appends a map from strings to strings, entry by entry.
pub(crate) fn put_pairs(tag: u32, pairs: &Vec<(String, String)>, buf: &mut Vec<u8>)
    requires
        crate::wire::valid_tag(tag),
    ensures
        final(buf)@ == old(buf)@ + pairs_encoding(tag, pairs_view(pairs@)),
{
    let ghost each = |pair: (Seq<char>, Seq<char>)| bytes_field(tag, pair_encoding(pair));
    let mut i: usize = 0;
    assert(buf@ =~= old(buf)@ + concat_map(pairs_view(pairs@.take(0)), each));
    while i < pairs.len()
        invariant
            i <= pairs.len(),
            crate::wire::valid_tag(tag),
            each == |pair: (Seq<char>, Seq<char>)| bytes_field(tag, pair_encoding(pair)),
            buf@ == old(buf)@ + concat_map(pairs_view(pairs@.take(i as int)), each),
        decreases pairs.len() - i,
    {
        let mut entry: Vec<u8> = Vec::new();
        put_optional_string(1, &pairs[i].0, &mut entry);
        put_optional_string(2, &pairs[i].1, &mut entry);
        assert(entry@ =~= pair_encoding((pairs[i as int].0@, pairs[i as int].1@)));
        put_bytes(tag, &entry, buf);
        proof {
            let done = pairs_view(pairs@.take(i as int));
            let item = (pairs[i as int].0@, pairs[i as int].1@);
            lemma_concat_map_push(done, item, each);
            assert(pairs_view(pairs@.take(i as int + 1)) =~= done.push(item));
            assert(buf@ =~= old(buf)@ + concat_map(done.push(item), each));
        }
        i += 1;
    }
    assert(pairs@.take(i as int) =~= pairs@);
}

/// Appends a map from strings to booleans, entry by entry.
pub(crate) fn put_flags(tag: u32, flags: &Vec<(String, bool)>, buf: &mut Vec<u8>)
    requires
        crate::wire::valid_tag(tag),
    ensures
        final(buf)@ == old(buf)@ + flags_encoding(tag, flags_view(flags@)),
{
    let ghost each = |flag: (Seq<char>, bool)| bytes_field(tag, flag_encoding(flag));
    let mut i: usize = 0;
    assert(buf@ =~= old(buf)@ + concat_map(flags_view(flags@.take(0)), each));
    while i < flags.len()
        invariant
            i <= flags.len(),
            crate::wire::valid_tag(tag),
            each == |flag: (Seq<char>, bool)| bytes_field(tag, flag_encoding(flag)),
            buf@ == old(buf)@ + concat_map(flags_view(flags@.take(i as int)), each),
        decreases flags.len() - i,
    {
        let mut entry: Vec<u8> = Vec::new();
        put_optional_string(1, &flags[i].0, &mut entry);
        if flags[i].1 {
            put_bool(2, true, &mut entry);
        }
        assert(entry@ =~= flag_encoding((flags[i as int].0@, flags[i as int].1)));
        put_bytes(tag, &entry, buf);
        proof {
            let done = flags_view(flags@.take(i as int));
            let item = (flags[i as int].0@, flags[i as int].1);
            lemma_concat_map_push(done, item, each);
            assert(flags_view(flags@.take(i as int + 1)) =~= done.push(item));
            assert(buf@ =~= old(buf)@ + concat_map(done.push(item), each));
        }
        i += 1;
    }
    assert(flags@.take(i as int) =~= flags@);
}

/// A reference to one output of another node: the producer's digest and the
/// number of the output slot.
#[derive(Debug)]
pub struct Input {
    pub digest: String,
    pub index: i64,
}

/// What an [`Input`] holds.
pub struct InputView {
    pub digest: Seq<char>,
    pub index: i64,
}

impl View for Input {
    type V = InputView;

    open spec fn view(&self) -> InputView {
        InputView { digest: self.digest@, index: self.index }
    }
}

/// The views of a list of inputs.
pub open spec fn inputs_view(inputs: Seq<Input>) -> Seq<InputView> {
    inputs.map_values(|input: Input| input@)
}

/// The body of an input reference.
pub open spec fn input_encoding(input: InputView) -> Seq<u8> {
    optional_string_field(1, input.digest) + optional_int64_field(2, input.index)
}

impl Input {
    /// The canonical bytes of this input reference.
    pub fn encode(&self) -> (bytes: Vec<u8>)
        ensures
            bytes@ == input_encoding(self@),
    {
        let mut bytes: Vec<u8> = Vec::new();
        put_optional_string(1, &self.digest, &mut bytes);
        if self.index != 0 {
            put_int64(2, self.index, &mut bytes);
        }
        assert(bytes@ =~= input_encoding(self@));
        bytes
    }
}

/// The payload of a node that fetches a source: the identifier of the source
/// and its attributes.
#[derive(Debug)]
pub struct SourceOp {
    pub identifier: String,
    pub attrs: Vec<(String, String)>,
}

/// What a [`SourceOp`] holds.
pub struct SourceOpView {
    pub identifier: Seq<char>,
    pub attrs: Seq<(Seq<char>, Seq<char>)>,
}

impl View for SourceOp {
    type V = SourceOpView;

    open spec fn view(&self) -> SourceOpView {
        SourceOpView { identifier: self.identifier@, attrs: pairs_view(self.attrs@) }
    }
}

/// The body of a source payload.
pub open spec fn source_encoding(source: SourceOpView) -> Seq<u8> {
    optional_string_field(1, source.identifier) + pairs_encoding(2, source.attrs)
}

impl SourceOp {
    /// The canonical bytes of this payload.
    pub fn encode(&self) -> (bytes: Vec<u8>)
        ensures
            bytes@ == source_encoding(self@),
    {
        let mut bytes: Vec<u8> = Vec::new();
        put_optional_string(1, &self.identifier, &mut bytes);
        put_pairs(2, &self.attrs, &mut bytes);
        assert(bytes@ =~= source_encoding(self@));
        bytes
    }
}

/// The payload of a node that layers its inputs into one snapshot: for each
/// layer, the position of its reference among the node's inputs.
#[derive(Debug)]
pub struct MergeOp {
    pub inputs: Vec<i64>,
}

/// What a [`MergeOp`] holds.
pub struct MergeOpView {
    pub inputs: Seq<i64>,
}

impl View for MergeOp {
    type V = MergeOpView;

    open spec fn view(&self) -> MergeOpView {
        MergeOpView { inputs: self.inputs@ }
    }
}

/// The body of a merge payload: one nested message per layer.
pub open spec fn merge_encoding(merge: MergeOpView) -> Seq<u8> {
    concat_map(merge.inputs, |input: i64| bytes_field(1, optional_int64_field(1, input)))
}

impl MergeOp {
    /// The canonical bytes of this payload.
    pub fn encode(&self) -> (bytes: Vec<u8>)
        ensures
            bytes@ == merge_encoding(self@),
    {
        let ghost each = |input: i64| bytes_field(1, optional_int64_field(1, input));
        let mut bytes: Vec<u8> = Vec::new();
        let mut i: usize = 0;
        assert(bytes@ =~= concat_map(self.inputs@.take(0), each));
        while i < self.inputs.len()
            invariant
                i <= self.inputs.len(),
                each == |input: i64| bytes_field(1, optional_int64_field(1, input)),
                bytes@ == concat_map(self.inputs@.take(i as int), each),
            decreases self.inputs.len() - i,
        {
            let mut layer: Vec<u8> = Vec::new();
            if self.inputs[i] != 0 {
                put_int64(1, self.inputs[i], &mut layer);
            }
            assert(layer@ =~= optional_int64_field(1, self.inputs[i as int]));
            put_bytes(1, &layer, &mut bytes);
            proof {
                let done = self.inputs@.take(i as int);
                lemma_concat_map_push(done, self.inputs[i as int], each);
                assert(self.inputs@.take(i as int + 1) =~= done.push(self.inputs[i as int]));
            }
            i += 1;
        }
        assert(self.inputs@.take(i as int) =~= self.inputs@);
        bytes
    }
}

/// The kind-specific payload of a node.
#[derive(Debug)]
pub enum OpKind {
    Source(SourceOp),
    Merge(MergeOp),
}

/// What an [`OpKind`] holds.
pub enum OpKindView {
    Source(SourceOpView),
    Merge(MergeOpView),
}

impl View for OpKind {
    type V = OpKindView;

    open spec fn view(&self) -> OpKindView {
        match self {
            OpKind::Source(source) => OpKindView::Source(source@),
            OpKind::Merge(merge) => OpKindView::Merge(merge@),
        }
    }
}

/// The view of an optional payload.
pub open spec fn payload_view(payload: Option<OpKind>) -> Option<OpKindView> {
    match payload {
        Some(kind) => Some(kind@),
        None => None,
    }
}

/// The field that carries a payload, numbered by its kind; nothing if the
/// node has no payload.
pub open spec fn payload_encoding(payload: Option<OpKindView>) -> Seq<u8> {
    match payload {
        Some(OpKindView::Source(source)) => bytes_field(3, source_encoding(source)),
        Some(OpKindView::Merge(merge)) => bytes_field(6, merge_encoding(merge)),
        None => seq![],
    }
}

/// One node of the build graph as the executor reads it: references to the
/// outputs it consumes, and a payload that says what it does.
#[derive(Debug)]
pub struct Op {
    pub inputs: Vec<Input>,
    pub op: Option<OpKind>,
}

/// What an [`Op`] holds.
pub struct OpView {
    pub inputs: Seq<InputView>,
    pub op: Option<OpKindView>,
}

impl View for Op {
    type V = OpView;

    open spec fn view(&self) -> OpView {
        OpView { inputs: inputs_view(self.inputs@), op: payload_view(self.op) }
    }
}

/// The canonical bytes of a node: its input references in order, then its
/// payload.
pub open spec fn op_encoding(op: OpView) -> Seq<u8> {
    concat_map(op.inputs, |input: InputView| bytes_field(1, input_encoding(input)))
        + payload_encoding(op.op)
}

impl Op {
    /// The canonical bytes of this node.
    pub fn encode(&self) -> (bytes: Vec<u8>)
        ensures
            bytes@ == op_encoding(self@),
    {
        let ghost each = |input: InputView| bytes_field(1, input_encoding(input));
        let mut bytes: Vec<u8> = Vec::new();
        let mut i: usize = 0;
        assert(bytes@ =~= concat_map(inputs_view(self.inputs@.take(0)), each));
        while i < self.inputs.len()
            invariant
                i <= self.inputs.len(),
                each == |input: InputView| bytes_field(1, input_encoding(input)),
                bytes@ == concat_map(inputs_view(self.inputs@.take(i as int)), each),
            decreases self.inputs.len() - i,
        {
            let reference = self.inputs[i].encode();
            put_bytes(1, &reference, &mut bytes);
            proof {
                let done = inputs_view(self.inputs@.take(i as int));
                lemma_concat_map_push(done, self.inputs[i as int]@, each);
                assert(inputs_view(self.inputs@.take(i as int + 1)) =~= done.push(
                    self.inputs[i as int]@,
                ));
            }
            i += 1;
        }
        assert(self.inputs@.take(i as int) =~= self.inputs@);
        match &self.op {
            Some(OpKind::Source(source)) => {
                let payload = source.encode();
                put_bytes(3, &payload, &mut bytes);
            },
            Some(OpKind::Merge(merge)) => {
                let payload = merge.encode();
                put_bytes(6, &payload, &mut bytes);
            },
            None => {},
        }
        assert(bytes@ =~= op_encoding(self@));
        bytes
    }
}

} // verus!
