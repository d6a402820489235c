//! The wire artifact: the canonical bytes of every node of a build graph, in
//! order, with the metadata of each node beside them.

use crate::schema::flags_encoding;
use crate::schema::flags_view;
use crate::schema::optional_bool_field;
use crate::schema::optional_string_field;
use crate::schema::pairs_encoding;
use crate::schema::pairs_view;
use crate::schema::put_flags;
use crate::schema::put_optional_string;
use crate::schema::put_pairs;
use crate::wire::bytes_field;
use crate::wire::concat_map;
use crate::wire::lemma_concat_map_push;
use crate::wire::put_bool;
use crate::wire::put_bytes;
use vstd::prelude::*;

verus! {

/// What accompanies a node without being part of its content: annotations
/// for people, whether cached results are to be ignored, and the
/// capabilities that the node asks of the executor.
#[derive(Debug)]
pub struct OpMetadata {
    pub ignore_cache: bool,
    pub description: Vec<(String, String)>,
    pub caps: Vec<(String, bool)>,
}

/// What an [`OpMetadata`] holds.
pub struct OpMetadataView {
    pub ignore_cache: bool,
    pub description: Seq<(Seq<char>, Seq<char>)>,
    pub caps: Seq<(Seq<char>, bool)>,
}

impl View for OpMetadata {
    type V = OpMetadataView;

    open spec fn view(&self) -> OpMetadataView {
        OpMetadataView {
            ignore_cache: self.ignore_cache,
            description: pairs_view(self.description@),
            caps: flags_view(self.caps@),
        }
    }
}

impl OpMetadataView {
    /// The metadata of a node that was given none.
    pub open spec fn empty() -> OpMetadataView {
        OpMetadataView { ignore_cache: false, description: seq![], caps: seq![] }
    }

    /// True if nothing was set: such metadata is left out of the wire form.
    pub open spec fn is_empty(self) -> bool {
        !self.ignore_cache && self.description.len() == 0 && self.caps.len() == 0
    }
}

/// The body of a metadata record.
pub open spec fn metadata_encoding(metadata: OpMetadataView) -> Seq<u8> {
    optional_bool_field(1, metadata.ignore_cache) + pairs_encoding(2, metadata.description)
        + flags_encoding(5, metadata.caps)
}

impl Default for OpMetadata {
    fn default() -> (metadata: Self)
        ensures
            metadata@ == OpMetadataView::empty(),
    {
        let metadata = OpMetadata { ignore_cache: false, description: Vec::new(), caps: Vec::new() };
        assert(metadata@.description =~= seq![]);
        assert(metadata@.caps =~= seq![]);
        metadata
    }
}

impl OpMetadata {
    /// True if nothing was set.
    pub fn is_empty(&self) -> (empty: bool)
        ensures
            empty == self@.is_empty(),
    {
        !self.ignore_cache && self.description.len() == 0 && self.caps.len() == 0
    }

    /// The canonical bytes of this record.
    pub fn encode(&self) -> (bytes: Vec<u8>)
        ensures
            bytes@ == metadata_encoding(self@),
    {
        let mut bytes: Vec<u8> = Vec::new();
        if self.ignore_cache {
            put_bool(1, true, &mut bytes);
        }
        put_pairs(2, &self.description, &mut bytes);
        put_flags(5, &self.caps, &mut bytes);
        assert(bytes@ =~= metadata_encoding(self@));
        bytes
    }
}

/// The serialized build graph: the canonical bytes of each node, and for each
/// node, in the same order, its digest and its metadata.
#[derive(Debug)]
pub struct Definition {
    pub def: Vec<Vec<u8>>,
    pub metadata: Vec<(String, OpMetadata)>,
}

/// What a [`Definition`] holds.
pub struct DefinitionView {
    pub def: Seq<Seq<u8>>,
    pub metadata: Seq<(Seq<char>, OpMetadataView)>,
}

/// The views of a list of byte strings.
pub open spec fn blobs_view(blobs: Seq<Vec<u8>>) -> Seq<Seq<u8>> {
    blobs.map_values(|blob: Vec<u8>| blob@)
}

/// The views of a list of digests with their metadata.
pub open spec fn annotations_view(entries: Seq<(String, OpMetadata)>) -> Seq<
    (Seq<char>, OpMetadataView),
> {
    entries.map_values(|entry: (String, OpMetadata)| (entry.0@, entry.1@))
}

impl View for Definition {
    type V = DefinitionView;

    open spec fn view(&self) -> DefinitionView {
        DefinitionView { def: blobs_view(self.def@), metadata: annotations_view(self.metadata@) }
    }
}

/// The body of one metadata entry: the digest of the node, then its
/// metadata unless that is empty.
pub open spec fn annotation_encoding(entry: (Seq<char>, OpMetadataView)) -> Seq<u8> {
    optional_string_field(1, entry.0) + if entry.1.is_empty() {
        seq![]
    } else {
        bytes_field(2, metadata_encoding(entry.1))
    }
}

/// The canonical bytes of a definition: the nodes in order, then the
/// metadata entries in order.
pub open spec fn definition_encoding(definition: DefinitionView) -> Seq<u8> {
    concat_map(definition.def, |blob: Seq<u8>| bytes_field(1, blob)) + concat_map(
        definition.metadata,
        |entry: (Seq<char>, OpMetadataView)| bytes_field(2, annotation_encoding(entry)),
    )
}

impl Definition {
    /// The canonical bytes of this definition.
    pub fn encode(&self) -> (bytes: Vec<u8>)
        ensures
            bytes@ == definition_encoding(self@),
    {
        let ghost each_blob = |blob: Seq<u8>| bytes_field(1, blob);
        let ghost each_entry = |entry: (Seq<char>, OpMetadataView)|
            bytes_field(2, annotation_encoding(entry));
        let mut bytes: Vec<u8> = Vec::new();
        let mut i: usize = 0;
        assert(bytes@ =~= concat_map(blobs_view(self.def@.take(0)), each_blob));
        while i < self.def.len()
            invariant
                i <= self.def.len(),
                each_blob == |blob: Seq<u8>| bytes_field(1, blob),
                bytes@ == concat_map(blobs_view(self.def@.take(i as int)), each_blob),
            decreases self.def.len() - i,
        {
            put_bytes(1, &self.def[i], &mut bytes);
            proof {
                let done = blobs_view(self.def@.take(i as int));
                lemma_concat_map_push(done, self.def[i as int]@, each_blob);
                assert(blobs_view(self.def@.take(i as int + 1)) =~= done.push(self.def[i as int]@));
            }
            i += 1;
        }
        assert(self.def@.take(i as int) =~= self.def@);
        let ghost nodes = bytes@;
        let mut j: usize = 0;
        assert(bytes@ =~= nodes + concat_map(annotations_view(self.metadata@.take(0)), each_entry));
        while j < self.metadata.len()
            invariant
                j <= self.metadata.len(),
                each_entry == |entry: (Seq<char>, OpMetadataView)|
                    bytes_field(2, annotation_encoding(entry)),
                bytes@ == nodes + concat_map(
                    annotations_view(self.metadata@.take(j as int)),
                    each_entry,
                ),
            decreases self.metadata.len() - j,
        {
            let mut entry: Vec<u8> = Vec::new();
            put_optional_string(1, &self.metadata[j].0, &mut entry);
            if !self.metadata[j].1.is_empty() {
                let record = self.metadata[j].1.encode();
                put_bytes(2, &record, &mut entry);
            }
            assert(entry@ =~= annotation_encoding(
                (self.metadata[j as int].0@, self.metadata[j as int].1@),
            ));
            put_bytes(2, &entry, &mut bytes);
            proof {
                let done = annotations_view(self.metadata@.take(j as int));
                let item = (self.metadata[j as int].0@, self.metadata[j as int].1@);
                lemma_concat_map_push(done, item, each_entry);
                assert(annotations_view(self.metadata@.take(j as int + 1)) =~= done.push(item));
                assert(bytes@ =~= nodes + concat_map(done.push(item), each_entry));
            }
            j += 1;
        }
        assert(self.metadata@.take(j as int) =~= self.metadata@);
        bytes
    }
}

} // verus!
