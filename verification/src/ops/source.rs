//! The operation that fetches a source from a git repository.

use crate::definition::OpMetadataView;
use crate::error::Error;
use crate::node::Node;
use crate::node::NodeView;
use crate::ops::build_metadata;
use crate::ops::check_name;
use crate::ops::description_of;
use crate::ops::name_encodable;
use crate::ops::name_view;
use crate::schema::Op;
use crate::schema::OpKind;
use crate::schema::OpKindView;
use crate::schema::OpView;
use crate::schema::SourceOp;
use crate::schema::SourceOpView;
use crate::wire::check_len;
use crate::wire::lemma_encode_utf8_concat;
use crate::wire::string_encodable;
use crate::wire::utf8_len;
use vstd::prelude::*;
use vstd::string::StringExecFns;

verus! {

/// Fetches the repository at a locator. It consumes nothing and has one
/// output.
#[derive(Debug)]
pub struct GitSource {
    url: String,
    name: Option<String>,
    ignore_cache: bool,
}

/// What a [`GitSource`] holds.
pub struct GitSourceView {
    pub url: Seq<char>,
    pub name: Option<Seq<char>>,
    pub ignore_cache: bool,
}

impl View for GitSource {
    type V = GitSourceView;

    closed spec fn view(&self) -> GitSourceView {
        GitSourceView {
            url: self.url@,
            name: name_view(self.name),
            ignore_cache: self.ignore_cache,
        }
    }
}

impl GitSourceView {
    /// The identifier of the source: the locator, qualified by the scheme.
    pub open spec fn identifier(self) -> Seq<char> {
        "git://"@ + self.url
    }

    /// True if every string field of the operation fits the wire format.
    pub open spec fn encodable(self) -> bool {
        string_encodable(self.identifier()) && name_encodable(self.name)
    }

    /// The wire message: no inputs, and a source payload without attributes.
    pub open spec fn op(self) -> OpView {
        OpView {
            inputs: seq![],
            op: Some(
                OpKindView::Source(SourceOpView { identifier: self.identifier(), attrs: seq![] }),
            ),
        }
    }

    /// The metadata: the display name, if one was given, and the
    /// ignore-cache flag.
    pub open spec fn metadata(self) -> OpMetadataView {
        OpMetadataView {
            ignore_cache: self.ignore_cache,
            description: description_of(self.name),
            caps: seq![],
        }
    }

    /// The node of the operation, or [`Error::Encoding`] if a string field
    /// is too long.
    pub open spec fn node(self) -> Result<NodeView, Error> {
        if self.encodable() {
            Ok(NodeView { op: self.op(), metadata: self.metadata() })
        } else {
            Err(Error::Encoding)
        }
    }
}

impl GitSource {
    /// A source at `url`, without a display name, that may be cached.
    pub fn new(url: &str) -> (source: Self)
        ensures
            source@ == (GitSourceView { url: url@, name: None, ignore_cache: false }),
    {
        GitSource { url: String::from_str(url), name: None, ignore_cache: false }
    }

    /// The same source under the display name `name`. A name given earlier
    /// is replaced.
    pub fn custom_name(self, name: &str) -> (source: Self)
        ensures
            source@ == (GitSourceView { name: Some(name@), ..self@ }),
    {
        GitSource { url: self.url, name: Some(String::from_str(name)), ignore_cache: self.ignore_cache }
    }

    /// The same source with the ignore-cache flag set to `ignore`.
    pub fn ignore_cache(self, ignore: bool) -> (source: Self)
        ensures
            source@ == (GitSourceView { ignore_cache: ignore, ..self@ }),
    {
        GitSource { url: self.url, name: self.name, ignore_cache: ignore }
    }

    /// Builds the node of this source.
    pub fn serialize(&self) -> (result: Result<Node, Error>)
        ensures
            match result {
                Ok(node) => self@.node() == Ok::<NodeView, Error>(node@),
                Err(error) => self@.node() == Err::<NodeView, Error>(error),
            },
    {
        proof {
            reveal_strlit("git://");
            lemma_encode_utf8_concat("git://"@, self.url@);
            vstd::utf8::is_ascii_chars_encode_utf8("git://"@);
        }
        let locator_len: usize = utf8_len(self.url.as_str());
        if locator_len > usize::MAX - 6 {
            return Err(Error::Encoding);
        }
        match check_len(locator_len + 6) {
            Ok(_) => {},
            Err(error) => {
                return Err(error);
            },
        }
        match check_name(&self.name) {
            Ok(_) => {},
            Err(error) => {
                return Err(error);
            },
        }
        let mut identifier = String::from_str("git://");
        identifier.append(self.url.as_str());
        let op = Op {
            inputs: Vec::new(),
            op: Some(OpKind::Source(SourceOp { identifier, attrs: Vec::new() })),
        };
        let metadata = build_metadata(&self.name, self.ignore_cache, Vec::new());
        assert(op@.inputs =~= seq![]);
        assert(op@.op->Some_0->Source_0.attrs =~= seq![]);
        assert(metadata@.caps =~= seq![]);
        Ok(Node::new(op, metadata))
    }
}

} // verus!
