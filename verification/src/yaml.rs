//! Reading YAML text into a document tree.

use vstd::prelude::*;
use crate::error::{outcome, ErrorKind, Failure, SchemaError};
use crate::grammar::document_of;
use crate::node::{Node, Tree};
use crate::raw::{node_of_raw, tree_of_raw, RawNode, RawTree};
use crate::schema::{Document, KaiTai};
use serde_yaml::Value;

verus! {

/// `serde_yaml::Value`, the tree that the YAML reader builds. Nothing is
/// known of what a value holds but through [`value_raw`].
#[verifier::external_type_specification]
#[verifier::external_body]
pub struct ExValue(serde_yaml::Value);

/// `serde_yaml::Error`, the reader's own failure. Nothing of it is read:
/// [`read_raw`] drops it, and a text that the reader refuses is reported as
/// `MalformedDocument`.
#[verifier::external_type_specification]
#[verifier::external_body]
pub struct ExYamlError(serde_yaml::Error);

/// What a `serde_yaml::Value` holds: its variant, the items of a sequence
/// in their order, the entries of a mapping in the order in which they came
/// in, and of a number what `Number::as_u64`, `Number::as_i64` and its
/// `Display` form give.
pub uninterp spec fn value_raw(value: Value) -> RawTree;

/// What `serde_yaml::from_str` reads a text as, where it accepts the text.
/// The YAML grammar decides; it is not stated here.
pub uninterp spec fn yaml_raw(text: Seq<char>) -> Option<RawTree>;

/// `serde_yaml::from_str` at the type `serde_yaml::Value`. Assumed:
/// whether a text is accepted, and the value it is read as, depend on the
/// text alone.
#[verifier::external_body]
fn read_value(text: &str) -> (r: Result<Value, serde_yaml::Error>)
    ensures
        r is Ok <==> yaml_raw(text@) is Some,
        r matches Ok(value) ==> yaml_raw(text@) == Some(value_raw(value)),
{
    serde_yaml::from_str::<Value>(text)
}

/// Copies a `serde_yaml::Value` into a [`RawNode`], variant by variant and
/// field by field: a number through `Number::as_u64`, `Number::as_i64` and
/// its `Display` form, a mapping through `Mapping::iter`, a tag through its
/// `Display` form. Nothing is decided here. Assumed: the copy depends on
/// the value alone.
#[verifier::external_body]
fn raw_of_value(value: &Value) -> (raw: RawNode)
    ensures
        raw@ == value_raw(*value),
{
    match value {
        Value::Null => RawNode::Null,
        Value::Bool(b) => RawNode::Bool(*b),
        Value::Number(n) => RawNode::Number(n.as_u64(), n.as_i64(), n.to_string()),
        Value::String(s) => RawNode::Str(s.clone()),
        Value::Sequence(items) => RawNode::Sequence(items.iter().map(raw_of_value).collect()),
        Value::Mapping(m) => RawNode::Mapping(
            m.iter().map(|(k, v)| (raw_of_value(k), raw_of_value(v))).collect(),
        ),
        Value::Tagged(t) => RawNode::Tagged(t.tag.to_string(), Box::new(raw_of_value(&t.value))),
    }
}

/// Reads a YAML text into what the reader reports: none where the text is
/// no YAML.
pub fn read_raw(text: &str) -> (r: Option<RawNode>)
    ensures
        r is Some <==> yaml_raw(text@) is Some,
        r matches Some(raw) ==> yaml_raw(text@) == Some(raw@),
{
    match read_value(text) {
        Ok(value) => Some(raw_of_value(&value)),
        Err(_) => None,
    }
}

/// The document tree of a YAML text: the tree of what the reader reports.
pub open spec fn yaml_tree(text: Seq<char>) -> Option<Tree> {
    match yaml_raw(text) {
        Some(raw) => Some(tree_of_raw(raw)),
        None => None,
    }
}

/// Reads a YAML text into a document tree: none where the text is no
/// YAML.
///
/// The tree holds what the reader makes of the text, not the text: a
/// scalar that the reader takes for a number or a truth value is held in
/// its normal form, so `0x10` is the integer 16, `1.50` the number `1.5`
/// and `True` the truth value `true`.
pub fn read_tree(text: &str) -> (r: Option<Node>)
    ensures
        r is Some <==> yaml_tree(text@) is Some,
        r matches Some(node) ==> yaml_tree(text@) == Some(node@),
{
    match read_raw(text) {
        Some(raw) => Some(node_of_raw(&raw)),
        None => None,
    }
}

/// The document that a YAML text describes: the document of its tree, and
/// a malformed document where the text is no YAML.
pub open spec fn document_of_text(text: Seq<char>) -> Result<Document, Failure> {
    match yaml_tree(text) {
        Some(tree) => document_of(tree),
        None => Err(Failure::new(ErrorKind::MalformedDocument)),
    }
}

impl KaiTai {
    /// Reads a schema document from a YAML text.
    ///
    /// A text that the YAML reader refuses fails with `MalformedDocument`
    /// at the root; any other text is read as [`KaiTai::from_node`] reads
    /// the tree that [`read_tree`] makes of it.
    ///
    /// The texts of a document (`size`, `if`, `doc` and the like) are taken
    /// from that tree, so a scalar that the reader takes for a number or a
    /// truth value comes in its normal form, not as it was written:
    /// `size: 0x10` gives the size `16`, `1.50` gives `1.5`, `True` gives
    /// `true`. Quote such a scalar to keep it as it is written.
    pub fn from_yaml(text: &str) -> (r: Result<KaiTai, SchemaError>)
        ensures
            outcome(r) == document_of_text(text@),
    {
        match read_tree(text) {
            Some(node) => KaiTai::from_node(&node),
            None => Err(SchemaError::new(ErrorKind::MalformedDocument)),
        }
    }
}

} // verus!
