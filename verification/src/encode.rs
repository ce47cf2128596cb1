//! Writing: from a schema document to a document tree.

use vstd::prelude::*;
use crate::error::Failure;
use crate::field::{Field, KType, Primitive, Repeat};
use crate::grammar::{
    cases_entries,
    definition_entries,
    definition_tree,
    document_of,
    endian_text,
    enum_entries,
    enums_entry,
    field_entries,
    field_of,
    field_tree,
    field_trees,
    label_entries,
    meta_tree,
    primitive_tree,
    repeat_entry,
    repeat_text,
    schema_tree,
    text_entry,
    type_entry,
    type_tree,
    types_entry,
    Labels,
};
use crate::labels::{listing, EnumTable};
use crate::laws::{well_formed_document_is_read_back, well_formed_field_is_read_back};
use crate::node::{lemma_mapping_tree, lemma_sequence_tree, tree_pairs, trees, Node, Tree};
use crate::schema::{
    label_maps,
    lemma_listing_wf,
    Endian,
    EnumTables,
    KaiTai,
    Meta,
    Schema,
    SeqValue,
    TypeTable,
};
use crate::table::{distinct_keys, map_of};

verus! {

fn push_entry(entries: &mut Vec<(Node, Node)>, key: &str, value: Node)
    ensures
        tree_pairs(final(entries)@) == tree_pairs(old(entries)@).push((Tree::Str(key@), value@)),
{
    let ghost before = tree_pairs(entries@);
    let ghost tree = value@;
    entries.push((Node::string(key), value));
    assert(tree_pairs(entries@) =~= before.push((Tree::Str(key@), tree)));
}

fn push_text(entries: &mut Vec<(Node, Node)>, key: &str, value: &Option<String>)
    ensures
        tree_pairs(final(entries)@) == tree_pairs(old(entries)@) + text_entry(
            key@,
            value.deep_view(),
        ),
{
    let ghost before = tree_pairs(entries@);
    match value {
        Some(text) => {
            push_entry(entries, key, Node::Str(text.clone()));
            assert(tree_pairs(entries@) =~= before + text_entry(key@, value.deep_view()));
        },
        None => {
            assert(tree_pairs(entries@) =~= before + text_entry(key@, value.deep_view()));
        },
    }
}

impl Primitive {
    /// The node of a key of a switch table.
    pub fn to_node(&self) -> (node: Node)
        ensures
            node@ == primitive_tree(self@),
    {
        match self {
            Primitive::Int(v) => Node::Int(*v),
            Primitive::Str(s) => Node::Str(s.clone()),
        }
    }
}

fn write_cases(cases: &Vec<(Primitive, String)>) -> (node: Node)
    ensures
        node@ == Tree::Mapping(cases_entries(cases.deep_view())),
{
    let ghost target = cases_entries(cases.deep_view());
    let mut entries: Vec<(Node, Node)> = Vec::new();
    let mut i: usize = 0;
    proof {
        assert(tree_pairs(entries@) =~= target.take(0));
    }
    while i < cases.len()
        invariant
            i <= cases.len(),
            target == cases_entries(cases.deep_view()),
            tree_pairs(entries@) == target.take(i as int),
        decreases cases.len() - i,
    {
        let ghost before = tree_pairs(entries@);
        let key = cases[i].0.to_node();
        let name = Node::Str(cases[i].1.clone());
        let ghost pair = (key@, name@);
        entries.push((key, name));
        proof {
            assert(tree_pairs(entries@) =~= before.push(pair));
            assert(target.take(i + 1) =~= target.take(i as int).push(target[i as int]));
        }
        i = i + 1;
    }
    proof {
        assert(target.take(i as int) =~= target);
        lemma_mapping_tree(entries);
    }
    Node::Mapping(entries)
}

impl KType {
    /// The node of a type: a string for a name, a mapping with `switch-on`
    /// and `cases` for a switch.
    pub fn to_node(&self) -> (node: Node)
        ensures
            node@ == type_tree(self@),
    {
        match self {
            KType::Type(name) => Node::Str(name.clone()),
            KType::Switch(switch) => {
                let mut entries: Vec<(Node, Node)> = Vec::new();
                proof {
                    assert(tree_pairs(entries@) =~= Seq::empty());
                }
                push_entry(&mut entries, "switch-on", Node::Str(switch.switch_on.clone()));
                push_entry(&mut entries, "cases", write_cases(&switch.cases));
                proof {
                    assert(tree_pairs(entries@) =~= type_tree(self@)->Mapping_0);
                    lemma_mapping_tree(entries);
                }
                Node::Mapping(entries)
            },
        }
    }
}

impl Repeat {
    /// The word for this repeat mode: `eos`, `expr` or `until`.
    pub fn word(&self) -> (word: &'static str)
        ensures
            word@ == repeat_text(*self),
    {
        match self {
            Repeat::EndOfStream => "eos",
            Repeat::Expression => "expr",
            Repeat::Until => "until",
        }
    }
}

impl Endian {
    /// The word for this byte order: `le` or `be`.
    pub fn word(&self) -> (word: &'static str)
        ensures
            word@ == endian_text(*self),
    {
        match self {
            Endian::Le => "le",
            Endian::Be => "be",
        }
    }
}

impl Field {
    /// The node of this field: a mapping with `id` and with a key for each
    /// attribute that is set, and for no other.
    pub fn to_node(&self) -> (node: Node)
        ensures
            node@ == field_tree(self@),
            self@.wf() ==> field_of(node@) == Ok::<_, Failure>(self@),
    {
        proof {
            if self@.wf() {
                well_formed_field_is_read_back(self@);
            }
        }
        let mut entries: Vec<(Node, Node)> = Vec::new();
        proof {
            assert(tree_pairs(entries@) =~= Seq::empty());
        }
        push_entry(&mut entries, "id", Node::Str(self.id.clone()));
        push_text(&mut entries, "size", &self.size);
        let ghost before_type = tree_pairs(entries@);
        match &self.k_type {
            Some(k_type) => {
                push_entry(&mut entries, "type", k_type.to_node());
            },
            None => {},
        }
        proof {
            assert(tree_pairs(entries@) =~= before_type + type_entry(self@.k_type));
        }
        push_text(&mut entries, "encoding", &self.encoding);
        push_text(&mut entries, "doc", &self.doc);
        push_text(&mut entries, "contents", &self.contents);
        push_text(&mut entries, "terminator", &self.terminator);
        push_text(&mut entries, "enum", &self.k_enum);
        push_text(&mut entries, "if", &self.k_if);
        let ghost before_repeat = tree_pairs(entries@);
        match &self.repeat {
            Some(mode) => {
                push_entry(&mut entries, "repeat", Node::string(mode.word()));
            },
            None => {},
        }
        proof {
            assert(tree_pairs(entries@) =~= before_repeat + repeat_entry(self@.repeat));
        }
        push_text(&mut entries, "repeat-expr", &self.repeat_expr);
        push_text(&mut entries, "repeat-until", &self.repeat_until);
        proof {
            assert(tree_pairs(entries@) =~= field_entries(self@));
            lemma_mapping_tree(entries);
        }
        Node::Mapping(entries)
    }
}

fn write_fields(fields: &Vec<Field>) -> (node: Node)
    ensures
        node@ == Tree::Sequence(field_trees(fields.deep_view())),
{
    let ghost target = field_trees(fields.deep_view());
    let mut items: Vec<Node> = Vec::new();
    let mut i: usize = 0;
    proof {
        assert(trees(items@) =~= target.take(0));
    }
    while i < fields.len()
        invariant
            i <= fields.len(),
            target == field_trees(fields.deep_view()),
            trees(items@) == target.take(i as int),
        decreases fields.len() - i,
    {
        let ghost before = trees(items@);
        let item = fields[i].to_node();
        let ghost tree = item@;
        items.push(item);
        proof {
            assert(trees(items@) =~= before.push(tree));
            assert(target.take(i + 1) =~= target.take(i as int).push(target[i as int]));
        }
        i = i + 1;
    }
    proof {
        assert(target.take(i as int) =~= target);
        lemma_sequence_tree(items);
    }
    Node::Sequence(items)
}

impl SeqValue {
    /// The node of this named type: a mapping with the field sequence
    /// under `seq`.
    pub fn to_node(&self) -> (node: Node)
        ensures
            node@ == definition_tree(self@),
    {
        let mut entries: Vec<(Node, Node)> = Vec::new();
        proof {
            assert(tree_pairs(entries@) =~= Seq::empty());
        }
        push_entry(&mut entries, "seq", write_fields(&self.seq));
        proof {
            assert(tree_pairs(entries@) =~= definition_tree(self@)->Mapping_0);
            lemma_mapping_tree(entries);
        }
        Node::Mapping(entries)
    }
}

/// The node of a list of labels by code: a mapping with the entries of the
/// list, in its order.
pub fn write_labels(labels: &Vec<(u64, String)>) -> (node: Node)
    ensures
        node@ == Tree::Mapping(label_entries(labels.deep_view())),
{
    let ghost target = label_entries(labels.deep_view());
    let mut entries: Vec<(Node, Node)> = Vec::new();
    let mut i: usize = 0;
    proof {
        assert(tree_pairs(entries@) =~= target.take(0));
    }
    while i < labels.len()
        invariant
            i <= labels.len(),
            target == label_entries(labels.deep_view()),
            tree_pairs(entries@) == target.take(i as int),
        decreases labels.len() - i,
    {
        let ghost before = tree_pairs(entries@);
        let key = Node::Int(labels[i].0 as i128);
        let label = Node::Str(labels[i].1.clone());
        let ghost pair = (key@, label@);
        entries.push((key, label));
        proof {
            assert(tree_pairs(entries@) =~= before.push(pair));
            assert(target.take(i + 1) =~= target.take(i as int).push(target[i as int]));
        }
        i = i + 1;
    }
    proof {
        assert(target.take(i as int) =~= target);
        lemma_mapping_tree(entries);
    }
    Node::Mapping(entries)
}

fn write_listed(labels: &EnumTable) -> (r: (Node, Ghost<Labels>))
    ensures
        distinct_keys(r.1@),
        map_of(r.1@) == labels.deep_view(),
        r.0@ == Tree::Mapping(label_entries(r.1@)),
{
    let list = listing(labels);
    (write_labels(&list), Ghost(list.deep_view()))
}

/// The node of an enumeration: a mapping from codes to labels, with each
/// entry of the enumeration once. The order of the entries is the order in
/// which the hash map is walked.
pub fn write_enum(labels: &EnumTable) -> (node: Node)
    ensures
        exists|list: Labels|
            distinct_keys(list) && map_of(list) == labels.deep_view() && node@ == Tree::Mapping(
                label_entries(list),
            ),
{
    let r = write_listed(labels);
    r.0
}

fn write_enums(enums: &EnumTables) -> (r: (Node, Ghost<Seq<(Seq<char>, Labels)>>))
    ensures
        label_maps(r.1@) == enums.deep_view(),
        forall|i: int| 0 <= i < r.1@.len() ==> distinct_keys((#[trigger] r.1@[i]).1),
        r.0@ == Tree::Mapping(enum_entries(r.1@)),
{
    let ghost mut listed: Seq<(Seq<char>, Labels)> = Seq::empty();
    let mut entries: Vec<(Node, Node)> = Vec::new();
    let mut i: usize = 0;
    proof {
        assert(tree_pairs(entries@) =~= enum_entries(listed));
        assert(label_maps(listed) =~= enums.deep_view().take(0));
    }
    while i < enums.len()
        invariant
            i <= enums.len(),
            listed.len() == i,
            label_maps(listed) == enums.deep_view().take(i as int),
            forall|k: int| 0 <= k < listed.len() ==> distinct_keys((#[trigger] listed[k]).1),
            tree_pairs(entries@) == enum_entries(listed),
        decreases enums.len() - i,
    {
        let ghost before = tree_pairs(entries@);
        let key = Node::Str(enums[i].0.clone());
        let written = write_listed(&enums[i].1);
        let labels = written.0;
        let ghost pair = (key@, labels@);
        let ghost longer = listed.push((enums[i as int].0@, written.1@));
        entries.push((key, labels));
        proof {
            assert(tree_pairs(entries@) =~= before.push(pair));
            assert(enum_entries(longer) =~= enum_entries(listed).push(pair));
            assert(label_maps(longer) =~= enums.deep_view().take(i + 1));
            listed = longer;
        }
        i = i + 1;
    }
    proof {
        assert(enums.deep_view().take(i as int) =~= enums.deep_view());
        lemma_mapping_tree(entries);
    }
    (Node::Mapping(entries), Ghost(listed))
}

fn write_types(types: &TypeTable) -> (node: Node)
    ensures
        node@ == Tree::Mapping(definition_entries(types.deep_view())),
{
    let ghost target = definition_entries(types.deep_view());
    let mut entries: Vec<(Node, Node)> = Vec::new();
    let mut i: usize = 0;
    proof {
        assert(tree_pairs(entries@) =~= target.take(0));
    }
    while i < types.len()
        invariant
            i <= types.len(),
            target == definition_entries(types.deep_view()),
            tree_pairs(entries@) == target.take(i as int),
        decreases types.len() - i,
    {
        let ghost before = tree_pairs(entries@);
        let key = Node::Str(types[i].0.clone());
        let definition = types[i].1.to_node();
        let ghost pair = (key@, definition@);
        entries.push((key, definition));
        proof {
            assert(tree_pairs(entries@) =~= before.push(pair));
            assert(target.take(i + 1) =~= target.take(i as int).push(target[i as int]));
        }
        i = i + 1;
    }
    proof {
        assert(target.take(i as int) =~= target);
        lemma_mapping_tree(entries);
    }
    Node::Mapping(entries)
}

impl Meta {
    /// The node of the metadata: a mapping with `id`, and with `endian`
    /// where a byte order is named.
    pub fn to_node(&self) -> (node: Node)
        ensures
            node@ == meta_tree(self@),
    {
        let mut entries: Vec<(Node, Node)> = Vec::new();
        proof {
            assert(tree_pairs(entries@) =~= Seq::empty());
        }
        push_entry(&mut entries, "id", Node::Str(self.id.clone()));
        match &self.endian {
            Some(endian) => {
                push_entry(&mut entries, "endian", Node::string(endian.word()));
            },
            None => {},
        }
        proof {
            assert(tree_pairs(entries@) =~= meta_tree(self@)->Mapping_0);
            lemma_mapping_tree(entries);
        }
        Node::Mapping(entries)
    }
}

impl KaiTai {
    /// Writes this document as a tree of the shape that
    /// [`KaiTai::from_node`] reads: `meta` and `seq`, then `enums` and
    /// `types` where the document has them. What is unset has no key.
    ///
    /// The tree is the tree of a listing of this document: the entries of
    /// an enumeration stand in the order in which its hash map is walked,
    /// everything else in its own order. A well-formed document is read
    /// back from the tree as it is.
    pub fn to_node(&self) -> (node: Node)
        ensures
            exists|schema: Schema| schema.lists(self@) && node@ == schema_tree(schema),
            self@.wf() ==> document_of(node@) == Ok::<_, Failure>(self@),
    {
        let mut entries: Vec<(Node, Node)> = Vec::new();
        proof {
            assert(tree_pairs(entries@) =~= Seq::empty());
        }
        push_entry(&mut entries, "meta", self.meta.to_node());
        push_entry(&mut entries, "seq", write_fields(&self.seq));
        let ghost before_enums = tree_pairs(entries@);
        let ghost mut listed: Option<Seq<(Seq<char>, Labels)>> = None;
        match &self.enums {
            Some(enums) => {
                let written = write_enums(enums);
                proof {
                    listed = Some(written.1@);
                }
                push_entry(&mut entries, "enums", written.0);
            },
            None => {},
        }
        let ghost schema = Schema {
            meta: self@.meta,
            seq: self@.seq,
            enums: listed,
            types: self@.types,
        };
        proof {
            assert(tree_pairs(entries@) =~= before_enums + enums_entry(schema.enums));
        }
        let ghost before_types = tree_pairs(entries@);
        match &self.types {
            Some(types) => {
                push_entry(&mut entries, "types", write_types(types));
            },
            None => {},
        }
        proof {
            assert(tree_pairs(entries@) =~= before_types + types_entry(schema.types));
            assert(tree_pairs(entries@) =~= schema_tree(schema)->Mapping_0);
            lemma_mapping_tree(entries);
            assert(schema.lists(self@));
            if self@.wf() {
                lemma_listing_wf(schema);
                well_formed_document_is_read_back(schema);
            }
        }
        Node::Mapping(entries)
    }
}

} // verus!
