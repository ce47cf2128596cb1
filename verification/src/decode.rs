//! Reading: from a document tree to a schema document.

use vstd::prelude::*;
use crate::error::{outcome, ErrorKind, Failure, SchemaError};
use crate::field::{Field, KType, KTypeSwitch, Primitive, Repeat, Scalar};
use crate::grammar::{
    case_results,
    cases_of,
    code_of,
    definition_of,
    definition_results,
    document_of,
    endian_of,
    enum_of,
    enum_results,
    field_of,
    field_results,
    fields_of,
    label_results,
    label_tables_of,
    labels_of,
    meta_block,
    meta_of,
    optional_endian,
    optional_label_tables,
    optional_repeat,
    optional_text,
    optional_type,
    optional_types,
    primitive_of,
    repeat_of,
    required_text,
    schema_of,
    sequence_of,
    switch_of,
    type_of,
    types_of,
    Labels,
};
use crate::labels::{insert_label, no_labels, EnumTable};
use crate::laws::{reading_gives_well_formed, reading_gives_well_formed_field};
use crate::node::{lemma_mapping_tree, lemma_sequence_tree, tree_pairs, trees, Node};
use crate::schema::{
    label_maps,
    lemma_label_maps_put,
    lemma_listing_wf,
    Endian,
    EnumTables,
    KaiTai,
    Meta,
    SeqValue,
    TypeModel,
    TypeTable,
};
use crate::table::{
    assoc,
    gather,
    insert,
    lemma_gather_failed,
    lemma_gather_step,
    lemma_map_of_assoc,
    map_of,
};

verus! {

fn read_optional_text(entries: &Vec<(Node, Node)>, key: &str) -> (r: Result<
    Option<String>,
    SchemaError,
>)
    ensures
        outcome(r) == optional_text(tree_pairs(entries@), key@),
{
    match Node::present(entries, key) {
        None => Ok(None),
        Some(node) => match node.text() {
            Some(text) => Ok(Some(text)),
            None => Err(SchemaError::at_key(ErrorKind::MalformedDocument, key)),
        },
    }
}

fn read_required_text(entries: &Vec<(Node, Node)>, key: &str) -> (r: Result<String, SchemaError>)
    ensures
        outcome(r) == required_text(tree_pairs(entries@), key@),
{
    match Node::present(entries, key) {
        None => Err(SchemaError::at_key(ErrorKind::MissingField, key)),
        Some(node) => match node.text() {
            Some(text) => Ok(text),
            None => Err(SchemaError::at_key(ErrorKind::MalformedDocument, key)),
        },
    }
}

impl Primitive {
    /// The key of a switch table that a node is: an integer or a string.
    pub fn from_node(node: &Node) -> (key: Option<Primitive>)
        ensures
            key.deep_view() == primitive_of(node@),
    {
        match node {
            Node::Int(v) => Some(Primitive::Int(*v)),
            Node::Str(s) => Some(Primitive::Str(s.clone())),
            _ => None,
        }
    }
}

fn read_cases(entries: &Vec<(Node, Node)>) -> (cases: Option<Vec<(Primitive, String)>>)
    ensures
        cases.deep_view() == cases_of(tree_pairs(entries@)),
{
    let ghost results = case_results(tree_pairs(entries@));
    let ghost mut pairs: Seq<(Scalar, Seq<char>)> = Seq::empty();
    let mut table: Vec<(Primitive, String)> = Vec::new();
    let mut i: usize = 0;
    proof {
        assert(results.take(0) =~= Seq::empty());
        assert(table.deep_view() =~= Seq::empty());
    }
    while i < entries.len()
        invariant
            i <= entries.len(),
            results == case_results(tree_pairs(entries@)),
            gather(results.take(i as int)) == Ok::<_, Failure>(pairs),
            table.deep_view() == assoc(pairs),
        decreases entries.len() - i,
    {
        proof {
            lemma_gather_step(results, i as int);
        }
        let key = Primitive::from_node(&entries[i].0);
        let name = entries[i].1.text();
        match (key, name) {
            (Some(key), Some(name)) => {
                proof {
                    let longer = pairs.push((key@, name@));
                    assert(longer.drop_last() =~= pairs);
                    pairs = longer;
                }
                insert(&mut table, key, name);
            },
            _ => {
                proof {
                    lemma_gather_failed(results, i + 1);
                }
                return None;
            },
        }
        i = i + 1;
    }
    proof {
        assert(results.take(i as int) =~= results);
    }
    Some(table)
}

impl KTypeSwitch {
    /// The switch that the entries of a mapping describe, where they do.
    pub fn from_entries(entries: &Vec<(Node, Node)>) -> (switch: Option<KTypeSwitch>)
        ensures
            switch.deep_view() == switch_of(tree_pairs(entries@)),
    {
        let on = Node::present(entries, "switch-on");
        let cases = Node::present(entries, "cases");
        match (on, cases) {
            (Some(on), Some(Node::Mapping(cases))) => {
                proof {
                    lemma_mapping_tree(*cases);
                }
                match (on.text(), read_cases(cases)) {
                    (Some(switch_on), Some(cases)) => Some(KTypeSwitch { switch_on, cases }),
                    _ => None,
                }
            },
            _ => None,
        }
    }
}

impl KType {
    /// Decides what a `type` node is: a scalar is the name of a type, a
    /// mapping with `switch-on` and `cases` is a switch, and anything else
    /// fails as a whole with `AmbiguousTypeNode`.
    pub fn from_node(node: &Node) -> (r: Result<KType, SchemaError>)
        ensures
            outcome(r) == type_of(node@),
    {
        match node.text() {
            Some(name) => Ok(KType::Type(name)),
            None => match node {
                Node::Mapping(entries) => {
                    proof {
                        lemma_mapping_tree(*entries);
                    }
                    match KTypeSwitch::from_entries(entries) {
                        Some(switch) => Ok(KType::Switch(switch)),
                        None => Err(SchemaError::new(ErrorKind::AmbiguousTypeNode)),
                    }
                },
                _ => Err(SchemaError::new(ErrorKind::AmbiguousTypeNode)),
            },
        }
    }
}

fn read_optional_type(entries: &Vec<(Node, Node)>) -> (r: Result<Option<KType>, SchemaError>)
    ensures
        outcome(r) == optional_type(tree_pairs(entries@)),
{
    match Node::present(entries, "type") {
        None => Ok(None),
        Some(node) => match KType::from_node(node) {
            Ok(k_type) => Ok(Some(k_type)),
            Err(e) => Err(e.under_key("type")),
        },
    }
}

impl Repeat {
    /// The repeat mode that a node names: `eos`, `expr` or `until`, and
    /// `eos` where the node is null.
    pub fn from_node(node: &Node) -> (mode: Option<Repeat>)
        ensures
            mode == repeat_of(node@),
    {
        match node {
            Node::Null => Some(Repeat::EndOfStream),
            _ => if node.is_string("eos") {
                Some(Repeat::EndOfStream)
            } else if node.is_string("expr") {
                Some(Repeat::Expression)
            } else if node.is_string("until") {
                Some(Repeat::Until)
            } else {
                None
            },
        }
    }
}

fn read_optional_repeat(entries: &Vec<(Node, Node)>) -> (r: Result<Option<Repeat>, SchemaError>)
    ensures
        match r {
            Ok(mode) => optional_repeat(tree_pairs(entries@)) == Ok::<_, Failure>(mode),
            Err(e) => optional_repeat(tree_pairs(entries@)) == Err::<Option<Repeat>, _>(e@),
        },
{
    match Node::value_at(entries, "repeat") {
        None => Ok(None),
        Some(node) => match Repeat::from_node(node) {
            Some(mode) => Ok(Some(mode)),
            None => Err(SchemaError::at_key(ErrorKind::MalformedDocument, "repeat")),
        },
    }
}

impl Field {
    /// Reads a field descriptor from a node.
    ///
    /// The node must be a mapping with an `id`. A key that is absent, or
    /// whose value is null, leaves its attribute unset; a field without a
    /// `type` key has no type.
    pub fn from_node(node: &Node) -> (r: Result<Field, SchemaError>)
        ensures
            outcome(r) == field_of(node@),
            r matches Ok(field) ==> field@.wf(),
    {
        proof {
            if field_of(node@) is Ok {
                reading_gives_well_formed_field(node@);
            }
        }
        let entries = match node {
            Node::Mapping(entries) => entries,
            _ => {
                return Err(SchemaError::new(ErrorKind::MalformedDocument));
            },
        };
        proof {
            lemma_mapping_tree(*entries);
        }
        let id = match read_required_text(entries, "id") {
            Ok(v) => v,
            Err(e) => {
                return Err(e);
            },
        };
        let size = match read_optional_text(entries, "size") {
            Ok(v) => v,
            Err(e) => {
                return Err(e);
            },
        };
        let k_type = match read_optional_type(entries) {
            Ok(v) => v,
            Err(e) => {
                return Err(e);
            },
        };
        let encoding = match read_optional_text(entries, "encoding") {
            Ok(v) => v,
            Err(e) => {
                return Err(e);
            },
        };
        let doc = match read_optional_text(entries, "doc") {
            Ok(v) => v,
            Err(e) => {
                return Err(e);
            },
        };
        let contents = match read_optional_text(entries, "contents") {
            Ok(v) => v,
            Err(e) => {
                return Err(e);
            },
        };
        let terminator = match read_optional_text(entries, "terminator") {
            Ok(v) => v,
            Err(e) => {
                return Err(e);
            },
        };
        let k_enum = match read_optional_text(entries, "enum") {
            Ok(v) => v,
            Err(e) => {
                return Err(e);
            },
        };
        let k_if = match read_optional_text(entries, "if") {
            Ok(v) => v,
            Err(e) => {
                return Err(e);
            },
        };
        let repeat = match read_optional_repeat(entries) {
            Ok(v) => v,
            Err(e) => {
                return Err(e);
            },
        };
        let repeat_expr = match read_optional_text(entries, "repeat-expr") {
            Ok(v) => v,
            Err(e) => {
                return Err(e);
            },
        };
        let repeat_until = match read_optional_text(entries, "repeat-until") {
            Ok(v) => v,
            Err(e) => {
                return Err(e);
            },
        };
        match repeat {
            Some(Repeat::Expression) => {
                if repeat_expr.is_none() {
                    return Err(SchemaError::at_key(ErrorKind::MissingRepeatExpr, "repeat-expr"));
                }
            },
            Some(Repeat::Until) => {
                if repeat_until.is_none() {
                    return Err(SchemaError::at_key(ErrorKind::MissingRepeatUntil, "repeat-until"));
                }
            },
            _ => {},
        }
        Ok(
            Field {
                id,
                size,
                k_type,
                encoding,
                doc,
                contents,
                terminator,
                k_enum,
                k_if,
                repeat,
                repeat_expr,
                repeat_until,
            },
        )
    }
}

fn read_fields(items: &Vec<Node>) -> (r: Result<Vec<Field>, SchemaError>)
    ensures
        outcome(r) == fields_of(trees(items@)),
{
    let ghost results = field_results(trees(items@));
    let mut fields: Vec<Field> = Vec::new();
    let mut i: usize = 0;
    proof {
        assert(results.take(0) =~= Seq::empty());
        assert(fields.deep_view() =~= Seq::empty());
    }
    while i < items.len()
        invariant
            i <= items.len(),
            results == field_results(trees(items@)),
            gather(results.take(i as int)) == Ok::<_, Failure>(fields.deep_view()),
        decreases items.len() - i,
    {
        proof {
            lemma_gather_step(results, i as int);
        }
        let ghost before = fields.deep_view();
        match Field::from_node(&items[i]) {
            Ok(field) => {
                let ghost model = field@;
                fields.push(field);
                assert(fields.deep_view() =~= before.push(model));
            },
            Err(e) => {
                proof {
                    lemma_gather_failed(results, i + 1);
                }
                return Err(e.under_index(i));
            },
        }
        i = i + 1;
    }
    proof {
        assert(results.take(i as int) =~= results);
    }
    Ok(fields)
}

fn read_sequence(entries: &Vec<(Node, Node)>) -> (r: Result<Vec<Field>, SchemaError>)
    ensures
        outcome(r) == sequence_of(tree_pairs(entries@)),
{
    match Node::present(entries, "seq") {
        None => {
            let fields: Vec<Field> = Vec::new();
            assert(fields.deep_view() =~= Seq::empty());
            Ok(fields)
        },
        Some(Node::Sequence(items)) => {
            proof {
                lemma_sequence_tree(*items);
            }
            match read_fields(items) {
                Ok(fields) => Ok(fields),
                Err(e) => Err(e.under_key("seq")),
            }
        },
        Some(_) => Err(SchemaError::at_key(ErrorKind::MalformedDocument, "seq")),
    }
}

impl SeqValue {
    /// Reads a named type from a node: a mapping with a field sequence
    /// under `seq`. Other keys of the mapping are not read.
    pub fn from_node(node: &Node) -> (r: Result<SeqValue, SchemaError>)
        ensures
            outcome(r) == definition_of(node@),
    {
        match node {
            Node::Mapping(entries) => {
                proof {
                    lemma_mapping_tree(*entries);
                }
                match read_sequence(entries) {
                    Ok(seq) => Ok(SeqValue { seq }),
                    Err(e) => Err(e),
                }
            },
            _ => Err(SchemaError::new(ErrorKind::MalformedDocument)),
        }
    }
}

/// The code that a key of an enumeration is: an integer between 0 and
/// 2^64 - 1.
pub fn enum_code(node: &Node) -> (code: Option<u64>)
    ensures
        code == code_of(node@),
{
    match node {
        Node::Int(v) => if 0 <= *v && *v <= 0xffff_ffff_ffff_ffff {
            Some(*v as u64)
        } else {
            None
        },
        _ => None,
    }
}

/// Reads an enumeration from a node: a mapping from codes to labels. A key
/// that is no code fails with `InvalidEnumCode`.
pub fn read_enum(node: &Node) -> (r: Result<EnumTable, SchemaError>)
    ensures
        outcome(r) == labels_of(node@),
{
    let entries = match node {
        Node::Mapping(entries) => entries,
        _ => {
            return Err(SchemaError::new(ErrorKind::MalformedDocument));
        },
    };
    proof {
        lemma_mapping_tree(*entries);
    }
    let ghost results = label_results(tree_pairs(entries@));
    let ghost mut pairs: Labels = Seq::empty();
    let mut table: EnumTable = no_labels();
    let mut i: usize = 0;
    proof {
        assert(results.take(0) =~= Seq::empty());
    }
    while i < entries.len()
        invariant
            i <= entries.len(),
            node@ == crate::node::Tree::Mapping(tree_pairs(entries@)),
            results == label_results(tree_pairs(entries@)),
            gather(results.take(i as int)) == Ok::<_, Failure>(pairs),
            table.deep_view() == map_of(pairs),
        decreases entries.len() - i,
    {
        proof {
            lemma_gather_step(results, i as int);
        }
        let code = match enum_code(&entries[i].0) {
            Some(code) => code,
            None => {
                proof {
                    lemma_gather_failed(results, i + 1);
                }
                return Err(SchemaError::new(ErrorKind::InvalidEnumCode).under_index(i));
            },
        };
        let label = match entries[i].1.text() {
            Some(label) => label,
            None => {
                proof {
                    lemma_gather_failed(results, i + 1);
                }
                return Err(SchemaError::new(ErrorKind::MalformedDocument).under_index(i));
            },
        };
        proof {
            let longer = pairs.push((code, label@));
            assert(longer.drop_last() =~= pairs);
            pairs = longer;
        }
        insert_label(&mut table, code, label);
        i = i + 1;
    }
    proof {
        assert(results.take(i as int) =~= results);
        lemma_map_of_assoc(pairs);
    }
    Ok(table)
}

fn read_enums(entries: &Vec<(Node, Node)>) -> (r: Result<EnumTables, SchemaError>)
    ensures
        outcome(r) == label_tables_of(tree_pairs(entries@)),
{
    let ghost results = enum_results(tree_pairs(entries@));
    let ghost mut pairs: Seq<(Seq<char>, Labels)> = Seq::empty();
    let mut table: EnumTables = Vec::new();
    let mut i: usize = 0;
    proof {
        assert(results.take(0) =~= Seq::empty());
        assert(table.deep_view() =~= label_maps(assoc(pairs)));
    }
    while i < entries.len()
        invariant
            i <= entries.len(),
            results == enum_results(tree_pairs(entries@)),
            gather(results.take(i as int)) == Ok::<_, Failure>(pairs),
            table.deep_view() == label_maps(assoc(pairs)),
        decreases entries.len() - i,
    {
        proof {
            lemma_gather_step(results, i as int);
        }
        let name = match entries[i].0.text() {
            Some(name) => name,
            None => {
                proof {
                    lemma_gather_failed(results, i + 1);
                }
                return Err(SchemaError::new(ErrorKind::MalformedDocument).under_index(i));
            },
        };
        let labels = match read_enum(&entries[i].1) {
            Ok(labels) => labels,
            Err(e) => {
                proof {
                    lemma_gather_failed(results, i + 1);
                }
                return Err(e.under_key(name.as_str()));
            },
        };
        proof {
            let listed = enum_of(entries[i as int].1@)->Ok_0;
            let longer = pairs.push((name@, listed));
            assert(longer.drop_last() =~= pairs);
            lemma_label_maps_put(assoc(pairs), name@, listed);
            pairs = longer;
        }
        insert(&mut table, name, labels);
        i = i + 1;
    }
    proof {
        assert(results.take(i as int) =~= results);
    }
    Ok(table)
}

fn read_types(entries: &Vec<(Node, Node)>) -> (r: Result<TypeTable, SchemaError>)
    ensures
        outcome(r) == types_of(tree_pairs(entries@)),
{
    let ghost results = definition_results(tree_pairs(entries@));
    let ghost mut pairs: Seq<(Seq<char>, TypeModel)> = Seq::empty();
    let mut table: TypeTable = Vec::new();
    let mut i: usize = 0;
    proof {
        assert(results.take(0) =~= Seq::empty());
        assert(table.deep_view() =~= Seq::empty());
    }
    while i < entries.len()
        invariant
            i <= entries.len(),
            results == definition_results(tree_pairs(entries@)),
            gather(results.take(i as int)) == Ok::<_, Failure>(pairs),
            table.deep_view() == assoc(pairs),
        decreases entries.len() - i,
    {
        proof {
            lemma_gather_step(results, i as int);
        }
        let name = match entries[i].0.text() {
            Some(name) => name,
            None => {
                proof {
                    lemma_gather_failed(results, i + 1);
                }
                return Err(SchemaError::new(ErrorKind::MalformedDocument).under_index(i));
            },
        };
        let definition = match SeqValue::from_node(&entries[i].1) {
            Ok(definition) => definition,
            Err(e) => {
                proof {
                    lemma_gather_failed(results, i + 1);
                }
                return Err(e.under_key(name.as_str()));
            },
        };
        proof {
            let longer = pairs.push((name@, definition@));
            assert(longer.drop_last() =~= pairs);
            pairs = longer;
        }
        insert(&mut table, name, definition);
        i = i + 1;
    }
    proof {
        assert(results.take(i as int) =~= results);
    }
    Ok(table)
}

fn read_optional_enums(entries: &Vec<(Node, Node)>) -> (r: Result<Option<EnumTables>, SchemaError>)
    ensures
        outcome(r) == optional_label_tables(tree_pairs(entries@)),
{
    match Node::present(entries, "enums") {
        None => Ok(None),
        Some(Node::Mapping(tables)) => {
            proof {
                lemma_mapping_tree(*tables);
            }
            match read_enums(tables) {
                Ok(enums) => Ok(Some(enums)),
                Err(e) => Err(e.under_key("enums")),
            }
        },
        Some(_) => Err(SchemaError::at_key(ErrorKind::MalformedDocument, "enums")),
    }
}

fn read_optional_types(entries: &Vec<(Node, Node)>) -> (r: Result<Option<TypeTable>, SchemaError>)
    ensures
        outcome(r) == optional_types(tree_pairs(entries@)),
{
    match Node::present(entries, "types") {
        None => Ok(None),
        Some(Node::Mapping(definitions)) => {
            proof {
                lemma_mapping_tree(*definitions);
            }
            match read_types(definitions) {
                Ok(types) => Ok(Some(types)),
                Err(e) => Err(e.under_key("types")),
            }
        },
        Some(_) => Err(SchemaError::at_key(ErrorKind::MalformedDocument, "types")),
    }
}

impl Endian {
    /// The byte order that a node names: `le` or `be`.
    pub fn from_node(node: &Node) -> (endian: Option<Endian>)
        ensures
            endian == endian_of(node@),
    {
        if node.is_string("le") {
            Some(Endian::Le)
        } else if node.is_string("be") {
            Some(Endian::Be)
        } else {
            None
        }
    }
}

fn read_optional_endian(entries: &Vec<(Node, Node)>) -> (r: Result<Option<Endian>, SchemaError>)
    ensures
        match r {
            Ok(endian) => optional_endian(tree_pairs(entries@)) == Ok::<_, Failure>(endian),
            Err(e) => optional_endian(tree_pairs(entries@)) == Err::<Option<Endian>, _>(e@),
        },
{
    match Node::present(entries, "endian") {
        None => Ok(None),
        Some(node) => match Endian::from_node(node) {
            Some(endian) => Ok(Some(endian)),
            None => Err(SchemaError::at_key(ErrorKind::InvalidEndianness, "endian")),
        },
    }
}

impl Meta {
    /// Reads the metadata from a node: a mapping with an `id` that is not
    /// empty, and with `endian` where the document names a byte order.
    pub fn from_node(node: &Node) -> (r: Result<Meta, SchemaError>)
        ensures
            outcome(r) == meta_block(node@),
    {
        let entries = match node {
            Node::Mapping(entries) => entries,
            _ => {
                return Err(SchemaError::new(ErrorKind::MalformedDocument));
            },
        };
        proof {
            lemma_mapping_tree(*entries);
        }
        let id = match read_required_text(entries, "id") {
            Ok(id) => id,
            Err(e) => {
                return Err(e);
            },
        };
        if id.as_str().is_empty() {
            return Err(SchemaError::at_key(ErrorKind::MissingField, "id"));
        }
        match read_optional_endian(entries) {
            Ok(endian) => Ok(Meta { id, endian }),
            Err(e) => Err(e),
        }
    }
}

fn read_meta(entries: &Vec<(Node, Node)>) -> (r: Result<Meta, SchemaError>)
    ensures
        outcome(r) == meta_of(tree_pairs(entries@)),
{
    match Node::present(entries, "meta") {
        None => Err(SchemaError::at_key(ErrorKind::MissingField, "meta")),
        Some(node) => match Meta::from_node(node) {
            Ok(meta) => Ok(meta),
            Err(e) => Err(e.under_key("meta")),
        },
    }
}

impl KaiTai {
    /// Reads a schema document from a tree.
    ///
    /// The result is the document that the grammar gives to the tree, with
    /// every enumeration as a map, or
    /// the failure that the grammar gives: its kind, and the path from the
    /// root to the place of the fault. No part of a document is returned
    /// where any part fails, and a document that is returned is well
    /// formed.
    pub fn from_node(node: &Node) -> (r: Result<KaiTai, SchemaError>)
        ensures
            outcome(r) == document_of(node@),
            r matches Ok(document) ==> document@.wf(),
    {
        proof {
            if schema_of(node@) is Ok {
                reading_gives_well_formed(node@);
                lemma_listing_wf(schema_of(node@)->Ok_0);
            }
        }
        let entries = match node {
            Node::Mapping(entries) => entries,
            _ => {
                return Err(SchemaError::new(ErrorKind::MalformedDocument));
            },
        };
        proof {
            lemma_mapping_tree(*entries);
        }
        let meta = match read_meta(entries) {
            Ok(v) => v,
            Err(e) => {
                return Err(e);
            },
        };
        let seq = match read_sequence(entries) {
            Ok(v) => v,
            Err(e) => {
                return Err(e);
            },
        };
        let enums = match read_optional_enums(entries) {
            Ok(v) => v,
            Err(e) => {
                return Err(e);
            },
        };
        let types = match read_optional_types(entries) {
            Ok(v) => v,
            Err(e) => {
                return Err(e);
            },
        };
        Ok(KaiTai { meta, seq, enums, types })
    }
}

} // verus!
