//! The grammar of schema documents: which trees are documents, which
//! document a tree is, and which tree a document is written as.
//!
//! Everything here is ghost code. The functions that read and write are
//! proved to compute what this module says.

use vstd::prelude::*;
use crate::error::{under, ErrorKind, Failure, Step};
use crate::field::{FieldModel, KTypeModel, Repeat, Scalar, SwitchModel};
use crate::labels::LabelMap;
use crate::node::{present, scalar_text, value_at, Tree};
use crate::schema::{label_maps, Document, Endian, MetaModel, Schema, TypeModel};
use crate::table::{assoc, gather, map_of};

verus! {

/// The entries of a mapping, as the trees they are.
pub type Entries = Seq<(Tree, Tree)>;

/// A table of labels by code.
pub type Labels = Seq<(u64, Seq<char>)>;

// Reading

/// The text under a key that may be absent. A value without a text is
/// malformed.
pub open spec fn optional_text(entries: Entries, key: Seq<char>) -> Result<
    Option<Seq<char>>,
    Failure,
> {
    match present(entries, key) {
        None => Ok(None),
        Some(tree) => match scalar_text(tree) {
            Some(text) => Ok(Some(text)),
            None => Err(Failure::at_key(ErrorKind::MalformedDocument, key)),
        },
    }
}

/// The text under a key that must be there.
pub open spec fn required_text(entries: Entries, key: Seq<char>) -> Result<Seq<char>, Failure> {
    match present(entries, key) {
        None => Err(Failure::at_key(ErrorKind::MissingField, key)),
        Some(tree) => match scalar_text(tree) {
            Some(text) => Ok(text),
            None => Err(Failure::at_key(ErrorKind::MalformedDocument, key)),
        },
    }
}

/// The key of a switch table that a tree is: an integer or a string.
pub open spec fn primitive_of(tree: Tree) -> Option<Scalar> {
    match tree {
        Tree::Int(v) => Some(Scalar::Int(v)),
        Tree::Str(s) => Some(Scalar::Str(s)),
        _ => None,
    }
}

/// One case of a switch: a key and the name of a type.
pub open spec fn case_of(entry: (Tree, Tree)) -> Result<(Scalar, Seq<char>), Failure> {
    match (primitive_of(entry.0), scalar_text(entry.1)) {
        (Some(key), Some(name)) => Ok((key, name)),
        _ => Err(Failure::new(ErrorKind::AmbiguousTypeNode)),
    }
}

/// The cases of a switch as results, entry by entry.
pub open spec fn case_results(entries: Entries) -> Seq<Result<(Scalar, Seq<char>), Failure>> {
    Seq::new(entries.len(), |i: int| case_of(entries[i]))
}

/// The table of cases, where every entry is a case.
pub open spec fn cases_of(entries: Entries) -> Option<Seq<(Scalar, Seq<char>)>> {
    match gather(case_results(entries)) {
        Ok(pairs) => Some(assoc(pairs)),
        Err(_) => None,
    }
}

/// The switch that a mapping is, where it has a `switch-on` with a text and
/// `cases` that are a mapping of cases.
pub open spec fn switch_of(entries: Entries) -> Option<SwitchModel> {
    match (present(entries, "switch-on"@), present(entries, "cases"@)) {
        (Some(on), Some(Tree::Mapping(cases))) => match (scalar_text(on), cases_of(cases)) {
            (Some(switch_on), Some(cases)) => Some(SwitchModel { switch_on, cases }),
            _ => None,
        },
        _ => None,
    }
}

/// The type that a `type` node is: a scalar is the name of a type, as it is
/// written; a mapping must be a switch; anything else is ambiguous.
pub open spec fn type_of(tree: Tree) -> Result<KTypeModel, Failure> {
    match scalar_text(tree) {
        Some(name) => Ok(KTypeModel::Type(name)),
        None => match tree {
            Tree::Mapping(entries) => match switch_of(entries) {
                Some(switch) => Ok(KTypeModel::Switch(switch)),
                None => Err(Failure::new(ErrorKind::AmbiguousTypeNode)),
            },
            _ => Err(Failure::new(ErrorKind::AmbiguousTypeNode)),
        },
    }
}

/// The type of a field: none where there is no `type` key.
pub open spec fn optional_type(entries: Entries) -> Result<Option<KTypeModel>, Failure> {
    match present(entries, "type"@) {
        None => Ok(None),
        Some(tree) => match type_of(tree) {
            Ok(k_type) => Ok(Some(k_type)),
            Err(e) => Err(e.under(Step::Key("type"@))),
        },
    }
}

/// The repeat mode that a tree names. A `repeat` key without a value means
/// `eos`.
pub open spec fn repeat_of(tree: Tree) -> Option<Repeat> {
    if tree == Tree::Null || tree == Tree::Str("eos"@) {
        Some(Repeat::EndOfStream)
    } else if tree == Tree::Str("expr"@) {
        Some(Repeat::Expression)
    } else if tree == Tree::Str("until"@) {
        Some(Repeat::Until)
    } else {
        None
    }
}

/// The repeat mode of a field: none where there is no `repeat` key.
pub open spec fn optional_repeat(entries: Entries) -> Result<Option<Repeat>, Failure> {
    match value_at(entries, "repeat"@) {
        None => Ok(None),
        Some(tree) => match repeat_of(tree) {
            Some(mode) => Ok(Some(mode)),
            None => Err(Failure::at_key(ErrorKind::MalformedDocument, "repeat"@)),
        },
    }
}

/// The field that the entries of a mapping describe. The keys are read in
/// the order `id`, `size`, `type`, `encoding`, `doc`, `contents`,
/// `terminator`, `enum`, `if`, `repeat`, `repeat-expr`, `repeat-until`, and
/// the first that fails decides the failure; then the repeat mode must have
/// its parameter.
pub open spec fn field_of_entries(entries: Entries) -> Result<FieldModel, Failure> {
    let id = required_text(entries, "id"@);
    let size = optional_text(entries, "size"@);
    let k_type = optional_type(entries);
    let encoding = optional_text(entries, "encoding"@);
    let doc = optional_text(entries, "doc"@);
    let contents = optional_text(entries, "contents"@);
    let terminator = optional_text(entries, "terminator"@);
    let k_enum = optional_text(entries, "enum"@);
    let k_if = optional_text(entries, "if"@);
    let repeat = optional_repeat(entries);
    let repeat_expr = optional_text(entries, "repeat-expr"@);
    let repeat_until = optional_text(entries, "repeat-until"@);
    if id is Err {
        Err(id->Err_0)
    } else if size is Err {
        Err(size->Err_0)
    } else if k_type is Err {
        Err(k_type->Err_0)
    } else if encoding is Err {
        Err(encoding->Err_0)
    } else if doc is Err {
        Err(doc->Err_0)
    } else if contents is Err {
        Err(contents->Err_0)
    } else if terminator is Err {
        Err(terminator->Err_0)
    } else if k_enum is Err {
        Err(k_enum->Err_0)
    } else if k_if is Err {
        Err(k_if->Err_0)
    } else if repeat is Err {
        Err(repeat->Err_0)
    } else if repeat_expr is Err {
        Err(repeat_expr->Err_0)
    } else if repeat_until is Err {
        Err(repeat_until->Err_0)
    } else if repeat->Ok_0 == Some(Repeat::Expression) && repeat_expr->Ok_0 is None {
        Err(Failure::at_key(ErrorKind::MissingRepeatExpr, "repeat-expr"@))
    } else if repeat->Ok_0 == Some(Repeat::Until) && repeat_until->Ok_0 is None {
        Err(Failure::at_key(ErrorKind::MissingRepeatUntil, "repeat-until"@))
    } else {
        Ok(
            FieldModel {
                id: id->Ok_0,
                size: size->Ok_0,
                k_type: k_type->Ok_0,
                encoding: encoding->Ok_0,
                doc: doc->Ok_0,
                contents: contents->Ok_0,
                terminator: terminator->Ok_0,
                k_enum: k_enum->Ok_0,
                k_if: k_if->Ok_0,
                repeat: repeat->Ok_0,
                repeat_expr: repeat_expr->Ok_0,
                repeat_until: repeat_until->Ok_0,
            },
        )
    }
}

/// The field that a tree describes: the tree must be a mapping.
pub open spec fn field_of(tree: Tree) -> Result<FieldModel, Failure> {
    match tree {
        Tree::Mapping(entries) => field_of_entries(entries),
        _ => Err(Failure::new(ErrorKind::MalformedDocument)),
    }
}

/// The fields of a list as results, each seen from the list.
pub open spec fn field_results(items: Seq<Tree>) -> Seq<Result<FieldModel, Failure>> {
    Seq::new(items.len(), |i: int| under(field_of(items[i]), Step::Index(i)))
}

/// The fields that the items of a list describe, in their order.
pub open spec fn fields_of(items: Seq<Tree>) -> Result<Seq<FieldModel>, Failure> {
    gather(field_results(items))
}

/// The field sequence under `seq`: empty where the key is absent.
pub open spec fn sequence_of(entries: Entries) -> Result<Seq<FieldModel>, Failure> {
    match present(entries, "seq"@) {
        None => Ok(Seq::empty()),
        Some(Tree::Sequence(items)) => under(fields_of(items), Step::Key("seq"@)),
        Some(_) => Err(Failure::at_key(ErrorKind::MalformedDocument, "seq"@)),
    }
}

/// The named type that a tree defines: a mapping with a field sequence.
/// Other keys of the mapping are not read.
pub open spec fn definition_of(tree: Tree) -> Result<TypeModel, Failure> {
    match tree {
        Tree::Mapping(entries) => match sequence_of(entries) {
            Ok(seq) => Ok(TypeModel { seq }),
            Err(e) => Err(e),
        },
        _ => Err(Failure::new(ErrorKind::MalformedDocument)),
    }
}

/// The code that a key of an enumeration is: an integer between 0 and
/// 2^64 - 1.
pub open spec fn code_of(tree: Tree) -> Option<u64> {
    match tree {
        Tree::Int(v) => if 0 <= v <= u64::MAX {
            Some(v as u64)
        } else {
            None
        },
        _ => None,
    }
}

/// The entry of an enumeration at a position: a code and its label.
pub open spec fn label_at(entry: (Tree, Tree), i: int) -> Result<(u64, Seq<char>), Failure> {
    match code_of(entry.0) {
        None => Err(Failure::new(ErrorKind::InvalidEnumCode).under(Step::Index(i))),
        Some(code) => match scalar_text(entry.1) {
            None => Err(Failure::new(ErrorKind::MalformedDocument).under(Step::Index(i))),
            Some(label) => Ok((code, label)),
        },
    }
}

/// The entries of an enumeration as results.
pub open spec fn label_results(entries: Entries) -> Seq<Result<(u64, Seq<char>), Failure>> {
    Seq::new(entries.len(), |i: int| label_at(entries[i], i))
}

/// The enumeration that a tree defines: a mapping from codes to labels. Of
/// two entries with one code the later label stays.
pub open spec fn enum_of(tree: Tree) -> Result<Labels, Failure> {
    match tree {
        Tree::Mapping(entries) => match gather(label_results(entries)) {
            Ok(pairs) => Ok(assoc(pairs)),
            Err(e) => Err(e),
        },
        _ => Err(Failure::new(ErrorKind::MalformedDocument)),
    }
}

/// An entry of a table by name, at a position, with what its value was read
/// as: the name must have a text, and a failure in the value is seen from
/// the table under the name.
pub open spec fn named_at<T>(entry: (Tree, Tree), i: int, value: Result<T, Failure>) -> Result<
    (Seq<char>, T),
    Failure,
> {
    match scalar_text(entry.0) {
        None => Err(Failure::new(ErrorKind::MalformedDocument).under(Step::Index(i))),
        Some(name) => match value {
            Ok(v) => Ok((name, v)),
            Err(e) => Err(e.under(Step::Key(name))),
        },
    }
}

/// The enumerations of a mapping as results.
pub open spec fn enum_results(entries: Entries) -> Seq<Result<(Seq<char>, Labels), Failure>> {
    Seq::new(entries.len(), |i: int| named_at(entries[i], i, enum_of(entries[i].1)))
}

/// The enumerations that the entries of a mapping define, by name.
pub open spec fn enums_of(entries: Entries) -> Result<Seq<(Seq<char>, Labels)>, Failure> {
    match gather(enum_results(entries)) {
        Ok(pairs) => Ok(assoc(pairs)),
        Err(e) => Err(e),
    }
}

/// The named types of a mapping as results.
pub open spec fn definition_results(entries: Entries) -> Seq<
    Result<(Seq<char>, TypeModel), Failure>,
> {
    Seq::new(entries.len(), |i: int| named_at(entries[i], i, definition_of(entries[i].1)))
}

/// The named types that the entries of a mapping define, by name.
pub open spec fn types_of(entries: Entries) -> Result<Seq<(Seq<char>, TypeModel)>, Failure> {
    match gather(definition_results(entries)) {
        Ok(pairs) => Ok(assoc(pairs)),
        Err(e) => Err(e),
    }
}

/// The enumerations of a document: none where there is no `enums` key.
pub open spec fn optional_enums(entries: Entries) -> Result<
    Option<Seq<(Seq<char>, Labels)>>,
    Failure,
> {
    match present(entries, "enums"@) {
        None => Ok(None),
        Some(Tree::Mapping(tables)) => match enums_of(tables) {
            Ok(enums) => Ok(Some(enums)),
            Err(e) => Err(e.under(Step::Key("enums"@))),
        },
        Some(_) => Err(Failure::at_key(ErrorKind::MalformedDocument, "enums"@)),
    }
}

/// The named types of a document: none where there is no `types` key.
pub open spec fn optional_types(entries: Entries) -> Result<
    Option<Seq<(Seq<char>, TypeModel)>>,
    Failure,
> {
    match present(entries, "types"@) {
        None => Ok(None),
        Some(Tree::Mapping(definitions)) => match types_of(definitions) {
            Ok(types) => Ok(Some(types)),
            Err(e) => Err(e.under(Step::Key("types"@))),
        },
        Some(_) => Err(Failure::at_key(ErrorKind::MalformedDocument, "types"@)),
    }
}

/// The byte order that a tree names.
pub open spec fn endian_of(tree: Tree) -> Option<Endian> {
    if tree == Tree::Str("le"@) {
        Some(Endian::Le)
    } else if tree == Tree::Str("be"@) {
        Some(Endian::Be)
    } else {
        None
    }
}

/// The byte order of a document: none where there is no `endian` key.
pub open spec fn optional_endian(entries: Entries) -> Result<Option<Endian>, Failure> {
    match present(entries, "endian"@) {
        None => Ok(None),
        Some(tree) => match endian_of(tree) {
            Some(endian) => Ok(Some(endian)),
            None => Err(Failure::at_key(ErrorKind::InvalidEndianness, "endian"@)),
        },
    }
}

/// The metadata that the entries of the `meta` mapping give: an `id` that
/// is not empty, and the byte order.
pub open spec fn meta_of_entries(entries: Entries) -> Result<MetaModel, Failure> {
    match required_text(entries, "id"@) {
        Err(e) => Err(e),
        Ok(id) => if id.len() == 0 {
            Err(Failure::at_key(ErrorKind::MissingField, "id"@))
        } else {
            match optional_endian(entries) {
                Err(e) => Err(e),
                Ok(endian) => Ok(MetaModel { id, endian }),
            }
        },
    }
}

/// The metadata that a tree describes: the tree must be a mapping.
pub open spec fn meta_block(tree: Tree) -> Result<MetaModel, Failure> {
    match tree {
        Tree::Mapping(entries) => meta_of_entries(entries),
        _ => Err(Failure::new(ErrorKind::MalformedDocument)),
    }
}

/// The metadata of a document: `meta` must be there.
pub open spec fn meta_of(entries: Entries) -> Result<MetaModel, Failure> {
    match present(entries, "meta"@) {
        None => Err(Failure::at_key(ErrorKind::MissingField, "meta"@)),
        Some(tree) => under(meta_block(tree), Step::Key("meta"@)),
    }
}

/// The document that the entries of the root mapping describe: `meta`,
/// `seq`, `enums` and `types` are read in this order, and the first that
/// fails decides the failure. Other keys are not read.
pub open spec fn schema_of_entries(entries: Entries) -> Result<Schema, Failure> {
    match meta_of(entries) {
        Err(e) => Err(e),
        Ok(meta) => match sequence_of(entries) {
            Err(e) => Err(e),
            Ok(seq) => match optional_enums(entries) {
                Err(e) => Err(e),
                Ok(enums) => match optional_types(entries) {
                    Err(e) => Err(e),
                    Ok(types) => Ok(Schema { meta, seq, enums, types }),
                },
            },
        },
    }
}

/// The document that a tree describes: the tree must be a mapping.
pub open spec fn schema_of(tree: Tree) -> Result<Schema, Failure> {
    match tree {
        Tree::Mapping(entries) => schema_of_entries(entries),
        _ => Err(Failure::new(ErrorKind::MalformedDocument)),
    }
}

/// The enumeration that a tree defines, as a map from codes to labels.
pub open spec fn labels_of(tree: Tree) -> Result<LabelMap, Failure> {
    match enum_of(tree) {
        Ok(labels) => Ok(map_of(labels)),
        Err(e) => Err(e),
    }
}

/// The enumerations that the entries of a mapping define, each as a map.
pub open spec fn label_tables_of(entries: Entries) -> Result<Seq<(Seq<char>, LabelMap)>, Failure> {
    match enums_of(entries) {
        Ok(enums) => Ok(label_maps(enums)),
        Err(e) => Err(e),
    }
}

/// The enumerations of a document, each as a map: none where there is no
/// `enums` key.
pub open spec fn optional_label_tables(entries: Entries) -> Result<
    Option<Seq<(Seq<char>, LabelMap)>>,
    Failure,
> {
    match optional_enums(entries) {
        Ok(Some(enums)) => Ok(Some(label_maps(enums))),
        Ok(None) => Ok(None),
        Err(e) => Err(e),
    }
}

/// The document that a tree describes, with every enumeration as a map:
/// the order of the entries of an enumeration does not count.
pub open spec fn document_of(tree: Tree) -> Result<Document, Failure> {
    match schema_of(tree) {
        Ok(schema) => Ok(schema.document()),
        Err(e) => Err(e),
    }
}

// Writing

/// The entry for a text under a key: none where there is no text.
pub open spec fn text_entry(key: Seq<char>, value: Option<Seq<char>>) -> Entries {
    match value {
        Some(text) => seq![(Tree::Str(key), Tree::Str(text))],
        None => Seq::empty(),
    }
}

/// The tree of a key of a switch table.
pub open spec fn primitive_tree(key: Scalar) -> Tree {
    match key {
        Scalar::Int(v) => Tree::Int(v),
        Scalar::Str(s) => Tree::Str(s),
    }
}

/// The entries of a table of cases.
pub open spec fn cases_entries(cases: Seq<(Scalar, Seq<char>)>) -> Entries {
    Seq::new(cases.len(), |i: int| (primitive_tree(cases[i].0), Tree::Str(cases[i].1)))
}

/// The tree of a type: a name as a string, a switch as a mapping with
/// `switch-on` and `cases`.
pub open spec fn type_tree(k_type: KTypeModel) -> Tree {
    match k_type {
        KTypeModel::Type(name) => Tree::Str(name),
        KTypeModel::Switch(switch) => Tree::Mapping(
            seq![
                (Tree::Str("switch-on"@), Tree::Str(switch.switch_on)),
                (Tree::Str("cases"@), Tree::Mapping(cases_entries(switch.cases))),
            ],
        ),
    }
}

/// The entry for the type of a field.
pub open spec fn type_entry(k_type: Option<KTypeModel>) -> Entries {
    match k_type {
        Some(k_type) => seq![(Tree::Str("type"@), type_tree(k_type))],
        None => Seq::empty(),
    }
}

/// The word for a repeat mode.
pub open spec fn repeat_text(mode: Repeat) -> Seq<char> {
    match mode {
        Repeat::EndOfStream => "eos"@,
        Repeat::Expression => "expr"@,
        Repeat::Until => "until"@,
    }
}

/// The entry for the repeat mode of a field.
pub open spec fn repeat_entry(mode: Option<Repeat>) -> Entries {
    match mode {
        Some(mode) => seq![(Tree::Str("repeat"@), Tree::Str(repeat_text(mode)))],
        None => Seq::empty(),
    }
}

/// The entries of a field: `id`, then what the field has, in the order in
/// which the keys are read.
pub open spec fn field_entries(field: FieldModel) -> Entries {
    seq![(Tree::Str("id"@), Tree::Str(field.id))] + text_entry("size"@, field.size) + type_entry(
        field.k_type,
    ) + text_entry("encoding"@, field.encoding) + text_entry("doc"@, field.doc) + text_entry(
        "contents"@,
        field.contents,
    ) + text_entry("terminator"@, field.terminator) + text_entry("enum"@, field.k_enum)
        + text_entry("if"@, field.k_if) + repeat_entry(field.repeat) + text_entry(
        "repeat-expr"@,
        field.repeat_expr,
    ) + text_entry("repeat-until"@, field.repeat_until)
}

/// The tree of a field.
pub open spec fn field_tree(field: FieldModel) -> Tree {
    Tree::Mapping(field_entries(field))
}

/// The trees of the fields of a sequence.
pub open spec fn field_trees(fields: Seq<FieldModel>) -> Seq<Tree> {
    Seq::new(fields.len(), |i: int| field_tree(fields[i]))
}

/// The tree of a named type.
pub open spec fn definition_tree(definition: TypeModel) -> Tree {
    Tree::Mapping(seq![(Tree::Str("seq"@), Tree::Sequence(field_trees(definition.seq)))])
}

/// The entries of an enumeration.
pub open spec fn label_entries(labels: Labels) -> Entries {
    Seq::new(labels.len(), |i: int| (Tree::Int(labels[i].0 as int), Tree::Str(labels[i].1)))
}

/// The entries of the enumerations of a document.
pub open spec fn enum_entries(enums: Seq<(Seq<char>, Labels)>) -> Entries {
    Seq::new(
        enums.len(),
        |i: int| (Tree::Str(enums[i].0), Tree::Mapping(label_entries(enums[i].1))),
    )
}

/// The entries of the named types of a document.
pub open spec fn definition_entries(types: Seq<(Seq<char>, TypeModel)>) -> Entries {
    Seq::new(types.len(), |i: int| (Tree::Str(types[i].0), definition_tree(types[i].1)))
}

/// The entry for the enumerations of a document.
pub open spec fn enums_entry(enums: Option<Seq<(Seq<char>, Labels)>>) -> Entries {
    match enums {
        Some(enums) => seq![(Tree::Str("enums"@), Tree::Mapping(enum_entries(enums)))],
        None => Seq::empty(),
    }
}

/// The entry for the named types of a document.
pub open spec fn types_entry(types: Option<Seq<(Seq<char>, TypeModel)>>) -> Entries {
    match types {
        Some(types) => seq![(Tree::Str("types"@), Tree::Mapping(definition_entries(types)))],
        None => Seq::empty(),
    }
}

/// The word for a byte order.
pub open spec fn endian_text(endian: Endian) -> Seq<char> {
    match endian {
        Endian::Le => "le"@,
        Endian::Be => "be"@,
    }
}

/// The entry for the byte order of a document.
pub open spec fn endian_entry(endian: Option<Endian>) -> Entries {
    match endian {
        Some(endian) => seq![(Tree::Str("endian"@), Tree::Str(endian_text(endian)))],
        None => Seq::empty(),
    }
}

/// The tree of the metadata.
pub open spec fn meta_tree(meta: MetaModel) -> Tree {
    Tree::Mapping(seq![(Tree::Str("id"@), Tree::Str(meta.id))] + endian_entry(meta.endian))
}

/// The tree of a document: `meta` and `seq`, then `enums` and `types` where
/// the document has them.
pub open spec fn schema_tree(schema: Schema) -> Tree {
    Tree::Mapping(
        seq![
            (Tree::Str("meta"@), meta_tree(schema.meta)),
            (Tree::Str("seq"@), Tree::Sequence(field_trees(schema.seq))),
        ] + enums_entry(schema.enums) + types_entry(schema.types),
    )
}

} // verus!
