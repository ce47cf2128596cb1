//! What holds of reading and writing, stated over the grammar and proved.

use vstd::prelude::*;
use crate::error::{ErrorKind, Failure, Step};
use crate::field::{FieldModel, KTypeModel, Repeat};
use crate::grammar::{
    case_results,
    code_of,
    document_of,
    enum_of,
    field_entries,
    field_of,
    field_of_entries,
    field_results,
    field_tree,
    fields_of,
    label_results,
    labels_of,
    meta_of,
    meta_of_entries,
    optional_enums,
    optional_repeat,
    optional_text,
    optional_type,
    optional_types,
    primitive_of,
    required_text,
    schema_of,
    schema_of_entries,
    schema_tree,
    sequence_of,
    type_of,
    Entries,
    Labels,
};
use crate::node::{present, scalar_text, value_at, Tree};
use crate::proofs::{
    lemma_enums_read,
    lemma_enums_round_trip,
    lemma_field_keys,
    lemma_field_value,
    lemma_fields_round_trip,
    lemma_meta_round_trip,
    lemma_repeat_words,
    lemma_schema_keys,
    lemma_schema_value,
    lemma_sequence_read,
    lemma_type_round_trip,
    lemma_types_read,
    lemma_types_round_trip,
};
use crate::schema::{lemma_listing_wf, Document, Endian, MetaModel, Schema};
use crate::table::{
    distinct_keys,
    gather,
    lemma_assoc_distinct,
    lemma_assoc_of_table,
    lemma_gather_failed,
    lemma_gather_ok,
    lemma_gather_step,
    lemma_gather_values,
    lemma_map_of_table,
};

verus! {

/// A well-formed field is read back from the tree it is written as.
pub proof fn well_formed_field_is_read_back(field: FieldModel)
    requires
        field.wf(),
    ensures
        field_of(field_tree(field)) == Ok::<_, Failure>(field),
{
    let entries = field_entries(field);
    lemma_field_keys();
    lemma_repeat_words();
    lemma_field_value(field, "id"@);
    lemma_field_value(field, "size"@);
    lemma_field_value(field, "type"@);
    lemma_field_value(field, "encoding"@);
    lemma_field_value(field, "doc"@);
    lemma_field_value(field, "contents"@);
    lemma_field_value(field, "terminator"@);
    lemma_field_value(field, "enum"@);
    lemma_field_value(field, "if"@);
    lemma_field_value(field, "repeat"@);
    lemma_field_value(field, "repeat-expr"@);
    lemma_field_value(field, "repeat-until"@);
    if field.k_type is Some {
        lemma_type_round_trip(field.k_type->Some_0);
    }
    assert(required_text(entries, "id"@) == Ok::<_, Failure>(field.id));
    assert(optional_text(entries, "size"@) == Ok::<_, Failure>(field.size));
    assert(optional_type(entries) == Ok::<_, Failure>(field.k_type));
    assert(optional_text(entries, "encoding"@) == Ok::<_, Failure>(field.encoding));
    assert(optional_text(entries, "doc"@) == Ok::<_, Failure>(field.doc));
    assert(optional_text(entries, "contents"@) == Ok::<_, Failure>(field.contents));
    assert(optional_text(entries, "terminator"@) == Ok::<_, Failure>(field.terminator));
    assert(optional_text(entries, "enum"@) == Ok::<_, Failure>(field.k_enum));
    assert(optional_text(entries, "if"@) == Ok::<_, Failure>(field.k_if));
    assert(optional_repeat(entries) == Ok::<_, Failure>(field.repeat));
    assert(optional_text(entries, "repeat-expr"@) == Ok::<_, Failure>(field.repeat_expr));
    assert(optional_text(entries, "repeat-until"@) == Ok::<_, Failure>(field.repeat_until));
}

/// A well-formed document is read back from the tree it is written as.
pub proof fn well_formed_document_is_read_back(schema: Schema)
    requires
        schema.wf(),
    ensures
        schema_of(schema_tree(schema)) == Ok::<_, Failure>(schema),
{
    let entries = schema_tree(schema)->Mapping_0;
    lemma_schema_keys();
    lemma_schema_value(schema, "meta"@);
    lemma_schema_value(schema, "seq"@);
    lemma_schema_value(schema, "enums"@);
    lemma_schema_value(schema, "types"@);
    lemma_meta_round_trip(schema.meta);
    lemma_fields_round_trip(schema.seq);
    if schema.enums is Some {
        lemma_enums_round_trip(schema.enums->Some_0);
    }
    if schema.types is Some {
        lemma_types_round_trip(schema.types->Some_0);
    }
    assert(meta_of(entries) == Ok::<_, Failure>(schema.meta));
    assert(sequence_of(entries) == Ok::<_, Failure>(schema.seq));
    assert(optional_enums(entries) == Ok::<_, Failure>(schema.enums));
    assert(optional_types(entries) == Ok::<_, Failure>(schema.types));
}

/// Every field that is read from a tree is well formed.
pub proof fn reading_gives_well_formed_field(tree: Tree)
    requires
        field_of(tree) is Ok,
    ensures
        field_of(tree)->Ok_0.wf(),
{
    let entries = tree->Mapping_0;
    let field = field_of(tree)->Ok_0;
    match field.k_type {
        Some(KTypeModel::Switch(switch)) => {
            let node = present(entries, "type"@)->Some_0;
            let inner = node->Mapping_0;
            let cases = present(inner, "cases"@)->Some_0->Mapping_0;
            lemma_assoc_distinct(gather(case_results(cases))->Ok_0);
        },
        _ => {},
    }
}

/// Every document that is read from a tree is well formed.
pub proof fn reading_gives_well_formed(tree: Tree)
    requires
        schema_of(tree) is Ok,
    ensures
        schema_of(tree)->Ok_0.wf(),
{
    let entries = tree->Mapping_0;
    lemma_sequence_read(entries);
    match present(entries, "enums"@) {
        Some(Tree::Mapping(tables)) => {
            lemma_enums_read(tables);
        },
        _ => {},
    }
    match present(entries, "types"@) {
        Some(Tree::Mapping(definitions)) => {
            lemma_types_read(definitions);
        },
        _ => {},
    }
}

/// Reading, writing and reading again gives the same: the tree that a
/// document is written as, with its enumerations listed as they were read,
/// is read as that document, for every document that was read from a tree.
pub proof fn round_trip(tree: Tree)
    requires
        schema_of(tree) is Ok,
    ensures
        schema_of(schema_tree(schema_of(tree)->Ok_0)) == schema_of(tree),
{
    reading_gives_well_formed(tree);
    well_formed_document_is_read_back(schema_of(tree)->Ok_0);
}

/// A field without a `type` key has no type: not the type with an empty
/// name.
pub proof fn untyped_field_has_no_type(entries: Entries)
    requires
        value_at(entries, "type"@) is None,
        field_of(Tree::Mapping(entries)) is Ok,
    ensures
        field_of(Tree::Mapping(entries))->Ok_0.k_type is None,
{
}

/// A `type` node that is a scalar is the name of a type, kept as it is
/// written: reading looks no name up, so a named type may name itself.
pub proof fn type_name_is_kept(name: Seq<char>)
    ensures
        type_of(Tree::Str(name)) == Ok::<_, Failure>(KTypeModel::Type(name)),
{
}

/// A `type` node that is a mapping without `switch-on`, or without
/// `cases`, fails with `AmbiguousTypeNode`, at the node itself.
pub proof fn switch_needs_both_keys(entries: Entries)
    requires
        value_at(entries, "switch-on"@) is None || value_at(entries, "cases"@) is None,
    ensures
        type_of(Tree::Mapping(entries)) == Err::<KTypeModel, _>(
            Failure::new(ErrorKind::AmbiguousTypeNode),
        ),
{
}

/// Every attribute of a field but the repeat parameters can be read.
pub open spec fn attributes_readable(entries: Entries) -> bool {
    &&& required_text(entries, "id"@) is Ok
    &&& optional_text(entries, "size"@) is Ok
    &&& optional_type(entries) is Ok
    &&& optional_text(entries, "encoding"@) is Ok
    &&& optional_text(entries, "doc"@) is Ok
    &&& optional_text(entries, "contents"@) is Ok
    &&& optional_text(entries, "terminator"@) is Ok
    &&& optional_text(entries, "enum"@) is Ok
    &&& optional_text(entries, "if"@) is Ok
    &&& optional_repeat(entries) is Ok
}

/// `repeat: expr` without `repeat-expr` fails: with `MissingRepeatExpr`
/// where nothing that is read before it fails.
pub proof fn repeat_expr_needs_its_expression(entries: Entries)
    requires
        value_at(entries, "repeat"@) == Some(Tree::Str("expr"@)),
        present(entries, "repeat-expr"@) is None,
    ensures
        field_of_entries(entries) is Err,
        attributes_readable(entries) && optional_text(entries, "repeat-until"@) is Ok
            ==> field_of_entries(entries) == Err::<FieldModel, _>(
            Failure::at_key(ErrorKind::MissingRepeatExpr, "repeat-expr"@),
        ),
{
    lemma_repeat_words();
}

/// `repeat: until` without `repeat-until` fails: with
/// `MissingRepeatUntil` where nothing that is read before it fails.
pub proof fn repeat_until_needs_its_condition(entries: Entries)
    requires
        value_at(entries, "repeat"@) == Some(Tree::Str("until"@)),
        present(entries, "repeat-until"@) is None,
    ensures
        field_of_entries(entries) is Err,
        attributes_readable(entries) && optional_text(entries, "repeat-expr"@) is Ok
            ==> field_of_entries(entries) == Err::<FieldModel, _>(
            Failure::at_key(ErrorKind::MissingRepeatUntil, "repeat-until"@),
        ),
{
    lemma_repeat_words();
}

/// `repeat: eos` needs no parameter: the field is read wherever its
/// attributes can be read, and repeats until the input ends.
pub proof fn repeat_eos_needs_nothing(entries: Entries)
    requires
        value_at(entries, "repeat"@) == Some(Tree::Str("eos"@)),
        attributes_readable(entries),
        optional_text(entries, "repeat-expr"@) is Ok,
        optional_text(entries, "repeat-until"@) is Ok,
    ensures
        field_of_entries(entries) is Ok,
        field_of_entries(entries)->Ok_0.repeat == Some(Repeat::EndOfStream),
{
    lemma_repeat_words();
}

/// A field is read without a repeat mode exactly where it has no `repeat`
/// key: the mode is never made up.
pub proof fn no_repeat_key_no_repeat_mode(entries: Entries)
    requires
        field_of_entries(entries) is Ok,
    ensures
        field_of_entries(entries)->Ok_0.repeat is None <==> value_at(entries, "repeat"@) is None,
{
}

/// The byte order of metadata that can be read: none is named where
/// `endian` is absent, and little-endian then holds; `be` is big-endian
/// and `le` little-endian; any other value fails with
/// `InvalidEndianness`.
pub proof fn endian_rules(entries: Entries)
    requires
        required_text(entries, "id"@) is Ok,
        required_text(entries, "id"@)->Ok_0.len() > 0,
    ensures
        present(entries, "endian"@) is None ==> meta_of_entries(entries) is Ok && meta_of_entries(
            entries,
        )->Ok_0.endian is None && meta_of_entries(entries)->Ok_0.endianness() == Endian::Le,
        present(entries, "endian"@) == Some(Tree::Str("be"@)) ==> meta_of_entries(entries) is Ok
            && meta_of_entries(entries)->Ok_0.endian == Some(Endian::Be),
        present(entries, "endian"@) == Some(Tree::Str("le"@)) ==> meta_of_entries(entries) is Ok
            && meta_of_entries(entries)->Ok_0.endian == Some(Endian::Le),
        present(entries, "endian"@) is Some && present(entries, "endian"@) != Some(
            Tree::Str("le"@),
        ) && present(entries, "endian"@) != Some(Tree::Str("be"@)) ==> meta_of_entries(entries)
            == Err::<MetaModel, _>(Failure::at_key(ErrorKind::InvalidEndianness, "endian"@)),
{
    reveal_strlit("le");
    reveal_strlit("be");
    assert("le"@[0] != "be"@[0]);
}

/// The pairs that the entries of an enumeration declare.
pub open spec fn declared_pairs(entries: Entries) -> Labels {
    Seq::new(
        entries.len(),
        |i: int| (code_of(entries[i].0)->Some_0, scalar_text(entries[i].1)->Some_0),
    )
}

/// An enumeration keeps every pair of code and label that is declared, as
/// it is declared: where every key is a code, every label a text and no
/// code occurs twice, the table holds exactly the declared pairs.
pub proof fn enumeration_keeps_every_pair(entries: Entries)
    requires
        forall|i: int|
            0 <= i < entries.len() ==> code_of((#[trigger] entries[i]).0) is Some
                && scalar_text(entries[i].1) is Some,
        forall|i: int, j: int|
            0 <= i < j < entries.len() ==> code_of((#[trigger] entries[i]).0)
                != code_of((#[trigger] entries[j]).0),
    ensures
        enum_of(Tree::Mapping(entries)) == Ok::<_, Failure>(declared_pairs(entries)),
{
    let pairs = declared_pairs(entries);
    let results = label_results(entries);
    assert forall|i: int| 0 <= i < pairs.len() implies results[i] == Ok::<_, Failure>(
        pairs[i],
    ) by {
        assert(code_of(entries[i].0) is Some);
    }
    lemma_gather_ok(results, pairs);
    assert(distinct_keys(pairs)) by {
        assert forall|i: int, j: int| 0 <= i < j < pairs.len() implies (#[trigger] pairs[i]).0 != (
        #[trigger] pairs[j]).0 by {
            assert(code_of(entries[i].0) != code_of(entries[j].0));
        }
    }
    lemma_assoc_of_table(pairs);
}

/// A key of an enumeration that is no integer between 0 and 2^64 - 1
/// fails with `InvalidEnumCode`, at the first such entry, where the
/// entries before it are pairs of a code and a label.
pub proof fn bad_code_is_refused(entries: Entries, at: int)
    requires
        0 <= at < entries.len(),
        code_of(entries[at].0) is None,
        forall|i: int|
            0 <= i < at ==> code_of((#[trigger] entries[i]).0) is Some
                && scalar_text(entries[i].1) is Some,
    ensures
        enum_of(Tree::Mapping(entries)) == Err::<Labels, _>(
            Failure::new(ErrorKind::InvalidEnumCode).under(Step::Index(at)),
        ),
{
    let results = label_results(entries);
    let front = results.take(at);
    let pairs = declared_pairs(entries).take(at);
    assert forall|i: int| 0 <= i < at implies front[i] == Ok::<_, Failure>(pairs[i]) by {
        assert(code_of(entries[i].0) is Some);
    }
    lemma_gather_ok(front, pairs);
    lemma_gather_step(results, at);
    lemma_gather_failed(results, at + 1);
}

/// Every item of a field sequence gives one field, in its place: fields
/// with one `id` stay apart.
pub proof fn every_field_is_kept(items: Seq<Tree>)
    requires
        fields_of(items) is Ok,
    ensures
        fields_of(items)->Ok_0.len() == items.len(),
        forall|i: int|
            0 <= i < items.len() ==> field_of(#[trigger] items[i]) == Ok::<_, Failure>(
                fields_of(items)->Ok_0[i],
            ),
{
    let fields = fields_of(items)->Ok_0;
    lemma_gather_values(field_results(items), fields);
    assert forall|i: int| 0 <= i < items.len() implies field_of(#[trigger] items[i]) == Ok::<
        _,
        Failure,
    >(fields[i]) by {
        assert(field_results(items)[i] == Ok::<_, Failure>(fields[i]));
    }
}

/// A numeral and a text are different keys of a switch, whatever they
/// hold.
pub proof fn numeral_and_text_are_different_keys(numeral: int, text: Seq<char>)
    ensures
        primitive_of(Tree::Int(numeral)) is Some,
        primitive_of(Tree::Str(text)) is Some,
        primitive_of(Tree::Int(numeral)) != primitive_of(Tree::Str(text)),
{
}

/// A key of the root that is none of `meta`, `seq`, `enums` and `types` is
/// not read: with an entry more under such a key, the entries describe what
/// they described without it.
pub proof fn other_keys_are_not_read(entries: Entries, key: Tree, value: Tree)
    requires
        key != Tree::Str("meta"@),
        key != Tree::Str("seq"@),
        key != Tree::Str("enums"@),
        key != Tree::Str("types"@),
    ensures
        schema_of_entries(entries.push((key, value))) == schema_of_entries(entries),
{
    let more = entries.push((key, value));
    assert(more.drop_last() =~= entries);
    assert(value_at(more, "meta"@) == value_at(entries, "meta"@));
    assert(value_at(more, "seq"@) == value_at(entries, "seq"@));
    assert(value_at(more, "enums"@) == value_at(entries, "enums"@));
    assert(value_at(more, "types"@) == value_at(entries, "types"@));
}

/// Every document that is read from a tree is well formed.
pub proof fn reading_gives_well_formed_document(tree: Tree)
    requires
        document_of(tree) is Ok,
    ensures
        document_of(tree)->Ok_0.wf(),
{
    reading_gives_well_formed(tree);
    lemma_listing_wf(schema_of(tree)->Ok_0);
}

/// A well-formed document is read back from the tree of any listing of
/// it: the order in which the entries of an enumeration are written does
/// not count.
pub proof fn listed_document_is_read_back(schema: Schema, document: Document)
    requires
        schema.lists(document),
        document.wf(),
    ensures
        document_of(schema_tree(schema)) == Ok::<_, Failure>(document),
{
    lemma_listing_wf(schema);
    well_formed_document_is_read_back(schema);
}

/// Reading, writing and reading again gives the same document, whatever
/// listing of the document is written.
pub proof fn round_trip_of_documents(tree: Tree, schema: Schema)
    requires
        document_of(tree) is Ok,
        schema.lists(document_of(tree)->Ok_0),
    ensures
        document_of(schema_tree(schema)) == document_of(tree),
{
    reading_gives_well_formed_document(tree);
    listed_document_is_read_back(schema, document_of(tree)->Ok_0);
}

/// An enumeration holds what is declared, and nothing else: where every
/// key is a code, every label a text and no code occurs twice, each
/// declared code has its declared label, and every code of the
/// enumeration is a declared one.
pub proof fn enumeration_holds_what_is_declared(entries: Entries)
    requires
        forall|i: int|
            0 <= i < entries.len() ==> code_of((#[trigger] entries[i]).0) is Some && scalar_text(
                entries[i].1,
            ) is Some,
        forall|i: int, j: int|
            0 <= i < j < entries.len() ==> code_of((#[trigger] entries[i]).0) != code_of(
                (#[trigger] entries[j]).0,
            ),
    ensures
        labels_of(Tree::Mapping(entries)) is Ok,
        forall|i: int|
            0 <= i < entries.len() ==> {
                let labels = labels_of(Tree::Mapping(entries))->Ok_0;
                let code = code_of((#[trigger] entries[i]).0)->Some_0;
                labels.contains_key(code) && Some(labels[code]) == scalar_text(entries[i].1)
            },
        forall|code: u64|
            labels_of(Tree::Mapping(entries))->Ok_0.contains_key(code) ==> exists|i: int|
                0 <= i < entries.len() && code_of((#[trigger] entries[i]).0) == Some(code),
{
    enumeration_keeps_every_pair(entries);
    let pairs = declared_pairs(entries);
    let labels = labels_of(Tree::Mapping(entries))->Ok_0;
    assert(distinct_keys(pairs)) by {
        assert forall|i: int, j: int| 0 <= i < j < pairs.len() implies (#[trigger] pairs[i]).0 != (
        #[trigger] pairs[j]).0 by {
            assert(code_of(entries[i].0) != code_of(entries[j].0));
        }
    }
    lemma_map_of_table(pairs);
    assert forall|i: int| 0 <= i < entries.len() implies {
        let code = code_of((#[trigger] entries[i]).0)->Some_0;
        labels.contains_key(code) && Some(labels[code]) == scalar_text(entries[i].1)
    } by {
        assert(pairs[i].0 == code_of(entries[i].0)->Some_0);
    }
    assert forall|code: u64| labels.contains_key(code) implies exists|i: int|
        0 <= i < entries.len() && code_of((#[trigger] entries[i]).0) == Some(code) by {
        let i = choose|i: int| 0 <= i < pairs.len() && (#[trigger] pairs[i]).0 == code;
        assert(code_of(entries[i].0) == Some(code));
    }
}

} // verus!
