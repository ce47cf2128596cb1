//! The lemmas behind the laws of reading and writing.

use vstd::prelude::*;
use crate::error::Failure;
use crate::field::{fields_wf, FieldModel, KTypeModel, Repeat, Scalar};
use crate::grammar::{
    case_results,
    cases_entries,
    cases_of,
    code_of,
    definition_entries,
    definition_of,
    definition_results,
    definition_tree,
    endian_entry,
    endian_text,
    enum_entries,
    enum_of,
    enum_results,
    enums_entry,
    enums_of,
    field_entries,
    field_results,
    field_trees,
    fields_of,
    label_entries,
    label_results,
    meta_of_entries,
    meta_tree,
    optional_endian,
    primitive_of,
    primitive_tree,
    repeat_entry,
    repeat_text,
    required_text,
    schema_tree,
    sequence_of,
    text_entry,
    type_entry,
    type_of,
    type_tree,
    types_entry,
    types_of,
    Entries,
    Labels,
};
use crate::laws::{reading_gives_well_formed_field, well_formed_field_is_read_back};
use crate::node::{present, value_at, Tree};
use crate::schema::{Endian, MetaModel, Schema, TypeModel};
use crate::table::{
    distinct_keys,
    gather,
    lemma_assoc_distinct,
    lemma_assoc_members,
    lemma_assoc_of_table,
    lemma_gather_ok,
    lemma_gather_values,
};

verus! {

/// The entry that a key has where it has a value.
pub open spec fn slot(key: Seq<char>, value: Option<Tree>) -> Entries {
    match value {
        Some(tree) => seq![(Tree::Str(key), tree)],
        None => Seq::empty(),
    }
}

/// What a key finds in a slot, or else what it found before.
pub open spec fn found(
    slot_key: Seq<char>,
    value: Option<Tree>,
    key: Seq<char>,
    before: Option<Tree>,
) -> Option<Tree> {
    if slot_key == key && value is Some {
        value
    } else {
        before
    }
}

/// A key finds in entries followed by a slot what it finds in the slot, or
/// else in the entries.
pub proof fn lemma_value_after_slot(
    entries: Entries,
    slot_key: Seq<char>,
    value: Option<Tree>,
    key: Seq<char>,
)
    ensures
        value_at(entries + slot(slot_key, value), key) == found(
            slot_key,
            value,
            key,
            value_at(entries, key),
        ),
{
    match value {
        Some(tree) => {
            let all = entries + slot(slot_key, value);
            assert(all.drop_last() =~= entries);
            assert(all.last() == (Tree::Str(slot_key), tree));
        },
        None => {
            assert(entries + slot(slot_key, value) =~= entries);
        },
    }
}

/// The tree that a text is written as.
pub open spec fn text_tree(value: Option<Seq<char>>) -> Option<Tree> {
    match value {
        Some(text) => Some(Tree::Str(text)),
        None => None,
    }
}

/// The tree that a type is written as.
pub open spec fn written_type(k_type: Option<KTypeModel>) -> Option<Tree> {
    match k_type {
        Some(k_type) => Some(type_tree(k_type)),
        None => None,
    }
}

/// The tree that a repeat mode is written as.
pub open spec fn written_repeat(mode: Option<Repeat>) -> Option<Tree> {
    match mode {
        Some(mode) => Some(Tree::Str(repeat_text(mode))),
        None => None,
    }
}

/// What a key finds in the entries that a field is written as: the value
/// of the last entry with this key.
pub open spec fn field_value(field: FieldModel, key: Seq<char>) -> Option<Tree> {
    let v0 = found("id"@, Some(Tree::Str(field.id)), key, None);
    let v1 = found("size"@, text_tree(field.size), key, v0);
    let v2 = found("type"@, written_type(field.k_type), key, v1);
    let v3 = found("encoding"@, text_tree(field.encoding), key, v2);
    let v4 = found("doc"@, text_tree(field.doc), key, v3);
    let v5 = found("contents"@, text_tree(field.contents), key, v4);
    let v6 = found("terminator"@, text_tree(field.terminator), key, v5);
    let v7 = found("enum"@, text_tree(field.k_enum), key, v6);
    let v8 = found("if"@, text_tree(field.k_if), key, v7);
    let v9 = found("repeat"@, written_repeat(field.repeat), key, v8);
    let v10 = found("repeat-expr"@, text_tree(field.repeat_expr), key, v9);
    found("repeat-until"@, text_tree(field.repeat_until), key, v10)
}

/// A key finds in a written field what `field_value` says.
pub proof fn lemma_field_value(field: FieldModel, key: Seq<char>)
    ensures
        value_at(field_entries(field), key) == field_value(field, key),
{
    let e0 = Seq::<(Tree, Tree)>::empty() + slot("id"@, Some(Tree::Str(field.id)));
    let e1 = e0 + slot("size"@, text_tree(field.size));
    let e2 = e1 + slot("type"@, written_type(field.k_type));
    let e3 = e2 + slot("encoding"@, text_tree(field.encoding));
    let e4 = e3 + slot("doc"@, text_tree(field.doc));
    let e5 = e4 + slot("contents"@, text_tree(field.contents));
    let e6 = e5 + slot("terminator"@, text_tree(field.terminator));
    let e7 = e6 + slot("enum"@, text_tree(field.k_enum));
    let e8 = e7 + slot("if"@, text_tree(field.k_if));
    let e9 = e8 + slot("repeat"@, written_repeat(field.repeat));
    let e10 = e9 + slot("repeat-expr"@, text_tree(field.repeat_expr));
    let e11 = e10 + slot("repeat-until"@, text_tree(field.repeat_until));
    lemma_value_after_slot(Seq::empty(), "id"@, Some(Tree::Str(field.id)), key);
    lemma_value_after_slot(e0, "size"@, text_tree(field.size), key);
    lemma_value_after_slot(e1, "type"@, written_type(field.k_type), key);
    lemma_value_after_slot(e2, "encoding"@, text_tree(field.encoding), key);
    lemma_value_after_slot(e3, "doc"@, text_tree(field.doc), key);
    lemma_value_after_slot(e4, "contents"@, text_tree(field.contents), key);
    lemma_value_after_slot(e5, "terminator"@, text_tree(field.terminator), key);
    lemma_value_after_slot(e6, "enum"@, text_tree(field.k_enum), key);
    lemma_value_after_slot(e7, "if"@, text_tree(field.k_if), key);
    lemma_value_after_slot(e8, "repeat"@, written_repeat(field.repeat), key);
    lemma_value_after_slot(e9, "repeat-expr"@, text_tree(field.repeat_expr), key);
    lemma_value_after_slot(e10, "repeat-until"@, text_tree(field.repeat_until), key);
    assert(text_entry("size"@, field.size) =~= slot("size"@, text_tree(field.size)));
    assert(type_entry(field.k_type) =~= slot("type"@, written_type(field.k_type)));
    assert(text_entry("encoding"@, field.encoding) =~= slot(
        "encoding"@,
        text_tree(field.encoding),
    ));
    assert(text_entry("doc"@, field.doc) =~= slot("doc"@, text_tree(field.doc)));
    assert(text_entry("contents"@, field.contents) =~= slot(
        "contents"@,
        text_tree(field.contents),
    ));
    assert(text_entry("terminator"@, field.terminator) =~= slot(
        "terminator"@,
        text_tree(field.terminator),
    ));
    assert(text_entry("enum"@, field.k_enum) =~= slot("enum"@, text_tree(field.k_enum)));
    assert(text_entry("if"@, field.k_if) =~= slot("if"@, text_tree(field.k_if)));
    assert(repeat_entry(field.repeat) =~= slot("repeat"@, written_repeat(field.repeat)));
    assert(text_entry("repeat-expr"@, field.repeat_expr) =~= slot(
        "repeat-expr"@,
        text_tree(field.repeat_expr),
    ));
    assert(text_entry("repeat-until"@, field.repeat_until) =~= slot(
        "repeat-until"@,
        text_tree(field.repeat_until),
    ));
    assert(e0 =~= seq![(Tree::Str("id"@), Tree::Str(field.id))]);
    assert(field_entries(field) =~= e11);
}

/// The names of the keys of a field are twelve different texts.
pub proof fn lemma_field_keys()
    ensures
        "id"@ != "size"@,
        "id"@ != "if"@,
        "size"@ != "type"@,
        "size"@ != "enum"@,
        "type"@ != "enum"@,
        "encoding"@ != "contents"@,
        "id"@.len() == 2,
        "if"@.len() == 2,
        "doc"@.len() == 3,
        "size"@.len() == 4,
        "type"@.len() == 4,
        "enum"@.len() == 4,
        "repeat"@.len() == 6,
        "encoding"@.len() == 8,
        "contents"@.len() == 8,
        "terminator"@.len() == 10,
        "repeat-expr"@.len() == 11,
        "repeat-until"@.len() == 12,
{
    reveal_strlit("id");
    reveal_strlit("size");
    reveal_strlit("type");
    reveal_strlit("encoding");
    reveal_strlit("doc");
    reveal_strlit("contents");
    reveal_strlit("terminator");
    reveal_strlit("enum");
    reveal_strlit("if");
    reveal_strlit("repeat");
    reveal_strlit("repeat-expr");
    reveal_strlit("repeat-until");
    assert("id"@[1] != "if"@[1]);
    assert("size"@[0] != "type"@[0]);
    assert("size"@[0] != "enum"@[0]);
    assert("type"@[0] != "enum"@[0]);
    assert("encoding"@[0] != "contents"@[0]);
}

/// The words for the repeat modes are three different texts.
pub proof fn lemma_repeat_words()
    ensures
        "eos"@ != "expr"@,
        "eos"@ != "until"@,
        "expr"@ != "until"@,
{
    reveal_strlit("eos");
    reveal_strlit("expr");
    reveal_strlit("until");
    assert("eos"@.len() == 3);
    assert("expr"@.len() == 4);
    assert("until"@.len() == 5);
}

/// A table of cases is read back from its entries.
pub proof fn lemma_cases_round_trip(cases: Seq<(Scalar, Seq<char>)>)
    requires
        distinct_keys(cases),
    ensures
        cases_of(cases_entries(cases)) == Some(cases),
{
    let results = case_results(cases_entries(cases));
    assert forall|i: int| 0 <= i < cases.len() implies results[i] == Ok::<_, Failure>(
        cases[i],
    ) by {
        let key = cases[i].0;
        assert(primitive_of(primitive_tree(key)) == Some(key));
    }
    lemma_gather_ok(results, cases);
    lemma_assoc_of_table(cases);
}

/// A type is read back from its tree.
pub proof fn lemma_type_round_trip(k_type: KTypeModel)
    requires
        k_type matches KTypeModel::Switch(switch) ==> distinct_keys(switch.cases),
    ensures
        type_of(type_tree(k_type)) == Ok::<_, Failure>(k_type),
        type_tree(k_type) != Tree::Null,
{
    match k_type {
        KTypeModel::Type(name) => {},
        KTypeModel::Switch(switch) => {
            let on = slot("switch-on"@, Some(Tree::Str(switch.switch_on)));
            let cases = Some(Tree::Mapping(cases_entries(switch.cases)));
            let entries = type_tree(k_type)->Mapping_0;
            reveal_strlit("switch-on");
            reveal_strlit("cases");
            assert("switch-on"@.len() != "cases"@.len());
            let name = Some(Tree::Str(switch.switch_on));
            lemma_value_after_slot(Seq::empty(), "switch-on"@, name, "switch-on"@);
            lemma_value_after_slot(Seq::empty(), "switch-on"@, name, "cases"@);
            lemma_value_after_slot(Seq::empty() + on, "cases"@, cases, "switch-on"@);
            lemma_value_after_slot(Seq::empty() + on, "cases"@, cases, "cases"@);
            assert(entries =~= Seq::empty() + on + slot("cases"@, cases));
            lemma_cases_round_trip(switch.cases);
        },
    }
}

/// A sequence of well-formed fields is read back from its trees.
pub proof fn lemma_fields_round_trip(fields: Seq<FieldModel>)
    requires
        fields_wf(fields),
    ensures
        fields_of(field_trees(fields)) == Ok::<_, Failure>(fields),
{
    let results = field_results(field_trees(fields));
    assert forall|i: int| 0 <= i < fields.len() implies results[i] == Ok::<_, Failure>(
        fields[i],
    ) by {
        well_formed_field_is_read_back(fields[i]);
    }
    lemma_gather_ok(results, fields);
}

/// An enumeration is read back from its tree.
pub proof fn lemma_labels_round_trip(labels: Labels)
    requires
        distinct_keys(labels),
    ensures
        enum_of(Tree::Mapping(label_entries(labels))) == Ok::<_, Failure>(labels),
{
    let results = label_results(label_entries(labels));
    assert forall|i: int| 0 <= i < labels.len() implies results[i] == Ok::<_, Failure>(
        labels[i],
    ) by {
        let code = labels[i].0;
        assert(code_of(Tree::Int(code as int)) == Some(code));
    }
    lemma_gather_ok(results, labels);
    lemma_assoc_of_table(labels);
}

/// The enumerations of a document are read back from their entries.
pub proof fn lemma_enums_round_trip(enums: Seq<(Seq<char>, Labels)>)
    requires
        distinct_keys(enums),
        forall|i: int| 0 <= i < enums.len() ==> distinct_keys((#[trigger] enums[i]).1),
    ensures
        enums_of(enum_entries(enums)) == Ok::<_, Failure>(enums),
{
    let results = enum_results(enum_entries(enums));
    assert forall|i: int| 0 <= i < enums.len() implies results[i] == Ok::<_, Failure>(
        enums[i],
    ) by {
        lemma_labels_round_trip(enums[i].1);
    }
    lemma_gather_ok(results, enums);
    lemma_assoc_of_table(enums);
}

/// A named type with well-formed fields is read back from its tree.
pub proof fn lemma_definition_round_trip(definition: TypeModel)
    requires
        fields_wf(definition.seq),
    ensures
        definition_of(definition_tree(definition)) == Ok::<_, Failure>(definition),
{
    let fields = Tree::Sequence(field_trees(definition.seq));
    lemma_value_after_slot(Seq::empty(), "seq"@, Some(fields), "seq"@);
    assert(definition_tree(definition)->Mapping_0 =~= Seq::empty() + slot("seq"@, Some(fields)));
    lemma_fields_round_trip(definition.seq);
}

/// The named types of a document are read back from their entries.
pub proof fn lemma_types_round_trip(types: Seq<(Seq<char>, TypeModel)>)
    requires
        distinct_keys(types),
        forall|i: int| 0 <= i < types.len() ==> fields_wf((#[trigger] types[i]).1.seq),
    ensures
        types_of(definition_entries(types)) == Ok::<_, Failure>(types),
{
    let results = definition_results(definition_entries(types));
    assert forall|i: int| 0 <= i < types.len() implies results[i] == Ok::<_, Failure>(
        types[i],
    ) by {
        lemma_definition_round_trip(types[i].1);
    }
    lemma_gather_ok(results, types);
    lemma_assoc_of_table(types);
}

/// The tree that a byte order is written as.
pub open spec fn written_endian(endian: Option<Endian>) -> Option<Tree> {
    match endian {
        Some(endian) => Some(Tree::Str(endian_text(endian))),
        None => None,
    }
}

/// Metadata with an `id` that is not empty is read back from its tree.
pub proof fn lemma_meta_round_trip(meta: MetaModel)
    requires
        meta.id.len() > 0,
    ensures
        meta_tree(meta) matches Tree::Mapping(entries) && meta_of_entries(entries) == Ok::<
            _,
            Failure,
        >(meta),
{
    let entries = meta_tree(meta)->Mapping_0;
    let e0 = Seq::<(Tree, Tree)>::empty() + slot("id"@, Some(Tree::Str(meta.id)));
    reveal_strlit("id");
    reveal_strlit("endian");
    reveal_strlit("le");
    reveal_strlit("be");
    assert("id"@.len() != "endian"@.len());
    assert("le"@[0] != "be"@[0]);
    lemma_value_after_slot(Seq::empty(), "id"@, Some(Tree::Str(meta.id)), "id"@);
    lemma_value_after_slot(Seq::empty(), "id"@, Some(Tree::Str(meta.id)), "endian"@);
    lemma_value_after_slot(e0, "endian"@, written_endian(meta.endian), "id"@);
    lemma_value_after_slot(e0, "endian"@, written_endian(meta.endian), "endian"@);
    assert(endian_entry(meta.endian) =~= slot("endian"@, written_endian(meta.endian)));
    assert(entries =~= e0 + slot("endian"@, written_endian(meta.endian)));
    assert(required_text(entries, "id"@) == Ok::<_, Failure>(meta.id));
    assert(optional_endian(entries) == Ok::<_, Failure>(meta.endian));
}

/// The tree that the enumerations of a document are written as.
pub open spec fn written_enums(enums: Option<Seq<(Seq<char>, Labels)>>) -> Option<Tree> {
    match enums {
        Some(enums) => Some(Tree::Mapping(enum_entries(enums))),
        None => None,
    }
}

/// The tree that the named types of a document are written as.
pub open spec fn written_types(types: Option<Seq<(Seq<char>, TypeModel)>>) -> Option<Tree> {
    match types {
        Some(types) => Some(Tree::Mapping(definition_entries(types))),
        None => None,
    }
}

/// What a key finds in the entries that a document is written as.
pub open spec fn schema_value(schema: Schema, key: Seq<char>) -> Option<Tree> {
    let v0 = found("meta"@, Some(meta_tree(schema.meta)), key, None);
    let v1 = found("seq"@, Some(Tree::Sequence(field_trees(schema.seq))), key, v0);
    let v2 = found("enums"@, written_enums(schema.enums), key, v1);
    found("types"@, written_types(schema.types), key, v2)
}

/// A key finds in a written document what `schema_value` says.
pub proof fn lemma_schema_value(schema: Schema, key: Seq<char>)
    ensures
        schema_tree(schema) matches Tree::Mapping(entries) && value_at(entries, key)
            == schema_value(schema, key),
{
    let fields = Tree::Sequence(field_trees(schema.seq));
    let e0 = Seq::<(Tree, Tree)>::empty() + slot("meta"@, Some(meta_tree(schema.meta)));
    let e1 = e0 + slot("seq"@, Some(fields));
    let e2 = e1 + slot("enums"@, written_enums(schema.enums));
    let e3 = e2 + slot("types"@, written_types(schema.types));
    lemma_value_after_slot(Seq::empty(), "meta"@, Some(meta_tree(schema.meta)), key);
    lemma_value_after_slot(e0, "seq"@, Some(fields), key);
    lemma_value_after_slot(e1, "enums"@, written_enums(schema.enums), key);
    lemma_value_after_slot(e2, "types"@, written_types(schema.types), key);
    assert(enums_entry(schema.enums) =~= slot("enums"@, written_enums(schema.enums)));
    assert(types_entry(schema.types) =~= slot("types"@, written_types(schema.types)));
    assert(e1 =~= seq![(Tree::Str("meta"@), meta_tree(schema.meta)), (Tree::Str("seq"@), fields)]);
    assert(schema_tree(schema)->Mapping_0 =~= e3);
}

/// The names of the keys of a document are four different texts.
pub proof fn lemma_schema_keys()
    ensures
        "meta"@.len() == 4,
        "seq"@.len() == 3,
        "enums"@.len() == 5,
        "types"@.len() == 5,
        "enums"@ != "types"@,
{
    reveal_strlit("meta");
    reveal_strlit("seq");
    reveal_strlit("enums");
    reveal_strlit("types");
    assert("enums"@[0] != "types"@[0]);
}

/// The fields of a sequence that was read are well formed.
pub proof fn lemma_fields_read(items: Seq<Tree>)
    requires
        fields_of(items) is Ok,
    ensures
        fields_wf(fields_of(items)->Ok_0),
{
    let fields = fields_of(items)->Ok_0;
    lemma_gather_values(field_results(items), fields);
    assert forall|i: int| 0 <= i < fields.len() implies (#[trigger] fields[i]).wf() by {
        assert(field_results(items)[i] == Ok::<_, Failure>(fields[i]));
        reading_gives_well_formed_field(items[i]);
    }
}

/// The field sequence that was read under `seq` is well formed.
pub proof fn lemma_sequence_read(entries: Entries)
    requires
        sequence_of(entries) is Ok,
    ensures
        fields_wf(sequence_of(entries)->Ok_0),
{
    match present(entries, "seq"@) {
        Some(Tree::Sequence(items)) => {
            lemma_fields_read(items);
        },
        _ => {},
    }
}

/// No name occurs twice among the enumerations that were read, and no code
/// twice in one of them.
pub proof fn lemma_enums_read(entries: Entries)
    requires
        enums_of(entries) is Ok,
    ensures
        distinct_keys(enums_of(entries)->Ok_0),
        forall|i: int|
            0 <= i < enums_of(entries)->Ok_0.len() ==> distinct_keys(
                (#[trigger] enums_of(entries)->Ok_0[i]).1,
            ),
{
    let results = enum_results(entries);
    let pairs = gather(results)->Ok_0;
    let enums = enums_of(entries)->Ok_0;
    lemma_assoc_distinct(pairs);
    lemma_assoc_members(pairs);
    lemma_gather_values(results, pairs);
    assert forall|i: int| 0 <= i < enums.len() implies distinct_keys((#[trigger] enums[i]).1) by {
        let j = choose|j: int| 0 <= j < pairs.len() && pairs[j] == enums[i];
        assert(results[j] == Ok::<_, Failure>(pairs[j]));
        let inner = entries[j].1->Mapping_0;
        lemma_assoc_distinct(gather(label_results(inner))->Ok_0);
    }
}

/// No name occurs twice among the named types that were read, and their
/// fields are well formed.
pub proof fn lemma_types_read(entries: Entries)
    requires
        types_of(entries) is Ok,
    ensures
        distinct_keys(types_of(entries)->Ok_0),
        forall|i: int|
            0 <= i < types_of(entries)->Ok_0.len() ==> fields_wf(
                (#[trigger] types_of(entries)->Ok_0[i]).1.seq,
            ),
{
    let results = definition_results(entries);
    let pairs = gather(results)->Ok_0;
    let types = types_of(entries)->Ok_0;
    lemma_assoc_distinct(pairs);
    lemma_assoc_members(pairs);
    lemma_gather_values(results, pairs);
    assert forall|i: int| 0 <= i < types.len() implies fields_wf((#[trigger] types[i]).1.seq) by {
        let j = choose|j: int| 0 <= j < pairs.len() && pairs[j] == types[i];
        assert(results[j] == Ok::<_, Failure>(pairs[j]));
        lemma_sequence_read(entries[j].1->Mapping_0);
    }
}

} // verus!
