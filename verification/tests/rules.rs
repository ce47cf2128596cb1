use std::collections::HashMap;

use rtai::labels::{insert_label, label_of, listing, no_labels, same_labels};
use rtai::raw::node_of_raw;
use rtai::text::render_decimal;
use rtai::yaml::{read_raw, read_tree};
use rtai::{
    Alike, Endian, ErrorKind, Field, KType, KTypeSwitch, KaiTai, Meta, Node, PathStep, Primitive,
    RawNode, Repeat, SchemaError, SeqValue,
};

fn key(name: &str) -> PathStep {
    PathStep::Key(String::from(name))
}

fn text(value: &str) -> Node {
    Node::Str(String::from(value))
}

fn map(entries: Vec<(&str, Node)>) -> Node {
    Node::Mapping(entries.into_iter().map(|(k, v)| (text(k), v)).collect())
}

fn failure(source: &str) -> SchemaError {
    KaiTai::from_yaml(source).unwrap_err()
}

#[test]
fn reads_yaml_into_a_tree() {
    let node = read_tree("a: 1\nb: [x, 2.5, true, ~, -3]\n").unwrap();
    let expected = Node::Mapping(vec![
        (text("a"), Node::Int(1)),
        (
            text("b"),
            Node::Sequence(vec![
                text("x"),
                Node::Float(String::from("2.5")),
                Node::Bool(true),
                Node::Null,
                Node::Int(-3),
            ]),
        ),
    ]);
    assert_eq!(node, expected);
}

#[test]
fn reads_a_tagged_node() {
    let node = read_tree("!thing 5\n").unwrap();
    assert_eq!(node, Node::Tagged(String::from("!thing"), Box::new(Node::Int(5))));
}

#[test]
fn text_that_is_no_yaml_is_malformed() {
    assert_eq!(read_tree("a: [1, 2"), None);
    let e = failure("a: [1, 2");
    assert_eq!(e, SchemaError { kind: ErrorKind::MalformedDocument, path: vec![] });
}

#[test]
fn number_nodes() {
    assert_eq!(Node::number(Some(7), Some(7), String::from("7")), Node::Int(7));
    assert_eq!(
        Node::number(Some(u64::MAX), None, String::from("18446744073709551615")),
        Node::Int(18446744073709551615)
    );
    assert_eq!(Node::number(None, Some(-7), String::from("-7")), Node::Int(-7));
    assert_eq!(Node::number(None, None, String::from("1.5")), Node::Float(String::from("1.5")));
}

#[test]
fn decimal_forms() {
    assert_eq!(render_decimal(0), "0");
    assert_eq!(render_decimal(7), "7");
    assert_eq!(render_decimal(10), "10");
    assert_eq!(render_decimal(-1), "-1");
    assert_eq!(render_decimal(1905), "1905");
    assert_eq!(render_decimal(i128::MAX), "170141183460469231731687303715884105727");
    assert_eq!(render_decimal(i128::MIN), "-170141183460469231731687303715884105728");
}

#[test]
fn scalar_texts() {
    assert_eq!(text("u4").text(), Some(String::from("u4")));
    assert_eq!(Node::Int(-16).text(), Some(String::from("-16")));
    assert_eq!(Node::Float(String::from("1.5")).text(), Some(String::from("1.5")));
    assert_eq!(Node::Bool(true).text(), Some(String::from("true")));
    assert_eq!(Node::Bool(false).text(), Some(String::from("false")));
    assert_eq!(Node::Null.text(), None);
    assert_eq!(Node::Sequence(vec![]).text(), None);
    assert_eq!(Node::Mapping(vec![]).text(), None);
}

#[test]
fn last_entry_of_a_key_counts() {
    let entries = vec![(text("a"), Node::Int(1)), (text("b"), Node::Null), (text("a"), Node::Int(2))];
    assert_eq!(Node::value_at(&entries, "a"), Some(&Node::Int(2)));
    assert_eq!(Node::value_at(&entries, "b"), Some(&Node::Null));
    assert_eq!(Node::value_at(&entries, "c"), None);
    assert_eq!(Node::present(&entries, "a"), Some(&Node::Int(2)));
    assert_eq!(Node::present(&entries, "b"), None);
}

#[test]
fn field_without_type_has_no_type() {
    let field = Field::from_node(&map(vec![("id", text("raw")), ("size", Node::Int(4))])).unwrap();
    assert_eq!(field.k_type, None);
    assert_ne!(field.k_type, Some(KType::Type(String::new())));
    assert_eq!(field.size, Some(String::from("4")));
    let explicit = Field::from_node(&map(vec![("id", text("raw")), ("type", text(""))])).unwrap();
    assert_eq!(explicit.k_type, Some(KType::Type(String::new())));
}

#[test]
fn null_values_leave_attributes_unset() {
    let field = Field::from_node(&map(vec![
        ("id", text("x")),
        ("size", Node::Null),
        ("type", Node::Null),
    ]))
    .unwrap();
    assert_eq!(field, Field { id: String::from("x"), ..Field::default() });
}

#[test]
fn switch_without_its_keys_is_ambiguous() {
    let ambiguous = Err(SchemaError { kind: ErrorKind::AmbiguousTypeNode, path: vec![] });
    let no_cases = map(vec![("switch-on", text("rec_type"))]);
    assert_eq!(KType::from_node(&no_cases), ambiguous);
    let no_switch_on = map(vec![("cases", Node::Mapping(vec![(Node::Int(1), text("a"))]))]);
    assert_eq!(KType::from_node(&no_switch_on), ambiguous);
    assert_eq!(KType::from_node(&Node::Mapping(vec![])), ambiguous);
    assert_eq!(KType::from_node(&Node::Sequence(vec![text("u1")])), ambiguous);
    assert_eq!(KType::from_node(&Node::Null), ambiguous);
    let cases_no_mapping = map(vec![("switch-on", text("t")), ("cases", text("x"))]);
    assert_eq!(KType::from_node(&cases_no_mapping), ambiguous);
    let bad_key = map(vec![
        ("switch-on", text("t")),
        ("cases", Node::Mapping(vec![(Node::Bool(true), text("a"))])),
    ]);
    assert_eq!(KType::from_node(&bad_key), ambiguous);
}

#[test]
fn ambiguous_type_in_a_document() {
    let e = failure("meta:\n  id: t\nseq:\n  - id: a\n  - id: b\n    type:\n      switch-on: x\n");
    assert_eq!(e.kind, ErrorKind::AmbiguousTypeNode);
    assert_eq!(e.path, vec![key("seq"), PathStep::Index(1), key("type")]);
}

#[test]
fn scalar_type_is_a_name() {
    assert_eq!(KType::from_node(&text("u4")), Ok(KType::Type(String::from("u4"))));
    assert_eq!(KType::from_node(&Node::Int(16)), Ok(KType::Type(String::from("16"))));
}

#[test]
fn switch_scenario() {
    let node = read_tree("switch-on: rec_type\ncases:\n  1: rec_type_1\n  2: rec_type_2\n").unwrap();
    let k_type = KType::from_node(&node).unwrap();
    let expected = KTypeSwitch {
        switch_on: String::from("rec_type"),
        cases: vec![
            (Primitive::Int(1), String::from("rec_type_1")),
            (Primitive::Int(2), String::from("rec_type_2")),
        ],
    };
    assert_eq!(k_type, KType::Switch(expected));
    if let KType::Switch(switch) = k_type {
        assert_eq!(switch.cases.len(), 2);
        assert_eq!(switch.case(&Primitive::Int(1)), Some(&String::from("rec_type_1")));
        assert_eq!(switch.case(&Primitive::Int(2)), Some(&String::from("rec_type_2")));
        assert_eq!(switch.case(&Primitive::Int(3)), None);
        assert_eq!(switch.case(&Primitive::Str(String::from("1"))), None);
    } else {
        panic!("a switch was expected");
    }
}

#[test]
fn numeral_and_text_are_different_keys() {
    let node = read_tree("switch-on: t\ncases:\n  1: number\n  \"1\": text\n").unwrap();
    let expected = KTypeSwitch {
        switch_on: String::from("t"),
        cases: vec![
            (Primitive::Int(1), String::from("number")),
            (Primitive::Str(String::from("1")), String::from("text")),
        ],
    };
    assert_eq!(KType::from_node(&node), Ok(KType::Switch(expected)));
    assert_ne!(Primitive::Int(1), Primitive::Str(String::from("1")));
    assert!(Primitive::Int(2) < Primitive::Str(String::from("1")));
    assert!(Primitive::Int(-1) < Primitive::Int(1));
}

#[test]
fn repeat_needs_its_parameter() {
    let e = failure("meta:\n  id: t\nseq:\n  - id: a\n    repeat: expr\n");
    assert_eq!(e.kind, ErrorKind::MissingRepeatExpr);
    assert_eq!(e.path, vec![key("seq"), PathStep::Index(0), key("repeat-expr")]);
    let e = failure("meta:\n  id: t\nseq:\n  - id: a\n    repeat: until\n");
    assert_eq!(e.kind, ErrorKind::MissingRepeatUntil);
    assert_eq!(e.path, vec![key("seq"), PathStep::Index(0), key("repeat-until")]);
    let e = failure("meta:\n  id: t\nseq:\n  - id: a\n    repeat: expr\n    repeat-until: x\n");
    assert_eq!(e.kind, ErrorKind::MissingRepeatExpr);
    let doc = KaiTai::from_yaml("meta:\n  id: t\nseq:\n  - id: a\n    repeat: eos\n").unwrap();
    assert_eq!(doc.seq[0].repeat, Some(Repeat::EndOfStream));
    assert_eq!(doc.seq[0].repeat_expr, None);
    assert_eq!(doc.seq[0].repeat_until, None);
}

#[test]
fn repeat_modes() {
    assert_eq!(Repeat::from_node(&text("eos")), Some(Repeat::EndOfStream));
    assert_eq!(Repeat::from_node(&text("expr")), Some(Repeat::Expression));
    assert_eq!(Repeat::from_node(&text("until")), Some(Repeat::Until));
    assert_eq!(Repeat::from_node(&Node::Null), Some(Repeat::EndOfStream));
    assert_eq!(Repeat::from_node(&text("twice")), None);
    assert_eq!(Repeat::from_node(&Node::Int(2)), None);
    assert_eq!(Repeat::EndOfStream.word(), "eos");
    assert_eq!(Repeat::Expression.word(), "expr");
    assert_eq!(Repeat::Until.word(), "until");
    let e = failure("meta:\n  id: t\nseq:\n  - id: a\n    repeat: twice\n");
    assert_eq!(e.kind, ErrorKind::MalformedDocument);
    assert_eq!(e.path, vec![key("seq"), PathStep::Index(0), key("repeat")]);
}

#[test]
fn no_repeat_key_means_no_repeat() {
    let field = Field::from_node(&map(vec![("id", text("once"))])).unwrap();
    assert_eq!(field.repeat, None);
    let named = Field::from_node(&map(vec![("id", text("many")), ("repeat", Node::Null)])).unwrap();
    assert_eq!(named.repeat, Some(Repeat::EndOfStream));
}

#[test]
fn endianness() {
    let doc = KaiTai::from_yaml("meta:\n  id: t\nseq: []\n").unwrap();
    assert_eq!(doc.meta.endian, None);
    assert_eq!(doc.meta.endianness(), Endian::Le);
    let doc = KaiTai::from_yaml("meta:\n  id: t\n  endian: be\nseq: []\n").unwrap();
    assert_eq!(doc.meta.endian, Some(Endian::Be));
    assert_eq!(doc.meta.endianness(), Endian::Be);
    let doc = KaiTai::from_yaml("meta:\n  id: t\n  endian: le\nseq: []\n").unwrap();
    assert_eq!(doc.meta.endian, Some(Endian::Le));
    let e = failure("meta:\n  id: t\n  endian: xx\nseq: []\n");
    assert_eq!(e.kind, ErrorKind::InvalidEndianness);
    assert_eq!(e.path, vec![key("meta"), key("endian")]);
    assert_eq!(Endian::Le.word(), "le");
    assert_eq!(Endian::Be.word(), "be");
}

#[test]
fn enumeration_keeps_its_pairs() {
    let doc = KaiTai::from_yaml(
        "meta:\n  id: t\nseq: []\nenums:\n  ip_protocol:\n    17: udp\n    1: icmp\n    6: tcp\n",
    )
    .unwrap();
    let table = doc.enumeration("ip_protocol").unwrap();
    assert_eq!(table.len(), 3);
    assert_eq!(doc.label("ip_protocol", 1), Some(&String::from("icmp")));
    assert_eq!(doc.label("ip_protocol", 6), Some(&String::from("tcp")));
    assert_eq!(doc.label("ip_protocol", 17), Some(&String::from("udp")));
    assert_eq!(doc.label("ip_protocol", 2), None);
    assert_eq!(doc.label("other", 1), None);
    assert_eq!(doc.enumeration("other"), None);
}

#[test]
fn enumeration_codes() {
    let doc = KaiTai::from_yaml(
        "meta:\n  id: t\nenums:\n  wide:\n    0: zero\n    256: more\n    18446744073709551615: most\n",
    )
    .unwrap();
    assert_eq!(doc.label("wide", 0), Some(&String::from("zero")));
    assert_eq!(doc.label("wide", 256), Some(&String::from("more")));
    assert_eq!(doc.label("wide", u64::MAX), Some(&String::from("most")));
    for source in [
        "meta:\n  id: t\nenums:\n  e:\n    1: a\n    -1: b\n",
        "meta:\n  id: t\nenums:\n  e:\n    1: a\n    x: b\n",
        "meta:\n  id: t\nenums:\n  e:\n    1: a\n    1.5: b\n",
        "meta:\n  id: t\nenums:\n  e:\n    1: a\n    \"2\": b\n",
    ] {
        let e = failure(source);
        assert_eq!(e.kind, ErrorKind::InvalidEnumCode);
        assert_eq!(e.path, vec![key("enums"), key("e"), PathStep::Index(1)]);
    }
    assert_eq!(rtai::decode::enum_code(&Node::Int(18446744073709551616)), None);
    assert_eq!(rtai::decode::enum_code(&Node::Int(255)), Some(255));
}

#[test]
fn later_label_of_a_code_stays() {
    let node = Node::Mapping(vec![
        (Node::Int(1), text("first")),
        (Node::Int(2), text("other")),
        (Node::Int(1), text("second")),
    ]);
    let table = rtai::decode::read_enum(&node).unwrap();
    assert_eq!(table, HashMap::from([(1, String::from("second")), (2, String::from("other"))]));
}

#[test]
fn named_type_may_name_itself() {
    let doc = KaiTai::from_yaml(
        "meta:\n  id: t\nseq:\n  - id: root\n    type: later\ntypes:\n  list:\n    seq:\n      - id: head\n        type: u1\n      - id: tail\n        type: list\n  later:\n    seq:\n      - id: back\n        type: list\n",
    )
    .unwrap();
    let list = doc.named_type("list").unwrap();
    assert_eq!(list.seq.len(), 2);
    assert_eq!(list.seq[1].k_type, Some(KType::Type(String::from("list"))));
    assert_eq!(doc.seq[0].k_type, Some(KType::Type(String::from("later"))));
    assert_eq!(doc.named_type("later").unwrap().seq[0].id, "back");
    assert_eq!(doc.named_type("missing"), None);
}

#[test]
fn fields_with_one_id_stay_apart() {
    let doc = KaiTai::from_yaml(
        "meta:\n  id: t\nseq:\n  - id: name\n    size: 24\n    encoding: UTF-8\n  - id: name\n    size: 16\n    encoding: ASCII\n",
    )
    .unwrap();
    assert_eq!(doc.seq.len(), 2);
    assert_eq!(
        doc.seq[0],
        Field {
            id: String::from("name"),
            size: Some(String::from("24")),
            encoding: Some(String::from("UTF-8")),
            ..Field::default()
        }
    );
    assert_eq!(
        doc.seq[1],
        Field {
            id: String::from("name"),
            size: Some(String::from("16")),
            encoding: Some(String::from("ASCII")),
            ..Field::default()
        }
    );
}

#[test]
fn missing_fields() {
    let e = failure("seq: []\n");
    assert_eq!(e, SchemaError { kind: ErrorKind::MissingField, path: vec![key("meta")] });
    let e = failure("meta:\n  endian: le\nseq: []\n");
    assert_eq!(e, SchemaError { kind: ErrorKind::MissingField, path: vec![key("meta"), key("id")] });
    let e = failure("meta:\n  id: \"\"\nseq: []\n");
    assert_eq!(e, SchemaError { kind: ErrorKind::MissingField, path: vec![key("meta"), key("id")] });
    let e = failure("meta:\n  id: t\nseq:\n  - id: a\n  - size: 4\n");
    assert_eq!(
        e,
        SchemaError {
            kind: ErrorKind::MissingField,
            path: vec![key("seq"), PathStep::Index(1), key("id")],
        }
    );
    let e = failure("meta:\n  id: t\ntypes:\n  inner:\n    seq:\n      - size: 4\n");
    assert_eq!(
        e,
        SchemaError {
            kind: ErrorKind::MissingField,
            path: vec![key("types"), key("inner"), key("seq"), PathStep::Index(0), key("id")],
        }
    );
}

#[test]
fn malformed_documents() {
    let root = SchemaError { kind: ErrorKind::MalformedDocument, path: vec![] };
    assert_eq!(failure("- a\n- b\n"), root);
    assert_eq!(failure("just text\n"), root);
    let e = failure("meta:\n  id: t\nseq: nothing\n");
    assert_eq!(e, SchemaError { kind: ErrorKind::MalformedDocument, path: vec![key("seq")] });
    let e = failure("meta: t\n");
    assert_eq!(e, SchemaError { kind: ErrorKind::MalformedDocument, path: vec![key("meta")] });
    let e = failure("meta:\n  id: t\nseq:\n  - just text\n");
    assert_eq!(
        e,
        SchemaError { kind: ErrorKind::MalformedDocument, path: vec![key("seq"), PathStep::Index(0)] }
    );
    let e = failure("meta:\n  id: t\nseq:\n  - id: a\n    doc: [x]\n");
    assert_eq!(
        e,
        SchemaError {
            kind: ErrorKind::MalformedDocument,
            path: vec![key("seq"), PathStep::Index(0), key("doc")],
        }
    );
    let e = failure("meta:\n  id: t\nenums: 3\n");
    assert_eq!(e, SchemaError { kind: ErrorKind::MalformedDocument, path: vec![key("enums")] });
    let e = failure("meta:\n  id: t\ntypes:\n  a: 3\n");
    assert_eq!(
        e,
        SchemaError { kind: ErrorKind::MalformedDocument, path: vec![key("types"), key("a")] }
    );
}

#[test]
fn first_failure_decides() {
    let e = failure("meta:\n  id: t\n  endian: xx\nseq:\n  - size: 1\n");
    assert_eq!(e.kind, ErrorKind::InvalidEndianness);
    let e = failure("meta:\n  id: t\nseq:\n  - id: a\n    repeat: expr\n  - size: 1\n");
    assert_eq!(e.kind, ErrorKind::MissingRepeatExpr);
}

#[test]
fn absent_sequence_is_empty_and_other_keys_are_not_read() {
    let doc = KaiTai::from_yaml("meta:\n  id: t\n  title: x\ndoc: whatever\n").unwrap();
    assert_eq!(
        doc,
        KaiTai { meta: Meta { id: String::from("t"), endian: None }, ..KaiTai::default() }
    );
    let doc = KaiTai::from_yaml("meta:\n  id: t\nseq:\nenums:\ntypes:\n").unwrap();
    assert_eq!(doc.seq, vec![]);
    assert_eq!(doc.enums, None);
    assert_eq!(doc.types, None);
    let doc = KaiTai::from_yaml("meta:\n  id: t\nenums: {}\ntypes: {}\n").unwrap();
    assert_eq!(doc.enums, Some(vec![]));
    assert_eq!(doc.types, Some(vec![]));
}

#[test]
fn writes_a_document_as_a_tree() {
    let doc = KaiTai {
        meta: Meta { id: String::from("t"), endian: Some(Endian::Be) },
        seq: vec![Field {
            id: String::from("body"),
            size: Some(String::from("len")),
            k_type: Some(KType::Switch(KTypeSwitch {
                switch_on: String::from("kind"),
                cases: vec![
                    (Primitive::Int(1), String::from("one")),
                    (Primitive::Str(String::from("_")), String::from("rest")),
                ],
            })),
            repeat: Some(Repeat::Until),
            repeat_until: Some(String::from("_.len == 0")),
            ..Field::default()
        }],
        enums: Some(vec![(String::from("e"), HashMap::from([(6, String::from("tcp"))]))]),
        types: Some(vec![(String::from("one"), SeqValue { seq: vec![] })]),
    };
    let expected = map(vec![
        ("meta", map(vec![("id", text("t")), ("endian", text("be"))])),
        (
            "seq",
            Node::Sequence(vec![map(vec![
                ("id", text("body")),
                ("size", text("len")),
                (
                    "type",
                    map(vec![
                        ("switch-on", text("kind")),
                        (
                            "cases",
                            Node::Mapping(vec![
                                (Node::Int(1), text("one")),
                                (text("_"), text("rest")),
                            ]),
                        ),
                    ]),
                ),
                ("repeat", text("until")),
                ("repeat-until", text("_.len == 0")),
            ])]),
        ),
        ("enums", map(vec![("e", Node::Mapping(vec![(Node::Int(6), text("tcp"))]))])),
        ("types", map(vec![("one", map(vec![("seq", Node::Sequence(vec![]))]))])),
    ]);
    assert_eq!(doc.to_node(), expected);
    assert_eq!(KaiTai::from_node(&expected), Ok(doc));
}

#[test]
fn unset_attributes_are_not_written() {
    let doc = KaiTai { meta: Meta { id: String::from("t"), endian: None }, ..KaiTai::default() };
    let expected = map(vec![("meta", map(vec![("id", text("t"))])), ("seq", Node::Sequence(vec![]))]);
    assert_eq!(doc.to_node(), expected);
    let field = Field { id: String::from("a"), ..Field::default() };
    assert_eq!(field.to_node(), map(vec![("id", text("a"))]));
}

#[test]
fn read_write_read() {
    let source = "meta:\n  id: animal_record\n  endian: be\nseq:\n  - id: uuid\n    size: 16\n  - id: body\n    type:\n      switch-on: rec_type\n      cases:\n        1: rec_type_1\n        two: rec_type_2\n    repeat: expr\n    repeat-expr: 3\n    if: true\nenums:\n  ip_protocol:\n    1: icmp\n    6: tcp\ntypes:\n  rec_type_1:\n    seq:\n      - id: tail\n        type: rec_type_1\n        repeat: eos\n";
    let first = KaiTai::from_yaml(source).unwrap();
    let written = first.to_node();
    let second = KaiTai::from_node(&written).unwrap();
    assert_eq!(first, second);
    assert_eq!(KaiTai::from_node(&second.to_node()), Ok(first.clone()));
    assert_eq!(first.seq[1].k_if, Some(String::from("true")));
    assert_eq!(first.seq[1].repeat_expr, Some(String::from("3")));
}

#[test]
fn defaults() {
    assert_eq!(Endian::default(), Endian::Le);
    assert_eq!(Repeat::default(), Repeat::EndOfStream);
    assert_eq!(KType::default(), KType::Type(String::from("")));
    let field = Field::default();
    assert_eq!(field.id, "");
    assert_eq!(field.k_type, None);
    assert_eq!(field.repeat, None);
    assert_eq!(KTypeSwitch::default(), KTypeSwitch { switch_on: String::new(), cases: vec![] });
    assert_eq!(SeqValue::default(), SeqValue { seq: vec![] });
    assert_eq!(Meta::default(), Meta { id: String::new(), endian: None });
}

#[test]
fn failures_are_seen_from_further_up() {
    let e = SchemaError::at_key(ErrorKind::MissingField, "id").under_index(2).under_key("seq");
    assert_eq!(e.kind, ErrorKind::MissingField);
    assert_eq!(e.path, vec![key("seq"), PathStep::Index(2), key("id")]);
    assert_eq!(SchemaError::new(ErrorKind::InvalidEnumCode).path, vec![]);
}

#[test]
fn tables() {
    let mut table: Vec<(String, u64)> = Vec::new();
    rtai::table::insert(&mut table, String::from("a"), 1);
    rtai::table::insert(&mut table, String::from("b"), 2);
    rtai::table::insert(&mut table, String::from("a"), 3);
    assert_eq!(table, vec![(String::from("a"), 3), (String::from("b"), 2)]);
    assert_eq!(rtai::table::locate(&table, &String::from("b")), Some(1));
    assert_eq!(rtai::table::locate(&table, &String::from("c")), None);
    assert_eq!(rtai::table::lookup(&table, &String::from("a")), Some(&3));
}

#[test]
fn well_formed_documents() {
    let read = KaiTai::from_yaml(
        "meta:\n  id: t\nseq:\n  - id: a\n    repeat: expr\n    repeat-expr: n\nenums:\n  e:\n    1: a\n",
    )
    .unwrap();
    assert!(read.is_well_formed());
    assert_eq!(KaiTai::from_node(&read.to_node()), Ok(read));

    let no_id = KaiTai::default();
    assert!(!no_id.is_well_formed());
    assert_eq!(
        KaiTai::from_node(&no_id.to_node()),
        Err(SchemaError { kind: ErrorKind::MissingField, path: vec![key("meta"), key("id")] })
    );

    let meta = Meta { id: String::from("t"), endian: None };
    let bare = KaiTai { meta: meta.clone(), ..KaiTai::default() };
    assert!(bare.is_well_formed());

    let lone_mode = Field { id: String::from("a"), repeat: Some(Repeat::Until), ..Field::default() };
    assert!(!lone_mode.is_well_formed());
    let unfit = KaiTai { meta: meta.clone(), seq: vec![lone_mode.clone()], ..KaiTai::default() };
    assert!(!unfit.is_well_formed());
    let inner = KaiTai {
        meta: meta.clone(),
        types: Some(vec![(String::from("x"), SeqValue { seq: vec![lone_mode] })]),
        ..KaiTai::default()
    };
    assert!(!inner.is_well_formed());

    let twice = KaiTai {
        meta: meta.clone(),
        enums: Some(vec![
            (String::from("e"), HashMap::from([(1, String::from("a"))])),
            (String::from("e"), HashMap::from([(2, String::from("b"))])),
        ]),
        ..KaiTai::default()
    };
    assert!(!twice.is_well_formed());
    let names = KaiTai {
        meta,
        types: Some(vec![
            (String::from("x"), SeqValue::default()),
            (String::from("x"), SeqValue::default()),
        ]),
        ..KaiTai::default()
    };
    assert!(!names.is_well_formed());
}

#[test]
fn well_formed_fields() {
    let plain = Field { id: String::from("a"), ..Field::default() };
    assert!(plain.is_well_formed());
    let counted = Field {
        id: String::from("a"),
        repeat: Some(Repeat::Expression),
        repeat_expr: Some(String::from("3")),
        ..Field::default()
    };
    assert!(counted.is_well_formed());
    assert_eq!(Field::from_node(&counted.to_node()), Ok(counted));
    let uncounted =
        Field { id: String::from("a"), repeat: Some(Repeat::Expression), ..Field::default() };
    assert!(!uncounted.is_well_formed());
    let switch = |cases| Field {
        id: String::from("a"),
        k_type: Some(KType::Switch(KTypeSwitch { switch_on: String::from("t"), cases })),
        ..Field::default()
    };
    let apart = switch(vec![
        (Primitive::Int(1), String::from("a")),
        (Primitive::Str(String::from("1")), String::from("b")),
    ]);
    assert!(apart.is_well_formed());
    let twice =
        switch(vec![(Primitive::Int(1), String::from("a")), (Primitive::Int(1), String::from("b"))]);
    assert!(!twice.is_well_formed());
    assert!(rtai::validate::fields_well_formed(&[apart, plain].to_vec()));
    assert!(!rtai::validate::fields_well_formed(&vec![twice]));
    assert!(rtai::table::has_distinct_keys(&vec![(1u64, 'a'), (2u64, 'b')]));
    assert!(!rtai::table::has_distinct_keys(&vec![(1u64, 'a'), (2u64, 'b'), (1u64, 'c')]));
}

#[test]
fn metadata() {
    let meta = Meta::from_node(&map(vec![("id", text("t")), ("endian", text("be"))]));
    assert_eq!(meta, Ok(Meta { id: String::from("t"), endian: Some(Endian::Be) }));
    let meta = Meta::from_node(&map(vec![("id", Node::Int(7)), ("endian", Node::Null)]));
    assert_eq!(meta, Ok(Meta { id: String::from("7"), endian: None }));
    assert_eq!(
        Meta::from_node(&map(vec![("endian", text("le"))])),
        Err(SchemaError { kind: ErrorKind::MissingField, path: vec![key("id")] })
    );
    assert_eq!(
        Meta::from_node(&map(vec![("id", text("t")), ("endian", Node::Int(1))])),
        Err(SchemaError { kind: ErrorKind::InvalidEndianness, path: vec![key("endian")] })
    );
    assert_eq!(
        Meta::from_node(&text("t")),
        Err(SchemaError { kind: ErrorKind::MalformedDocument, path: vec![] })
    );
    let written = Meta { id: String::from("t"), endian: Some(Endian::Le) }.to_node();
    assert_eq!(written, map(vec![("id", text("t")), ("endian", text("le"))]));
}

#[test]
fn switch_keys() {
    assert_eq!(Primitive::from_node(&Node::Int(-4)), Some(Primitive::Int(-4)));
    assert_eq!(Primitive::from_node(&text("_")), Some(Primitive::Str(String::from("_"))));
    assert_eq!(Primitive::from_node(&Node::Bool(true)), None);
    assert_eq!(Primitive::from_node(&Node::Float(String::from("1.5"))), None);
    assert_eq!(Primitive::from_node(&Node::Null), None);
    assert_eq!(Primitive::Int(-4).to_node(), Node::Int(-4));
    assert_eq!(Primitive::Str(String::from("_")).to_node(), text("_"));
}

#[test]
fn named_types() {
    let node = map(vec![
        ("seq", Node::Sequence(vec![map(vec![("id", text("a"))])])),
        ("types", text("not read")),
    ]);
    let definition = SeqValue::from_node(&node).unwrap();
    assert_eq!(definition.seq, vec![Field { id: String::from("a"), ..Field::default() }]);
    assert_eq!(SeqValue::from_node(&Node::Mapping(vec![])), Ok(SeqValue::default()));
    assert_eq!(
        SeqValue::from_node(&Node::Sequence(vec![])),
        Err(SchemaError { kind: ErrorKind::MalformedDocument, path: vec![] })
    );
    assert_eq!(
        definition.to_node(),
        map(vec![("seq", Node::Sequence(vec![map(vec![("id", text("a"))])]))])
    );
}

#[test]
fn failures_in_words() {
    let e = failure("meta:\n  id: t\ntypes:\n  inner:\n    seq:\n      - id: a\n      - size: 4\n");
    assert_eq!(e.describe(), "MissingField at $.types.inner.seq[1].id");
    assert_eq!(failure("- a\n").describe(), "MalformedDocument at $");
    let e = failure("meta:\n  id: t\n  endian: xx\n");
    assert_eq!(e.describe(), "InvalidEndianness at $.meta.endian");
    let e = failure("meta:\n  id: t\nenums:\n  e:\n    0: a\n    1: b\n    2: c\n    3: d\n    4: e\n    5: f\n    6: g\n    7: h\n    8: i\n    9: j\n    x: k\n");
    assert_eq!(e.describe(), "InvalidEnumCode at $.enums.e[10]");
    assert_eq!(ErrorKind::AmbiguousTypeNode.name(), "AmbiguousTypeNode");
    assert_eq!(ErrorKind::MissingRepeatExpr.name(), "MissingRepeatExpr");
    assert_eq!(ErrorKind::MissingRepeatUntil.name(), "MissingRepeatUntil");
}

#[test]
fn reader_reports_and_the_rule_decides() {
    let raw = read_raw("a: 1\nb: [-3, 2.5, 18446744073709551615, x]\n").unwrap();
    let expected = RawNode::Mapping(vec![
        (RawNode::Str(String::from("a")), RawNode::Number(Some(1), Some(1), String::from("1"))),
        (
            RawNode::Str(String::from("b")),
            RawNode::Sequence(vec![
                RawNode::Number(None, Some(-3), String::from("-3")),
                RawNode::Number(None, None, String::from("2.5")),
                RawNode::Number(Some(u64::MAX), None, String::from("18446744073709551615")),
                RawNode::Str(String::from("x")),
            ]),
        ),
    ]);
    assert_eq!(raw, expected);
    let node = node_of_raw(&raw);
    assert_eq!(
        node,
        Node::Mapping(vec![
            (text("a"), Node::Int(1)),
            (
                text("b"),
                Node::Sequence(vec![
                    Node::Int(-3),
                    Node::Float(String::from("2.5")),
                    Node::Int(18446744073709551615),
                    text("x"),
                ]),
            ),
        ])
    );
    assert_eq!(read_raw("a: [1"), None);
    assert_eq!(node_of_raw(&RawNode::Null), Node::Null);
    assert_eq!(node_of_raw(&RawNode::Bool(false)), Node::Bool(false));
    assert_eq!(
        node_of_raw(&RawNode::Tagged(String::from("!t"), Box::new(RawNode::Str(String::from("s"))))),
        Node::Tagged(String::from("!t"), Box::new(text("s")))
    );
    assert_eq!(
        node_of_raw(&RawNode::Number(Some(5), None, String::from("five"))),
        Node::Int(5)
    );
}

#[test]
fn scalars_come_in_the_reader_normal_form() {
    let doc = KaiTai::from_yaml(
        "meta:\n  id: t\nseq:\n  - id: a\n    size: 0x10\n    doc: 1.50\n    if: True\n    contents: \"0x10\"\n",
    )
    .unwrap();
    assert_eq!(doc.seq[0].size, Some(String::from("16")));
    assert_eq!(doc.seq[0].doc, Some(String::from("1.5")));
    assert_eq!(doc.seq[0].k_if, Some(String::from("true")));
    assert_eq!(doc.seq[0].contents, Some(String::from("0x10")));
}

#[test]
fn tables_are_compared_as_maps() {
    let one: Vec<(u64, String)> = vec![(1, String::from("icmp")), (6, String::from("tcp"))];
    let other: Vec<(u64, String)> = vec![(6, String::from("tcp")), (1, String::from("icmp"))];
    assert_ne!(one, other);
    assert!(one.is_alike(&other));
    assert!(other.is_alike(&one));
    let fewer: Vec<(u64, String)> = vec![(1, String::from("icmp"))];
    assert!(!one.is_alike(&fewer));
    assert!(!fewer.is_alike(&one));
    let changed: Vec<(u64, String)> = vec![(6, String::from("udp")), (1, String::from("icmp"))];
    assert!(!one.is_alike(&changed));
    let empty: Vec<(u64, String)> = vec![];
    assert!(empty.is_alike(&empty));
    assert!(!empty.is_alike(&one));
    let twice: Vec<(u64, String)> =
        vec![(1, String::from("icmp")), (6, String::from("tcp")), (1, String::from("late"))];
    assert!(one.is_alike(&twice));
}

#[test]
fn documents_are_compared_as_what_they_mean() {
    let first = KaiTai::from_yaml(
        "meta:\n  id: t\nseq:\n  - id: body\n    type:\n      switch-on: k\n      cases:\n        1: one\n        two: other\nenums:\n  a:\n    1: x\n    2: y\n  b:\n    3: z\ntypes:\n  one:\n    seq:\n      - id: p\n  other:\n    seq: []\n",
    )
    .unwrap();
    let second = KaiTai::from_yaml(
        "meta:\n  id: t\nseq:\n  - id: body\n    type:\n      switch-on: k\n      cases:\n        two: other\n        1: one\ntypes:\n  other:\n    seq: []\n  one:\n    seq:\n      - id: p\nenums:\n  b:\n    3: z\n  a:\n    2: y\n    1: x\n",
    )
    .unwrap();
    assert_ne!(first, second);
    assert!(first.is_alike(&second));
    assert!(second.is_alike(&first));
    assert!(first.is_alike(&first));

    let mut other_meta = KaiTai::from_node(&second.to_node()).unwrap();
    other_meta.meta.endian = Some(Endian::Be);
    assert!(!first.is_alike(&other_meta));

    let mut other_label = KaiTai::from_node(&second.to_node()).unwrap();
    other_label.enums = Some(vec![
        (String::from("a"), HashMap::from([(1, String::from("x")), (2, String::from("changed"))])),
        (String::from("b"), HashMap::from([(3, String::from("z"))])),
    ]);
    assert!(!first.is_alike(&other_label));

    let mut no_types = KaiTai::from_node(&second.to_node()).unwrap();
    no_types.types = None;
    assert!(!first.is_alike(&no_types));

    let mut swapped = KaiTai::from_node(&second.to_node()).unwrap();
    swapped.seq.push(Field { id: String::from("more"), ..Field::default() });
    assert!(!first.is_alike(&swapped));

    let a = Field { id: String::from("a"), size: Some(String::from("1")), ..Field::default() };
    let b = Field { id: String::from("a"), size: Some(String::from("2")), ..Field::default() };
    assert!(a.is_alike(&a));
    assert!(!a.is_alike(&b));
    assert!(SeqValue { seq: vec![] }.is_alike(&SeqValue::default()));
}

#[test]
fn enumerations_are_hash_maps() {
    let mut table = no_labels();
    assert!(table.is_empty());
    insert_label(&mut table, 6, String::from("tcp"));
    insert_label(&mut table, 1, String::from("icmp"));
    insert_label(&mut table, 6, String::from("TCP"));
    assert_eq!(table, HashMap::from([(1, String::from("icmp")), (6, String::from("TCP"))]));
    assert_eq!(label_of(&table, 6), Some(&String::from("TCP")));
    assert_eq!(label_of(&table, 7), None);
    let mut list = listing(&table);
    list.sort();
    assert_eq!(list, vec![(1, String::from("icmp")), (6, String::from("TCP"))]);
    let other = HashMap::from([(6, String::from("TCP")), (1, String::from("icmp"))]);
    assert!(same_labels(&table, &other));
    assert!(table.is_alike(&other));
    assert!(!same_labels(&table, &HashMap::from([(1, String::from("icmp"))])));
    assert!(!same_labels(&HashMap::from([(1, String::from("icmp"))]), &table));
    assert!(!same_labels(
        &table,
        &HashMap::from([(1, String::from("icmp")), (6, String::from("tcp"))])
    ));
}

#[test]
fn enumerations_are_written_entry_by_entry() {
    let labels: HashMap<u64, String> =
        (0..40u64).map(|code| (code * 7 % 41, format!("label{}", code))).collect();
    let node = rtai::encode::write_enum(&labels);
    if let Node::Mapping(entries) = &node {
        assert_eq!(entries.len(), 40);
        for (code, label) in entries {
            match (code, label) {
                (Node::Int(code), Node::Str(label)) => {
                    assert_eq!(labels.get(&(*code as u64)), Some(label));
                }
                _ => panic!("a code and a label were expected"),
            }
        }
    } else {
        panic!("a mapping was expected");
    }
    assert_eq!(rtai::decode::read_enum(&node), Ok(labels.clone()));
    assert_eq!(
        rtai::encode::write_labels(&vec![(2, String::from("b")), (1, String::from("a"))]),
        Node::Mapping(vec![(Node::Int(2), text("b")), (Node::Int(1), text("a"))])
    );
    let doc = KaiTai {
        meta: Meta { id: String::from("t"), endian: None },
        enums: Some(vec![(String::from("many"), labels)]),
        ..KaiTai::default()
    };
    assert_eq!(KaiTai::from_node(&doc.to_node()), Ok(doc));
}
