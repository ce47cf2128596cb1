use std::collections::HashMap;

use rtai::{Endian, Field, KType, KTypeSwitch, KaiTai, Meta, Primitive, Repeat, SeqValue};

#[test]
fn it_works() {
    let s = r#"meta:
  id: animal_record
  endian: be
seq:
  - id: uuid
    size: 16
  - id: name
    type: str
    size: 24
    encoding: UTF-8
  - id: birth_year
    type: u2
  - id: weight
    type: f8
  - id: rating
    type: s4
    doc: Rating, can be negative
  - id: name
    type: str
    size: 16
    terminator: 0
    encoding: UTF-8
  - id: has_crc32
    type: u1
  - id: crc32
    type: u4
    if: has_crc32 != 0
enums:
  ip_protocol:
    1: icmp
    6: tcp
    17: udp
types:
  str_with_len:
    seq:
      - id: len
        type: u4
      - id: value
        type: str
        encoding: UTF-8
        size: len
"#;
    let kaitai: KaiTai = KaiTai::from_yaml(s).unwrap();

    let inner_enum = HashMap::from([
        (1, String::from("icmp")),
        (6, String::from("tcp")),
        (17, String::from("udp")),
    ]);

    let outer_enum = Vec::from([(String::from("ip_protocol"), inner_enum)]);

    let expected = KaiTai {
        meta: Meta {
            id: String::from("animal_record"),
            endian: Some(Endian::Be),
        },
        seq: Vec::from([
            Field {
                id: String::from("uuid"),
                size: Some(String::from("16")),
                ..Field::default()
            },
            Field {
                id: String::from("name"),
                size: Some(String::from("24")),
                k_type: Some(KType::Type(String::from("str"))),
                encoding: Some(String::from("UTF-8")),
                ..Field::default()
            },
            Field {
                id: String::from("birth_year"),
                k_type: Some(KType::Type(String::from("u2"))),
                ..Field::default()
            },
            Field {
                id: String::from("weight"),
                k_type: Some(KType::Type(String::from("f8"))),
                ..Field::default()
            },
            Field {
                id: String::from("rating"),
                k_type: Some(KType::Type(String::from("s4"))),
                doc: Some(String::from("Rating, can be negative")),
                ..Field::default()
            },
            Field {
                id: String::from("name"),
                size: Some(String::from("16")),
                k_type: Some(KType::Type(String::from("str"))),
                encoding: Some(String::from("UTF-8")),
                terminator: Some(String::from("0")),
                ..Field::default()
            },
            Field {
                id: String::from("has_crc32"),
                k_type: Some(KType::Type(String::from("u1"))),
                ..Field::default()
            },
            Field {
                id: String::from("crc32"),
                k_type: Some(KType::Type(String::from("u4"))),
                k_if: Some(String::from("has_crc32 != 0")),
                ..Field::default()
            },
        ]),
        enums: Some(outer_enum),
        types: Some(Vec::from([(
            String::from("str_with_len"),
            SeqValue {
                seq: Vec::from([
                    Field {
                        id: String::from("len"),
                        k_type: Some(KType::Type(String::from("u4"))),
                        ..Field::default()
                    },
                    Field {
                        id: String::from("value"),
                        k_type: Some(KType::Type(String::from("str"))),
                        encoding: Some(String::from("UTF-8")),
                        size: Some(String::from("len")),
                        ..Field::default()
                    },
                ]),
            },
        )])),
    };

    assert_eq!(expected, kaitai);
}

#[test]
fn test_eos_parsing() {
    let s = r#"meta:
  id: testing
seq:
  - id: filenames
    type: filename
    repeat: eos
  - id: width
    type: u4
  - id: height
    type: u4
  - id: matrix
    type: f8
    repeat: expr
    repeat-expr: width * height
types:
  filename:
    seq:
      - id: name
        type: str
        size: 8
        encoding: ASCII
      - id: ext
        type: str
        size: 3
        encoding: ASCII
"#;
    let kaitai: KaiTai = KaiTai::from_yaml(s).unwrap();

    let expected = KaiTai {
        meta: Meta {
            id: String::from("testing"),
            endian: None,
        },
        seq: Vec::from([
            Field {
                id: String::from("filenames"),
                k_type: Some(KType::Type(String::from("filename"))),
                repeat: Some(Repeat::EndOfStream),
                ..Field::default()
            },
            Field {
                id: String::from("width"),
                k_type: Some(KType::Type(String::from("u4"))),
                ..Field::default()
            },
            Field {
                id: String::from("height"),
                k_type: Some(KType::Type(String::from("u4"))),
                ..Field::default()
            },
            Field {
                id: String::from("matrix"),
                k_type: Some(KType::Type(String::from("f8"))),
                repeat: Some(Repeat::Expression),
                repeat_expr: Some(String::from("width * height")),
                ..Field::default()
            },
        ]),
        types: Some(Vec::from([(
            String::from("filename"),
            SeqValue {
                seq: Vec::from([
                    Field {
                        id: String::from("name"),
                        k_type: Some(KType::Type(String::from("str"))),
                        size: Some(String::from("8")),
                        encoding: Some(String::from("ASCII")),
                        ..Field::default()
                    },
                    Field {
                        id: String::from("ext"),
                        k_type: Some(KType::Type(String::from("str"))),
                        size: Some(String::from("3")),
                        encoding: Some(String::from("ASCII")),
                        ..Field::default()
                    },
                ]),
            },
        )])),
        ..KaiTai::default()
    };

    assert_eq!(expected, kaitai);
}

#[test]
fn test_repeat_until_condition() {
    let s = r#"meta:
  id: testing
seq:
  - id: records
    type: buffer_with_len
    repeat: until
    repeat-until: _.len == 0
types:
  buffer_with_len:
    seq:
      - id: len
        type: u1
      - id: value
        size: len
"#;
    let kaitai: KaiTai = KaiTai::from_yaml(s).unwrap();

    let expected = KaiTai {
        meta: Meta {
            id: String::from("testing"),
            endian: None,
        },
        seq: Vec::from([Field {
            id: String::from("records"),
            k_type: Some(KType::Type(String::from("buffer_with_len"))),
            repeat: Some(Repeat::Until),
            repeat_until: Some(String::from("_.len == 0")),
            ..Field::default()
        }]),
        types: Some(Vec::from([(
            String::from("buffer_with_len"),
            SeqValue {
                seq: Vec::from([
                    Field {
                        id: String::from("len"),
                        k_type: Some(KType::Type(String::from("u1"))),
                        ..Field::default()
                    },
                    Field {
                        id: String::from("value"),
                        size: Some(String::from("len")),
                        ..Field::default()
                    },
                ]),
            },
        )])),
        ..KaiTai::default()
    };

    assert_eq!(expected, kaitai);
}

#[test]
fn test_4_11_tlv_impl() {
    let s = r#"meta:
    id: testing
seq:
  - id: rec_type
    type: u1
  - id: len
    type: u4
  - id: body
    size: len
    type:
      switch-on: rec_type
      cases:
        1: rec_type_1
        2: rec_type_2
"#;
    let kaitai: KaiTai = KaiTai::from_yaml(s).unwrap();

    let expected = KaiTai {
        meta: Meta {
            id: String::from("testing"),
            endian: None,
        },
        seq: Vec::from([
            Field {
                id: String::from("rec_type"),
                k_type: Some(KType::Type(String::from("u1"))),
                ..Field::default()
            },
            Field {
                id: String::from("len"),
                k_type: Some(KType::Type(String::from("u4"))),
                ..Field::default()
            },
            Field {
                id: String::from("body"),
                size: Some(String::from("len")),
                k_type: Some(KType::Switch(KTypeSwitch {
                    switch_on: String::from("rec_type"),
                    cases: Vec::from([
                        (Primitive::Int(1), String::from("rec_type_1")),
                        (Primitive::Int(2), String::from("rec_type_2")),
                    ]),
                    ..KTypeSwitch::default()
                })),
                ..Field::default()
            },
        ]),
        ..KaiTai::default()
    };

    assert_eq!(expected, kaitai);
}
