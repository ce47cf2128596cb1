//! The schema document: metadata, the field sequence, enumerations and
//! named types.

use vstd::prelude::*;
use crate::field::{fields_wf, Field, FieldModel};
use crate::labels::{label_of, EnumTable, LabelMap};
use crate::table::{distinct_keys, find, lemma_position, lookup, map_of, position, put};

verus! {

/// The byte order of a format.
#[derive(Debug, Clone, Copy, PartialEq, Eq, Hash)]
pub enum Endian {
    Le,
    Be,
}

impl Default for Endian {
    /// Little-endian: the byte order of a document that names none.
    fn default() -> (endian: Endian)
        ensures
            endian == Endian::Le,
    {
        Endian::Le
    }
}

/// The metadata of a document. `endian` is what the document says; what
/// holds where it says nothing is given by [`Meta::endianness`].
#[derive(Debug, Clone, PartialEq, Eq)]
pub struct Meta {
    pub id: String,
    pub endian: Option<Endian>,
}

/// The model of a [`Meta`].
pub struct MetaModel {
    pub id: Seq<char>,
    pub endian: Option<Endian>,
}

impl MetaModel {
    /// The byte order that holds: the one named, else little-endian.
    pub open spec fn endianness(self) -> Endian {
        match self.endian {
            Some(endian) => endian,
            None => Endian::Le,
        }
    }
}

impl DeepView for Meta {
    type V = MetaModel;

    open spec fn deep_view(&self) -> MetaModel {
        MetaModel { id: self.id@, endian: self.endian }
    }
}

impl View for Meta {
    type V = MetaModel;

    open spec fn view(&self) -> MetaModel {
        self.deep_view()
    }
}

impl Default for Meta {
    fn default() -> (meta: Meta)
        ensures
            meta@ == (MetaModel { id: Seq::empty(), endian: None }),
    {
        Meta { id: String::new(), endian: None }
    }
}

impl Meta {
    /// The byte order that holds: the one named, else little-endian.
    pub fn endianness(&self) -> (endian: Endian)
        ensures
            endian == self@.endianness(),
    {
        match self.endian {
            Some(endian) => endian,
            None => Endian::Le,
        }
    }
}

/// A named type: a field sequence of its own.
#[derive(Debug, Clone, PartialEq, Eq)]
pub struct SeqValue {
    pub seq: Vec<Field>,
}

/// The model of a [`SeqValue`].
pub struct TypeModel {
    pub seq: Seq<FieldModel>,
}

impl DeepView for SeqValue {
    type V = TypeModel;

    open spec fn deep_view(&self) -> TypeModel {
        TypeModel { seq: self.seq.deep_view() }
    }
}

impl View for SeqValue {
    type V = TypeModel;

    open spec fn view(&self) -> TypeModel {
        self.deep_view()
    }
}

impl Default for SeqValue {
    fn default() -> (definition: SeqValue)
        ensures
            definition@ == (TypeModel { seq: Seq::empty() }),
    {
        let definition = SeqValue { seq: Vec::new() };
        assert(definition.seq.deep_view() =~= Seq::empty());
        definition
    }
}

/// The enumerations of a document, by name.
pub type EnumTables = Vec<(String, EnumTable)>;

/// The named types of a document, by name.
pub type TypeTable = Vec<(String, SeqValue)>;

/// A schema document.
///
/// The tables by name are lists in the order of the document, in which no
/// name is meant to occur twice; an enumeration is a hash map from codes
/// to labels. A field refers to a named type by its name only.
#[derive(Debug, Clone, PartialEq, Eq)]
pub struct KaiTai {
    pub meta: Meta,
    pub seq: Vec<Field>,
    pub enums: Option<EnumTables>,
    pub types: Option<TypeTable>,
}

/// A document as it stands in a tree: every enumeration is a list of its
/// entries, in the order of the tree.
pub struct Schema {
    pub meta: MetaModel,
    pub seq: Seq<FieldModel>,
    pub enums: Option<Seq<(Seq<char>, Seq<(u64, Seq<char>)>)>>,
    pub types: Option<Seq<(Seq<char>, TypeModel)>>,
}

/// The model of a [`KaiTai`]: every enumeration is a map.
pub struct Document {
    pub meta: MetaModel,
    pub seq: Seq<FieldModel>,
    pub enums: Option<Seq<(Seq<char>, LabelMap)>>,
    pub types: Option<Seq<(Seq<char>, TypeModel)>>,
}

impl Schema {
    /// What holds of every document that was read from a tree: the `id` is
    /// not empty, every field is well formed, and no name or code occurs
    /// twice in a table.
    pub open spec fn wf(self) -> bool {
        &&& self.meta.id.len() > 0
        &&& fields_wf(self.seq)
        &&& self.enums matches Some(enums) ==> {
            &&& distinct_keys(enums)
            &&& forall|i: int| 0 <= i < enums.len() ==> distinct_keys((#[trigger] enums[i]).1)
        }
        &&& self.types matches Some(types) ==> {
            &&& distinct_keys(types)
            &&& forall|i: int| 0 <= i < types.len() ==> fields_wf((#[trigger] types[i]).1.seq)
        }
    }

    /// The document that this is, with every enumeration as a map.
    pub open spec fn document(self) -> Document {
        Document {
            meta: self.meta,
            seq: self.seq,
            enums: match self.enums {
                Some(enums) => Some(label_maps(enums)),
                None => None,
            },
            types: self.types,
        }
    }

    /// This lists a document: it is the document, with the entries of
    /// every enumeration in some order, each code once.
    pub open spec fn lists(self, document: Document) -> bool {
        &&& self.document() == document
        &&& self.enums matches Some(enums) ==> forall|i: int|
            0 <= i < enums.len() ==> distinct_keys((#[trigger] enums[i]).1)
    }
}

/// The enumerations of a document with each list of entries as a map.
pub open spec fn label_maps(enums: Seq<(Seq<char>, Seq<(u64, Seq<char>)>)>) -> Seq<
    (Seq<char>, LabelMap),
> {
    Seq::new(enums.len(), |i: int| (enums[i].0, map_of(enums[i].1)))
}

/// A name stands in the enumerations as maps where it stands in the
/// enumerations as lists.
pub proof fn lemma_label_maps_position(
    enums: Seq<(Seq<char>, Seq<(u64, Seq<char>)>)>,
    name: Seq<char>,
)
    ensures
        position(label_maps(enums), name) == position(enums, name),
    decreases enums.len(),
{
    if enums.len() > 0 {
        lemma_label_maps_position(enums.drop_last(), name);
        assert(label_maps(enums).drop_last() =~= label_maps(enums.drop_last()));
    }
}

/// An enumeration that comes into the lists comes into the maps as its
/// map.
pub proof fn lemma_label_maps_put(
    enums: Seq<(Seq<char>, Seq<(u64, Seq<char>)>)>,
    name: Seq<char>,
    labels: Seq<(u64, Seq<char>)>,
)
    ensures
        label_maps(put(enums, name, labels)) == put(label_maps(enums), name, map_of(labels)),
{
    lemma_label_maps_position(enums, name);
    lemma_position(enums, name);
    assert(label_maps(put(enums, name, labels)) =~= put(
        label_maps(enums),
        name,
        map_of(labels),
    ));
}

/// No name occurs twice among the maps exactly where none occurs twice
/// among the lists.
pub proof fn lemma_label_maps_distinct(enums: Seq<(Seq<char>, Seq<(u64, Seq<char>)>)>)
    ensures
        distinct_keys(label_maps(enums)) <==> distinct_keys(enums),
{
    let maps = label_maps(enums);
    if distinct_keys(enums) {
        assert forall|i: int, j: int| 0 <= i < j < maps.len() implies (#[trigger] maps[i]).0 != (
        #[trigger] maps[j]).0 by {
            assert(enums[i].0 != enums[j].0);
        }
    }
    if distinct_keys(maps) {
        assert forall|i: int, j: int| 0 <= i < j < enums.len() implies (#[trigger] enums[i]).0
            != (#[trigger] enums[j]).0 by {
            assert(maps[i].0 != maps[j].0);
        }
    }
}

/// A well-formed listing is the listing of a well-formed document, and
/// every listing of a well-formed document is well formed.
pub proof fn lemma_listing_wf(schema: Schema)
    ensures
        schema.wf() ==> schema.document().wf(),
        schema.lists(schema.document()) && schema.document().wf() ==> schema.wf(),
{
    if schema.enums is Some {
        lemma_label_maps_distinct(schema.enums->Some_0);
    }
}

impl Document {
    /// The named type that a name refers to: what a type reference is
    /// resolved to, when it is used.
    pub open spec fn named_type(self, name: Seq<char>) -> Option<TypeModel> {
        match self.types {
            Some(types) => find(types, name),
            None => None,
        }
    }

    /// The enumeration of a name.
    pub open spec fn enumeration(self, name: Seq<char>) -> Option<LabelMap> {
        match self.enums {
            Some(enums) => find(enums, name),
            None => None,
        }
    }

    /// The label that the enumeration of a name gives to a code.
    pub open spec fn label(self, name: Seq<char>, code: u64) -> Option<Seq<char>> {
        match self.enumeration(name) {
            Some(labels) => if labels.contains_key(code) {
                Some(labels[code])
            } else {
                None
            },
            None => None,
        }
    }

    /// What holds of every document that was read: the `id` is not empty,
    /// every field is well formed, and no name occurs twice in a table.
    pub open spec fn wf(self) -> bool {
        &&& self.meta.id.len() > 0
        &&& fields_wf(self.seq)
        &&& self.enums matches Some(enums) ==> distinct_keys(enums)
        &&& self.types matches Some(types) ==> {
            &&& distinct_keys(types)
            &&& forall|i: int| 0 <= i < types.len() ==> fields_wf((#[trigger] types[i]).1.seq)
        }
    }
}

impl DeepView for KaiTai {
    type V = Document;

    open spec fn deep_view(&self) -> Document {
        Document {
            meta: self.meta.deep_view(),
            seq: self.seq.deep_view(),
            enums: self.enums.deep_view(),
            types: self.types.deep_view(),
        }
    }
}

impl View for KaiTai {
    type V = Document;

    open spec fn view(&self) -> Document {
        self.deep_view()
    }
}

impl Default for KaiTai {
    fn default() -> (document: KaiTai)
        ensures
            document@ == (Document {
                meta: MetaModel { id: Seq::empty(), endian: None },
                seq: Seq::empty(),
                enums: None,
                types: None,
            }),
    {
        let document = KaiTai { meta: Meta::default(), seq: Vec::new(), enums: None, types: None };
        assert(document.seq.deep_view() =~= Seq::empty());
        document
    }
}

impl KaiTai {
    /// Looks up a named type. A type reference holds a name only; this is
    /// where the name is resolved.
    pub fn named_type(&self, name: &str) -> (definition: Option<&SeqValue>)
        ensures
            definition.deep_view() == self@.named_type(name@),
    {
        match &self.types {
            Some(types) => lookup(types, &String::from_str(name)),
            None => None,
        }
    }

    /// Looks up an enumeration by its name.
    pub fn enumeration(&self, name: &str) -> (labels: Option<&EnumTable>)
        ensures
            labels.deep_view() == self@.enumeration(name@),
    {
        match &self.enums {
            Some(enums) => lookup(enums, &String::from_str(name)),
            None => None,
        }
    }

    /// The label that the enumeration of a name gives to a code.
    pub fn label(&self, name: &str, code: u64) -> (label: Option<&String>)
        ensures
            label.deep_view() == self@.label(name@, code),
    {
        match self.enumeration(name) {
            Some(labels) => label_of(labels, code),
            None => None,
        }
    }
}

} // verus!
