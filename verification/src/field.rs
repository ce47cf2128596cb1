//! Field descriptors: the entries of a field sequence.

use vstd::prelude::*;
use crate::table::{distinct_keys, find, lookup, Key};

verus! {

/// How a field repeats. A field without a repeat mode stands exactly once.
#[derive(Debug, Clone, Copy, PartialEq, Eq, Hash)]
pub enum Repeat {
    /// Until the input ends.
    EndOfStream,
    /// As many times as `repeat-expr` says.
    Expression,
    /// Until `repeat-until` holds.
    Until,
}

impl Default for Repeat {
    /// The mode of a `repeat` key that names none.
    fn default() -> (mode: Repeat)
        ensures
            mode == Repeat::EndOfStream,
    {
        Repeat::EndOfStream
    }
}

/// A key of a switch table: an integer or a text. The integer 1 and the text
/// `1` are different keys.
#[derive(Debug, Clone, PartialEq, Eq, PartialOrd, Ord, Hash)]
pub enum Primitive {
    Int(i128),
    Str(String),
}

/// The model of a [`Primitive`].
pub enum Scalar {
    Int(int),
    Str(Seq<char>),
}

impl DeepView for Primitive {
    type V = Scalar;

    open spec fn deep_view(&self) -> Scalar {
        match self {
            Primitive::Int(v) => Scalar::Int(*v as int),
            Primitive::Str(s) => Scalar::Str(s@),
        }
    }
}

impl View for Primitive {
    type V = Scalar;

    open spec fn view(&self) -> Scalar {
        self.deep_view()
    }
}

impl Key for Primitive {
    fn same(&self, other: &Self) -> (same: bool) {
        match (self, other) {
            (Primitive::Int(a), Primitive::Int(b)) => *a == *b,
            (Primitive::Str(a), Primitive::Str(b)) => *a == *b,
            _ => false,
        }
    }
}

/// A switch: the text of the expression that decides, and for each of its
/// values the name of a type.
#[derive(Debug, Clone, PartialEq, Eq)]
pub struct KTypeSwitch {
    pub switch_on: String,
    pub cases: Vec<(Primitive, String)>,
}

/// The model of a [`KTypeSwitch`].
pub struct SwitchModel {
    pub switch_on: Seq<char>,
    pub cases: Seq<(Scalar, Seq<char>)>,
}

impl DeepView for KTypeSwitch {
    type V = SwitchModel;

    open spec fn deep_view(&self) -> SwitchModel {
        SwitchModel { switch_on: self.switch_on@, cases: self.cases.deep_view() }
    }
}

impl View for KTypeSwitch {
    type V = SwitchModel;

    open spec fn view(&self) -> SwitchModel {
        self.deep_view()
    }
}

impl KTypeSwitch {
    /// The name of the type that the switch gives to a key.
    pub fn case(&self, key: &Primitive) -> (name: Option<&String>)
        ensures
            name.deep_view() == find(self@.cases, key@),
    {
        lookup(&self.cases, key)
    }
}

impl Default for KTypeSwitch {
    fn default() -> (switch: KTypeSwitch)
        ensures
            switch@ == (SwitchModel { switch_on: Seq::empty(), cases: Seq::empty() }),
    {
        let switch = KTypeSwitch { switch_on: String::new(), cases: Vec::new() };
        assert(switch.cases.deep_view() =~= Seq::empty());
        switch
    }
}

/// The type of a field: the name of a type, or a switch between names. A
/// name is kept as a name: it is looked up when it is used, and may name a
/// type that is defined later, or the type it stands in.
#[derive(Debug, Clone, PartialEq, Eq)]
pub enum KType {
    Type(String),
    Switch(KTypeSwitch),
}

/// The model of a [`KType`].
pub enum KTypeModel {
    Type(Seq<char>),
    Switch(SwitchModel),
}

impl DeepView for KType {
    type V = KTypeModel;

    open spec fn deep_view(&self) -> KTypeModel {
        match self {
            KType::Type(name) => KTypeModel::Type(name@),
            KType::Switch(switch) => KTypeModel::Switch(switch.deep_view()),
        }
    }
}

impl View for KType {
    type V = KTypeModel;

    open spec fn view(&self) -> KTypeModel {
        self.deep_view()
    }
}

impl Default for KType {
    fn default() -> (k_type: KType)
        ensures
            k_type@ == KTypeModel::Type(Seq::empty()),
    {
        KType::Type(String::new())
    }
}

/// One field of a sequence. Only `id` is required; two fields of one
/// sequence may have the same `id`.
#[derive(Debug, Clone, PartialEq, Eq)]
pub struct Field {
    pub id: String,
    pub size: Option<String>,
    pub k_type: Option<KType>,
    pub encoding: Option<String>,
    pub doc: Option<String>,
    pub contents: Option<String>,
    pub terminator: Option<String>,
    pub k_enum: Option<String>,
    pub k_if: Option<String>,
    pub repeat: Option<Repeat>,
    pub repeat_expr: Option<String>,
    pub repeat_until: Option<String>,
}

/// The model of a [`Field`].
pub struct FieldModel {
    pub id: Seq<char>,
    pub size: Option<Seq<char>>,
    pub k_type: Option<KTypeModel>,
    pub encoding: Option<Seq<char>>,
    pub doc: Option<Seq<char>>,
    pub contents: Option<Seq<char>>,
    pub terminator: Option<Seq<char>>,
    pub k_enum: Option<Seq<char>>,
    pub k_if: Option<Seq<char>>,
    pub repeat: Option<Repeat>,
    pub repeat_expr: Option<Seq<char>>,
    pub repeat_until: Option<Seq<char>>,
}

impl FieldModel {
    /// The field with this `id` and nothing else.
    pub open spec fn bare(id: Seq<char>) -> FieldModel {
        FieldModel {
            id,
            size: None,
            k_type: None,
            encoding: None,
            doc: None,
            contents: None,
            terminator: None,
            k_enum: None,
            k_if: None,
            repeat: None,
            repeat_expr: None,
            repeat_until: None,
        }
    }

    /// A repeat mode has the parameter it needs, and no key of a switch
    /// occurs twice.
    pub open spec fn wf(self) -> bool {
        &&& self.repeat == Some(Repeat::Expression) ==> self.repeat_expr is Some
        &&& self.repeat == Some(Repeat::Until) ==> self.repeat_until is Some
        &&& self.k_type matches Some(KTypeModel::Switch(switch)) ==> distinct_keys(switch.cases)
    }
}

impl DeepView for Field {
    type V = FieldModel;

    open spec fn deep_view(&self) -> FieldModel {
        FieldModel {
            id: self.id@,
            size: self.size.deep_view(),
            k_type: self.k_type.deep_view(),
            encoding: self.encoding.deep_view(),
            doc: self.doc.deep_view(),
            contents: self.contents.deep_view(),
            terminator: self.terminator.deep_view(),
            k_enum: self.k_enum.deep_view(),
            k_if: self.k_if.deep_view(),
            repeat: self.repeat,
            repeat_expr: self.repeat_expr.deep_view(),
            repeat_until: self.repeat_until.deep_view(),
        }
    }
}

impl View for Field {
    type V = FieldModel;

    open spec fn view(&self) -> FieldModel {
        self.deep_view()
    }
}

impl Default for Field {
    /// The field with an empty `id` and nothing else: no type, no repeat
    /// mode.
    fn default() -> (field: Field)
        ensures
            field@ == FieldModel::bare(Seq::empty()),
    {
        Field {
            id: String::new(),
            size: None,
            k_type: None,
            encoding: None,
            doc: None,
            contents: None,
            terminator: None,
            k_enum: None,
            k_if: None,
            repeat: None,
            repeat_expr: None,
            repeat_until: None,
        }
    }
}

/// All the fields of a sequence are well formed.
pub open spec fn fields_wf(fields: Seq<FieldModel>) -> bool {
    forall|i: int| 0 <= i < fields.len() ==> (#[trigger] fields[i]).wf()
}

} // verus!
