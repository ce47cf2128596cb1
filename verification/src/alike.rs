//! Comparing documents as what they mean: a table is compared as a map,
//! whatever the order of its entries.

use vstd::prelude::*;
use crate::field::{Field, FieldModel, KType, KTypeModel, Repeat, Scalar};
use crate::labels::{same_labels, EnumTable, LabelMap};
use crate::schema::{Document, Endian, EnumTables, KaiTai, SeqValue, TypeModel, TypeTable};
use crate::table::{find, lemma_position, locate, lookup, position, Key};

verus! {

/// Values that can be compared as what they mean.
pub trait Alike: DeepView + Sized {
    /// Whether two models mean the same.
    spec fn alike(a: Self::V, b: Self::V) -> bool;

    /// Whether two values mean the same.
    fn is_alike(&self, other: &Self) -> (same: bool)
        ensures
            same == Self::alike(self.deep_view(), other.deep_view()),
    ;
}

impl Alike for String {
    open spec fn alike(a: Seq<char>, b: Seq<char>) -> bool {
        a == b
    }

    fn is_alike(&self, other: &Self) -> (same: bool) {
        *self == *other
    }
}

impl Alike for EnumTable {
    /// Two enumerations are alike where they are the same map.
    open spec fn alike(a: LabelMap, b: LabelMap) -> bool {
        a == b
    }

    fn is_alike(&self, other: &Self) -> (same: bool) {
        same_labels(self, other)
    }
}

/// Both are absent, or both are there and alike.
pub open spec fn alike_or_absent<V: Alike>(a: Option<V::V>, b: Option<V::V>) -> bool {
    match (a, b) {
        (Some(x), Some(y)) => V::alike(x, y),
        (None, None) => true,
        _ => false,
    }
}

/// Two tables are the same map: under every key both hold nothing, or both
/// hold values that are alike.
pub open spec fn same_tables<K, V: Alike>(a: Seq<(K, V::V)>, b: Seq<(K, V::V)>) -> bool {
    forall|key: K| alike_or_absent::<V>(#[trigger] find(a, key), find(b, key))
}

/// Every key of the first table has in the second a value like its own.
pub open spec fn covered<K, V: Alike>(a: Seq<(K, V::V)>, b: Seq<(K, V::V)>, n: int) -> bool {
    forall|i: int|
        0 <= i < n ==> find(b, (#[trigger] a[i]).0) is Some && V::alike(
            find(a, a[i].0)->Some_0,
            find(b, a[i].0)->Some_0,
        )
}

/// Every key of the first table is a key of the second.
pub open spec fn keys_within<K, V>(a: Seq<(K, V)>, b: Seq<(K, V)>, n: int) -> bool {
    forall|i: int| 0 <= i < n ==> find(b, (#[trigger] a[i]).0) is Some
}

/// Two tables are the same map exactly where each key of the first has a
/// like value in the second, and each key of the second is one of the
/// first.
pub proof fn lemma_same_tables<K, V: Alike>(a: Seq<(K, V::V)>, b: Seq<(K, V::V)>)
    ensures
        same_tables::<K, V>(a, b) <==> covered::<K, V>(a, b, a.len() as int) && keys_within(
            b,
            a,
            b.len() as int,
        ),
{
    if covered::<K, V>(a, b, a.len() as int) && keys_within(b, a, b.len() as int) {
        assert forall|key: K| alike_or_absent::<V>(#[trigger] find(a, key), find(b, key)) by {
            lemma_position(a, key);
            lemma_position(b, key);
            match position(a, key) {
                Some(i) => {
                    assert(a[i].0 == key);
                },
                None => {
                    if position(b, key) is Some {
                        let j = position(b, key)->Some_0;
                        assert(b[j].0 == key);
                    }
                },
            }
        }
    }
    if same_tables::<K, V>(a, b) {
        assert forall|i: int| 0 <= i < a.len() implies find(b, (#[trigger] a[i]).0) is Some
            && V::alike(find(a, a[i].0)->Some_0, find(b, a[i].0)->Some_0) by {
            lemma_position(a, a[i].0);
            assert(alike_or_absent::<V>(find(a, a[i].0), find(b, a[i].0)));
        }
        assert forall|j: int| 0 <= j < b.len() implies find(a, (#[trigger] b[j]).0) is Some by {
            lemma_position(b, b[j].0);
            assert(alike_or_absent::<V>(find(a, b[j].0), find(b, b[j].0)));
        }
    }
}

impl<K: Key, V: Alike> Alike for Vec<(K, V)> {
    open spec fn alike(a: Seq<(K::V, V::V)>, b: Seq<(K::V, V::V)>) -> bool {
        same_tables::<K::V, V>(a, b)
    }

    /// Whether two tables are the same map.
    fn is_alike(&self, other: &Self) -> (same: bool) {
        let ghost a = self.deep_view();
        let ghost b = other.deep_view();
        let mut i: usize = 0;
        while i < self.len()
            invariant
                i <= self.len(),
                a == self.deep_view(),
                b == other.deep_view(),
                covered::<K::V, V>(a, b, i as int),
            decreases self.len() - i,
        {
            proof {
                lemma_position(a, a[i as int].0);
            }
            let mine = lookup(self, &self[i].0);
            let theirs = lookup(other, &self[i].0);
            let like = match (mine, theirs) {
                (Some(x), Some(y)) => x.is_alike(y),
                _ => false,
            };
            if !like {
                proof {
                    lemma_same_tables::<K::V, V>(a, b);
                }
                return false;
            }
            i = i + 1;
        }
        let mut j: usize = 0;
        while j < other.len()
            invariant
                j <= other.len(),
                a == self.deep_view(),
                b == other.deep_view(),
                covered::<K::V, V>(a, b, a.len() as int),
                keys_within(b, a, j as int),
            decreases other.len() - j,
        {
            if locate(self, &other[j].0).is_none() {
                proof {
                    lemma_same_tables::<K::V, V>(a, b);
                    assert(find(a, b[j as int].0) is None);
                }
                return false;
            }
            j = j + 1;
        }
        proof {
            lemma_same_tables::<K::V, V>(a, b);
        }
        true
    }
}

fn same_text(a: &Option<String>, b: &Option<String>) -> (same: bool)
    ensures
        same == (a.deep_view() == b.deep_view()),
{
    match (a, b) {
        (Some(x), Some(y)) => *x == *y,
        (None, None) => true,
        _ => false,
    }
}

fn same_repeat(a: &Option<Repeat>, b: &Option<Repeat>) -> (same: bool)
    ensures
        same == (*a == *b),
{
    match (a, b) {
        (Some(Repeat::EndOfStream), Some(Repeat::EndOfStream)) => true,
        (Some(Repeat::Expression), Some(Repeat::Expression)) => true,
        (Some(Repeat::Until), Some(Repeat::Until)) => true,
        (None, None) => true,
        _ => false,
    }
}

fn same_endian(a: &Option<Endian>, b: &Option<Endian>) -> (same: bool)
    ensures
        same == (*a == *b),
{
    match (a, b) {
        (Some(Endian::Le), Some(Endian::Le)) => true,
        (Some(Endian::Be), Some(Endian::Be)) => true,
        (None, None) => true,
        _ => false,
    }
}

/// Two types are alike: the same name, or switches on the same expression
/// whose cases are the same map.
pub open spec fn types_alike(a: Option<KTypeModel>, b: Option<KTypeModel>) -> bool {
    match (a, b) {
        (None, None) => true,
        (Some(KTypeModel::Type(x)), Some(KTypeModel::Type(y))) => x == y,
        (Some(KTypeModel::Switch(s)), Some(KTypeModel::Switch(t))) => s.switch_on == t.switch_on
            && same_tables::<Scalar, String>(s.cases, t.cases),
        _ => false,
    }
}

fn same_type(a: &Option<KType>, b: &Option<KType>) -> (same: bool)
    ensures
        same == types_alike(a.deep_view(), b.deep_view()),
{
    match (a, b) {
        (None, None) => true,
        (Some(KType::Type(x)), Some(KType::Type(y))) => *x == *y,
        (Some(KType::Switch(s)), Some(KType::Switch(t))) => s.switch_on == t.switch_on
            && s.cases.is_alike(&t.cases),
        _ => false,
    }
}

impl Alike for Field {
    /// Two fields are alike: every attribute is the same, and the types are
    /// alike.
    open spec fn alike(a: FieldModel, b: FieldModel) -> bool {
        &&& a.id == b.id
        &&& a.size == b.size
        &&& types_alike(a.k_type, b.k_type)
        &&& a.encoding == b.encoding
        &&& a.doc == b.doc
        &&& a.contents == b.contents
        &&& a.terminator == b.terminator
        &&& a.k_enum == b.k_enum
        &&& a.k_if == b.k_if
        &&& a.repeat == b.repeat
        &&& a.repeat_expr == b.repeat_expr
        &&& a.repeat_until == b.repeat_until
    }

    fn is_alike(&self, other: &Self) -> (same: bool) {
        self.id == other.id && same_text(&self.size, &other.size) && same_type(
            &self.k_type,
            &other.k_type,
        ) && same_text(&self.encoding, &other.encoding) && same_text(&self.doc, &other.doc)
            && same_text(&self.contents, &other.contents) && same_text(
            &self.terminator,
            &other.terminator,
        ) && same_text(&self.k_enum, &other.k_enum) && same_text(&self.k_if, &other.k_if)
            && same_repeat(&self.repeat, &other.repeat) && same_text(
            &self.repeat_expr,
            &other.repeat_expr,
        ) && same_text(&self.repeat_until, &other.repeat_until)
    }
}

/// Two field sequences are alike: as long as each other, with like fields
/// in each place.
pub open spec fn fields_alike(a: Seq<FieldModel>, b: Seq<FieldModel>) -> bool {
    &&& a.len() == b.len()
    &&& forall|i: int| 0 <= i < a.len() ==> Field::alike(#[trigger] a[i], b[i])
}

fn same_fields(a: &Vec<Field>, b: &Vec<Field>) -> (same: bool)
    ensures
        same == fields_alike(a.deep_view(), b.deep_view()),
{
    if a.len() != b.len() {
        return false;
    }
    let mut i: usize = 0;
    while i < a.len()
        invariant
            i <= a.len(),
            a.len() == b.len(),
            forall|k: int|
                0 <= k < i ==> Field::alike(#[trigger] a.deep_view()[k], b.deep_view()[k]),
        decreases a.len() - i,
    {
        if !a[i].is_alike(&b[i]) {
            assert(!Field::alike(a.deep_view()[i as int], b.deep_view()[i as int]));
            return false;
        }
        i = i + 1;
    }
    true
}

impl Alike for SeqValue {
    /// Two named types are alike where their field sequences are.
    open spec fn alike(a: TypeModel, b: TypeModel) -> bool {
        fields_alike(a.seq, b.seq)
    }

    fn is_alike(&self, other: &Self) -> (same: bool) {
        same_fields(&self.seq, &other.seq)
    }
}

fn same_enums(a: &Option<EnumTables>, b: &Option<EnumTables>) -> (same: bool)
    ensures
        same == alike_or_absent::<EnumTables>(a.deep_view(), b.deep_view()),
{
    match (a, b) {
        (Some(x), Some(y)) => x.is_alike(y),
        (None, None) => true,
        _ => false,
    }
}

fn same_types(a: &Option<TypeTable>, b: &Option<TypeTable>) -> (same: bool)
    ensures
        same == alike_or_absent::<TypeTable>(a.deep_view(), b.deep_view()),
{
    match (a, b) {
        (Some(x), Some(y)) => x.is_alike(y),
        (None, None) => true,
        _ => false,
    }
}

impl Alike for KaiTai {
    /// Two documents are alike: the same metadata, like field sequences,
    /// and enumerations and named types that are the same maps, whatever
    /// the order of their entries.
    open spec fn alike(a: Document, b: Document) -> bool {
        &&& a.meta == b.meta
        &&& fields_alike(a.seq, b.seq)
        &&& alike_or_absent::<EnumTables>(a.enums, b.enums)
        &&& alike_or_absent::<TypeTable>(a.types, b.types)
    }

    fn is_alike(&self, other: &Self) -> (same: bool) {
        self.meta.id == other.meta.id && same_endian(&self.meta.endian, &other.meta.endian)
            && same_fields(&self.seq, &other.seq) && same_enums(&self.enums, &other.enums)
            && same_types(&self.types, &other.types)
    }
}

} // verus!
