//! Enumerations: labels by code, held in a hash map.

use std::collections::HashMap;
use vstd::prelude::*;
use crate::table::{distinct_keys, lemma_map_of_table, map_of};

verus! {

broadcast use vstd::std_specs::hash::group_hash_axioms;

/// An enumeration: labels by code. A code is an integer between 0 and
/// 2^64 - 1.
pub type EnumTable = HashMap<u64, String>;

/// The model of an [`EnumTable`].
pub type LabelMap = Map<u64, Seq<char>>;

/// The model of an enumeration holds the text of each label under its
/// code.
pub proof fn lemma_labels_view(table: EnumTable)
    ensures
        table.deep_view() == table@.map_values(|label: String| label@),
{
    assert(vstd::relations::injective(|code: u64| code.deep_view()));
    vstd::std_specs::hash::lemma_hashmap_deepview_properties(table);
    vstd::std_specs::hash::lemma_hashmap_deepview_dom(table);
    assert(table.deep_view().dom() =~= table@.dom()) by {
        assert forall|code: u64| table@.dom().contains(code) implies table.deep_view().dom().contains(
            code,
        ) by {
            assert(table@.contains_key(code));
        }
    }
    assert(table.deep_view() =~= table@.map_values(|label: String| label@));
}

/// An enumeration without entries.
pub fn no_labels() -> (table: EnumTable)
    ensures
        table.deep_view() == Map::<u64, Seq<char>>::empty(),
{
    let table: EnumTable = HashMap::new();
    proof {
        lemma_labels_view(table);
        assert(table.deep_view() =~= Map::<u64, Seq<char>>::empty());
    }
    table
}

/// Gives a code its label; a label that the code had is replaced.
pub fn insert_label(table: &mut EnumTable, code: u64, label: String)
    ensures
        final(table).deep_view() == old(table).deep_view().insert(code, label@),
{
    proof {
        lemma_labels_view(*table);
    }
    let ghost before = table.deep_view();
    table.insert(code, label);
    proof {
        lemma_labels_view(*table);
        assert(table.deep_view() =~= before.insert(code, label@));
    }
}

/// The label of a code.
pub fn label_of<'a>(table: &'a EnumTable, code: u64) -> (label: Option<&'a String>)
    ensures
        label.deep_view() == (if table.deep_view().contains_key(code) {
            Some(table.deep_view()[code])
        } else {
            None
        }),
{
    proof {
        lemma_labels_view(*table);
    }
    table.get(&code)
}

/// A list that holds each entry of an enumeration once, and nothing else,
/// has the enumeration as its map.
pub proof fn lemma_listing(table: EnumTable, list: Vec<(u64, String)>)
    requires
        forall|i: int, j: int|
            0 <= i < j < list@.len() ==> (#[trigger] list@[i]).0 != (#[trigger] list@[j]).0,
        forall|i: int|
            0 <= i < list@.len() ==> table@.contains_key((#[trigger] list@[i]).0)
                && table@[list@[i].0] == list@[i].1,
        forall|code: u64|
            table@.contains_key(code) ==> exists|i: int|
                0 <= i < list@.len() && (#[trigger] list@[i]).0 == code,
    ensures
        distinct_keys(list.deep_view()),
        map_of(list.deep_view()) == table.deep_view(),
{
    let model = list.deep_view();
    lemma_labels_view(table);
    assert(distinct_keys(model)) by {
        assert forall|i: int, j: int| 0 <= i < j < model.len() implies (#[trigger] model[i]).0
            != (#[trigger] model[j]).0 by {
            assert(list@[i].0 != list@[j].0);
        }
    }
    lemma_map_of_table(model);
    assert(map_of(model) =~= table.deep_view()) by {
        assert forall|code: u64| table.deep_view().contains_key(code) implies map_of(
            model,
        ).contains_key(code) by {
            assert(table@.contains_key(code));
            let i = choose|i: int| 0 <= i < list@.len() && (#[trigger] list@[i]).0 == code;
            assert(model[i].0 == code);
        }
        assert forall|code: u64| map_of(model).contains_key(code) implies table.deep_view().contains_key(
            code,
        ) && table.deep_view()[code] == map_of(model)[code] by {
            let i = choose|i: int| 0 <= i < model.len() && (#[trigger] model[i]).0 == code;
            assert(list@[i].0 == code);
            assert(model[i].1 == list@[i].1@);
        }
    }
}

/// The entries of an enumeration as a list, each code once. The order of
/// the list is the order in which the hash map is walked; nothing is known
/// of it.
pub fn listing(table: &EnumTable) -> (list: Vec<(u64, String)>)
    ensures
        distinct_keys(list.deep_view()),
        map_of(list.deep_view()) == table.deep_view(),
{
    let mut list: Vec<(u64, String)> = Vec::new();
    for pair in it: table.iter()
        invariant
            list@.len() == it.index(),
            it.seq().no_duplicates(),
            forall|i: int|
                0 <= i < it.seq().len() ==> table@.contains_key(*(#[trigger] it.seq()[i]).0)
                    && table@[*it.seq()[i].0] == *it.seq()[i].1,
            forall|code: u64|
                table@.contains_key(code) ==> it.seq().contains((&code, &table@[code])),
            forall|i: int|
                #![trigger list@[i]]
                #![trigger it.seq()[i]]
                0 <= i < list@.len() ==> list@[i].0 == *it.seq()[i].0 && list@[i].1
                    == *it.seq()[i].1,
            forall|i: int, j: int|
                0 <= i < j < list@.len() ==> (#[trigger] list@[i]).0 != (#[trigger] list@[j]).0,
    {
        proof {
            let n = it.index();
            assert forall|i: int| 0 <= i < n implies (#[trigger] list@[i]).0 != *pair.0 by {
                if list@[i].0 == *pair.0 {
                    assert(it.seq()[i] == it.seq()[n]);
                }
            }
        }
        list.push((*pair.0, pair.1.clone()));
    }
    proof {
        assert forall|i: int| 0 <= i < list@.len() implies table@.contains_key(
            (#[trigger] list@[i]).0,
        ) && table@[list@[i].0] == list@[i].1 by {}
        assert forall|code: u64| table@.contains_key(code) implies exists|i: int|
            0 <= i < list@.len() && (#[trigger] list@[i]).0 == code by {}
        lemma_listing(*table, list);
    }
    list
}

/// Whether two enumerations give the same labels to the same codes.
pub fn same_labels(a: &EnumTable, b: &EnumTable) -> (same: bool)
    ensures
        same == (a.deep_view() == b.deep_view()),
{
    let mine = listing(a);
    let theirs = listing(b);
    proof {
        lemma_map_of_table(mine.deep_view());
        lemma_map_of_table(theirs.deep_view());
    }
    let mut i: usize = 0;
    while i < mine.len()
        invariant
            i <= mine.len(),
            map_of(mine.deep_view()) == a.deep_view(),
            distinct_keys(mine.deep_view()),
            forall|k: int|
                0 <= k < i ==> b.deep_view().contains_key((#[trigger] mine.deep_view()[k]).0)
                    && b.deep_view()[mine.deep_view()[k].0] == mine.deep_view()[k].1,
        decreases mine.len() - i,
    {
        proof {
            lemma_map_of_table(mine.deep_view());
        }
        let like = match label_of(b, mine[i].0) {
            Some(label) => *label == mine[i].1,
            None => false,
        };
        if !like {
            proof {
                let code = mine.deep_view()[i as int].0;
                assert(a.deep_view().contains_key(code));
                assert(a.deep_view()[code] == mine.deep_view()[i as int].1);
            }
            return false;
        }
        i = i + 1;
    }
    let mut j: usize = 0;
    while j < theirs.len()
        invariant
            j <= theirs.len(),
            map_of(mine.deep_view()) == a.deep_view(),
            map_of(theirs.deep_view()) == b.deep_view(),
            distinct_keys(mine.deep_view()),
            distinct_keys(theirs.deep_view()),
            forall|k: int|
                0 <= k < mine.len() ==> b.deep_view().contains_key(
                    (#[trigger] mine.deep_view()[k]).0,
                ) && b.deep_view()[mine.deep_view()[k].0] == mine.deep_view()[k].1,
            forall|k: int|
                0 <= k < j ==> a.deep_view().contains_key((#[trigger] theirs.deep_view()[k]).0),
        decreases theirs.len() - j,
    {
        proof {
            lemma_map_of_table(theirs.deep_view());
        }
        if label_of(a, theirs[j].0).is_none() {
            proof {
                let code = theirs.deep_view()[j as int].0;
                assert(b.deep_view().contains_key(code));
            }
            return false;
        }
        j = j + 1;
    }
    proof {
        lemma_map_of_table(mine.deep_view());
        lemma_map_of_table(theirs.deep_view());
        assert(a.deep_view() =~= b.deep_view()) by {
            assert forall|code: u64| a.deep_view().contains_key(code) implies b.deep_view().contains_key(
                code,
            ) && a.deep_view()[code] == b.deep_view()[code] by {
                let k = choose|k: int|
                    0 <= k < mine.deep_view().len() && (#[trigger] mine.deep_view()[k]).0 == code;
                assert(b.deep_view().contains_key(mine.deep_view()[k].0));
            }
            assert forall|code: u64| b.deep_view().contains_key(code) implies a.deep_view().contains_key(
                code,
            ) by {
                let k = choose|k: int|
                    0 <= k < theirs.deep_view().len() && (#[trigger] theirs.deep_view()[k]).0
                        == code;
                assert(a.deep_view().contains_key(theirs.deep_view()[k].0));
            }
        }
    }
    true
}

} // verus!
