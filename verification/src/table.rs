//! Tables: lists of key and value in which no key occurs twice, kept in the
//! order in which the keys first came.

use vstd::prelude::*;
use crate::error::Failure;

verus! {

/// Where a key stands in a list of pairs: the first position that holds it.
pub open spec fn position<K, V>(table: Seq<(K, V)>, key: K) -> Option<int>
    decreases table.len(),
{
    if table.len() == 0 {
        None
    } else {
        match position(table.drop_last(), key) {
            Some(i) => Some(i),
            None => if table.last().0 == key {
                Some(table.len() - 1)
            } else {
                None
            },
        }
    }
}

/// The value that a table holds under a key.
pub open spec fn find<K, V>(table: Seq<(K, V)>, key: K) -> Option<V> {
    match position(table, key) {
        Some(i) => Some(table[i].1),
        None => None,
    }
}

/// The table after a pair has come in: a key that is there keeps its place
/// and gets the new value, a new key goes to the end.
pub open spec fn put<K, V>(table: Seq<(K, V)>, key: K, value: V) -> Seq<(K, V)> {
    match position(table, key) {
        Some(i) => table.update(i, (key, value)),
        None => table.push((key, value)),
    }
}

/// The table that a list of pairs gives when they come in one by one: of two
/// pairs with one key the later value stays.
pub open spec fn assoc<K, V>(pairs: Seq<(K, V)>) -> Seq<(K, V)>
    decreases pairs.len(),
{
    if pairs.len() == 0 {
        Seq::empty()
    } else {
        put(assoc(pairs.drop_last()), pairs.last().0, pairs.last().1)
    }
}

/// The map that a list of pairs gives when they come in one by one: of two
/// pairs with one key the later value stays.
pub open spec fn map_of<K, V>(pairs: Seq<(K, V)>) -> Map<K, V>
    decreases pairs.len(),
{
    if pairs.len() == 0 {
        Map::empty()
    } else {
        map_of(pairs.drop_last()).insert(pairs.last().0, pairs.last().1)
    }
}

/// No key occurs twice.
pub open spec fn distinct_keys<K, V>(table: Seq<(K, V)>) -> bool {
    forall|i: int, j: int|
        0 <= i < j < table.len() ==> (#[trigger] table[i]).0 != (#[trigger] table[j]).0
}

/// All the values of a list of results, or the failure of the first that
/// failed.
pub open spec fn gather<T>(results: Seq<Result<T, Failure>>) -> Result<Seq<T>, Failure>
    decreases results.len(),
{
    if results.len() == 0 {
        Ok(Seq::empty())
    } else {
        match gather(results.drop_last()) {
            Err(e) => Err(e),
            Ok(values) => match results.last() {
                Err(e) => Err(e),
                Ok(v) => Ok(values.push(v)),
            },
        }
    }
}

/// What `position` finds is the first place of the key, and it finds
/// nothing only where the key is nowhere.
pub proof fn lemma_position<K, V>(table: Seq<(K, V)>, key: K)
    ensures
        match position(table, key) {
            Some(i) => 0 <= i < table.len() && table[i].0 == key && forall|j: int|
                0 <= j < i ==> (#[trigger] table[j]).0 != key,
            None => forall|j: int| 0 <= j < table.len() ==> (#[trigger] table[j]).0 != key,
        },
    decreases table.len(),
{
    if table.len() > 0 {
        let front = table.drop_last();
        lemma_position(front, key);
        assert(forall|j: int| 0 <= j < front.len() ==> front[j] == table[j]);
    }
}

/// A table stays a table when a pair comes in.
pub proof fn lemma_put_distinct<K, V>(table: Seq<(K, V)>, key: K, value: V)
    requires
        distinct_keys(table),
    ensures
        distinct_keys(put(table, key, value)),
{
    lemma_position(table, key);
}

/// What pairs give when they come in one by one is a table.
pub proof fn lemma_assoc_distinct<K, V>(pairs: Seq<(K, V)>)
    ensures
        distinct_keys(assoc(pairs)),
    decreases pairs.len(),
{
    if pairs.len() > 0 {
        lemma_assoc_distinct(pairs.drop_last());
        lemma_put_distinct(assoc(pairs.drop_last()), pairs.last().0, pairs.last().1);
    }
}

/// The pairs of a table, coming in one by one, give the table again.
pub proof fn lemma_assoc_of_table<K, V>(table: Seq<(K, V)>)
    requires
        distinct_keys(table),
    ensures
        assoc(table) == table,
    decreases table.len(),
{
    if table.len() > 0 {
        let front = table.drop_last();
        lemma_assoc_of_table(front);
        lemma_position(front, table.last().0);
        assert(front.push(table.last()) =~= table);
    }
}

/// Results that all succeeded give their values.
pub proof fn lemma_gather_ok<T>(results: Seq<Result<T, Failure>>, values: Seq<T>)
    requires
        results.len() == values.len(),
        forall|i: int| 0 <= i < values.len() ==> results[i] == Ok::<T, Failure>(values[i]),
    ensures
        gather(results) == Ok::<Seq<T>, Failure>(values),
    decreases results.len(),
{
    if results.len() > 0 {
        lemma_gather_ok(results.drop_last(), values.drop_last());
        assert(values.drop_last().push(values.last()) =~= values);
    } else {
        assert(values =~= Seq::empty());
    }
}

/// Gathering one result more: the step that a loop over the results takes.
pub proof fn lemma_gather_step<T>(results: Seq<Result<T, Failure>>, n: int)
    requires
        0 <= n < results.len(),
    ensures
        gather(results.take(n + 1)) == (match gather(results.take(n)) {
            Err(e) => Err(e),
            Ok(values) => match results[n] {
                Err(e) => Err(e),
                Ok(v) => Ok(values.push(v)),
            },
        }),
{
    assert(results.take(n + 1).drop_last() =~= results.take(n));
}

/// A failure among the first results is the failure of them all.
pub proof fn lemma_gather_failed<T>(results: Seq<Result<T, Failure>>, n: int)
    requires
        0 <= n <= results.len(),
        gather(results.take(n)) is Err,
    ensures
        gather(results) == gather(results.take(n)),
    decreases results.len() - n,
{
    if n < results.len() {
        lemma_gather_step(results, n);
        lemma_gather_failed(results, n + 1);
    } else {
        assert(results.take(n) =~= results);
    }
}

/// Values that were gathered are the values of the results, one for one.
pub proof fn lemma_gather_values<T>(results: Seq<Result<T, Failure>>, values: Seq<T>)
    requires
        gather(results) == Ok::<Seq<T>, Failure>(values),
    ensures
        values.len() == results.len(),
        forall|i: int| 0 <= i < values.len() ==> results[i] == Ok::<T, Failure>(values[i]),
    decreases results.len(),
{
    if results.len() > 0 {
        let front = gather(results.drop_last())->Ok_0;
        lemma_gather_values(results.drop_last(), front);
        assert forall|i: int| 0 <= i < values.len() implies results[i] == Ok::<T, Failure>(
            values[i],
        ) by {
            if i < values.len() - 1 {
                assert(results.drop_last()[i] == results[i]);
            }
        }
    }
}

/// Every pair of the table that pairs give is one of the pairs.
pub proof fn lemma_assoc_members<K, V>(pairs: Seq<(K, V)>)
    ensures
        forall|i: int|
            0 <= i < assoc(pairs).len() ==> exists|j: int|
                0 <= j < pairs.len() && pairs[j] == #[trigger] assoc(pairs)[i],
    decreases pairs.len(),
{
    if pairs.len() > 0 {
        let front = pairs.drop_last();
        lemma_assoc_members(front);
        lemma_position(assoc(front), pairs.last().0);
        assert forall|i: int| 0 <= i < assoc(pairs).len() implies exists|j: int|
            0 <= j < pairs.len() && pairs[j] == #[trigger] assoc(pairs)[i] by {
            if assoc(pairs)[i] == pairs.last() {
                assert(pairs[pairs.len() - 1] == assoc(pairs)[i]);
            } else {
                assert(assoc(pairs)[i] == assoc(front)[i]);
                let j = choose|j: int| 0 <= j < front.len() && front[j] == assoc(front)[i];
                assert(pairs[j] == assoc(pairs)[i]);
            }
        }
    }
}

/// The map of a table holds under each key of the table its value, and
/// nothing under any other key.
pub proof fn lemma_map_of_table<K, V>(table: Seq<(K, V)>)
    requires
        distinct_keys(table),
    ensures
        forall|i: int|
            0 <= i < table.len() ==> map_of(table).contains_key((#[trigger] table[i]).0) && map_of(
                table,
            )[table[i].0] == table[i].1,
        forall|key: K|
            map_of(table).contains_key(key) ==> exists|i: int|
                0 <= i < table.len() && (#[trigger] table[i]).0 == key,
    decreases table.len(),
{
    if table.len() > 0 {
        let front = table.drop_last();
        lemma_map_of_table(front);
        assert forall|i: int| 0 <= i < table.len() implies map_of(table).contains_key(
            (#[trigger] table[i]).0,
        ) && map_of(table)[table[i].0] == table[i].1 by {
            if i < front.len() {
                assert(front[i] == table[i]);
                assert(table[i].0 != table[table.len() - 1].0);
            }
        }
        assert forall|key: K| map_of(table).contains_key(key) implies exists|i: int|
            0 <= i < table.len() && (#[trigger] table[i]).0 == key by {
            if key == table.last().0 {
                assert(table[table.len() - 1].0 == key);
            } else {
                assert(map_of(front).contains_key(key));
                let i = choose|i: int| 0 <= i < front.len() && (#[trigger] front[i]).0 == key;
                assert(table[i].0 == key);
            }
        }
    }
}

/// A pair that comes into a table comes into its map.
pub proof fn lemma_map_of_put<K, V>(table: Seq<(K, V)>, key: K, value: V)
    requires
        distinct_keys(table),
    ensures
        map_of(put(table, key, value)) == map_of(table).insert(key, value),
    decreases table.len(),
{
    lemma_position(table, key);
    match position(table, key) {
        None => {
            assert(table.push((key, value)).drop_last() =~= table);
        },
        Some(i) => {
            let front = table.drop_last();
            let after = table.update(i, (key, value));
            if i == table.len() - 1 {
                assert(after.drop_last() =~= front);
                assert(map_of(after) =~= map_of(table).insert(key, value));
            } else {
                lemma_position(front, key);
                assert(front[i] == table[i]);
                lemma_map_of_put(front, key, value);
                assert(after.drop_last() =~= front.update(i, (key, value)));
                assert(after.last() == table.last());
                assert(position(front, key) == Some(i));
                assert(table[i].0 != table[table.len() - 1].0);
                assert(map_of(after) =~= map_of(table).insert(key, value));
            }
        },
    }
}

/// The table that pairs give has the map that the pairs give.
pub proof fn lemma_map_of_assoc<K, V>(pairs: Seq<(K, V)>)
    ensures
        map_of(assoc(pairs)) == map_of(pairs),
    decreases pairs.len(),
{
    if pairs.len() > 0 {
        lemma_map_of_assoc(pairs.drop_last());
        lemma_assoc_distinct(pairs.drop_last());
        lemma_map_of_put(assoc(pairs.drop_last()), pairs.last().0, pairs.last().1);
    }
}

/// A key that verified code can compare.
pub trait Key: DeepView + Sized {
    /// Whether two keys are the same.
    fn same(&self, other: &Self) -> (same: bool)
        ensures
            same == (self.deep_view() == other.deep_view()),
    ;
}

impl Key for String {
    fn same(&self, other: &Self) -> (same: bool) {
        *self == *other
    }
}

impl Key for u64 {
    fn same(&self, other: &Self) -> (same: bool) {
        *self == *other
    }
}

/// The first position of a key in a list of pairs.
pub fn locate<K: Key, V: DeepView>(table: &Vec<(K, V)>, key: &K) -> (at: Option<usize>)
    ensures
        match at {
            Some(i) => i < table.len() && position(table.deep_view(), key.deep_view()) == Some(
                i as int,
            ),
            None => position(table.deep_view(), key.deep_view()) is None,
        },
{
    let ghost model = table.deep_view();
    let mut i: usize = 0;
    while i < table.len()
        invariant
            i <= table.len(),
            model == table.deep_view(),
            position(model.take(i as int), key.deep_view()) is None,
        decreases table.len() - i,
    {
        proof {
            assert(model.take(i + 1).drop_last() =~= model.take(i as int));
        }
        if table[i].0.same(key) {
            proof {
                let k = key.deep_view();
                assert(model[i as int].0 == k);
                lemma_position(model.take(i as int), k);
                lemma_position(model, k);
                let first = position(model, k).unwrap();
                if first < i {
                    assert(model.take(i as int)[first] == model[first]);
                }
            }
            return Some(i);
        }
        i = i + 1;
    }
    proof {
        assert(model.take(i as int) =~= model);
    }
    None
}

/// The value that a table holds under a key.
pub fn lookup<'a, K: Key, V: DeepView>(table: &'a Vec<(K, V)>, key: &K) -> (value: Option<&'a V>)
    ensures
        value.deep_view() == find(table.deep_view(), key.deep_view()),
{
    match locate(table, key) {
        Some(i) => Some(&table[i].1),
        None => None,
    }
}

/// Lets a pair come into a table.
pub fn insert<K: Key, V: DeepView>(table: &mut Vec<(K, V)>, key: K, value: V)
    ensures
        final(table).deep_view() == put(
            old(table).deep_view(),
            key.deep_view(),
            value.deep_view(),
        ),
{
    let ghost before = table.deep_view();
    let ghost k = key.deep_view();
    let ghost v = value.deep_view();
    match locate(table, &key) {
        Some(i) => {
            table.set(i, (key, value));
            assert(table.deep_view() =~= before.update(i as int, (k, v)));
        },
        None => {
            table.push((key, value));
            assert(table.deep_view() =~= before.push((k, v)));
        },
    }
}

/// Whether no key occurs twice in a list of pairs.
pub fn has_distinct_keys<K: Key, V: DeepView>(table: &Vec<(K, V)>) -> (distinct: bool)
    ensures
        distinct == distinct_keys(table.deep_view()),
{
    let ghost model = table.deep_view();
    let mut j: usize = 0;
    while j < table.len()
        invariant
            j <= table.len(),
            model == table.deep_view(),
            forall|k: int| 0 <= k < j ==> position(model, (#[trigger] model[k]).0) == Some(k),
        decreases table.len() - j,
    {
        proof {
            lemma_position(model, model[j as int].0);
        }
        let first = locate(table, &table[j].0);
        if first != Some(j) {
            proof {
                let i = position(model, model[j as int].0).unwrap();
                assert(model[i].0 == model[j as int].0 && i < j);
            }
            return false;
        }
        j = j + 1;
    }
    proof {
        assert forall|a: int, b: int| 0 <= a < b < model.len() implies (#[trigger] model[a]).0 != (
        #[trigger] model[b]).0 by {
            lemma_position(model, model[b].0);
            assert(position(model, model[b].0) == Some(b));
        }
    }
    true
}

} // verus!
