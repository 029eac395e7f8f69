use vstd::prelude::*;
use crate::utils::text_eq;

verus! {

/// The names of a table of entries.
pub open spec fn entry_keys<V>(t: Seq<(String, V)>) -> Seq<Seq<char>> {
    Seq::new(t.len(), |i: int| t[i].0@)
}

/// The names of a table as the contracts speak of it.
pub open spec fn model_keys<V>(t: Seq<(Seq<char>, V)>) -> Seq<Seq<char>> {
    Seq::new(t.len(), |i: int| t[i].0)
}

/// The first place at or behind `from` where `name` stands in `keys`.
pub open spec fn find_key(keys: Seq<Seq<char>>, name: Seq<char>, from: int) -> Option<int>
    decreases keys.len() - from,
{
    if from < 0 || from >= keys.len() {
        None
    } else if keys[from] == name {
        Some(from)
    } else {
        find_key(keys, name, from + 1)
    }
}

/// What a table holds under `name`: the first entry of that name.
pub open spec fn lookup<V>(t: Seq<(Seq<char>, V)>, name: Seq<char>) -> Option<V> {
    match find_key(model_keys(t), name, 0) {
        Some(i) => Some(t[i].1),
        None => None,
    }
}

/// The table with `value` under `name`: in place of the first entry of that
/// name, or at the end where there is none.
pub open spec fn bind<V>(t: Seq<(Seq<char>, V)>, name: Seq<char>, value: V) -> Seq<(Seq<char>, V)> {
    match find_key(model_keys(t), name, 0) {
        Some(i) => t.update(i, (name, value)),
        None => t.push((name, value)),
    }
}

/// Whether no name stands twice in a table. This is the invariant of every
/// table of the machine: a table is a map from names to values, kept as a
/// list in the order in which the names came.
pub open spec fn distinct_names<V>(t: Seq<(Seq<char>, V)>) -> bool {
    forall|i: int, j: int| 0 <= i < j < t.len() ==> (#[trigger] t[i]).0 != (#[trigger] t[j]).0
}

/// A place that `find_key` gives lies in the table and holds the name, and no
/// earlier place from `from` on does.
pub proof fn lemma_find_key(keys: Seq<Seq<char>>, name: Seq<char>, from: int)
    requires
        0 <= from,
    ensures
        match find_key(keys, name, from) {
            Some(i) => from <= i < keys.len() && keys[i] == name && forall|j: int|
                from <= j < i ==> keys[j] != name,
            None => forall|j: int| from <= j < keys.len() ==> keys[j] != name,
        },
    decreases keys.len() - from,
{
    if from < keys.len() && keys[from] != name {
        lemma_find_key(keys, name, from + 1);
    }
}

/// After `bind`, the name holds the new value.
pub proof fn lemma_lookup_bound<V>(t: Seq<(Seq<char>, V)>, name: Seq<char>, value: V)
    ensures
        lookup(bind(t, name, value), name) == Some(value),
{
    let keys = model_keys(t);
    let after = bind(t, name, value);
    lemma_find_key(keys, name, 0);
    lemma_find_key(model_keys(after), name, 0);
    match find_key(keys, name, 0) {
        Some(i) => {
            assert(model_keys(after)[i] == name);
            assert forall|j: int| 0 <= j < i implies model_keys(after)[j] != name by {
                assert(model_keys(after)[j] == keys[j]);
            }
        },
        None => {
            assert(model_keys(after)[t.len() as int] == name);
            assert forall|j: int| 0 <= j < t.len() implies model_keys(after)[j] != name by {
                assert(model_keys(after)[j] == keys[j]);
            }
        },
    }
}

/// After `bind`, every other name holds what it held.
pub proof fn lemma_lookup_other<V>(
    t: Seq<(Seq<char>, V)>,
    name: Seq<char>,
    value: V,
    other: Seq<char>,
)
    requires
        other != name,
    ensures
        lookup(bind(t, name, value), other) == lookup(t, other),
{
    let keys = model_keys(t);
    let after = bind(t, name, value);
    let keys2 = model_keys(after);
    lemma_find_key(keys, name, 0);
    lemma_find_key(keys, other, 0);
    lemma_find_key(keys2, other, 0);
    assert forall|j: int| 0 <= j < keys.len() implies (keys2[j] == other <==> keys[j] == other) by {
        assert(keys2[j] == after[j].0);
        assert(keys[j] == t[j].0);
    }
    match find_key(keys, other, 0) {
        Some(i) => {
            assert(keys2[i] == other);
            assert(after[i].1 == t[i].1);
        },
        None => {
            if keys2.len() > keys.len() {
                assert(keys2[keys.len() as int] == name);
            }
        },
    }
}

/// `bind` keeps the invariant: where no name stood twice in a table, none
/// does after a name was bound in it.
pub proof fn lemma_bind_distinct<V>(t: Seq<(Seq<char>, V)>, name: Seq<char>, value: V)
    requires
        distinct_names(t),
    ensures
        distinct_names(bind(t, name, value)),
{
    let keys = model_keys(t);
    let after = bind(t, name, value);
    lemma_find_key(keys, name, 0);
    assert forall|i: int, j: int| 0 <= i < j < after.len() implies (#[trigger] after[i]).0 != (
    #[trigger] after[j]).0 by {
        match find_key(keys, name, 0) {
            Some(k) => {
                assert(keys[k] == t[k].0);
                assert(after[i].0 == t[i].0);
                assert(after[j].0 == t[j].0);
            },
            None => {
                if j < t.len() {
                    assert(after[i] == t[i] && after[j] == t[j]);
                } else {
                    assert(after[i] == t[i]);
                    assert(keys[i] == t[i].0);
                }
            },
        }
    }
}

/// In a table that holds no name twice, every entry is the one that `lookup`
/// finds under its name: no entry lies hidden behind another.
pub proof fn distinct_table_finds_each_entry<V>(t: Seq<(Seq<char>, V)>, i: int)
    requires
        distinct_names(t),
        0 <= i < t.len(),
    ensures
        lookup(t, t[i].0) == Some(t[i].1),
{
    let keys = model_keys(t);
    lemma_find_key(keys, t[i].0, 0);
    assert(keys[i] == t[i].0);
    match find_key(keys, t[i].0, 0) {
        Some(k) => {
            assert(keys[k] == t[k].0);
            if k < i {
                assert(t[k].0 != t[i].0);
            }
        },
        None => {},
    }
}

/// The first place where `name` stands in a table.
#[verifier::loop_isolation(false)]
pub fn find_entry<V>(table: &Vec<(String, V)>, name: &str) -> (r: Option<usize>)
    ensures
        match r {
            Some(i) => i < table@.len() && find_key(entry_keys(table@), name@, 0) == Some(i as int),
            None => find_key(entry_keys(table@), name@, 0) == None::<int>,
        },
{
    let ghost keys = entry_keys(table@);
    let mut i: usize = 0;
    while i < table.len()
        invariant
            i <= table.len(),
            find_key(keys, name@, 0) == find_key(keys, name@, i as int),
        decreases table.len() - i,
    {
        assert(keys[i as int] == table@[i as int].0@);
        if text_eq(table[i].0.as_str(), name) {
            return Some(i);
        }
        i += 1;
    }
    None
}

} // verus!
