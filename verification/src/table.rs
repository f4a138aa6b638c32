//! A table from names to items, kept as a list in which the first entry of a
//! name is the one that counts.

use crate::text::same_text;
use vstd::prelude::*;

verus! {

/// One named item.
pub struct Entry<T> {
    pub name: String,
    pub item: T,
}

/// The names of a list of entries, one for one.
pub open spec fn names_of<T>(entries: Seq<Entry<T>>) -> Seq<Seq<char>> {
    Seq::new(entries.len(), |i: int| entries[i].name@)
}

/// The first index at which `name` stands in `names`, or the length of
/// `names` if it stands nowhere.
pub open spec fn index_of(names: Seq<Seq<char>>, name: Seq<char>) -> int
    decreases names.len(),
{
    if names.len() == 0 {
        0
    } else if names[0] == name {
        0
    } else {
        1 + index_of(names.drop_first(), name)
    }
}

/// The index of the first entry called `name`, or the length of the list if
/// there is none.
pub open spec fn first_named<T>(entries: Seq<Entry<T>>, name: Seq<char>) -> int {
    index_of(names_of(entries), name)
}

/// The mapping that a list of entries stands for.
pub open spec fn table_view<T: View>(entries: Seq<Entry<T>>) -> Map<Seq<char>, T::V> {
    Map::new(
        |k: Seq<char>| first_named(entries, k) < entries.len(),
        |k: Seq<char>| entries[first_named(entries, k)].item@,
    )
}

/// Whether no two entries have the same name.
pub open spec fn distinct_names<T>(entries: Seq<Entry<T>>) -> bool {
    forall|i: int, j: int|
        0 <= i < j < entries.len() ==> (#[trigger] entries[i]).name@ != (
        #[trigger] entries[j]).name@
}

/// `index_of` is in range, points at `name` if at anything, and passes no
/// place where `name` stands.
pub proof fn lemma_index_of(names: Seq<Seq<char>>, name: Seq<char>)
    ensures
        0 <= index_of(names, name) <= names.len(),
        index_of(names, name) < names.len() ==> names[index_of(names, name)] == name,
        forall|j: int| 0 <= j < index_of(names, name) ==> #[trigger] names[j] != name,
    decreases names.len(),
{
    if names.len() != 0 && names[0] != name {
        let rest = names.drop_first();
        lemma_index_of(rest, name);
        assert forall|j: int| 0 <= j < index_of(names, name) implies #[trigger] names[j]
            != name by {
            if j > 0 {
                assert(names[j] == rest[j - 1]);
            }
        }
    }
}

/// The first index at which `name` stands is `index_of`.
pub proof fn lemma_index_of_is(names: Seq<Seq<char>>, name: Seq<char>, i: int)
    requires
        0 <= i <= names.len(),
        forall|j: int| 0 <= j < i ==> #[trigger] names[j] != name,
        i < names.len() ==> names[i] == name,
    ensures
        index_of(names, name) == i,
{
    lemma_index_of(names, name);
    let f = index_of(names, name);
    if f < i {
        assert(names[f] != name);
    }
}

/// `first_named` is in range, points at an entry of that name if at any, and
/// passes no entry of that name.
pub proof fn lemma_first_named<T>(entries: Seq<Entry<T>>, name: Seq<char>)
    ensures
        0 <= first_named(entries, name) <= entries.len(),
        first_named(entries, name) < entries.len() ==> entries[first_named(
            entries,
            name,
        )].name@ == name,
        forall|j: int| 0 <= j < first_named(entries, name) ==> (#[trigger] entries[j]).name@ != name,
{
    let names = names_of(entries);
    lemma_index_of(names, name);
    assert forall|j: int| 0 <= j < first_named(entries, name) implies (
    #[trigger] entries[j]).name@ != name by {
        assert(names[j] != name);
    }
}

/// The first index at which `name` stands is `first_named`.
pub proof fn lemma_first_named_is<T>(entries: Seq<Entry<T>>, name: Seq<char>, i: int)
    requires
        0 <= i <= entries.len(),
        forall|j: int| 0 <= j < i ==> (#[trigger] entries[j]).name@ != name,
        i < entries.len() ==> entries[i].name@ == name,
    ensures
        first_named(entries, name) == i,
{
    let names = names_of(entries);
    assert forall|j: int| 0 <= j < i implies #[trigger] names[j] != name by {
        assert(entries[j].name@ != name);
    }
    lemma_index_of_is(names, name, i);
}

/// An entry that is the first of its name gets a new item: the mapping has
/// the new item under that name and is otherwise as before.
pub proof fn lemma_item_replaced<T: View>(entries: Seq<Entry<T>>, i: int, item: T)
    requires
        0 <= i < entries.len(),
        first_named(entries, entries[i].name@) == i,
    ensures
        table_view(entries.update(i, Entry { name: entries[i].name, item })) == table_view(
            entries,
        ).insert(entries[i].name@, item@),
{
    let after = entries.update(i, Entry { name: entries[i].name, item });
    let key = entries[i].name@;
    let goal = table_view(entries).insert(key, item@);
    assert(names_of(after) =~= names_of(entries));
    assert forall|k: Seq<char>| #[trigger]
        table_view(after).dom().contains(k) == goal.dom().contains(k) by {
        lemma_first_named(entries, k);
    }
    assert forall|k: Seq<char>| #[trigger]
        table_view(after).dom().contains(k) implies table_view(after)[k] == goal[k] by {
        lemma_first_named(entries, k);
    }
    assert(table_view(after) =~= goal);
}

/// Where the first entry called `name` stands, if there is one.
pub fn find<T>(entries: &Vec<Entry<T>>, name: &str) -> (r: Option<usize>)
    ensures
        match r {
            Some(i) => i == first_named(entries@, name@) && i < entries.len(),
            None => first_named(entries@, name@) == entries.len(),
        },
{
    let mut i: usize = 0;
    while i < entries.len()
        invariant
            i <= entries.len(),
            forall|j: int| 0 <= j < i ==> (#[trigger] entries@[j]).name@ != name@,
        decreases entries.len() - i,
    {
        if same_text(entries[i].name.as_str(), name) {
            proof {
                lemma_first_named_is(entries@, name@, i as int);
            }
            return Some(i);
        }
        i += 1;
    }
    proof {
        lemma_first_named_is(entries@, name@, i as int);
    }
    None
}

/// Puts `item` under `name`: in place of the entry that `name` had, or as a
/// new entry at the end.
pub fn put<T: View>(entries: &mut Vec<Entry<T>>, name: String, item: T)
    ensures
        table_view(final(entries)@) == table_view(old(entries)@).insert(name@, item@),
        distinct_names(old(entries)@) ==> distinct_names(final(entries)@),
        final(entries)@ == match first_named(old(entries)@, name@) {
            i if i < old(entries)@.len() => old(entries)@.update(i, Entry { name, item }),
            _ => old(entries)@.push(Entry { name, item }),
        },
{
    let ghost before = entries@;
    let ghost key = name@;
    let ghost value = item@;
    let found = find(entries, name.as_str());
    match found {
        Some(i) => {
            entries[i] = Entry { name, item };
        },
        None => {
            entries.push(Entry { name, item });
        },
    }
    proof {
        let after = entries@;
        let at = first_named(before, key);
        lemma_first_named(before, key);
        assert(after[at].name@ == key);
        assert forall|k: Seq<char>|
            first_named(after, k) == (if k == key {
                at
            } else if first_named(before, k) < before.len() {
                first_named(before, k)
            } else {
                after.len() as int
            }) by {
            lemma_first_named(before, k);
            let want = if k == key {
                at
            } else if first_named(before, k) < before.len() {
                first_named(before, k)
            } else {
                after.len() as int
            };
            assert forall|j: int| 0 <= j < want implies (#[trigger] after[j]).name@ != k by {
                if j < before.len() {
                    assert(before[j].name@ != k);
                }
            }
            if want < after.len() && k != key {
                assert(before[want].name@ == k);
            }
            lemma_first_named_is(after, k, want);
        }
        let goal = table_view(before).insert(key, value);
        assert(after[at].item@ == value);
        assert forall|k: Seq<char>| #[trigger]
            table_view(after).dom().contains(k) == goal.dom().contains(k) by {
            lemma_first_named(before, k);
        }
        assert forall|k: Seq<char>| #[trigger]
            table_view(after).dom().contains(k) implies table_view(after)[k] == goal[k] by {
            lemma_first_named(before, k);
            if k != key {
                assert(after[first_named(before, k)] == before[first_named(before, k)]);
            }
        }
        assert(table_view(after) =~= goal);
        if distinct_names(before) {
            assert forall|i: int, j: int| 0 <= i < j < after.len() implies (
            #[trigger] after[i]).name@ != (#[trigger] after[j]).name@ by {
                if i != at && j != at {
                    assert(before[i].name@ != before[j].name@);
                } else if at < before.len() {
                    assert(before[i].name@ != before[j].name@);
                } else {
                    assert(before[i].name@ != key);
                }
            }
        }
    }
}

} // verus!
