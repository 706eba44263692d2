//! Tables from names to entries, kept as lists in which a later entry of a name
//! replaces an earlier one.

use vstd::prelude::*;

verus! {

/// The table that the first `n` entries of a list define.
pub open spec fn entries_view<V>(entries: Seq<(String, V)>, n: nat) -> Map<Seq<char>, V>
    decreases n,
{
    if n == 0 || n > entries.len() {
        Map::empty()
    } else {
        entries_view(entries, (n - 1) as nat).insert(entries[n - 1].0@, entries[n - 1].1)
    }
}

/// The table that a list defines.
pub open spec fn table_of<V>(entries: Seq<(String, V)>) -> Map<Seq<char>, V> {
    entries_view(entries, entries.len())
}

/// Whether, among the first `n` entries, entry `i` is the last one named `name`.
pub open spec fn defines_entry<V>(entries: Seq<(String, V)>, n: int, name: Seq<char>, i: int) -> bool {
    &&& 0 <= i < n <= entries.len()
    &&& entries[i].0@ == name
    &&& forall|j: int| i < j < n ==> (#[trigger] entries[j]).0@ != name
}

/// A table has exactly the names of its entries, and finitely many.
pub proof fn lemma_entries_view<V>(entries: Seq<(String, V)>, n: nat, name: Seq<char>)
    requires
        n <= entries.len(),
    ensures
        entries_view(entries, n).dom().finite(),
        entries_view(entries, n).contains_key(name) <==> exists|j: int|
            0 <= j < n && (#[trigger] entries[j]).0@ == name,
    decreases n,
{
    if n > 0 {
        lemma_entries_view(entries, (n - 1) as nat, name);
        assert(entries_view(entries, n) == entries_view(entries, (n - 1) as nat).insert(
            entries[n - 1].0@,
            entries[n - 1].1,
        ));
        if entries[n - 1].0@ == name {
            assert(entries[n - 1].0@ == name);
        }
    }
}

/// A name stands for the last entry that bears it.
pub proof fn lemma_entry_defined<V>(entries: Seq<(String, V)>, n: nat, name: Seq<char>, i: int)
    requires
        defines_entry(entries, n as int, name, i),
    ensures
        entries_view(entries, n).contains_key(name),
        entries_view(entries, n)[name] == entries[i].1,
    decreases n,
{
    assert(entries_view(entries, n) == entries_view(entries, (n - 1) as nat).insert(
        entries[n - 1].0@,
        entries[n - 1].1,
    ));
    if i < n - 1 {
        assert(entries[n - 1].0@ != name);
        assert(defines_entry(entries, n - 1, name, i));
        lemma_entry_defined(entries, (n - 1) as nat, name, i);
    }
}

/// The index of the last of the first `n` entries that is named `name`.
pub open spec fn last_index<V>(entries: Seq<(String, V)>, n: nat, name: Seq<char>) -> Option<int>
    decreases n,
{
    if n == 0 || n > entries.len() {
        None
    } else if entries[n - 1].0@ == name {
        Some(n - 1)
    } else {
        last_index(entries, (n - 1) as nat, name)
    }
}

/// `last_index` finds the entry that the name stands for, and only that.
pub proof fn lemma_last_index<V>(entries: Seq<(String, V)>, n: nat, name: Seq<char>)
    requires
        n <= entries.len(),
    ensures
        match last_index(entries, n, name) {
            Some(i) => defines_entry(entries, n as int, name, i),
            None => forall|j: int| 0 <= j < n ==> (#[trigger] entries[j]).0@ != name,
        },
    decreases n,
{
    if n > 0 && entries[n - 1].0@ != name {
        lemma_last_index(entries, (n - 1) as nat, name);
    }
}

/// The index of the entry that `name` stands for, if the table has that name.
pub fn find_entry<V>(entries: &Vec<(String, V)>, name: &String) -> (r: Option<usize>)
    ensures
        r is Some <==> table_of(entries@).contains_key(name@),
        match r {
            Some(i) => last_index(entries@, entries.len() as nat, name@) == Some(i as int),
            None => last_index(entries@, entries.len() as nat, name@) is None,
        },
        r matches Some(i) ==> i < entries.len() && entries[i as int].0@ == name@ && table_of(
            entries@,
        )[name@] == entries[i as int].1,
{
    let mut i: usize = entries.len();
    while i > 0
        invariant
            i <= entries.len(),
            forall|j: int| i <= j < entries.len() ==> (#[trigger] entries[j]).0@ != name@,
        decreases i,
    {
        i = i - 1;
        if entries[i].0 == *name {
            proof {
                lemma_entry_defined(entries@, entries.len() as nat, name@, i as int);
                lemma_last_index(entries@, entries.len() as nat, name@);
            }
            return Some(i);
        }
    }
    proof {
        lemma_entries_view(entries@, entries.len() as nat, name@);
        lemma_last_index(entries@, entries.len() as nat, name@);
    }
    None
}

} // verus!
