use vstd::prelude::*;

verus! {

/// The position of the first entry whose key is `k`.
pub open spec fn entry_index<V>(entries: Seq<(Seq<char>, V)>, k: Seq<char>) -> Option<int>
    decreases entries.len(),
{
    if entries.len() == 0 {
        None
    } else {
        match entry_index(entries.drop_last(), k) {
            Some(i) => Some(i),
            None => if entries.last().0 == k {
                Some(entries.len() - 1)
            } else {
                None
            },
        }
    }
}

/// The value of the first entry whose key is `k`.
pub open spec fn entries_get<V>(entries: Seq<(Seq<char>, V)>, k: Seq<char>) -> Option<V> {
    match entry_index(entries, k) {
        Some(i) => Some(entries[i].1),
        None => None,
    }
}

/// The entries after putting `v` under `k`, as an insertion-ordered map does
/// it: an entry with key `k` keeps its place and takes the new value;
/// otherwise the pair goes last.
pub open spec fn entries_insert<V>(entries: Seq<(Seq<char>, V)>, k: Seq<char>, v: V) -> Seq<
    (Seq<char>, V),
> {
    match entry_index(entries, k) {
        Some(i) => entries.update(i, (k, v)),
        None => entries.push((k, v)),
    }
}

/// The keys of the entries, in order.
pub open spec fn entry_keys<V>(entries: Seq<(Seq<char>, V)>) -> Seq<Seq<char>> {
    entries.map_values(|e: (Seq<char>, V)| e.0)
}

/// No two entries have the same key.
pub open spec fn keys_distinct<V>(entries: Seq<(Seq<char>, V)>) -> bool {
    forall|i: int, j: int| 0 <= i < j < entries.len() ==> entries[i].0 != entries[j].0
}

/// The position that `entry_index` gives holds the key; without a position
/// no entry has the key.
pub proof fn lemma_entry_index<V>(entries: Seq<(Seq<char>, V)>, k: Seq<char>)
    ensures
        entry_index(entries, k) matches Some(i) ==> 0 <= i < entries.len() && entries[i].0 == k
            && forall|j: int| 0 <= j < i ==> entries[j].0 != k,
        entry_index(entries, k) is None ==> forall|i: int|
            0 <= i < entries.len() ==> entries[i].0 != k,
    decreases entries.len(),
{
    if entries.len() > 0 {
        lemma_entry_index(entries.drop_last(), k);
        assert forall|i: int| 0 <= i < entries.len() - 1 implies entries[i]
            == entries.drop_last()[i] by {}
    }
}

/// Inserting into entries with distinct keys keeps the keys distinct, and
/// keeps the keys in their order, a new key going last.
pub proof fn lemma_insert_keeps_keys_distinct<V>(entries: Seq<(Seq<char>, V)>, k: Seq<char>, v: V)
    requires
        keys_distinct(entries),
    ensures
        keys_distinct(entries_insert(entries, k, v)),
        entry_keys(entries_insert(entries, k, v)) == if entry_keys(entries).contains(k) {
            entry_keys(entries)
        } else {
            entry_keys(entries).push(k)
        },
{
    lemma_entry_index(entries, k);
    let e2 = entries_insert(entries, k, v);
    match entry_index(entries, k) {
        Some(i) => {
            assert(entry_keys(entries)[i] == k);
            assert(entry_keys(e2) =~= entry_keys(entries));
        },
        None => {
            assert forall|j: int| 0 <= j < entry_keys(entries).len() implies entry_keys(
                entries,
            )[j] != k by {}
            assert(entry_keys(e2) =~= entry_keys(entries).push(k));
        },
    }
}

/// Where a key first stands depends only on the keys.
pub proof fn lemma_entry_index_by_keys<V>(
    a: Seq<(Seq<char>, V)>,
    b: Seq<(Seq<char>, V)>,
    k: Seq<char>,
)
    requires
        a.len() == b.len(),
        forall|i: int| 0 <= i < a.len() ==> a[i].0 == b[i].0,
    ensures
        entry_index(a, k) == entry_index(b, k),
    decreases a.len(),
{
    if a.len() > 0 {
        lemma_entry_index_by_keys(a.drop_last(), b.drop_last(), k);
    }
}

/// After putting `v` under `k`, `k` gives `v` and every other key gives what
/// it gave before.
pub proof fn lemma_entries_insert_get<V>(entries: Seq<(Seq<char>, V)>, k: Seq<char>, v: V, k2: Seq<
    char,
>)
    ensures
        entries_get(entries_insert(entries, k, v), k2) == if k2 == k {
            Some(v)
        } else {
            entries_get(entries, k2)
        },
{
    lemma_entry_index(entries, k);
    let e2 = entries_insert(entries, k, v);
    match entry_index(entries, k) {
        Some(i) => {
            assert(e2 == entries.update(i, (k, v)));
            lemma_entry_index_by_keys(entries, e2, k2);
            lemma_entry_index(entries, k2);
            if k2 == k {
                assert(entry_index(e2, k2) == Some(i));
            } else {
                if let Some(j) = entry_index(entries, k2) {
                    assert(j != i);
                    assert(e2[j] == entries[j]);
                }
            }
        },
        None => {
            assert(e2 == entries.push((k, v)));
            assert(e2.drop_last() =~= entries);
            lemma_entry_index(entries, k2);
            if let Some(j) = entry_index(entries, k2) {
                assert(e2[j] == entries[j]);
            }
        },
    }
}

/// In entries with distinct keys, the key of each entry first stands there.
pub proof fn lemma_entry_index_of_distinct<V>(entries: Seq<(Seq<char>, V)>, i: int)
    requires
        keys_distinct(entries),
        0 <= i < entries.len(),
    ensures
        entry_index(entries, entries[i].0) == Some(i),
        entries_get(entries, entries[i].0) == Some(entries[i].1),
{
    lemma_entry_index(entries, entries[i].0);
}

} // verus!
