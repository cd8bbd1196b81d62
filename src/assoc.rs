//! Association lists keyed by strings: the in-memory shape of a vault's
//! service table, with its model as a map.

use vstd::prelude::*;

verus! {

/// The keys of an association list, in order.
pub open spec fn entry_names<V>(entries: Seq<(String, V)>) -> Seq<Seq<char>> {
    entries.map_values(|e: (String, V)| e.0@)
}

/// The map an association list stands for; a later entry shadows an earlier one.
pub open spec fn assoc_map<V>(entries: Seq<(String, V)>) -> Map<Seq<char>, V>
    decreases entries.len(),
{
    if entries.len() == 0 {
        Map::empty()
    } else {
        assoc_map(entries.drop_last()).insert(entries.last().0@, entries.last().1)
    }
}

/// A name is a key of the map exactly when some entry carries it.
pub proof fn lemma_assoc_map_dom<V>(entries: Seq<(String, V)>)
    ensures
        forall|k: Seq<char>|
            #[trigger] assoc_map(entries).contains_key(k) <==> entry_names(entries).contains(k),
    decreases entries.len(),
{
    if entries.len() > 0 {
        let prev = entries.drop_last();
        lemma_assoc_map_dom(prev);
        assert(assoc_map(entries) == assoc_map(prev).insert(entries.last().0@, entries.last().1));
        let names = entry_names(entries);
        let pnames = entry_names(prev);
        assert(pnames =~= names.drop_last());
        assert forall|k: Seq<char>| names.contains(k) <==> (pnames.contains(k) || k
            == entries.last().0@) by {
            if names.contains(k) {
                let i = choose|i: int| 0 <= i < names.len() && names[i] == k;
                if i < names.len() - 1 {
                    assert(pnames[i] == k);
                }
            }
            if pnames.contains(k) {
                let i = choose|i: int| 0 <= i < pnames.len() && pnames[i] == k;
                assert(names[i] == k);
            }
            if k == entries.last().0@ {
                assert(names[names.len() - 1] == k);
            }
        }
    }
}

/// With unique names, the map gives each entry's value under its name.
pub proof fn lemma_assoc_map_at<V>(entries: Seq<(String, V)>, i: int)
    requires
        entry_names(entries).no_duplicates(),
        0 <= i < entries.len(),
    ensures
        assoc_map(entries).contains_key(entries[i].0@),
        assoc_map(entries)[entries[i].0@] == entries[i].1,
    decreases entries.len(),
{
    if i < entries.len() - 1 {
        let prev = entries.drop_last();
        let names = entry_names(entries);
        assert(entry_names(prev) =~= names.drop_last());
        assert(names[i] != names[names.len() - 1]);
        lemma_assoc_map_at(prev, i);
    }
}

/// With unique names, removing an entry removes its name from the map, and
/// the names stay unique.
pub proof fn lemma_assoc_map_remove<V>(entries: Seq<(String, V)>, i: int)
    requires
        entry_names(entries).no_duplicates(),
        0 <= i < entries.len(),
    ensures
        assoc_map(entries.remove(i)) == assoc_map(entries).remove(entries[i].0@),
        entry_names(entries.remove(i)).no_duplicates(),
        entry_names(entries.remove(i)) == entry_names(entries).remove(i),
    decreases entries.len(),
{
    let names = entry_names(entries);
    let prev = entries.drop_last();
    assert(entry_names(prev) =~= names.drop_last());
    assert(entry_names(entries.remove(i)) =~= names.remove(i));
    assert forall|a: int, b: int|
        0 <= a < b < names.remove(i).len() implies names.remove(i)[a] != names.remove(i)[b] by {
        let a2 = if a < i { a } else { a + 1 };
        let b2 = if b < i { b } else { b + 1 };
        assert(names.remove(i)[a] == names[a2]);
        assert(names.remove(i)[b] == names[b2]);
    }
    if i == entries.len() - 1 {
        assert(entries.remove(i) =~= prev);
        lemma_assoc_map_dom(prev);
        assert(!entry_names(prev).contains(entries[i].0@)) by {
            if entry_names(prev).contains(entries[i].0@) {
                let j = choose|j: int|
                    0 <= j < entry_names(prev).len() && entry_names(prev)[j] == entries[i].0@;
                assert(names[j] == names[i]);
            }
        }
        assert(assoc_map(entries).remove(entries[i].0@) =~= assoc_map(prev));
    } else {
        let last = entries.last();
        assert(entries.remove(i) =~= prev.remove(i).push(last));
        assert(entry_names(prev).no_duplicates());
        lemma_assoc_map_remove(prev, i);
        assert(prev.remove(i).push(last).drop_last() =~= prev.remove(i));
        assert(names[i] != names[names.len() - 1]);
        assert(assoc_map(entries.remove(i)) =~= assoc_map(entries).remove(entries[i].0@));
    }
}

} // verus!
