use vstd::prelude::*;

verus! {

/// The map an association list stands for: a later entry for a key replaces
/// an earlier one.
pub open spec fn assoc_map<K, V>(entries: Seq<(K, V)>) -> Map<K, V>
    decreases entries.len(),
{
    if entries.len() == 0 {
        Map::empty()
    } else {
        assoc_map(entries.drop_last()).insert(entries.last().0, entries.last().1)
    }
}

/// No key occurs twice in the list.
pub open spec fn distinct_keys<K, V>(entries: Seq<(K, V)>) -> bool {
    forall|i: int, j: int| 0 <= i < j < entries.len() ==> entries[i].0 != entries[j].0
}

/// A key is in the map exactly when some entry has it.
pub proof fn lemma_assoc_domain<K, V>(entries: Seq<(K, V)>, key: K)
    ensures
        assoc_map(entries).dom().contains(key) <==> exists|i: int|
            0 <= i < entries.len() && #[trigger] entries[i].0 == key,
    decreases entries.len(),
{
    if entries.len() > 0 {
        let rest = entries.drop_last();
        lemma_assoc_domain(rest, key);
        if assoc_map(entries).dom().contains(key) && key != entries.last().0 {
            let i = choose|i: int| 0 <= i < rest.len() && #[trigger] rest[i].0 == key;
            assert(entries[i].0 == key);
        }
        if exists|i: int| 0 <= i < entries.len() && #[trigger] entries[i].0 == key {
            let i = choose|i: int| 0 <= i < entries.len() && #[trigger] entries[i].0 == key;
            if i < entries.len() - 1 {
                assert(rest[i].0 == key);
            }
        }
    }
}

/// With distinct keys, each entry's value is the one the map holds for its key.
pub proof fn lemma_assoc_get<K, V>(entries: Seq<(K, V)>, i: int)
    requires
        distinct_keys(entries),
        0 <= i < entries.len(),
    ensures
        assoc_map(entries).dom().contains(entries[i].0),
        assoc_map(entries)[entries[i].0] == entries[i].1,
    decreases entries.len(),
{
    if i < entries.len() - 1 {
        assert(entries.drop_last()[i] == entries[i]);
        lemma_assoc_get(entries.drop_last(), i);
    }
}

/// With distinct keys, replacing the value of one entry replaces it in the map.
pub proof fn lemma_assoc_update<K, V>(entries: Seq<(K, V)>, i: int, value: V)
    requires
        distinct_keys(entries),
        0 <= i < entries.len(),
    ensures
        assoc_map(entries.update(i, (entries[i].0, value))) == assoc_map(entries).insert(
            entries[i].0,
            value,
        ),
        distinct_keys(entries.update(i, (entries[i].0, value))),
    decreases entries.len(),
{
    let key = entries[i].0;
    let updated = entries.update(i, (key, value));
    if i == entries.len() - 1 {
        assert(updated.drop_last() =~= entries.drop_last());
        assert(assoc_map(updated) =~= assoc_map(entries).insert(key, value));
    } else {
        assert(updated.drop_last() =~= entries.drop_last().update(i, (key, value)));
        assert(entries.drop_last()[i] == entries[i]);
        lemma_assoc_update(entries.drop_last(), i, value);
        assert(updated.last() == entries.last());
        assert(entries.last().0 != key);
        assert(assoc_map(updated) =~= assoc_map(entries).insert(key, value));
    }
}

/// Adding an entry for a new key adds it to the map and keeps the keys distinct.
pub proof fn lemma_assoc_push<K, V>(entries: Seq<(K, V)>, key: K, value: V)
    requires
        distinct_keys(entries),
        forall|i: int| 0 <= i < entries.len() ==> entries[i].0 != key,
    ensures
        assoc_map(entries.push((key, value))) == assoc_map(entries).insert(key, value),
        distinct_keys(entries.push((key, value))),
{
    assert(entries.push((key, value)).drop_last() =~= entries);
}

/// With distinct keys, removing the entry at `i` removes its key from the map.
pub proof fn lemma_assoc_remove<K, V>(entries: Seq<(K, V)>, i: int)
    requires
        distinct_keys(entries),
        0 <= i < entries.len(),
    ensures
        assoc_map(entries.remove(i)) == assoc_map(entries).remove(entries[i].0),
        distinct_keys(entries.remove(i)),
    decreases entries.len(),
{
    let key = entries[i].0;
    let removed = entries.remove(i);
    if i == entries.len() - 1 {
        assert(removed =~= entries.drop_last());
        lemma_assoc_domain(entries.drop_last(), key);
        assert(assoc_map(removed) =~= assoc_map(entries).remove(key));
    } else {
        assert(removed.drop_last() =~= entries.drop_last().remove(i));
        assert(removed.last() == entries.last());
        assert(entries.drop_last()[i] == entries[i]);
        lemma_assoc_remove(entries.drop_last(), i);
        assert(entries.last().0 != key);
        assert(assoc_map(removed) =~= assoc_map(entries).remove(key));
    }
}

/// With distinct keys, inserting an entry for a new key at any position adds
/// it to the map and keeps the keys distinct.
pub proof fn lemma_assoc_insert<K, V>(entries: Seq<(K, V)>, i: int, key: K, value: V)
    requires
        distinct_keys(entries),
        0 <= i <= entries.len(),
        forall|j: int| 0 <= j < entries.len() ==> entries[j].0 != key,
    ensures
        assoc_map(entries.insert(i, (key, value))) == assoc_map(entries).insert(key, value),
        distinct_keys(entries.insert(i, (key, value))),
    decreases entries.len(),
{
    let inserted = entries.insert(i, (key, value));
    if i == entries.len() {
        assert(inserted =~= entries.push((key, value)));
        lemma_assoc_push(entries, key, value);
    } else {
        let rest = entries.drop_last();
        assert(inserted.drop_last() =~= rest.insert(i, (key, value)));
        assert(inserted.last() == entries.last());
        lemma_assoc_insert(rest, i, key, value);
        assert(entries.last().0 != key);
        assert(assoc_map(inserted) =~= assoc_map(entries).insert(key, value));
        assert forall|a: int, b: int| 0 <= a < b < inserted.len() implies inserted[a].0
            != inserted[b].0 by {
            if b == inserted.len() - 1 {
                if a < i {
                    assert(inserted[a] == entries[a]);
                } else if a > i {
                    assert(inserted[a] == entries[a - 1]);
                }
            } else {
                assert(inserted[a] == inserted.drop_last()[a]);
                assert(inserted[b] == inserted.drop_last()[b]);
            }
        }
    }
}

/// With distinct keys the map has one key per entry.
pub proof fn lemma_assoc_len<K, V>(entries: Seq<(K, V)>)
    requires
        distinct_keys(entries),
    ensures
        assoc_map(entries).dom().finite(),
        assoc_map(entries).dom().len() == entries.len(),
    decreases entries.len(),
{
    if entries.len() > 0 {
        let rest = entries.drop_last();
        lemma_assoc_len(rest);
        lemma_assoc_domain(rest, entries.last().0);
        if assoc_map(rest).dom().contains(entries.last().0) {
            let i = choose|i: int| 0 <= i < rest.len() && #[trigger] rest[i].0 == entries.last().0;
            assert(entries[i].0 == entries[entries.len() - 1].0);
        }
    }
}

} // verus!
