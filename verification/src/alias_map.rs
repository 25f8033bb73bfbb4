//! Sequences of entries with an alias each, seen as maps from alias to entry.

use vstd::prelude::*;

verus! {

/// No alias stands twice in `entries`.
pub open spec fn distinct_aliases<V>(entries: Seq<(Seq<char>, V)>) -> bool {
    forall|i: int, j: int|
        0 <= i < entries.len() && 0 <= j < entries.len() && i != j ==> #[trigger] entries[i].0
            != #[trigger] entries[j].0
}

/// The map that holds each entry of `entries` under its alias.
pub open spec fn as_map<V>(entries: Seq<(Seq<char>, V)>) -> Map<Seq<char>, V>
    decreases entries.len(),
{
    if entries.len() == 0 {
        Map::empty()
    } else {
        as_map(entries.drop_last()).insert(entries.last().0, entries.last().1)
    }
}

/// The map of `entries` has the aliases that stand in `entries`.
pub proof fn lemma_as_map_keys<V>(entries: Seq<(Seq<char>, V)>, alias: Seq<char>)
    ensures
        as_map(entries).contains_key(alias) <==> exists|i: int|
            0 <= i < entries.len() && #[trigger] entries[i].0 == alias,
    decreases entries.len(),
{
    if entries.len() > 0 {
        let front = entries.drop_last();
        lemma_as_map_keys(front, alias);
        if as_map(entries).contains_key(alias) {
            if entries.last().0 == alias {
                assert(entries[entries.len() - 1].0 == alias);
            } else {
                let i = choose|i: int| 0 <= i < front.len() && #[trigger] front[i].0 == alias;
                assert(entries[i].0 == alias);
            }
        }
        if exists|i: int| 0 <= i < entries.len() && #[trigger] entries[i].0 == alias {
            let i = choose|i: int| 0 <= i < entries.len() && #[trigger] entries[i].0 == alias;
            if i < entries.len() - 1 {
                assert(front[i].0 == alias);
            }
        }
    }
}

/// Where no alias stands twice, the map holds under an alias the value that
/// stands with it.
pub proof fn lemma_as_map_value<V>(entries: Seq<(Seq<char>, V)>, i: int)
    requires
        distinct_aliases(entries),
        0 <= i < entries.len(),
    ensures
        as_map(entries).contains_key(entries[i].0),
        as_map(entries)[entries[i].0] == entries[i].1,
    decreases entries.len(),
{
    let front = entries.drop_last();
    if i < entries.len() - 1 {
        assert(distinct_aliases(front)) by {
            assert forall|a: int, b: int|
                0 <= a < front.len() && 0 <= b < front.len() && a != b implies #[trigger] front[a].0
                != #[trigger] front[b].0 by {
                assert(entries[a].0 != entries[b].0);
            }
        }
        lemma_as_map_value(front, i);
        assert(entries[i].0 != entries[entries.len() - 1].0);
    }
}

/// Where no alias stands twice, a new value in the place of an entry is
/// a new value under its alias in the map.
pub proof fn lemma_as_map_update<V>(entries: Seq<(Seq<char>, V)>, i: int, value: V)
    requires
        distinct_aliases(entries),
        0 <= i < entries.len(),
    ensures
        as_map(entries.update(i, (entries[i].0, value))) == as_map(entries).insert(
            entries[i].0,
            value,
        ),
        distinct_aliases(entries.update(i, (entries[i].0, value))),
    decreases entries.len(),
{
    let updated = entries.update(i, (entries[i].0, value));
    let front = entries.drop_last();
    assert(distinct_aliases(updated)) by {
        assert forall|a: int, b: int|
            0 <= a < updated.len() && 0 <= b < updated.len() && a != b implies #[trigger] updated[a].0
            != #[trigger] updated[b].0 by {
            assert(entries[a].0 != entries[b].0);
        }
    }
    if i == entries.len() - 1 {
        assert(updated.drop_last() == front);
        assert(as_map(updated) == as_map(entries).insert(entries[i].0, value));
    } else {
        assert(distinct_aliases(front)) by {
            assert forall|a: int, b: int|
                0 <= a < front.len() && 0 <= b < front.len() && a != b implies #[trigger] front[a].0
                != #[trigger] front[b].0 by {
                assert(entries[a].0 != entries[b].0);
            }
        }
        lemma_as_map_update(front, i, value);
        assert(updated.drop_last() == front.update(i, (entries[i].0, value)));
        assert(entries[i].0 != entries[entries.len() - 1].0);
        assert(as_map(updated) == as_map(entries).insert(entries[i].0, value));
    }
}

} // verus!
