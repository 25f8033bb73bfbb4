//! The masternodes that propose blocks, and the registry that holds them.

use crate::random::{random_hash, random_in_range};
use indexmap::IndexMap;
use std::collections::hash_map::RandomState;
use vstd::prelude::*;

verus! {

/// `indexmap::IndexMap`, a hash map that keeps its entries in the order in
/// which their keys were first put in. Nothing of its inside is known here.
#[verifier::external_type_specification]
#[verifier::external_body]
#[verifier::reject_recursive_types(K)]
#[verifier::reject_recursive_types(V)]
#[verifier::reject_recursive_types(S)]
pub struct ExIndexMap<K, V, S>(IndexMap<K, V, S>);

/// A candidate block proposer, known by its 32-byte identifier.
#[derive(Clone, Copy, Debug, PartialEq, Eq)]
pub struct Masternode {
    pub pro_tx_hash: [u8; 32],
}

/// One entry of the map of masternodes: a key, and the identifier of the
/// masternode held under it.
pub type Entry = (Seq<u8>, Seq<u8>);

/// The entries of an `IndexMap` of masternodes, in the order the map keeps.
pub uninterp spec fn map_entries(map: IndexMap<[u8; 32], Masternode, RandomState>) -> Seq<Entry>;

/// `entries` after `value` is put under `key`: in the place of the entry
/// with that key, or at the end where there is none.
pub open spec fn entries_with(entries: Seq<Entry>, key: Seq<u8>, value: Seq<u8>) -> Seq<Entry>
    decreases entries.len(),
{
    if entries.len() == 0 {
        seq![(key, value)]
    } else if entries[0].0 == key {
        seq![(key, value)] + entries.drop_first()
    } else {
        seq![entries[0]] + entries_with(entries.drop_first(), key, value)
    }
}

/// `IndexMap::new`: a map without entries.
#[verifier::external_body]
fn map_new() -> (map: IndexMap<[u8; 32], Masternode, RandomState>)
    ensures
        map_entries(map) == Seq::<Entry>::empty(),
{
    IndexMap::new()
}

/// `IndexMap::len`: the number of entries.
#[verifier::external_body]
fn map_len(map: &IndexMap<[u8; 32], Masternode, RandomState>) -> (len: usize)
    ensures
        len == map_entries(*map).len(),
{
    map.len()
}

/// `IndexMap::insert`: where the key is in the map its entry keeps its
/// place and gets the new value; else the new entry is the last.
#[verifier::external_body]
fn map_insert(map: &mut IndexMap<[u8; 32], Masternode, RandomState>, key: [u8; 32], node: Masternode)
    ensures
        map_entries(*final(map)) == entries_with(map_entries(*old(map)), key@, node.pro_tx_hash@),
{
    map.insert(key, node);
}

/// `IndexMap::get_index`: the value of the entry at `index`, for an index
/// below the length, and nothing for another.
#[verifier::external_body]
fn map_get_index(map: &IndexMap<[u8; 32], Masternode, RandomState>, index: usize) -> (node: Option<
    &Masternode,
>)
    ensures
        index < map_entries(*map).len() ==> node is Some && node->0.pro_tx_hash@ == map_entries(
            *map,
        )[index as int].1,
        index >= map_entries(*map).len() ==> node is None,
{
    map.get_index(index).map(|entry| entry.1)
}

impl Masternode {
    /// A masternode with a random identifier.
    pub fn new_random() -> (node: Masternode) {
        Masternode { pro_tx_hash: random_hash() }
    }

    /// `count` masternodes with random identifiers.
    pub fn new_random_many(count: usize) -> (nodes: Vec<Masternode>)
        ensures
            nodes@.len() == count,
    {
        let mut nodes: Vec<Masternode> = Vec::new();
        let mut i: usize = 0;
        while i < count
            invariant
                i <= count,
                nodes@.len() == i,
            decreases count - i,
        {
            nodes.push(Masternode::new_random());
            i = i + 1;
        }
        nodes
    }
}

/// The identifiers of a sequence of masternodes.
pub open spec fn hashes(nodes: Seq<Masternode>) -> Seq<Seq<u8>> {
    nodes.map_values(|node: Masternode| node.pro_tx_hash@)
}

/// The keys of a sequence of entries.
pub open spec fn keys(entries: Seq<Entry>) -> Seq<Seq<u8>> {
    entries.map_values(|entry: Entry| entry.0)
}

/// Each entry holds a masternode under its own identifier.
pub open spec fn keyed_by_hash(entries: Seq<Entry>) -> bool {
    forall|i: int| 0 <= i < entries.len() ==> (#[trigger] entries[i]).0 == entries[i].1
}

/// The identifiers of a registry after the masternode `hash` joins it: it
/// is the last, unless it was a member before.
pub open spec fn with_node(registry: Seq<Seq<u8>>, hash: Seq<u8>) -> Seq<Seq<u8>> {
    if registry.contains(hash) {
        registry
    } else {
        registry.push(hash)
    }
}

/// The identifiers of a registry after the masternodes `joining` join it,
/// one after the other.
pub open spec fn with_nodes(registry: Seq<Seq<u8>>, joining: Seq<Seq<u8>>) -> Seq<Seq<u8>>
    decreases joining.len(),
{
    if joining.len() == 0 {
        registry
    } else {
        with_node(with_nodes(registry, joining.drop_last()), joining.last())
    }
}

/// Putting a masternode under its identifier into entries keyed by
/// identifier is `with_node` on the keys, and keeps them keyed so.
proof fn lemma_entries_with(entries: Seq<Entry>, hash: Seq<u8>)
    requires
        keyed_by_hash(entries),
    ensures
        keys(entries_with(entries, hash, hash)) == with_node(keys(entries), hash),
        keyed_by_hash(entries_with(entries, hash, hash)),
    decreases entries.len(),
{
    let after = entries_with(entries, hash, hash);
    if entries.len() == 0 {
        assert(keys(after) =~= keys(entries).push(hash));
    } else if entries[0].0 == hash {
        assert(entries[0] == (hash, hash));
        assert(after =~= entries);
        assert(keys(entries)[0] == hash);
    } else {
        let rest = entries.drop_first();
        assert(keyed_by_hash(rest)) by {
            assert forall|i: int| 0 <= i < rest.len() implies (#[trigger] rest[i]).0 == rest[i].1 by {
                assert(rest[i] == entries[i + 1]);
            }
        }
        lemma_entries_with(rest, hash);
        let rest_after = entries_with(rest, hash, hash);
        assert(keys(after) =~= seq![entries[0].0] + keys(rest_after));
        assert(keys(entries) =~= seq![entries[0].0] + keys(rest));
        if keys(rest).contains(hash) {
            let k = choose|k: int| 0 <= k < keys(rest).len() && keys(rest)[k] == hash;
            assert(keys(entries)[k + 1] == hash);
        } else {
            if keys(entries).contains(hash) {
                let k = choose|k: int| 0 <= k < keys(entries).len() && keys(entries)[k] == hash;
                assert(keys(rest)[k - 1] == hash);
            }
            assert(keys(after) =~= keys(entries).push(hash));
        }
        assert forall|i: int| 0 <= i < after.len() implies (#[trigger] after[i]).0 == after[i].1 by {
            if i > 0 {
                assert(after[i] == rest_after[i - 1]);
            }
        }
    }
}

/// A registry without a masternode twice still has none twice after one joins.
pub proof fn lemma_with_node_unique(registry: Seq<Seq<u8>>, hash: Seq<u8>)
    requires
        registry.no_duplicates(),
    ensures
        with_node(registry, hash).no_duplicates(),
{
}

/// The candidate block proposers, each known once, in the order in which
/// they joined.
pub struct MasternodeRegistry {
    nodes: IndexMap<[u8; 32], Masternode, RandomState>,
}

impl View for MasternodeRegistry {
    type V = Seq<Seq<u8>>;

    closed spec fn view(&self) -> Seq<Seq<u8>> {
        keys(map_entries(self.nodes))
    }
}

impl MasternodeRegistry {
    /// Each masternode is held under its own identifier, and none twice.
    #[verifier::type_invariant]
    closed spec fn well_formed(self) -> bool {
        &&& keyed_by_hash(map_entries(self.nodes))
        &&& keys(map_entries(self.nodes)).no_duplicates()
    }

    /// A registry without masternodes.
    pub fn new() -> (registry: MasternodeRegistry)
        ensures
            registry@ == Seq::<Seq<u8>>::empty(),
    {
        let registry = MasternodeRegistry { nodes: map_new() };
        assert(registry@ =~= Seq::<Seq<u8>>::empty());
        registry
    }

    /// The number of masternodes, none of which is counted twice.
    pub fn len(&self) -> (len: usize)
        ensures
            len == self@.len(),
            self@.no_duplicates(),
    {
        proof {
            use_type_invariant(self);
        }
        map_len(&self.nodes)
    }

    /// Lets `node` join, unless a masternode with its identifier is a member.
    pub fn insert(&mut self, node: Masternode)
        ensures
            final(self)@ == with_node(old(self)@, node.pro_tx_hash@),
    {
        proof {
            use_type_invariant(&*self);
            lemma_entries_with(map_entries(self.nodes), node.pro_tx_hash@);
            lemma_with_node_unique(self@, node.pro_tx_hash@);
        }
        let mut nodes = map_new();
        std::mem::swap(&mut nodes, &mut self.nodes);
        map_insert(&mut nodes, node.pro_tx_hash, node);
        self.nodes = nodes;
    }

    /// The masternode at `index` in the order of joining.
    pub fn get(&self, index: usize) -> (node: Option<&Masternode>)
        ensures
            index < self@.len() ==> node is Some && node->0.pro_tx_hash@ == self@[index as int],
            index >= self@.len() ==> node is None,
    {
        proof {
            use_type_invariant(self);
        }
        map_get_index(&self.nodes, index)
    }

    /// Lets the masternodes of `nodes` join, one after the other.
    pub fn insert_all(&mut self, nodes: Vec<Masternode>)
        ensures
            final(self)@ == with_nodes(old(self)@, hashes(nodes@)),
    {
        let ghost joining = hashes(nodes@);
        for node in it: nodes
            invariant
                hashes(it.seq()) == joining,
                self@ == with_nodes(old(self)@, joining.take(it.index())),
        {
            let ghost k = it.index();
            assert(joining.take(k + 1).drop_last() == joining.take(k));
            assert(joining.take(k + 1).last() == node.pro_tx_hash@);
            self.insert(node);
        }
        assert(joining.take(joining.len() as int) == joining);
    }

    /// Generates `count` masternodes and lets them join; gives the number
    /// of masternodes in the registry afterwards.
    pub fn add_masternodes(&mut self, count: usize) -> (tally: usize)
        ensures
            exists|generated: Seq<Seq<u8>>| #[trigger]
                generated.len() == count && final(self)@ == with_nodes(old(self)@, generated),
            tally == final(self)@.len(),
            old(self)@.is_prefix_of(final(self)@),
            final(self)@.len() <= old(self)@.len() + count,
    {
        let nodes = Masternode::new_random_many(count);
        let ghost generated = hashes(nodes@);
        self.insert_all(nodes);
        proof {
            lemma_with_nodes_extends(old(self)@, generated);
        }
        assert(generated.len() == count && self@ == with_nodes(old(self)@, generated));
        self.len()
    }

    /// A masternode picked at random, each with the same chance; none where
    /// the registry is empty.
    pub fn random_masternode(&self) -> (node: Option<&Masternode>)
        ensures
            node is None <==> self@.len() == 0,
            node matches Some(picked) ==> self@.contains(picked.pro_tx_hash@),
    {
        let len = self.len();
        if len == 0 {
            None
        } else {
            let index = random_in_range(0, len as u64) as usize;
            self.get(index)
        }
    }
}

/// Masternodes that join keep those that were there, in their places.
pub proof fn lemma_with_nodes_extends(registry: Seq<Seq<u8>>, joining: Seq<Seq<u8>>)
    ensures
        registry.is_prefix_of(with_nodes(registry, joining)),
        with_nodes(registry, joining).len() <= registry.len() + joining.len(),
        registry.no_duplicates() ==> with_nodes(registry, joining).no_duplicates(),
    decreases joining.len(),
{
    if joining.len() > 0 {
        lemma_with_nodes_extends(registry, joining.drop_last());
    }
}

/// Without collisions, each masternode that joins makes the registry one
/// longer: where the joining identifiers differ from each other and from the
/// members, the registry afterwards is the members and then the joining ones.
pub proof fn lemma_with_nodes_without_collisions(registry: Seq<Seq<u8>>, joining: Seq<Seq<u8>>)
    requires
        joining.no_duplicates(),
        forall|i: int| 0 <= i < joining.len() ==> !registry.contains(#[trigger] joining[i]),
    ensures
        with_nodes(registry, joining) == registry + joining,
        with_nodes(registry, joining).len() == registry.len() + joining.len(),
    decreases joining.len(),
{
    if joining.len() > 0 {
        let front = joining.drop_last();
        lemma_with_nodes_without_collisions(registry, front);
        let last = joining.last();
        if (registry + front).contains(last) {
            let k = choose|k: int| 0 <= k < (registry + front).len() && (registry + front)[k] == last;
            if k < registry.len() {
                assert(registry[k] == last);
                assert(registry.contains(joining[joining.len() - 1]));
            } else {
                assert(joining[k - registry.len()] == joining[joining.len() - 1]);
            }
        }
        assert(registry + joining =~= (registry + front).push(last));
    } else {
        assert(registry + joining =~= registry);
    }
}

} // verus!
