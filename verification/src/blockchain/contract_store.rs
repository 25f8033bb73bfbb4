//! The contracts that operations can be made of, by alias.

use crate::alias_map::{
    as_map, distinct_aliases, lemma_as_map_keys, lemma_as_map_update, lemma_as_map_value,
};
use crate::blockchain::strategy::{Contract, ContractView};
use crate::text::{same_text, views};
use vstd::prelude::*;

verus! {

/// A contract as the store knows it: the path it was read from, and its value.
pub type StoredContract = (Seq<char>, ContractView);

/// The contracts that operations can be made of, by alias.
pub struct ContractStore {
    entries: Vec<(String, String, Contract)>,
}

/// The views of a sequence of stored contracts.
pub open spec fn contract_views(entries: Seq<(String, String, Contract)>) -> Seq<
    (Seq<char>, StoredContract),
> {
    entries.map_values(|entry: (String, String, Contract)| (entry.0@, (entry.1@, entry.2@)))
}

impl View for ContractStore {
    type V = Map<Seq<char>, StoredContract>;

    closed spec fn view(&self) -> Map<Seq<char>, StoredContract> {
        as_map(contract_views(self.entries@))
    }
}

impl ContractStore {
    /// No alias is in the store twice.
    #[verifier::type_invariant]
    closed spec fn well_formed(self) -> bool {
        distinct_aliases(contract_views(self.entries@))
    }

    /// A store without contracts.
    pub fn new() -> (store: ContractStore)
        ensures
            store@ == Map::<Seq<char>, StoredContract>::empty(),
    {
        ContractStore { entries: Vec::new() }
    }

    /// The place of the contract with the alias `alias`.
    fn position(&self, alias: &str) -> (place: Option<usize>)
        ensures
            match place {
                Some(i) => i < self.entries@.len() && self.entries@[i as int].0@ == alias@,
                None => forall|k: int|
                    0 <= k < self.entries@.len() ==> (#[trigger] self.entries@[k]).0@ != alias@,
            },
    {
        let mut i: usize = 0;
        while i < self.entries.len()
            invariant
                i <= self.entries@.len(),
                forall|k: int| 0 <= k < i ==> (#[trigger] self.entries@[k]).0@ != alias@,
            decreases self.entries.len() - i,
        {
            if same_text(self.entries[i].0.as_str(), alias) {
                return Some(i);
            }
            i = i + 1;
        }
        None
    }

    /// Puts `contract`, read from `path`, under `alias`, in the place of
    /// the contract that had that alias before, if any.
    pub fn add_contract(&mut self, alias: String, path: String, contract: Contract)
        ensures
            final(self)@ == old(self)@.insert(alias@, (path@, contract@)),
    {
        proof {
            use_type_invariant(&*self);
        }
        let place = self.position(alias.as_str());
        let ghost before = contract_views(self.entries@);
        let ghost entry = (alias@, (path@, contract@));
        let mut entries: Vec<(String, String, Contract)> = Vec::new();
        std::mem::swap(&mut entries, &mut self.entries);
        match place {
            Some(i) => {
                entries.set(i, (alias, path, contract));
                proof {
                    assert(contract_views(entries@) =~= before.update(i as int, entry));
                    lemma_as_map_update(before, i as int, entry.1);
                }
            },
            None => {
                entries.push((alias, path, contract));
                proof {
                    assert(contract_views(entries@) =~= before.push(entry));
                    assert(before.push(entry).drop_last() == before);
                    assert forall|a: int, b: int|
                        0 <= a < before.len() + 1 && 0 <= b < before.len() + 1 && a
                            != b implies #[trigger] before.push(entry)[a].0
                        != #[trigger] before.push(entry)[b].0 by {
                        if a < before.len() && b < before.len() {
                            assert(before[a].0 != before[b].0);
                        } else if a < before.len() {
                            assert(before[a] == contract_views(old(self).entries@)[a]);
                        } else {
                            assert(before[b] == contract_views(old(self).entries@)[b]);
                        }
                    }
                }
            },
        }
        self.entries = entries;
    }

    /// The contract with the alias `alias`.
    pub fn get(&self, alias: &str) -> (contract: Option<&Contract>)
        ensures
            match contract {
                Some(found) => self@.contains_key(alias@) && self@[alias@].1 == found@,
                None => !self@.contains_key(alias@),
            },
    {
        proof {
            use_type_invariant(self);
            lemma_as_map_keys(contract_views(self.entries@), alias@);
        }
        match self.position(alias) {
            None => {
                assert forall|i: int| 0 <= i < self.entries@.len() implies (#[trigger] contract_views(
                    self.entries@,
                )[i]).0 != alias@ by {
                    assert(self.entries@[i].0@ != alias@);
                }
                None
            },
            Some(i) => {
                proof {
                    assert(contract_views(self.entries@)[i as int].0 == alias@);
                    lemma_as_map_value(contract_views(self.entries@), i as int);
                }
                Some(&self.entries[i].2)
            },
        }
    }

    /// The path that the contract with the alias `alias` was read from.
    pub fn path(&self, alias: &str) -> (path: Option<&String>)
        ensures
            match path {
                Some(found) => self@.contains_key(alias@) && self@[alias@].0 == found@,
                None => !self@.contains_key(alias@),
            },
    {
        proof {
            use_type_invariant(self);
            lemma_as_map_keys(contract_views(self.entries@), alias@);
        }
        match self.position(alias) {
            None => {
                assert forall|i: int| 0 <= i < self.entries@.len() implies (#[trigger] contract_views(
                    self.entries@,
                )[i]).0 != alias@ by {
                    assert(self.entries@[i].0@ != alias@);
                }
                None
            },
            Some(i) => {
                proof {
                    assert(contract_views(self.entries@)[i as int].0 == alias@);
                    lemma_as_map_value(contract_views(self.entries@), i as int);
                }
                Some(&self.entries[i].1)
            },
        }
    }

    /// The aliases of the contracts, each once.
    pub fn aliases(&self) -> (aliases: Vec<String>)
        ensures
            forall|alias: Seq<char>|
                self@.contains_key(alias) <==> exists|i: int|
                    0 <= i < aliases@.len() && (#[trigger] aliases@[i])@ == alias,
            views(aliases@).no_duplicates(),
    {
        proof {
            use_type_invariant(self);
        }
        let mut aliases: Vec<String> = Vec::new();
        let mut i: usize = 0;
        while i < self.entries.len()
            invariant
                i <= self.entries@.len(),
                aliases@.len() == i,
                forall|k: int| 0 <= k < i ==> (#[trigger] aliases@[k])@ == self.entries@[k].0@,
            decreases self.entries.len() - i,
        {
            aliases.push(self.entries[i].0.clone());
            i = i + 1;
        }
        assert forall|a: int, b: int|
            0 <= a < aliases@.len() && 0 <= b < aliases@.len() && a != b implies views(aliases@)[a]
            != views(aliases@)[b] by {
            assert(contract_views(self.entries@)[a].0 != contract_views(self.entries@)[b].0);
        }
        assert forall|alias: Seq<char>|
            self@.contains_key(alias) <==> exists|i: int|
                0 <= i < aliases@.len() && (#[trigger] aliases@[i])@ == alias by {
            lemma_as_map_keys(contract_views(self.entries@), alias);
            if self@.contains_key(alias) {
                let k = choose|k: int|
                    0 <= k < contract_views(self.entries@).len() && (#[trigger] contract_views(
                        self.entries@,
                    )[k]).0 == alias;
                assert(aliases@[k]@ == alias);
            }
            if exists|i: int| 0 <= i < aliases@.len() && (#[trigger] aliases@[i])@ == alias {
                let k = choose|k: int| 0 <= k < aliases@.len() && (#[trigger] aliases@[k])@ == alias;
                assert(contract_views(self.entries@)[k].0 == alias);
            }
        }
        aliases
    }
}

} // verus!
