//! The strategies that are saved under an alias, and the one that is loaded.

use crate::alias_map::{
    as_map, distinct_aliases, lemma_as_map_keys, lemma_as_map_update, lemma_as_map_value,
};
use crate::blockchain::strategy::{
    workload_admitted, workload_view, DocumentOp, Frequency, OperationView, Strategy,
};
use crate::text::views;
use vstd::prelude::*;

verus! {

/// Why a command on the strategies was turned down.
#[derive(Clone, Copy, Debug, PartialEq, Eq)]
pub enum StrategyError {
    /// No strategy is loaded.
    NoLoadedStrategy,
    /// No strategy is saved under the alias.
    UnknownStrategyAlias,
}

/// The saved strategies by alias, and the strategy that is loaded, if any.
pub struct StrategyStore {
    available: Vec<(String, Strategy)>,
    current: Option<(String, Strategy)>,
}

/// The mathematical value of a `StrategyStore`.
pub struct StrategyStoreView {
    pub available: Map<Seq<char>, Seq<OperationView>>,
    pub current: Option<(Seq<char>, Seq<OperationView>)>,
}

impl StrategyStoreView {
    /// The store after `new_strategy`.
    pub open spec fn with_new(self, alias: Seq<char>) -> StrategyStoreView {
        StrategyStoreView { current: Some((alias, Seq::empty())), ..self }
    }

    /// The store after an operation is added to the loaded strategy.
    pub open spec fn with_operation(self, operation: OperationView) -> StrategyStoreView {
        match self.current {
            Some((alias, operations)) => StrategyStoreView {
                current: Some((alias, operations.push(operation))),
                ..self
            },
            None => self,
        }
    }

    /// The store after the loaded strategy is saved under its alias.
    pub open spec fn saved(self) -> StrategyStoreView {
        match self.current {
            Some((alias, operations)) => StrategyStoreView {
                available: self.available.insert(alias, operations),
                ..self
            },
            None => self,
        }
    }

    /// The store after the loaded strategy is saved and then loaded again
    /// under `alias`.
    pub open spec fn duplicated(self, alias: Seq<char>) -> StrategyStoreView {
        match self.current {
            Some((_, operations)) => StrategyStoreView {
                current: Some((alias, operations)),
                ..self.saved()
            },
            None => self,
        }
    }

    /// The store after the strategy saved under `alias` is loaded.
    pub open spec fn loaded(self, alias: Seq<char>) -> StrategyStoreView {
        if self.available.contains_key(alias) {
            StrategyStoreView { current: Some((alias, self.available[alias])), ..self }
        } else {
            self
        }
    }
}

/// A duplicate is a copy: after the loaded strategy is duplicated under
/// `alias`, its own alias holds the operations it had and the loaded
/// strategy has the same operations under `alias`; an operation added to the
/// loaded strategy afterwards changes no saved strategy, and saving the
/// loaded strategy changes none but the one under `alias`.
pub proof fn lemma_duplicate_is_a_copy(
    store: StrategyStoreView,
    alias: Seq<char>,
    operation: OperationView,
)
    requires
        store.current is Some,
    ensures
        ({
            let (original, operations) = store.current->0;
            let copied = store.duplicated(alias);
            let changed = copied.with_operation(operation);
            &&& copied.available.contains_key(original)
            &&& copied.available[original] == operations
            &&& copied.current == Some((alias, operations))
            &&& changed.available == copied.available
            &&& changed.current == Some((alias, operations.push(operation)))
            &&& original != alias ==> changed.saved().available.contains_key(original)
                && changed.saved().available[original] == operations
        }),
{
}

/// The views of a sequence of saved strategies.
pub open spec fn entry_views(entries: Seq<(String, Strategy)>) -> Seq<(Seq<char>, Seq<OperationView>)> {
    entries.map_values(|entry: (String, Strategy)| (entry.0@, entry.1@))
}

impl View for StrategyStore {
    type V = StrategyStoreView;

    closed spec fn view(&self) -> StrategyStoreView {
        StrategyStoreView {
            available: as_map(entry_views(self.available@)),
            current: match self.current {
                Some((alias, strategy)) => Some((alias@, strategy@)),
                None => None,
            },
        }
    }
}

impl StrategyStore {
    /// No alias is saved twice.
    #[verifier::type_invariant]
    closed spec fn well_formed(self) -> bool {
        distinct_aliases(entry_views(self.available@))
    }

    /// A store without strategies.
    pub fn new() -> (store: StrategyStore)
        ensures
            store@ == (StrategyStoreView { available: Map::empty(), current: None }),
    {
        StrategyStore { available: Vec::new(), current: None }
    }

    /// The place of the strategy saved under `alias`.
    fn position(&self, alias: &String) -> (place: Option<usize>)
        ensures
            match place {
                Some(i) => i < self.available@.len() && self.available@[i as int].0@ == alias@,
                None => forall|k: int|
                    0 <= k < self.available@.len() ==> (#[trigger] self.available@[k]).0@ != alias@,
            },
    {
        let mut i: usize = 0;
        while i < self.available.len()
            invariant
                i <= self.available@.len(),
                forall|k: int| 0 <= k < i ==> (#[trigger] self.available@[k]).0@ != alias@,
            decreases self.available.len() - i,
        {
            if self.available[i].0 == *alias {
                return Some(i);
            }
            i = i + 1;
        }
        None
    }

    /// Saves `strategy` under `alias`, in the place of the one saved there
    /// before, if any.
    pub fn insert(&mut self, alias: String, strategy: Strategy)
        ensures
            final(self)@.available == old(self)@.available.insert(alias@, strategy@),
            final(self)@.current == old(self)@.current,
    {
        proof {
            use_type_invariant(&*self);
        }
        let place = self.position(&alias);
        let ghost before = entry_views(self.available@);
        let ghost entry = (alias@, strategy@);
        let mut available: Vec<(String, Strategy)> = Vec::new();
        std::mem::swap(&mut available, &mut self.available);
        match place {
            Some(i) => {
                available.set(i, (alias, strategy));
                proof {
                    assert(entry_views(available@) =~= before.update(i as int, entry));
                    lemma_as_map_update(before, i as int, entry.1);
                }
            },
            None => {
                available.push((alias, strategy));
                proof {
                    assert(entry_views(available@) =~= before.push(entry));
                    assert(before.push(entry).drop_last() == before);
                    assert forall|a: int, b: int|
                        0 <= a < before.len() + 1 && 0 <= b < before.len() + 1 && a
                            != b implies #[trigger] before.push(entry)[a].0
                        != #[trigger] before.push(entry)[b].0 by {
                        if a < before.len() && b < before.len() {
                            assert(before[a].0 != before[b].0);
                        } else if a < before.len() {
                            assert(before[a] == entry_views(old(self).available@)[a]);
                        } else {
                            assert(before[b] == entry_views(old(self).available@)[b]);
                        }
                    }
                }
            },
        }
        self.available = available;
    }

    /// Starts an empty strategy under `alias` and loads it.
    pub fn new_strategy(&mut self, alias: String)
        ensures
            final(self)@ == old(self)@.with_new(alias@),
    {
        proof {
            use_type_invariant(&*self);
        }
        self.current = Some((alias, Strategy::new()));
    }

    /// Appends an operation to the loaded strategy and gives the alias of
    /// that strategy; without a loaded strategy the store stays as it is.
    pub fn add_strategy_op(&mut self, document_op: DocumentOp, frequency: Frequency) -> (result:
        Result<String, StrategyError>)
        ensures
            match result {
                Ok(alias) => old(self)@.current matches Some(loaded) && alias@ == loaded.0
                    && final(self)@ == old(self)@.with_operation((document_op@, frequency)),
                Err(error) => error == StrategyError::NoLoadedStrategy && old(self)@.current is None
                    && final(self)@ == old(self)@,
            },
    {
        proof {
            use_type_invariant(&*self);
        }
        let mut current: Option<(String, Strategy)> = None;
        std::mem::swap(&mut current, &mut self.current);
        match current {
            None => Err(StrategyError::NoLoadedStrategy),
            Some((alias, strategy)) => {
                let owner = alias.clone();
                let mut strategy = strategy;
                let ghost before = strategy@;
                strategy.operations.push((document_op, frequency));
                assert(strategy@ =~= before.push((document_op@, frequency)));
                self.current = Some((alias, strategy));
                Ok(owner)
            },
        }
    }

    /// Saves the loaded strategy under its alias and gives that alias;
    /// without a loaded strategy the store stays as it is.
    pub fn save_strategy(&mut self) -> (result: Result<String, StrategyError>)
        ensures
            match result {
                Ok(alias) => old(self)@.current matches Some(loaded) && alias@ == loaded.0
                    && final(self)@ == old(self)@.saved(),
                Err(error) => error == StrategyError::NoLoadedStrategy && old(self)@.current is None
                    && final(self)@ == old(self)@,
            },
    {
        match &self.current {
            None => Err(StrategyError::NoLoadedStrategy),
            Some((alias, strategy)) => {
                let owner = alias.clone();
                let alias = alias.clone();
                let strategy = strategy.clone();
                self.insert(alias, strategy);
                Ok(owner)
            },
        }
    }

    /// Saves the loaded strategy under its own alias, then loads a copy of
    /// it under `alias`; without a loaded strategy the store stays as it is.
    pub fn dup_strategy(&mut self, alias: String) -> (result: Result<(), StrategyError>)
        ensures
            match result {
                Ok(()) => old(self)@.current is Some && final(self)@ == old(self)@.duplicated(
                    alias@,
                ),
                Err(error) => error == StrategyError::NoLoadedStrategy && old(self)@.current is None
                    && final(self)@ == old(self)@,
            },
    {
        match &self.current {
            None => Err(StrategyError::NoLoadedStrategy),
            Some((previous_alias, strategy)) => {
                let previous_alias = previous_alias.clone();
                let saved = strategy.clone();
                let copy = strategy.clone();
                self.insert(previous_alias, saved);
                proof {
                    use_type_invariant(&*self);
                }
                self.current = Some((alias, copy));
                Ok(())
            },
        }
    }

    /// Loads a copy of the strategy saved under `alias`; where there is
    /// none the store stays as it is.
    pub fn load_strategy(&mut self, alias: String) -> (result: Result<(), StrategyError>)
        ensures
            match result {
                Ok(()) => old(self)@.available.contains_key(alias@) && final(self)@ == old(
                    self,
                )@.loaded(alias@),
                Err(error) => error == StrategyError::UnknownStrategyAlias && !old(
                    self,
                )@.available.contains_key(alias@) && final(self)@ == old(self)@,
            },
    {
        proof {
            use_type_invariant(&*self);
            lemma_as_map_keys(entry_views(self.available@), alias@);
        }
        match self.position(&alias) {
            None => {
                assert forall|i: int| 0 <= i < self.available@.len() implies (#[trigger] entry_views(
                    self.available@,
                )[i]).0 != alias@ by {
                    assert(self.available@[i].0@ != alias@);
                }
                Err(StrategyError::UnknownStrategyAlias)
            },
            Some(i) => {
                proof {
                    assert(entry_views(self.available@)[i as int].0 == alias@);
                    lemma_as_map_value(entry_views(self.available@), i as int);
                }
                let strategy = self.available[i].1.clone();
                self.current = Some((alias, strategy));
                Ok(())
            },
        }
    }

    /// The loaded strategy with its alias.
    pub fn current(&self) -> (current: Option<(&String, &Strategy)>)
        ensures
            match current {
                Some((alias, strategy)) => self@.current == Some((alias@, strategy@)),
                None => self@.current is None,
            },
    {
        match &self.current {
            Some((alias, strategy)) => Some((alias, strategy)),
            None => None,
        }
    }

    /// The strategy saved under `alias`.
    pub fn get(&self, alias: &String) -> (strategy: Option<&Strategy>)
        ensures
            match strategy {
                Some(found) => self@.available.contains_key(alias@) && self@.available[alias@]
                    == found@,
                None => !self@.available.contains_key(alias@),
            },
    {
        proof {
            use_type_invariant(self);
            lemma_as_map_keys(entry_views(self.available@), alias@);
        }
        match self.position(alias) {
            None => {
                assert forall|i: int| 0 <= i < self.available@.len() implies (#[trigger] entry_views(
                    self.available@,
                )[i]).0 != alias@ by {
                    assert(self.available@[i].0@ != alias@);
                }
                None
            },
            Some(i) => {
                proof {
                    assert(entry_views(self.available@)[i as int].0 == alias@);
                    lemma_as_map_value(entry_views(self.available@), i as int);
                }
                Some(&self.available[i].1)
            },
        }
    }

    /// The aliases under which strategies are saved, each once.
    pub fn aliases(&self) -> (aliases: Vec<String>)
        ensures
            forall|alias: Seq<char>|
                self@.available.contains_key(alias) <==> exists|i: int|
                    0 <= i < aliases@.len() && (#[trigger] aliases@[i])@ == alias,
            views(aliases@).no_duplicates(),
    {
        proof {
            use_type_invariant(self);
        }
        let mut aliases: Vec<String> = Vec::new();
        let mut i: usize = 0;
        while i < self.available.len()
            invariant
                i <= self.available@.len(),
                aliases@.len() == i,
                forall|k: int| 0 <= k < i ==> (#[trigger] aliases@[k])@ == self.available@[k].0@,
            decreases self.available.len() - i,
        {
            aliases.push(self.available[i].0.clone());
            i = i + 1;
        }
        assert forall|a: int, b: int|
            0 <= a < aliases@.len() && 0 <= b < aliases@.len() && a != b implies views(aliases@)[a]
            != views(aliases@)[b] by {
            assert(entry_views(self.available@)[a].0 != entry_views(self.available@)[b].0);
        }
        assert forall|alias: Seq<char>|
            self@.available.contains_key(alias) <==> exists|i: int|
                0 <= i < aliases@.len() && (#[trigger] aliases@[i])@ == alias by {
            lemma_as_map_keys(entry_views(self.available@), alias);
            if self@.available.contains_key(alias) {
                let k = choose|k: int|
                    0 <= k < entry_views(self.available@).len() && (#[trigger] entry_views(
                        self.available@,
                    )[k]).0 == alias;
                assert(aliases@[k]@ == alias);
            }
            if exists|i: int| 0 <= i < aliases@.len() && (#[trigger] aliases@[i])@ == alias {
                let k = choose|k: int| 0 <= k < aliases@.len() && (#[trigger] aliases@[k])@ == alias;
                assert(entry_views(self.available@)[k].0 == alias);
            }
        }
        aliases
    }

    /// Draws the workload of one block from the loaded strategy; without a
    /// loaded strategy the block has no operations.
    pub fn draw_workload(&self) -> (workload: Vec<(DocumentOp, u16)>)
        ensures
            match self@.current {
                Some(loaded) => workload_admitted(loaded.1, workload_view(workload@)),
                None => workload@.len() == 0,
            },
    {
        match &self.current {
            Some((_, strategy)) => strategy.draw_workload(),
            None => Vec::new(),
        }
    }
}

} // verus!
