//! One session of the explorer, and the commands that work on it.

use crate::blockchain::chance::{is_probability, Chance};
use crate::blockchain::contract_store::{ContractStore, StoredContract};
use crate::blockchain::executor::{
    Action, BlockExecutor, Event, ExecutorState, MAX_BLOCKS, MIN_BLOCKS,
};
use crate::blockchain::masternode::{with_nodes, MasternodeRegistry};
use crate::blockchain::strategy::{
    get_u16_range_from_input, range_of, workload_admitted, workload_view, DocumentOp,
    DocumentOpView, Frequency, OperationView, RangeError, WorkloadView,
};
use crate::blockchain::strategy_store::StrategyStore;
use crate::text::{parse_unsigned, split_whitespace, unsigned_value, views, words};
use vstd::prelude::*;

verus! {

/// Why a command was turned down. Nothing has changed when one is reported.
#[derive(Clone, Copy, Debug, PartialEq, Eq)]
pub enum InputError {
    /// The line has more words than the command takes.
    TooManyArguments,
    /// The line has fewer words than the command needs.
    TooFewArguments,
    /// The count is not written as an unsigned integer.
    NotAnInteger,
    /// The count is not from 1 to 10000.
    OutOfRange,
    /// No strategy is saved under the alias.
    UnknownStrategyAlias,
    /// No strategy is loaded.
    NoLoadedStrategy,
    /// No contract has the alias.
    UnknownContractAlias,
    /// The contract has no document type of the name.
    UnknownDocumentType,
    /// The range is not written as `m..n`.
    NotARange,
    /// The lower end of the range is not an integer of sixteen bits.
    LowerNotAnInteger,
    /// The upper end of the range is not an integer of sixteen bits.
    UpperNotAnInteger,
    /// The range ends before it starts.
    RangeOutOfOrder,
    /// The chance is not written as a number.
    ChanceNotANumber,
    /// The chance is not from 0 to 1.
    ChanceOutOfRange,
}

/// One session of the explorer: the masternodes, the strategies, the
/// contracts and the chain.
pub struct Explorer {
    pub masternodes: MasternodeRegistry,
    pub strategies: StrategyStore,
    pub contracts: ContractStore,
    pub chain: BlockExecutor,
}

/// The one argument of a command that takes a word and one argument.
pub open spec fn single_argument(input: Seq<char>) -> Result<Seq<char>, InputError> {
    let args = words(input);
    if args.len() > 2 {
        Err(InputError::TooManyArguments)
    } else if args.len() < 2 {
        Err(InputError::TooFewArguments)
    } else {
        Ok(args[1])
    }
}

/// The count that a command line asks for: its one argument, an unsigned
/// integer from 1 to 10000.
pub open spec fn count_argument(input: Seq<char>) -> Result<usize, InputError> {
    match single_argument(input) {
        Err(error) => Err(error),
        Ok(argument) => match unsigned_value(argument, usize::MAX as nat) {
            None => Err(InputError::NotAnInteger),
            Some(count) => if MIN_BLOCKS <= count <= MAX_BLOCKS {
                Ok(count as usize)
            } else {
                Err(InputError::OutOfRange)
            },
        },
    }
}

/// Whether `proposer` can be the pick for an event: a member of the
/// registry where the event opens a block and there is a member, and none
/// otherwise.
pub open spec fn proposer_admitted(
    registry: Seq<Seq<u8>>,
    opens_block: bool,
    proposer: Option<[u8; 32]>,
) -> bool {
    match proposer {
        Some(hash) => opens_block && registry.contains(hash@),
        None => !opens_block || registry.len() == 0,
    }
}

/// Whether `workload` can be the draw for an event: one that the loaded
/// strategy admits where a block has begun, without operations where no
/// strategy is loaded, and empty otherwise.
pub open spec fn workload_drawn(
    current: Option<(Seq<char>, Seq<OperationView>)>,
    event: Event,
    workload: WorkloadView,
) -> bool {
    match (event, current) {
        (Event::BlockBegun, Some(loaded)) => workload_admitted(loaded.1, workload),
        _ => workload.len() == 0,
    }
}

/// The alias and the path of the command `add_contract <alias> <path>`.
pub open spec fn contract_arguments(input: Seq<char>) -> Result<(Seq<char>, Seq<char>), InputError> {
    let args = words(input);
    if args.len() > 3 {
        Err(InputError::TooManyArguments)
    } else if args.len() < 3 {
        Err(InputError::TooFewArguments)
    } else {
        Ok((args[1], args[2]))
    }
}

/// The chance as the command `add_op` is given it: the fifth word of the
/// line, where the line has five words.
pub open spec fn chance_argument(input: Seq<char>) -> Option<Seq<char>> {
    let args = words(input);
    if args.len() == 5 {
        Some(args[4])
    } else {
        None
    }
}

/// The error that stands for a range that could not be read.
pub open spec fn range_error(error: RangeError) -> InputError {
    match error {
        RangeError::NotARange => InputError::NotARange,
        RangeError::LowerNotAnInteger => InputError::LowerNotAnInteger,
        RangeError::UpperNotAnInteger => InputError::UpperNotAnInteger,
    }
}

/// What the command `add_op <contract> <document_type> <m..n> [chance]`
/// asks to add, where `parsed_chance` is the encoding of the number that
/// the fifth word stands for, if it stands for one: the operation, the two
/// ends of the range and the encoding of the chance.
pub open spec fn operation_arguments(
    contracts: Map<Seq<char>, StoredContract>,
    input: Seq<char>,
    parsed_chance: Option<u64>,
) -> Result<(DocumentOpView, u16, u16, Option<u64>), InputError> {
    let args = words(input);
    if args.len() > 5 {
        Err(InputError::TooManyArguments)
    } else if args.len() < 4 {
        Err(InputError::TooFewArguments)
    } else if !contracts.contains_key(args[1]) {
        Err(InputError::UnknownContractAlias)
    } else if !contracts[args[1]].1.document_types.contains(args[2]) {
        Err(InputError::UnknownDocumentType)
    } else {
        let operation = DocumentOpView { contract: contracts[args[1]].1, document_type: args[2] };
        match range_of(args[3]) {
            Err(error) => Err(range_error(error)),
            Ok((low, high)) => if args.len() == 5 && parsed_chance is None {
                Err(InputError::ChanceNotANumber)
            } else if args.len() == 5 && !is_probability(parsed_chance->0) {
                Err(InputError::ChanceOutOfRange)
            } else if low > high {
                Err(InputError::RangeOutOfOrder)
            } else {
                Ok(
                    (
                        operation,
                        low,
                        high,
                        if args.len() == 5 {
                            parsed_chance
                        } else {
                            None
                        },
                    ),
                )
            },
        }
    }
}

/// Whether `frequency` has the range from `low` to `high` and the chance
/// with the encoding `chance`.
pub open spec fn frequency_is(frequency: Frequency, low: u16, high: u16, chance: Option<u64>) -> bool {
    &&& frequency.valid()
    &&& frequency.low() == low
    &&& frequency.high() == high
    &&& match chance {
        Some(bits) => frequency.chance() is Some && frequency.chance()->0.bits() == bits,
        None => frequency.chance() is None,
    }
}

/// The alias and the path of the command `add_contract <alias> <path>`.
pub fn prompt_add_contract(input: &str) -> (arguments: Result<(String, String), InputError>)
    ensures
        match arguments {
            Ok((alias, path)) => contract_arguments(input@) == Ok::<
                (Seq<char>, Seq<char>),
                InputError,
            >((alias@, path@)),
            Err(error) => contract_arguments(input@) == Err::<(Seq<char>, Seq<char>), InputError>(
                error,
            ),
        },
{
    let mut args = split_whitespace(input);
    assert(views(args@).len() == args@.len());
    if args.len() > 3 {
        Err(InputError::TooManyArguments)
    } else if args.len() < 3 {
        Err(InputError::TooFewArguments)
    } else {
        assert(views(args@)[1] == args@[1]@);
        assert(views(args@)[2] == args@[2]@);
        let path = args.pop().unwrap();
        let alias = args.pop().unwrap();
        Ok((alias, path))
    }
}

/// The chance as the command `add_op` is given it.
pub fn prompt_chance(input: &str) -> (chance: Option<String>)
    ensures
        match chance {
            Some(word) => chance_argument(input@) == Some(word@),
            None => chance_argument(input@) is None,
        },
{
    let mut args = split_whitespace(input);
    assert(views(args@).len() == args@.len());
    if args.len() == 5 {
        assert(views(args@)[4] == args@[4]@);
        args.pop()
    } else {
        None
    }
}

/// The one argument of a command line.
pub fn parse_single_argument(input: &str) -> (argument: Result<String, InputError>)
    ensures
        match argument {
            Ok(word) => single_argument(input@) == Ok::<Seq<char>, InputError>(word@),
            Err(error) => single_argument(input@) == Err::<Seq<char>, InputError>(error),
        },
{
    let mut args = split_whitespace(input);
    assert(views(args@).len() == args@.len());
    if args.len() > 2 {
        Err(InputError::TooManyArguments)
    } else if args.len() < 2 {
        Err(InputError::TooFewArguments)
    } else {
        assert(views(args@)[1] == args@[1]@);
        let argument = args.pop();
        Ok(argument.unwrap())
    }
}

/// The count that a command line asks for.
pub fn parse_count(input: &str) -> (count: Result<usize, InputError>)
    ensures
        count == count_argument(input@),
{
    match parse_single_argument(input) {
        Err(error) => Err(error),
        Ok(argument) => match parse_unsigned(argument.as_str(), usize::MAX as u64) {
            None => Err(InputError::NotAnInteger),
            Some(count) => if MIN_BLOCKS as u64 <= count && count <= MAX_BLOCKS as u64 {
                Ok(count as usize)
            } else {
                Err(InputError::OutOfRange)
            },
        },
    }
}

impl Explorer {
    /// A session without masternodes, strategies, contracts or blocks.
    pub fn new() -> (explorer: Explorer)
        ensures
            explorer.masternodes@.len() == 0,
            explorer.strategies@.current is None,
            explorer.strategies@.available == Map::<Seq<char>, Seq<OperationView>>::empty(),
            explorer.contracts@ == Map::<Seq<char>, StoredContract>::empty(),
            explorer.chain@ == ExecutorState::initial(),
    {
        Explorer {
            masternodes: MasternodeRegistry::new(),
            strategies: StrategyStore::new(),
            contracts: ContractStore::new(),
            chain: BlockExecutor::new(),
        }
    }

    /// Tells the executor that `event` happened and gives what is to happen
    /// next. Where the event opens a block, its proposer is picked at random
    /// from the masternodes; where a block has begun, its workload is drawn
    /// from the loaded strategy.
    pub fn step(&mut self, event: Event) -> (action: Action)
        ensures
            exists|proposer: Option<[u8; 32]>, workload: WorkloadView|
                (#[trigger] old(self).chain@.step(event, proposer, workload)) == (
                    final(self).chain@,
                    action,
                ) && proposer_admitted(
                    old(self).masternodes@,
                    old(self).chain@.opens_block_on(event),
                    proposer,
                ) && workload_drawn(old(self).strategies@.current, event, workload),
            old(self).chain@.valid(),
            final(self).chain@.valid(),
            final(self).masternodes == old(self).masternodes,
            final(self).strategies == old(self).strategies,
            final(self).contracts == old(self).contracts,
    {
        let proposer: Option<[u8; 32]> = if self.chain.opens_block_on(&event) {
            match self.masternodes.random_masternode() {
                Some(node) => Some(node.pro_tx_hash),
                None => None,
            }
        } else {
            None
        };
        let workload = match event {
            Event::BlockBegun => self.strategies.draw_workload(),
            _ => Vec::new(),
        };
        let ghost drawn = workload_view(workload@);
        let action = self.chain.apply(event, proposer, workload);
        assert(old(self).chain@.step(event, proposer, drawn) == (self.chain@, action));
        action
    }

    /// Starts a run of `count` blocks.
    pub fn execute_blocks(&mut self, count: usize) -> (action: Action)
        ensures
            exists|proposer: Option<[u8; 32]>|
                (#[trigger] old(self).chain@.execute_blocks(count, proposer)) == (
                    final(self).chain@,
                    action,
                ) && proposer_admitted(
                    old(self).masternodes@,
                    old(self).chain@.opens_block_on(Event::Start { count }),
                    proposer,
                ),
            final(self).masternodes == old(self).masternodes,
            final(self).strategies == old(self).strategies,
            final(self).contracts == old(self).contracts,
    {
        let action = self.step(Event::Start { count });
        let ghost event = Event::Start { count };
        proof {
            let (proposer, workload) = choose|proposer: Option<[u8; 32]>, workload: WorkloadView|
                (#[trigger] old(self).chain@.step(event, proposer, workload)) == (
                    self.chain@,
                    action,
                ) && proposer_admitted(
                    old(self).masternodes@,
                    old(self).chain@.opens_block_on(event),
                    proposer,
                ) && workload_drawn(old(self).strategies@.current, event, workload);
            assert(old(self).chain@.execute_blocks(count, proposer) == (self.chain@, action));
        }
        action
    }

    /// The command `add_masternodes <count>`: lets `count` new masternodes
    /// join, for a count from 1 to 10000, and gives the count with the
    /// number of masternodes afterwards.
    pub fn prompt_add_masternodes(&mut self, input: &str) -> (result: Result<
        (usize, usize),
        InputError,
    >)
        ensures
            match result {
                Ok((count, tally)) => {
                    &&& count_argument(input@) == Ok::<usize, InputError>(count)
                    &&& tally == final(self).masternodes@.len()
                    &&& exists|generated: Seq<Seq<u8>>| #[trigger]
                        generated.len() == count && final(self).masternodes@ == with_nodes(
                            old(self).masternodes@,
                            generated,
                        )
                },
                Err(error) => {
                    &&& count_argument(input@) == Err::<usize, InputError>(error)
                    &&& final(self).masternodes@ == old(self).masternodes@
                },
            },
            final(self).strategies == old(self).strategies,
            final(self).contracts == old(self).contracts,
            final(self).chain == old(self).chain,
    {
        match parse_count(input) {
            Err(error) => Err(error),
            Ok(count) => {
                let tally = self.masternodes.add_masternodes(count);
                Ok((count, tally))
            },
        }
    }

    /// The command `execute_blocks <count>`: starts a run of `count`
    /// blocks, for a count from 1 to 10000.
    pub fn prompt_execute_blocks(&mut self, input: &str) -> (result: Result<Action, InputError>)
        ensures
            match result {
                Ok(action) => count_argument(input@) is Ok && exists|proposer: Option<[u8; 32]>|
                    (#[trigger] old(self).chain@.execute_blocks(
                        count_argument(input@)->Ok_0,
                        proposer,
                    )) == (final(self).chain@, action) && proposer_admitted(
                        old(self).masternodes@,
                        old(self).chain@.phase is Idle,
                        proposer,
                    ),
                Err(error) => {
                    &&& count_argument(input@) == Err::<usize, InputError>(error)
                    &&& final(self).chain@ == old(self).chain@
                },
            },
            final(self).masternodes == old(self).masternodes,
            final(self).strategies == old(self).strategies,
            final(self).contracts == old(self).contracts,
    {
        match parse_count(input) {
            Err(error) => Err(error),
            Ok(count) => Ok(self.execute_blocks(count)),
        }
    }

    /// The command `new_strategy <alias>`: starts an empty strategy under
    /// the alias and loads it; gives the alias.
    pub fn prompt_new_strategy(&mut self, input: &str) -> (result: Result<String, InputError>)
        ensures
            match result {
                Ok(alias) => single_argument(input@) == Ok::<Seq<char>, InputError>(alias@)
                    && final(self).strategies@ == old(self).strategies@.with_new(alias@),
                Err(error) => single_argument(input@) == Err::<Seq<char>, InputError>(error)
                    && final(self).strategies@ == old(self).strategies@,
            },
            final(self).masternodes == old(self).masternodes,
            final(self).contracts == old(self).contracts,
            final(self).chain == old(self).chain,
    {
        match parse_single_argument(input) {
            Err(error) => Err(error),
            Ok(alias) => {
                self.strategies.new_strategy(alias.clone());
                Ok(alias)
            },
        }
    }

    /// The command `load_strategy <alias>`: loads a copy of the strategy
    /// saved under the alias; gives the alias.
    pub fn prompt_load_strategy(&mut self, input: &str) -> (result: Result<String, InputError>)
        ensures
            match result {
                Ok(alias) => {
                    &&& single_argument(input@) == Ok::<Seq<char>, InputError>(alias@)
                    &&& old(self).strategies@.available.contains_key(alias@)
                    &&& final(self).strategies@ == old(self).strategies@.loaded(alias@)
                },
                Err(error) => {
                    &&& final(self).strategies@ == old(self).strategies@
                    &&& match single_argument(input@) {
                        Err(wrong) => error == wrong,
                        Ok(alias) => {
                            &&& error == InputError::UnknownStrategyAlias
                            &&& !old(self).strategies@.available.contains_key(alias)
                        },
                    }
                },
            },
            final(self).masternodes == old(self).masternodes,
            final(self).contracts == old(self).contracts,
            final(self).chain == old(self).chain,
    {
        match parse_single_argument(input) {
            Err(error) => Err(error),
            Ok(alias) => match self.strategies.load_strategy(alias.clone()) {
                Ok(()) => Ok(alias),
                Err(_) => Err(InputError::UnknownStrategyAlias),
            },
        }
    }

    /// The command `dup_strategy <alias>`: saves the loaded strategy under
    /// its own alias and loads a copy of it under the new alias; gives the
    /// new alias.
    pub fn prompt_dup_strategy(&mut self, input: &str) -> (result: Result<String, InputError>)
        ensures
            match result {
                Ok(alias) => {
                    &&& single_argument(input@) == Ok::<Seq<char>, InputError>(alias@)
                    &&& old(self).strategies@.current is Some
                    &&& final(self).strategies@ == old(self).strategies@.duplicated(alias@)
                },
                Err(error) => {
                    &&& final(self).strategies@ == old(self).strategies@
                    &&& match single_argument(input@) {
                        Err(wrong) => error == wrong,
                        Ok(_) => {
                            &&& error == InputError::NoLoadedStrategy
                            &&& old(self).strategies@.current is None
                        },
                    }
                },
            },
            final(self).masternodes == old(self).masternodes,
            final(self).contracts == old(self).contracts,
            final(self).chain == old(self).chain,
    {
        match parse_single_argument(input) {
            Err(error) => Err(error),
            Ok(alias) => match self.strategies.dup_strategy(alias.clone()) {
                Ok(()) => Ok(alias),
                Err(_) => Err(InputError::NoLoadedStrategy),
            },
        }
    }

    /// The command `add_op <contract> <document_type> <m..n> [chance]`:
    /// appends an operation to the loaded strategy, and gives the alias of
    /// that strategy with the frequency of the operation. `parsed_chance` is
    /// the binary64 encoding of the number that the fifth word of the line
    /// stands for, if it stands for one.
    pub fn prompt_add_op(&mut self, input: &str, parsed_chance: Option<u64>) -> (result: Result<
        (String, Frequency),
        InputError,
    >)
        ensures
            match result {
                Ok((alias, frequency)) => match operation_arguments(
                    old(self).contracts@,
                    input@,
                    parsed_chance,
                ) {
                    Ok((operation, low, high, chance)) => {
                        &&& frequency_is(frequency, low, high, chance)
                        &&& old(self).strategies@.current matches Some(loaded)
                        &&& alias@ == loaded.0
                        &&& final(self).strategies@ == old(self).strategies@.with_operation(
                            (operation, frequency),
                        )
                    },
                    Err(_) => false,
                },
                Err(error) => {
                    &&& final(self).strategies@ == old(self).strategies@
                    &&& match operation_arguments(old(self).contracts@, input@, parsed_chance) {
                        Ok(_) => {
                            &&& error == InputError::NoLoadedStrategy
                            &&& old(self).strategies@.current is None
                        },
                        Err(wrong) => error == wrong,
                    }
                },
            },
            final(self).masternodes == old(self).masternodes,
            final(self).contracts == old(self).contracts,
            final(self).chain == old(self).chain,
    {
        let args = split_whitespace(input);
        assert(views(args@).len() == args@.len());
        if args.len() > 5 {
            return Err(InputError::TooManyArguments);
        }
        if args.len() < 4 {
            return Err(InputError::TooFewArguments);
        }
        assert(views(args@)[1] == args@[1]@);
        assert(views(args@)[2] == args@[2]@);
        assert(views(args@)[3] == args@[3]@);
        let contract = match self.contracts.get(args[1].as_str()) {
            None => { return Err(InputError::UnknownContractAlias); },
            Some(contract) => contract.clone(),
        };
        let document_op = match DocumentOp::new(contract, args[2].clone()) {
            None => { return Err(InputError::UnknownDocumentType); },
            Some(document_op) => document_op,
        };
        let times_per_block_range = match get_u16_range_from_input(args[3].as_str()) {
            Err(RangeError::NotARange) => { return Err(InputError::NotARange); },
            Err(RangeError::LowerNotAnInteger) => { return Err(InputError::LowerNotAnInteger); },
            Err(RangeError::UpperNotAnInteger) => { return Err(InputError::UpperNotAnInteger); },
            Ok(range) => range,
        };
        let chance_per_block: Option<Chance> = if args.len() == 5 {
            match parsed_chance {
                None => { return Err(InputError::ChanceNotANumber); },
                Some(bits) => match Chance::from_bits(bits) {
                    None => { return Err(InputError::ChanceOutOfRange); },
                    Some(chance) => Some(chance),
                },
            }
        } else {
            None
        };
        let frequency = match Frequency::new(times_per_block_range, chance_per_block) {
            None => { return Err(InputError::RangeOutOfOrder); },
            Some(frequency) => frequency,
        };
        match self.strategies.add_strategy_op(document_op, frequency) {
            Err(_) => Err(InputError::NoLoadedStrategy),
            Ok(alias) => Ok((alias, frequency)),
        }
    }
}

} // verus!
