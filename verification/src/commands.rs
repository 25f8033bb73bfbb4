//! Which command a line typed on one of the screens asks for.

use crate::text::{same_text, starts_with};
use vstd::prelude::*;

verus! {

/// What a line typed on the main screen asks for.
#[derive(Clone, Copy, Debug, PartialEq, Eq)]
pub enum MainCommand {
    Person,
    DashPay,
    Dpns,
    LoadContract,
    LoadLastContract,
    Blockchain,
    Exit,
    Unknown,
}

/// What a line typed on the blockchain screen asks for.
#[derive(Clone, Copy, Debug, PartialEq, Eq)]
pub enum BlockchainCommand {
    View,
    AddMasternodes,
    ExecuteBlocks,
    Strategy,
    Exit,
    Unknown,
}

/// What a line typed on the strategy screen asks for.
#[derive(Clone, Copy, Debug, PartialEq, Eq)]
pub enum StrategyCommand {
    ViewAll,
    View,
    LoadStrategy,
    NewStrategy,
    DupStrategy,
    SaveStrategy,
    Contracts,
    AddContract,
    AddOp,
    Exit,
    Unknown,
}

/// What a line typed on the screen of a contract asks for.
#[derive(Clone, Copy, Debug, PartialEq, Eq)]
pub enum ContractCommand {
    View,
    Populate,
    All,
    Insert,
    Delete,
    Select,
    Cost,
    Exit,
    Unknown,
}

/// What a line typed on the screen of the person contract asks for.
#[derive(Clone, Copy, Debug, PartialEq, Eq)]
pub enum PersonCommand {
    Populate,
    All,
    Insert,
    Delete,
    Select,
    Cost,
    Exit,
    Unknown,
}

/// What a line typed on the screen of the identities asks for.
#[derive(Clone, Copy, Debug, PartialEq, Eq)]
pub enum IdentityCommand {
    View,
    Populate,
    Exit,
    Unknown,
}

/// Whether the line is the command word, or its short form.
pub open spec fn names(input: Seq<char>, word: Seq<char>, short: Seq<char>) -> bool {
    input == word || input == short
}

/// Whether the line begins with the command word, or with its short form.
pub open spec fn begins(input: Seq<char>, word: Seq<char>, short: Seq<char>) -> bool {
    word.is_prefix_of(input) || short.is_prefix_of(input)
}

/// The command of a line typed on the main screen.
pub open spec fn main_command_of(input: Seq<char>) -> MainCommand {
    if names(input, "person"@, "p"@) {
        MainCommand::Person
    } else if names(input, "dashpay"@, "dp"@) {
        MainCommand::DashPay
    } else if input == "dpns"@ {
        MainCommand::Dpns
    } else if begins(input, "load "@, "l "@) {
        MainCommand::LoadContract
    } else if names(input, "loadlast"@, "ll"@) {
        MainCommand::LoadLastContract
    } else if names(input, "blockchain"@, "b"@) {
        MainCommand::Blockchain
    } else if input == "exit"@ {
        MainCommand::Exit
    } else {
        MainCommand::Unknown
    }
}

/// The command of a line typed on the blockchain screen.
pub open spec fn blockchain_command_of(input: Seq<char>) -> BlockchainCommand {
    if "view "@.is_prefix_of(input) || input == "v"@ {
        BlockchainCommand::View
    } else if begins(input, "add_masternodes "@, "a "@) {
        BlockchainCommand::AddMasternodes
    } else if begins(input, "execute_blocks "@, "e "@) {
        BlockchainCommand::ExecuteBlocks
    } else if names(input, "strategy"@, "s"@) {
        BlockchainCommand::Strategy
    } else if input == "exit"@ {
        BlockchainCommand::Exit
    } else {
        BlockchainCommand::Unknown
    }
}

/// The command of a line typed on the strategy screen.
pub open spec fn strategy_command_of(input: Seq<char>) -> StrategyCommand {
    if names(input, "view_all"@, "va"@) {
        StrategyCommand::ViewAll
    } else if names(input, "view"@, "v"@) {
        StrategyCommand::View
    } else if begins(input, "load_strategy "@, "l "@) {
        StrategyCommand::LoadStrategy
    } else if begins(input, "new_strategy "@, "n "@) {
        StrategyCommand::NewStrategy
    } else if begins(input, "dup_strategy "@, "dup "@) {
        StrategyCommand::DupStrategy
    } else if names(input, "save_strategy"@, "s"@) {
        StrategyCommand::SaveStrategy
    } else if names(input, "contracts"@, "c"@) {
        StrategyCommand::Contracts
    } else if begins(input, "add_contract "@, "ac "@) {
        StrategyCommand::AddContract
    } else if begins(input, "add_op "@, "a "@) {
        StrategyCommand::AddOp
    } else if input == "exit"@ {
        StrategyCommand::Exit
    } else {
        StrategyCommand::Unknown
    }
}

/// The command of a line typed on the screen of a contract.
pub open spec fn contract_command_of(input: Seq<char>) -> ContractCommand {
    if "view "@.is_prefix_of(input) || input == "v"@ {
        ContractCommand::View
    } else if "pop "@.is_prefix_of(input) {
        ContractCommand::Populate
    } else if "all"@.is_prefix_of(input) {
        ContractCommand::All
    } else if "insert "@.is_prefix_of(input) || input == "i"@ {
        ContractCommand::Insert
    } else if "delete "@.is_prefix_of(input) {
        ContractCommand::Delete
    } else if "select "@.is_prefix_of(input) {
        ContractCommand::Select
    } else if "cost "@.is_prefix_of(input) {
        ContractCommand::Cost
    } else if input == "exit"@ {
        ContractCommand::Exit
    } else {
        ContractCommand::Unknown
    }
}

/// The command of a line typed on the screen of the person contract.
pub open spec fn person_command_of(input: Seq<char>) -> PersonCommand {
    if "pop "@.is_prefix_of(input) {
        PersonCommand::Populate
    } else if "all"@.is_prefix_of(input) {
        PersonCommand::All
    } else if "insert "@.is_prefix_of(input) {
        PersonCommand::Insert
    } else if "delete "@.is_prefix_of(input) {
        PersonCommand::Delete
    } else if "select "@.is_prefix_of(input) {
        PersonCommand::Select
    } else if "cost "@.is_prefix_of(input) {
        PersonCommand::Cost
    } else if input == "exit"@ {
        PersonCommand::Exit
    } else {
        PersonCommand::Unknown
    }
}

/// The command of a line typed on the screen of the identities.
pub open spec fn identity_command_of(input: Seq<char>) -> IdentityCommand {
    if "view "@.is_prefix_of(input) || input == "v"@ {
        IdentityCommand::View
    } else if "pop "@.is_prefix_of(input) {
        IdentityCommand::Populate
    } else if input == "exit"@ {
        IdentityCommand::Exit
    } else {
        IdentityCommand::Unknown
    }
}

fn is_named(input: &str, word: &str, short: &str) -> (r: bool)
    ensures
        r == names(input@, word@, short@),
{
    same_text(input, word) || same_text(input, short)
}

fn is_begun(input: &str, word: &str, short: &str) -> (r: bool)
    ensures
        r == begins(input@, word@, short@),
{
    starts_with(input, word) || starts_with(input, short)
}

/// Reads a line typed on the main screen.
pub fn main_command(input: &str) -> (command: MainCommand)
    ensures
        command == main_command_of(input@),
{
    if is_named(input, "person", "p") {
        MainCommand::Person
    } else if is_named(input, "dashpay", "dp") {
        MainCommand::DashPay
    } else if same_text(input, "dpns") {
        MainCommand::Dpns
    } else if is_begun(input, "load ", "l ") {
        MainCommand::LoadContract
    } else if is_named(input, "loadlast", "ll") {
        MainCommand::LoadLastContract
    } else if is_named(input, "blockchain", "b") {
        MainCommand::Blockchain
    } else if same_text(input, "exit") {
        MainCommand::Exit
    } else {
        MainCommand::Unknown
    }
}

/// Reads a line typed on the blockchain screen.
pub fn blockchain_command(input: &str) -> (command: BlockchainCommand)
    ensures
        command == blockchain_command_of(input@),
{
    if starts_with(input, "view ") || same_text(input, "v") {
        BlockchainCommand::View
    } else if is_begun(input, "add_masternodes ", "a ") {
        BlockchainCommand::AddMasternodes
    } else if is_begun(input, "execute_blocks ", "e ") {
        BlockchainCommand::ExecuteBlocks
    } else if is_named(input, "strategy", "s") {
        BlockchainCommand::Strategy
    } else if same_text(input, "exit") {
        BlockchainCommand::Exit
    } else {
        BlockchainCommand::Unknown
    }
}

/// Reads a line typed on the strategy screen.
pub fn strategy_command(input: &str) -> (command: StrategyCommand)
    ensures
        command == strategy_command_of(input@),
{
    if is_named(input, "view_all", "va") {
        StrategyCommand::ViewAll
    } else if is_named(input, "view", "v") {
        StrategyCommand::View
    } else if is_begun(input, "load_strategy ", "l ") {
        StrategyCommand::LoadStrategy
    } else if is_begun(input, "new_strategy ", "n ") {
        StrategyCommand::NewStrategy
    } else if is_begun(input, "dup_strategy ", "dup ") {
        StrategyCommand::DupStrategy
    } else if is_named(input, "save_strategy", "s") {
        StrategyCommand::SaveStrategy
    } else if is_named(input, "contracts", "c") {
        StrategyCommand::Contracts
    } else if is_begun(input, "add_contract ", "ac ") {
        StrategyCommand::AddContract
    } else if is_begun(input, "add_op ", "a ") {
        StrategyCommand::AddOp
    } else if same_text(input, "exit") {
        StrategyCommand::Exit
    } else {
        StrategyCommand::Unknown
    }
}

/// Reads a line typed on the screen of a contract.
pub fn contract_command(input: &str) -> (command: ContractCommand)
    ensures
        command == contract_command_of(input@),
{
    if starts_with(input, "view ") || same_text(input, "v") {
        ContractCommand::View
    } else if starts_with(input, "pop ") {
        ContractCommand::Populate
    } else if starts_with(input, "all") {
        ContractCommand::All
    } else if starts_with(input, "insert ") || same_text(input, "i") {
        ContractCommand::Insert
    } else if starts_with(input, "delete ") {
        ContractCommand::Delete
    } else if starts_with(input, "select ") {
        ContractCommand::Select
    } else if starts_with(input, "cost ") {
        ContractCommand::Cost
    } else if same_text(input, "exit") {
        ContractCommand::Exit
    } else {
        ContractCommand::Unknown
    }
}

/// Reads a line typed on the screen of the person contract.
pub fn person_command(input: &str) -> (command: PersonCommand)
    ensures
        command == person_command_of(input@),
{
    if starts_with(input, "pop ") {
        PersonCommand::Populate
    } else if starts_with(input, "all") {
        PersonCommand::All
    } else if starts_with(input, "insert ") {
        PersonCommand::Insert
    } else if starts_with(input, "delete ") {
        PersonCommand::Delete
    } else if starts_with(input, "select ") {
        PersonCommand::Select
    } else if starts_with(input, "cost ") {
        PersonCommand::Cost
    } else if same_text(input, "exit") {
        PersonCommand::Exit
    } else {
        PersonCommand::Unknown
    }
}

/// Reads a line typed on the screen of the identities.
pub fn identity_command(input: &str) -> (command: IdentityCommand)
    ensures
        command == identity_command_of(input@),
{
    if starts_with(input, "view ") || same_text(input, "v") {
        IdentityCommand::View
    } else if starts_with(input, "pop ") {
        IdentityCommand::Populate
    } else if same_text(input, "exit") {
        IdentityCommand::Exit
    } else {
        IdentityCommand::Unknown
    }
}

} // verus!
