use drive_explorer::blockchain::chance::Chance;
use drive_explorer::blockchain::executor::{
    Action, Block, BlockBeginRequest, ChainCursor, Event, ExecutionError, Phase,
};
use drive_explorer::blockchain::fees::FeesAggregate;
use drive_explorer::blockchain::masternode::Masternode;
use drive_explorer::blockchain::strategy::{Contract, DocumentOp, Frequency};
use drive_explorer::explorer::{
    parse_count, parse_single_argument, prompt_add_contract, prompt_chance, Explorer, InputError,
};

fn contract() -> Contract {
    Contract { id: [9u8; 32], document_types: vec!["person".to_string(), "note".to_string()] }
}

fn operation(document_type: &str) -> DocumentOp {
    DocumentOp::new(contract(), document_type.to_string()).expect("a document type of the contract")
}

/// A session with the contract `family` and the loaded strategy `s1`.
fn session() -> Explorer {
    let mut explorer = Explorer::new();
    explorer.contracts.add_contract("family".to_string(), "family.json".to_string(), contract());
    explorer.strategies.new_strategy("s1".to_string());
    explorer
}

fn operations(explorer: &Explorer) -> usize {
    explorer.strategies.current().map_or(0, |(_, strategy)| strategy.operations.len())
}

#[test]
fn a_count_is_one_argument_from_one_to_ten_thousand() {
    assert_eq!(parse_count("execute_blocks 1"), Ok(1));
    assert_eq!(parse_count("e 10000"), Ok(10000));
    assert_eq!(parse_count("  a\t+25  "), Ok(25));
    assert_eq!(parse_count("e 0"), Err(InputError::OutOfRange));
    assert_eq!(parse_count("e 10001"), Err(InputError::OutOfRange));
    assert_eq!(parse_count("e 18446744073709551615"), Err(InputError::OutOfRange));
    assert_eq!(parse_count("e 18446744073709551616"), Err(InputError::NotAnInteger));
    assert_eq!(parse_count("e five"), Err(InputError::NotAnInteger));
    assert_eq!(parse_count("e -5"), Err(InputError::NotAnInteger));
    assert_eq!(parse_count("e 5.0"), Err(InputError::NotAnInteger));
    assert_eq!(parse_count("e"), Err(InputError::TooFewArguments));
    assert_eq!(parse_count(""), Err(InputError::TooFewArguments));
    assert_eq!(parse_count("e 1 2"), Err(InputError::TooManyArguments));
    assert_eq!(parse_count("e x y z"), Err(InputError::TooManyArguments));
}

#[test]
fn a_single_argument_is_the_second_of_two_words() {
    assert_eq!(parse_single_argument("load_strategy s1"), Ok("s1".to_string()));
    assert_eq!(parse_single_argument(" l   s1 "), Ok("s1".to_string()));
    assert_eq!(parse_single_argument("l"), Err(InputError::TooFewArguments));
    assert_eq!(parse_single_argument("l a b"), Err(InputError::TooManyArguments));
}

#[test]
fn add_contract_takes_an_alias_and_a_path() {
    assert_eq!(
        prompt_add_contract("add_contract family contracts/family.json"),
        Ok(("family".to_string(), "contracts/family.json".to_string()))
    );
    assert_eq!(prompt_add_contract("ac family"), Err(InputError::TooFewArguments));
    assert_eq!(prompt_add_contract("ac"), Err(InputError::TooFewArguments));
    assert_eq!(prompt_add_contract("ac a b c"), Err(InputError::TooManyArguments));
}

#[test]
fn the_chance_is_the_fifth_of_five_words() {
    assert_eq!(prompt_chance("add_op family person 2..3 0.5"), Some("0.5".to_string()));
    assert_eq!(prompt_chance("add_op family person 2..3"), None);
    assert_eq!(prompt_chance("add_op family person 2..3 0.5 x"), None);
    assert_eq!(prompt_chance(""), None);
}

#[test]
fn add_masternodes_adds_as_many_as_asked() {
    let mut explorer = Explorer::new();
    assert_eq!(explorer.prompt_add_masternodes("add_masternodes 5"), Ok((5, 5)));
    assert_eq!(explorer.masternodes.len(), 5);
    assert_eq!(explorer.prompt_add_masternodes("a 1"), Ok((1, 6)));
    assert_eq!(explorer.prompt_add_masternodes("a 10000"), Ok((10000, 10006)));
    assert_eq!(explorer.masternodes.len(), 10006);
}

#[test]
fn add_masternodes_out_of_range_changes_nothing() {
    let mut explorer = Explorer::new();
    explorer.prompt_add_masternodes("a 3").unwrap();
    let first = *explorer.masternodes.get(0).unwrap();
    for line in ["a 0", "a 10001", "a 99999999999"] {
        assert_eq!(explorer.prompt_add_masternodes(line), Err(InputError::OutOfRange));
        assert_eq!(explorer.masternodes.len(), 3);
    }
    assert_eq!(explorer.prompt_add_masternodes("a many"), Err(InputError::NotAnInteger));
    assert_eq!(explorer.prompt_add_masternodes("a"), Err(InputError::TooFewArguments));
    assert_eq!(explorer.prompt_add_masternodes("a 1 2"), Err(InputError::TooManyArguments));
    assert_eq!(explorer.masternodes.len(), 3);
    assert_eq!(explorer.masternodes.get(0), Some(&first));
}

#[test]
fn a_run_of_no_blocks_is_turned_down() {
    let mut explorer = Explorer::new();
    explorer.prompt_add_masternodes("a 3").unwrap();
    assert_eq!(explorer.prompt_execute_blocks("execute_blocks 0"), Err(InputError::OutOfRange));
    assert_eq!(explorer.prompt_execute_blocks("e 10001"), Err(InputError::OutOfRange));
    assert_eq!(explorer.prompt_execute_blocks("e x"), Err(InputError::NotAnInteger));
    assert_eq!(explorer.prompt_execute_blocks("e"), Err(InputError::TooFewArguments));
    assert_eq!(explorer.prompt_execute_blocks("e 1 1"), Err(InputError::TooManyArguments));
    assert_eq!(explorer.chain.phase(), Phase::Idle);
    assert_eq!(explorer.chain.cursor().last_block, None);
    assert_eq!(explorer.execute_blocks(0), Action::Abort(ExecutionError::CountOutOfRange));
    assert_eq!(explorer.chain.phase(), Phase::Idle);
}

#[test]
fn with_an_empty_registry_the_run_fails_and_the_chain_has_no_block() {
    let mut explorer = session();
    assert_eq!(explorer.prompt_execute_blocks("execute_blocks 1"), Ok(Action::Abort(ExecutionError::EmptyRegistry)));
    assert_eq!(explorer.chain.cursor(), ChainCursor { last_block: None, current_epoch: None });
    assert_eq!(explorer.chain.phase(), Phase::Idle);
    assert_eq!(explorer.execute_blocks(1), Action::Abort(ExecutionError::EmptyRegistry));
    assert_eq!(explorer.chain.cursor().last_block, None);
}

#[test]
fn one_block_of_a_strategy_that_makes_two_documents() {
    let mut explorer = session();
    explorer.masternodes.insert(Masternode { pro_tx_hash: [5; 32] });
    assert_eq!(explorer.prompt_add_op("add_op family person 2..3", None).map(|added| added.0), Ok("s1".to_string()));
    explorer.strategies.save_strategy().unwrap();
    explorer.strategies.new_strategy("other".to_string());
    assert_eq!(explorer.prompt_load_strategy("load_strategy s1"), Ok("s1".to_string()));

    let block_one = Action::BeginBlock(BlockBeginRequest {
        block_height: 1,
        block_time_ms: 100,
        previous_block_time_ms: None,
        proposer_pro_tx_hash: [5; 32],
    });
    assert_eq!(explorer.prompt_execute_blocks("execute_blocks 1"), Ok(block_one));
    let document = Action::InsertDocument { operation: 0, epoch_index: 0, block_time_ms: 100 };
    assert_eq!(explorer.step(Event::BlockBegun), document);
    assert_eq!(explorer.chain.operation(0), Some(&operation("person")));
    assert_eq!(explorer.step(Event::DocumentInserted { storage_fee: 1000, processing_fee: 10 }), document);
    assert_eq!(
        explorer.step(Event::DocumentInserted { storage_fee: 2000, processing_fee: 25 }),
        Action::EndBlock(FeesAggregate { processing_fees: 35, storage_fees: 3000 })
    );
    assert_eq!(explorer.step(Event::BlockEnded { is_epoch_change: false, current_epoch_index: 0 }), Action::Commit);
    assert_eq!(explorer.chain.cursor().last_block, None);
    assert_eq!(explorer.step(Event::Committed), Action::Finished);
    assert_eq!(explorer.chain.cursor().last_block, Some(Block { height: 1, time_ms: 100 }));

    // The next run goes on one past the head of the chain.
    let block_two = Action::BeginBlock(BlockBeginRequest {
        block_height: 2,
        block_time_ms: 200,
        previous_block_time_ms: Some(100),
        proposer_pro_tx_hash: [5; 32],
    });
    assert_eq!(explorer.execute_blocks(2), block_two);
    assert_eq!(explorer.step(Event::BlockBegun), Action::InsertDocument { operation: 0, epoch_index: 0, block_time_ms: 200 });
    assert_eq!(explorer.chain.fees(), FeesAggregate::new());
}

#[test]
fn a_block_without_a_loaded_strategy_has_no_operations() {
    let mut explorer = Explorer::new();
    explorer.masternodes.insert(Masternode { pro_tx_hash: [5; 32] });
    assert!(matches!(explorer.execute_blocks(2), Action::BeginBlock(_)));
    assert_eq!(explorer.step(Event::BlockBegun), Action::EndBlock(FeesAggregate::new()));
    assert_eq!(explorer.step(Event::BlockEnded { is_epoch_change: true, current_epoch_index: 1 }), Action::Commit);
    assert_eq!(
        explorer.step(Event::Committed),
        Action::BeginBlock(BlockBeginRequest {
            block_height: 2,
            block_time_ms: 200,
            previous_block_time_ms: Some(100),
            proposer_pro_tx_hash: [5; 32],
        })
    );
    assert_eq!(explorer.chain.cursor(), ChainCursor { last_block: Some(Block { height: 1, time_ms: 100 }), current_epoch: Some(1) });
}

#[test]
fn the_proposer_of_a_block_is_a_masternode_of_the_registry() {
    let mut explorer = Explorer::new();
    explorer.prompt_add_masternodes("a 4").unwrap();
    for _ in 0..20 {
        match explorer.execute_blocks(1) {
            Action::BeginBlock(request) => {
                let member = (0..4).any(|i| explorer.masternodes.get(i).unwrap().pro_tx_hash == request.proposer_pro_tx_hash);
                assert!(member);
            }
            other => panic!("{:?}", other),
        }
        assert_eq!(explorer.step(Event::Failed), Action::Abort(ExecutionError::BlockBeginFailed));
    }
}

#[test]
fn add_op_with_an_unknown_contract_changes_nothing() {
    let mut explorer = session();
    explorer.prompt_add_op("add_op family person 2..3", None).unwrap();
    assert_eq!(explorer.prompt_add_op("add_op nobody person 2..3", None), Err(InputError::UnknownContractAlias));
    assert_eq!(operations(&explorer), 1);
    assert_eq!(explorer.prompt_add_op("add_op Family person 2..3 0.5", Some(0.5f64.to_bits())), Err(InputError::UnknownContractAlias));
    assert_eq!(operations(&explorer), 1);
}

#[test]
fn add_op_appends_the_operation_with_its_frequency() {
    let mut explorer = session();
    let plain = Frequency::new(2..3, None).unwrap();
    assert_eq!(explorer.prompt_add_op("add_op family person 2..3", None), Ok(("s1".to_string(), plain)));
    let half = Frequency::new(0..9, Chance::from_bits(0.5f64.to_bits())).unwrap();
    assert_eq!(explorer.prompt_add_op("  a family note 0..9 0.5 ", Some(0.5f64.to_bits())), Ok(("s1".to_string(), half)));
    // Without a fifth word the chance is not looked at.
    assert_eq!(explorer.prompt_add_op("a family note 4..4", Some(f64::NAN.to_bits())).map(|added| added.1.chance_per_block()), Ok(None));
    let (alias, strategy) = explorer.strategies.current().unwrap();
    assert_eq!(alias, "s1");
    assert_eq!(strategy.operations, vec![
        (operation("person"), plain),
        (operation("note"), half),
        (operation("note"), Frequency::new(4..4, None).unwrap())
    ]);
}

#[test]
fn add_op_reports_the_first_thing_that_is_wrong() {
    let mut explorer = session();
    let half = Some(0.5f64.to_bits());
    assert_eq!(explorer.prompt_add_op("a family person 2..3 0.5 more", half), Err(InputError::TooManyArguments));
    assert_eq!(explorer.prompt_add_op("a family person", None), Err(InputError::TooFewArguments));
    assert_eq!(explorer.prompt_add_op("", None), Err(InputError::TooFewArguments));
    assert_eq!(explorer.prompt_add_op("a nobody letter x", None), Err(InputError::UnknownContractAlias));
    assert_eq!(explorer.prompt_add_op("a family letter x", None), Err(InputError::UnknownDocumentType));
    assert_eq!(explorer.prompt_add_op("a family person 23 zero", None), Err(InputError::NotARange));
    assert_eq!(explorer.prompt_add_op("a family person x..3 zero", None), Err(InputError::LowerNotAnInteger));
    assert_eq!(explorer.prompt_add_op("a family person 2..70000 zero", None), Err(InputError::UpperNotAnInteger));
    assert_eq!(explorer.prompt_add_op("a family person 3..2 zero", None), Err(InputError::ChanceNotANumber));
    assert_eq!(explorer.prompt_add_op("a family person 3..2 1.5", Some(1.5f64.to_bits())), Err(InputError::ChanceOutOfRange));
    assert_eq!(explorer.prompt_add_op("a family person 2..3 -0.5", Some((-0.5f64).to_bits())), Err(InputError::ChanceOutOfRange));
    assert_eq!(explorer.prompt_add_op("a family person 2..3 NaN", Some(f64::NAN.to_bits())), Err(InputError::ChanceOutOfRange));
    assert_eq!(explorer.prompt_add_op("a family person 3..2 0.5", half), Err(InputError::RangeOutOfOrder));
    assert_eq!(explorer.prompt_add_op("a family person 3..2", None), Err(InputError::RangeOutOfOrder));
    assert_eq!(operations(&explorer), 0);
    let mut unloaded = Explorer::new();
    unloaded.contracts.add_contract("family".to_string(), "family.json".to_string(), contract());
    assert_eq!(unloaded.prompt_add_op("a family person 2..3", None), Err(InputError::NoLoadedStrategy));
    assert_eq!(unloaded.strategies.current(), None);
}

#[test]
fn the_strategy_commands_work_on_the_store() {
    let mut explorer = session();
    assert_eq!(explorer.prompt_dup_strategy("dup_strategy s2"), Ok("s2".to_string()));
    assert_eq!(explorer.strategies.current().unwrap().0, "s2");
    assert_eq!(explorer.strategies.aliases(), vec!["s1".to_string()]);
    assert_eq!(explorer.prompt_new_strategy("new_strategy s3"), Ok("s3".to_string()));
    assert_eq!(explorer.strategies.current().unwrap().0, "s3");
    assert_eq!(explorer.prompt_load_strategy("l s1"), Ok("s1".to_string()));
    assert_eq!(explorer.strategies.current().unwrap().0, "s1");
    assert_eq!(explorer.prompt_load_strategy("l s2"), Err(InputError::UnknownStrategyAlias));
    assert_eq!(explorer.prompt_load_strategy("l"), Err(InputError::TooFewArguments));
    assert_eq!(explorer.prompt_load_strategy("l s1 s2"), Err(InputError::TooManyArguments));
    assert_eq!(explorer.prompt_new_strategy("n"), Err(InputError::TooFewArguments));
    assert_eq!(explorer.prompt_new_strategy("n a b"), Err(InputError::TooManyArguments));
    assert_eq!(explorer.prompt_dup_strategy("dup"), Err(InputError::TooFewArguments));
    assert_eq!(explorer.prompt_dup_strategy("dup a b"), Err(InputError::TooManyArguments));
    assert_eq!(explorer.strategies.current().unwrap().0, "s1");
    let mut unloaded = Explorer::new();
    assert_eq!(unloaded.prompt_dup_strategy("dup s2"), Err(InputError::NoLoadedStrategy));
    assert_eq!(unloaded.strategies.aliases(), Vec::<String>::new());
}

#[test]
fn contracts_are_kept_by_alias() {
    let mut explorer = Explorer::new();
    assert_eq!(explorer.contracts.get("family"), None);
    assert_eq!(explorer.contracts.aliases(), Vec::<String>::new());
    explorer.contracts.add_contract("family".to_string(), "family.json".to_string(), contract());
    explorer.contracts.add_contract("empty".to_string(), "empty.json".to_string(), Contract { id: [1; 32], document_types: vec![] });
    assert_eq!(explorer.contracts.get("family"), Some(&contract()));
    assert_eq!(explorer.contracts.path("family"), Some(&"family.json".to_string()));
    assert_eq!(explorer.contracts.path("nobody"), None);
    assert_eq!(explorer.contracts.aliases(), vec!["family".to_string(), "empty".to_string()]);
    explorer.contracts.add_contract("family".to_string(), "other.json".to_string(), Contract { id: [2; 32], document_types: vec!["x".to_string()] });
    assert_eq!(explorer.contracts.get("family").unwrap().id, [2; 32]);
    assert_eq!(explorer.contracts.path("family"), Some(&"other.json".to_string()));
    assert_eq!(explorer.contracts.aliases(), vec!["family".to_string(), "empty".to_string()]);
    assert_eq!(explorer.contracts.get("empty").unwrap().id, [1; 32]);
}
