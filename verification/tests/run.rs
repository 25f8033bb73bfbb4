use drive_explorer::blockchain::executor::{Action, Block, Event, ExecutionError};
use drive_explorer::blockchain::fees::FeesAggregate;
use drive_explorer::explorer::Explorer;
use drive_explorer::blockchain::strategy::Contract;

/// What an engine that never fails has seen of a run.
struct Seen {
    begun: Vec<(u64, u64, Option<u64>)>,
    inserted: Vec<(u64, String, u16)>,
    ended: Vec<FeesAggregate>,
    commits: usize,
    last: Action,
}

/// Drives a run as an engine would that charges `storage` and `processing`
/// for each document, announces the epoch `epoch` at the end of each block
/// and fails at the insertion number `fail_at`, if there is one.
fn drive(explorer: &mut Explorer, first: Action, storage: i64, processing: u64, epoch: u16, fail_at: Option<usize>) -> Seen {
    let mut seen = Seen { begun: vec![], inserted: vec![], ended: vec![], commits: 0, last: first };
    let mut action = first;
    let mut height = 0;
    loop {
        let event = match action {
            Action::BeginBlock(request) => {
                height = request.block_height;
                seen.begun.push((request.block_height, request.block_time_ms, request.previous_block_time_ms));
                Event::BlockBegun
            }
            Action::InsertDocument { operation, epoch_index, block_time_ms } => {
                assert_eq!(block_time_ms, height * 100);
                if fail_at == Some(seen.inserted.len()) {
                    Event::Failed
                } else {
                    let op = explorer.chain.operation(operation).expect("an operation of the workload");
                    seen.inserted.push((height, op.document_type().clone(), epoch_index));
                    Event::DocumentInserted { storage_fee: storage, processing_fee: processing }
                }
            }
            Action::EndBlock(fees) => {
                seen.ended.push(fees);
                Event::BlockEnded { is_epoch_change: true, current_epoch_index: epoch }
            }
            Action::Commit => {
                seen.commits += 1;
                Event::Committed
            }
            Action::Finished | Action::Abort(_) => {
                seen.last = action;
                return seen;
            }
        };
        action = explorer.step(event);
    }
}

fn session() -> Explorer {
    let mut explorer = Explorer::new();
    let contract = Contract { id: [9u8; 32], document_types: vec!["person".to_string(), "note".to_string()] };
    explorer.contracts.add_contract("family".to_string(), "family.json".to_string(), contract);
    explorer.prompt_add_masternodes("add_masternodes 3").unwrap();
    explorer.prompt_new_strategy("new_strategy s1").unwrap();
    explorer
}

#[test]
fn a_run_executes_its_blocks_one_after_the_other() {
    let mut explorer = session();
    explorer.prompt_add_op("add_op family person 2..3", None).unwrap();
    explorer.prompt_add_op("add_op family note 1..2 1.0", Some(1.0f64.to_bits())).unwrap();
    explorer.prompt_add_op("add_op family note 5..9 0.0", Some(0.0f64.to_bits())).unwrap();
    explorer.prompt_add_op("add_op family person 4..4", None).unwrap();
    let first = explorer.prompt_execute_blocks("execute_blocks 3").unwrap();
    let seen = drive(&mut explorer, first, 1000, 7, 4, None);
    assert_eq!(seen.last, Action::Finished);
    assert_eq!(seen.begun, vec![(1, 100, None), (2, 200, Some(100)), (3, 300, Some(200))]);
    assert_eq!(seen.commits, 3);
    let person = "person".to_string();
    let note = "note".to_string();
    assert_eq!(seen.inserted, vec![
        (1, person.clone(), 0),
        (1, person.clone(), 0),
        (1, note.clone(), 0),
        (2, person.clone(), 4),
        (2, person.clone(), 4),
        (2, note.clone(), 4),
        (3, person.clone(), 4),
        (3, person.clone(), 4),
        (3, note.clone(), 4)
    ]);
    assert_eq!(seen.ended, vec![FeesAggregate { processing_fees: 21, storage_fees: 3000 }; 3]);
    assert_eq!(explorer.chain.cursor().last_block, Some(Block { height: 3, time_ms: 300 }));
    assert_eq!(explorer.chain.cursor().current_epoch, Some(4));

    // A second run goes on behind the first.
    let first = explorer.execute_blocks(2);
    let seen = drive(&mut explorer, first, 1, 1, 5, None);
    assert_eq!(seen.begun, vec![(4, 400, Some(300)), (5, 500, Some(400))]);
    assert_eq!(seen.ended, vec![FeesAggregate { processing_fees: 3, storage_fees: 3 }; 2]);
    assert_eq!(explorer.chain.cursor().last_block, Some(Block { height: 5, time_ms: 500 }));
}

#[test]
fn a_run_of_ten_thousand_blocks_ends_at_the_ten_thousandth() {
    let mut explorer = session();
    let first = explorer.execute_blocks(10000);
    let seen = drive(&mut explorer, first, 0, 0, 0, None);
    assert_eq!(seen.last, Action::Finished);
    assert_eq!(seen.commits, 10000);
    assert_eq!(seen.begun.len(), 10000);
    assert_eq!(seen.begun[9999], (10000, 1000000, Some(999900)));
    assert_eq!(explorer.chain.cursor().last_block, Some(Block { height: 10000, time_ms: 1000000 }));
}

#[test]
fn an_insertion_that_fails_ends_the_run_at_the_last_committed_block() {
    let mut explorer = session();
    explorer.prompt_add_op("add_op family person 2..3", None).unwrap();
    let first = explorer.execute_blocks(5);
    let seen = drive(&mut explorer, first, 10, 10, 1, Some(3));
    assert_eq!(seen.last, Action::Abort(ExecutionError::InsertionFailed));
    assert_eq!(seen.commits, 1);
    assert_eq!(seen.inserted.len(), 3);
    assert_eq!(seen.begun, vec![(1, 100, None), (2, 200, Some(100))]);
    assert_eq!(explorer.chain.cursor().last_block, Some(Block { height: 1, time_ms: 100 }));
    // The next run takes up the block that failed.
    let first = explorer.execute_blocks(1);
    let seen = drive(&mut explorer, first, 10, 10, 1, None);
    assert_eq!(seen.begun, vec![(2, 200, Some(100))]);
    assert_eq!(seen.last, Action::Finished);
}

#[test]
fn a_strategy_with_a_chance_fires_in_some_blocks() {
    let mut explorer = session();
    explorer.prompt_add_op("add_op family note 1..4 0.5", Some(0.5f64.to_bits())).unwrap();
    let first = explorer.execute_blocks(400);
    let seen = drive(&mut explorer, first, 2, 3, 0, None);
    assert_eq!(seen.last, Action::Finished);
    let mut blocks_with_documents = 0;
    for height in 1..=400u64 {
        let made = seen.inserted.iter().filter(|insertion| insertion.0 == height).count();
        assert!(made <= 3);
        if made > 0 {
            blocks_with_documents += 1;
        }
        let fees = seen.ended[(height - 1) as usize];
        assert_eq!(fees, FeesAggregate { processing_fees: 3 * made as u64, storage_fees: 2 * made as u64 });
    }
    assert!(blocks_with_documents > 120 && blocks_with_documents < 280, "{}", blocks_with_documents);
}
