//! The execution of blocks. The storage engine is driven by the caller: the
//! executor is told what the engine did and says what it is to do next, so
//! that one block goes from its beginning over its workload and its end to
//! its commit before the next block begins.

use crate::blockchain::fees::FeesAggregate;
use crate::blockchain::strategy::{workload_view, DocumentOp, WorkloadView};
use vstd::prelude::*;

verus! {

/// The least number of blocks that one run may execute.
pub const MIN_BLOCKS: usize = 1;

/// The greatest number of blocks that one run may execute.
pub const MAX_BLOCKS: usize = 10000;

/// The height of the first block of a chain.
pub const FIRST_HEIGHT: u64 = 1;

/// The time of the first block of a chain.
pub const FIRST_TIME_MS: u64 = 100;

/// The time from one block to the next.
pub const BLOCK_TIME_STEP_MS: u64 = 100;

/// The epoch that insertions are charged to before the engine has named one.
pub const FIRST_EPOCH: u16 = 0;

/// One block of the simulated chain.
#[derive(Clone, Copy, Debug, PartialEq, Eq)]
pub struct Block {
    pub height: u64,
    pub time_ms: u64,
}

/// The head of the chain: the last block that was committed, and the epoch
/// that the engine last announced.
#[derive(Clone, Copy, Debug, PartialEq, Eq)]
pub struct ChainCursor {
    pub last_block: Option<Block>,
    pub current_epoch: Option<u16>,
}

/// What the engine is told when a block begins.
#[derive(Clone, Copy, Debug, PartialEq, Eq)]
pub struct BlockBeginRequest {
    pub block_height: u64,
    pub block_time_ms: u64,
    pub previous_block_time_ms: Option<u64>,
    pub proposer_pro_tx_hash: [u8; 32],
}

/// How far the execution of a block has come.
#[derive(Clone, Copy, Debug, PartialEq, Eq)]
pub enum Phase {
    /// No block is open.
    Idle,
    /// The engine was asked to begin a block.
    Opening,
    /// The block is open and the engine was asked to insert a document.
    BlockOpen,
    /// The workload is applied and the engine was asked to end the block.
    WorkloadApplied,
    /// The block has ended and the engine was asked to commit it.
    Committing,
}

/// Why a run ended before its last block was committed.
#[derive(Clone, Copy, Debug, PartialEq, Eq)]
pub enum ExecutionError {
    /// The number of blocks asked for is not from 1 to 10000.
    CountOutOfRange,
    /// There is no masternode to propose the block.
    EmptyRegistry,
    /// The height or the time of the next block is not a `u64`.
    ChainExhausted,
    /// The engine did not begin the block.
    BlockBeginFailed,
    /// The engine did not insert a document.
    InsertionFailed,
    /// The engine did not end the block.
    BlockEndFailed,
    /// The engine did not commit the block.
    CommitFailed,
    /// The engine reported what it was not asked for.
    UnexpectedEvent,
}

/// What happened outside the executor.
#[derive(Clone, Copy, Debug, PartialEq, Eq)]
pub enum Event {
    /// A run of `count` blocks is asked for.
    Start { count: usize },
    /// The engine has begun the block.
    BlockBegun,
    /// The engine has inserted a document, for these fees.
    DocumentInserted { storage_fee: i64, processing_fee: u64 },
    /// The engine has ended the block.
    BlockEnded { is_epoch_change: bool, current_epoch_index: u16 },
    /// The engine has committed the block.
    Committed,
    /// The engine failed at what it was last asked for.
    Failed,
}

/// What is to happen outside the executor next.
#[derive(Clone, Copy, Debug, PartialEq, Eq)]
pub enum Action {
    /// Start a transaction and begin a block in it.
    BeginBlock(BlockBeginRequest),
    /// Make one random document for the operation at `operation` in the
    /// workload of the block, and insert it.
    InsertDocument { operation: usize, epoch_index: u16, block_time_ms: u64 },
    /// End the block with these fees.
    EndBlock(FeesAggregate),
    /// Commit the transaction.
    Commit,
    /// The run is over: its last block is committed.
    Finished,
    /// The run is over: it failed.
    Abort(ExecutionError),
}

/// The first operation at or after `from` for which a document is to be
/// made, or the length of the workload where there is none.
pub open spec fn next_operation(workload: WorkloadView, from: int) -> int
    decreases workload.len() - from,
{
    if from < 0 || from >= workload.len() {
        workload.len() as int
    } else if workload[from].1 > 0 {
        from
    } else {
        next_operation(workload, from + 1)
    }
}

/// The number of documents that the first `upto` operations make.
pub open spec fn documents_planned(workload: WorkloadView, upto: int) -> int
    decreases upto,
{
    if upto <= 0 || upto > workload.len() {
        0
    } else {
        documents_planned(workload, upto - 1) + workload[upto - 1].1
    }
}

/// The height of the block that follows the head of the chain.
pub open spec fn next_height(cursor: ChainCursor) -> int {
    match cursor.last_block {
        None => FIRST_HEIGHT as int,
        Some(block) => block.height + 1,
    }
}

/// The time of the block that follows the head of the chain.
pub open spec fn next_time_ms(cursor: ChainCursor) -> int {
    match cursor.last_block {
        None => FIRST_TIME_MS as int,
        Some(block) => block.time_ms + BLOCK_TIME_STEP_MS,
    }
}

/// Whether `block` is the block that follows the head of the chain: one
/// higher and a hundred milliseconds later, or the first block of a chain.
pub open spec fn follows(cursor: ChainCursor, block: Block) -> bool {
    block.height == next_height(cursor) && block.time_ms == next_time_ms(cursor)
}

/// The time of the head of the chain.
pub open spec fn previous_time_ms(cursor: ChainCursor) -> Option<u64> {
    match cursor.last_block {
        None => None,
        Some(block) => Some(block.time_ms),
    }
}

/// The epoch that the insertions of the next block are charged to.
pub open spec fn epoch_index(cursor: ChainCursor) -> u16 {
    match cursor.current_epoch {
        None => FIRST_EPOCH,
        Some(index) => index,
    }
}

/// The mathematical value of a `BlockExecutor`.
pub struct ExecutorState {
    /// The head of the chain.
    pub cursor: ChainCursor,
    pub phase: Phase,
    /// The blocks of the run that are not committed yet.
    pub remaining: nat,
    /// The block that was opened last.
    pub block: Block,
    /// The workload of that block.
    pub workload: WorkloadView,
    /// The operation that documents are made for, or the length of the
    /// workload when none is left.
    pub operation: int,
    /// The documents made for that operation.
    pub made: u16,
    /// The fees of the insertions of that block.
    pub fees: FeesAggregate,
    /// The epoch that the engine announced when it ended that block.
    pub epoch_change: Option<u16>,
    /// The fees of each insertion of that block, in their order.
    pub inserted: Seq<(i64, u64)>,
}

impl ExecutorState {
    /// What holds of an executor at all times.
    pub open spec fn valid(self) -> bool {
        &&& self.fees == FeesAggregate::total(self.inserted)
        &&& 0 <= self.operation <= self.workload.len()
        &&& self.operation < self.workload.len() ==> self.made < self.workload[self.operation].1
        &&& self.operation == self.workload.len() ==> self.made == 0
        &&& self.inserted.len() == documents_planned(self.workload, self.operation) + self.made
        &&& self.phase is BlockOpen ==> self.operation < self.workload.len()
        &&& (self.phase is WorkloadApplied || self.phase is Committing) ==> self.operation
            == self.workload.len()
        &&& self.remaining <= MAX_BLOCKS
        &&& self.phase is Idle <==> self.remaining == 0
        &&& !(self.phase is Idle) ==> follows(self.cursor, self.block)
    }

    /// The executor before its first run.
    pub open spec fn initial() -> ExecutorState {
        ExecutorState {
            cursor: ChainCursor { last_block: None, current_epoch: None },
            phase: Phase::Idle,
            remaining: 0,
            block: Block { height: 0, time_ms: 0 },
            workload: Seq::empty(),
            operation: 0,
            made: 0,
            fees: FeesAggregate::zero(),
            epoch_change: None,
            inserted: Seq::empty(),
        }
    }

    /// The run is given up: the head of the chain stays where it is.
    pub open spec fn aborted(self, error: ExecutionError) -> (ExecutorState, Action) {
        (ExecutorState { phase: Phase::Idle, remaining: 0, ..self }, Action::Abort(error))
    }

    /// The next block is opened for `proposer`: it follows the head of the
    /// chain, one higher and a hundred milliseconds later.
    pub open spec fn execute_block(self, proposer: Option<[u8; 32]>) -> (ExecutorState, Action) {
        match proposer {
            None => self.aborted(ExecutionError::EmptyRegistry),
            Some(hash) => if next_height(self.cursor) > u64::MAX || next_time_ms(self.cursor)
                > u64::MAX {
                self.aborted(ExecutionError::ChainExhausted)
            } else {
                let block = Block {
                    height: next_height(self.cursor) as u64,
                    time_ms: next_time_ms(self.cursor) as u64,
                };
                (
                    ExecutorState { phase: Phase::Opening, block, ..self },
                    Action::BeginBlock(
                        BlockBeginRequest {
                            block_height: block.height,
                            block_time_ms: block.time_ms,
                            previous_block_time_ms: previous_time_ms(self.cursor),
                            proposer_pro_tx_hash: hash,
                        },
                    ),
                )
            },
        }
    }

    /// A run of `count` blocks starts with its first block.
    pub open spec fn execute_blocks(self, count: usize, proposer: Option<[u8; 32]>) -> (
        ExecutorState,
        Action,
    ) {
        if !(self.phase is Idle) {
            self.aborted(ExecutionError::UnexpectedEvent)
        } else if count < MIN_BLOCKS || count > MAX_BLOCKS {
            (self, Action::Abort(ExecutionError::CountOutOfRange))
        } else {
            (ExecutorState { remaining: count as nat, ..self }).execute_block(proposer)
        }
    }

    /// The workload goes on with the first operation at or after `from`
    /// that has a document to make; the block ends where there is none.
    pub open spec fn proceed(self, from: int) -> (ExecutorState, Action) {
        let operation = next_operation(self.workload, from);
        if operation < self.workload.len() {
            (
                ExecutorState { phase: Phase::BlockOpen, operation, made: 0, ..self },
                Action::InsertDocument {
                    operation: operation as usize,
                    epoch_index: epoch_index(self.cursor),
                    block_time_ms: self.block.time_ms,
                },
            )
        } else {
            (
                ExecutorState { phase: Phase::WorkloadApplied, operation, made: 0, ..self },
                Action::EndBlock(self.fees),
            )
        }
    }

    /// The block is open: its fees start at zero and its workload begins.
    pub open spec fn execute_current_strategy(self, workload: WorkloadView) -> (
        ExecutorState,
        Action,
    ) {
        if self.phase is Opening {
            (ExecutorState {
                workload,
                fees: FeesAggregate::zero(),
                inserted: Seq::empty(),
                ..self
            }).proceed(0)
        } else {
            self.aborted(ExecutionError::UnexpectedEvent)
        }
    }

    /// A document is inserted: its fees are added, and the workload goes on.
    pub open spec fn document_inserted(self, storage_fee: i64, processing_fee: u64) -> (
        ExecutorState,
        Action,
    ) {
        if self.phase is BlockOpen {
            let after = ExecutorState {
                fees: self.fees.plus(storage_fee, processing_fee),
                inserted: self.inserted.push((storage_fee, processing_fee)),
                made: (self.made + 1) as u16,
                ..self
            };
            if self.made + 1 < self.workload[self.operation].1 {
                (
                    after,
                    Action::InsertDocument {
                        operation: self.operation as usize,
                        epoch_index: epoch_index(self.cursor),
                        block_time_ms: self.block.time_ms,
                    },
                )
            } else {
                after.proceed(self.operation + 1)
            }
        } else {
            self.aborted(ExecutionError::UnexpectedEvent)
        }
    }

    /// The block has ended: it is to be committed.
    pub open spec fn block_ended(self, is_epoch_change: bool, current_epoch_index: u16) -> (
        ExecutorState,
        Action,
    ) {
        if self.phase is WorkloadApplied {
            (
                ExecutorState {
                    phase: Phase::Committing,
                    epoch_change: if is_epoch_change {
                        Some(current_epoch_index)
                    } else {
                        None
                    },
                    ..self
                },
                Action::Commit,
            )
        } else {
            self.aborted(ExecutionError::UnexpectedEvent)
        }
    }

    /// The head of the chain once the open block is committed.
    pub open spec fn advanced_cursor(self) -> ChainCursor {
        ChainCursor {
            last_block: Some(self.block),
            current_epoch: match self.epoch_change {
                Some(index) => Some(index),
                None => self.cursor.current_epoch,
            },
        }
    }

    /// The block is committed: it is the new head of the chain, and the
    /// next block of the run is opened, if one is left.
    pub open spec fn committed(self, proposer: Option<[u8; 32]>) -> (ExecutorState, Action) {
        if self.phase is Committing {
            let after = ExecutorState {
                cursor: self.advanced_cursor(),
                phase: Phase::Idle,
                remaining: (self.remaining - 1) as nat,
                ..self
            };
            if after.remaining > 0 {
                after.execute_block(proposer)
            } else {
                (after, Action::Finished)
            }
        } else {
            self.aborted(ExecutionError::UnexpectedEvent)
        }
    }

    /// The engine failed: the run is given up, with the error of the phase.
    pub open spec fn failed(self) -> (ExecutorState, Action) {
        self.aborted(
            match self.phase {
                Phase::Idle => ExecutionError::UnexpectedEvent,
                Phase::Opening => ExecutionError::BlockBeginFailed,
                Phase::BlockOpen => ExecutionError::InsertionFailed,
                Phase::WorkloadApplied => ExecutionError::BlockEndFailed,
                Phase::Committing => ExecutionError::CommitFailed,
            },
        )
    }

    /// Whether `event` makes the executor open a block, for which it needs
    /// a proposer.
    pub open spec fn opens_block_on(self, event: Event) -> bool {
        match event {
            Event::Start { count } => self.phase is Idle && MIN_BLOCKS <= count <= MAX_BLOCKS,
            Event::Committed => self.phase is Committing && self.remaining > 1,
            _ => false,
        }
    }

    /// The executor and the next action after `event`, where `proposer` is
    /// the masternode picked for a block that the event opens and
    /// `workload` is the workload drawn for a block that has begun.
    pub open spec fn step(self, event: Event, proposer: Option<[u8; 32]>, workload: WorkloadView) -> (
        ExecutorState,
        Action,
    ) {
        match event {
            Event::Start { count } => self.execute_blocks(count, proposer),
            Event::BlockBegun => self.execute_current_strategy(workload),
            Event::DocumentInserted { storage_fee, processing_fee } => self.document_inserted(
                storage_fee,
                processing_fee,
            ),
            Event::BlockEnded { is_epoch_change, current_epoch_index } => self.block_ended(
                is_epoch_change,
                current_epoch_index,
            ),
            Event::Committed => self.committed(proposer),
            Event::Failed => self.failed(),
        }
    }
}

/// Where the workload goes on after `from`: no operation before that
/// place has a document to make.
pub proof fn lemma_next_operation(workload: WorkloadView, from: int)
    requires
        0 <= from <= workload.len(),
    ensures
        from <= next_operation(workload, from) <= workload.len(),
        next_operation(workload, from) < workload.len() ==> workload[next_operation(
            workload,
            from,
        )].1 > 0,
        documents_planned(workload, next_operation(workload, from)) == documents_planned(
            workload,
            from,
        ),
    decreases workload.len() - from,
{
    if from < workload.len() && workload[from].1 == 0 {
        lemma_next_operation(workload, from + 1);
    }
}

/// A step keeps an executor valid, and moves the head of the chain only
/// when a block is committed: to the block that was open, which is one
/// higher than the head before and a hundred milliseconds later, or the
/// first block of the chain. The epoch changes only then, to the one that
/// the engine announced.
pub proof fn lemma_step_advances_chain(
    state: ExecutorState,
    event: Event,
    proposer: Option<[u8; 32]>,
    workload: WorkloadView,
)
    requires
        state.valid(),
    ensures
        state.step(event, proposer, workload).0.valid(),
        state.step(event, proposer, workload).0.cursor == state.cursor || (event is Committed
            && state.phase is Committing && state.step(event, proposer, workload).0.cursor
            == state.advanced_cursor() && follows(state.cursor, state.block)),
{
    let next = state.step(event, proposer, workload).0;
    match event {
        Event::BlockBegun => {
            if state.phase is Opening {
                lemma_next_operation(workload, 0);
            }
        },
        Event::DocumentInserted { storage_fee, processing_fee } => {
            if state.phase is BlockOpen {
                lemma_next_operation(state.workload, state.operation + 1);
                assert(state.inserted.push((storage_fee, processing_fee)).drop_last()
                    == state.inserted);
            }
        },
        _ => {},
    }
}

/// The fees that a block ends with are the total of the insertions made
/// in it, and one insertion was made for each document of its workload.
pub proof fn lemma_block_ends_with_total(
    state: ExecutorState,
    event: Event,
    proposer: Option<[u8; 32]>,
    workload: WorkloadView,
)
    requires
        state.valid(),
    ensures
        state.step(event, proposer, workload).1 matches Action::EndBlock(fees) ==> {
            let next = state.step(event, proposer, workload).0;
            &&& fees == FeesAggregate::total(next.inserted)
            &&& next.inserted.len() == documents_planned(next.workload, next.workload.len() as int)
        },
{
    lemma_step_advances_chain(state, event, proposer, workload);
}

/// A block that has begun starts without fees, whatever the block before
/// it was charged.
pub proof fn lemma_block_begins_without_fees(state: ExecutorState, workload: WorkloadView)
    requires
        state.valid(),
        state.phase is Opening,
    ensures
        state.execute_current_strategy(workload).0.fees == FeesAggregate::zero(),
        state.execute_current_strategy(workload).0.inserted == Seq::<(i64, u64)>::empty(),
{
}

/// A run of no blocks is turned down, and so is one of more than ten
/// thousand: nothing changes.
pub proof fn lemma_count_out_of_range(state: ExecutorState, count: usize, proposer: Option<[u8; 32]>)
    requires
        state.phase is Idle,
        count < MIN_BLOCKS || count > MAX_BLOCKS,
    ensures
        state.execute_blocks(count, proposer) == (
            state,
            Action::Abort(ExecutionError::CountOutOfRange),
        ),
{
}

/// Without a masternode to propose it no block is opened: the run is given
/// up and the head of the chain stays where it is.
pub proof fn lemma_no_proposer(state: ExecutorState, count: usize)
    requires
        state.phase is Idle,
        MIN_BLOCKS <= count <= MAX_BLOCKS,
    ensures
        state.execute_blocks(count, None).1 == Action::Abort(ExecutionError::EmptyRegistry),
        state.execute_blocks(count, None).0.cursor == state.cursor,
        state.execute_blocks(count, None).0.phase is Idle,
{
}

/// Runs the blocks of a run one step at a time: it is told what happened
/// and says what is to happen next.
pub struct BlockExecutor {
    cursor: ChainCursor,
    phase: Phase,
    remaining: usize,
    block: Block,
    workload: Vec<(DocumentOp, u16)>,
    operation: usize,
    made: u16,
    fees: FeesAggregate,
    epoch_change: Option<u16>,
    inserted: Ghost<Seq<(i64, u64)>>,
}

impl View for BlockExecutor {
    type V = ExecutorState;

    closed spec fn view(&self) -> ExecutorState {
        ExecutorState {
            cursor: self.cursor,
            phase: self.phase,
            remaining: self.remaining as nat,
            block: self.block,
            workload: workload_view(self.workload@),
            operation: self.operation as int,
            made: self.made,
            fees: self.fees,
            epoch_change: self.epoch_change,
            inserted: self.inserted@,
        }
    }
}

impl BlockExecutor {
    #[verifier::type_invariant]
    closed spec fn well_formed(self) -> bool {
        self@.valid()
    }

    /// An executor before its first run: no block is committed.
    pub fn new() -> (executor: BlockExecutor)
        ensures
            executor@ == ExecutorState::initial(),
    {
        let executor = BlockExecutor {
            cursor: ChainCursor { last_block: None, current_epoch: None },
            phase: Phase::Idle,
            remaining: 0,
            block: Block { height: 0, time_ms: 0 },
            workload: Vec::new(),
            operation: 0,
            made: 0,
            fees: FeesAggregate::new(),
            epoch_change: None,
            inserted: Ghost(Seq::empty()),
        };
        assert(workload_view(executor.workload@) =~= Seq::empty());
        executor
    }

    /// An executor for a chain whose head is `cursor`.
    pub fn with_cursor(cursor: ChainCursor) -> (executor: BlockExecutor)
        ensures
            executor@ == (ExecutorState { cursor, ..ExecutorState::initial() }),
    {
        let block = Block { height: 0, time_ms: 0 };
        BlockExecutor::new().moved(cursor, Phase::Idle, 0, block, None)
    }

    /// The head of the chain.
    pub fn cursor(&self) -> (cursor: ChainCursor)
        ensures
            cursor == self@.cursor,
    {
        self.cursor
    }

    /// How far the execution of a block has come.
    pub fn phase(&self) -> (phase: Phase)
        ensures
            phase == self@.phase,
    {
        self.phase
    }

    /// The fees of the insertions of the block that was opened last: the
    /// total of those insertions.
    pub fn fees(&self) -> (fees: FeesAggregate)
        ensures
            fees == self@.fees,
            fees == FeesAggregate::total(self@.inserted),
    {
        proof {
            use_type_invariant(self);
        }
        self.fees
    }

    /// The operation at `index` in the workload of the block that was
    /// opened last.
    pub fn operation(&self, index: usize) -> (operation: Option<&DocumentOp>)
        ensures
            index < self@.workload.len() ==> operation is Some && operation->0@
                == self@.workload[index as int].0,
            index >= self@.workload.len() ==> operation is None,
    {
        if index < self.workload.len() {
            Some(&self.workload[index].0)
        } else {
            None
        }
    }

    /// Whether `event` makes the executor open a block.
    pub fn opens_block_on(&self, event: &Event) -> (opens: bool)
        ensures
            opens == self@.opens_block_on(*event),
    {
        match event {
            Event::Start { count } => {
                let idle = match self.phase {
                    Phase::Idle => true,
                    _ => false,
                };
                idle && MIN_BLOCKS <= *count && *count <= MAX_BLOCKS
            },
            Event::Committed => {
                let committing = match self.phase {
                    Phase::Committing => true,
                    _ => false,
                };
                committing && self.remaining > 1
            },
            _ => false,
        }
    }

    /// The same executor in another phase of its run.
    fn moved(
        self,
        cursor: ChainCursor,
        phase: Phase,
        remaining: usize,
        block: Block,
        epoch_change: Option<u16>,
    ) -> (next: BlockExecutor)
        requires
            remaining <= MAX_BLOCKS,
            phase is Idle <==> remaining == 0,
            phase is BlockOpen ==> self@.operation < self@.workload.len(),
            (phase is WorkloadApplied || phase is Committing) ==> self@.operation
                == self@.workload.len(),
            !(phase is Idle) ==> follows(cursor, block),
        ensures
            next@ == (ExecutorState {
                cursor,
                phase,
                remaining: remaining as nat,
                block,
                epoch_change,
                ..self@
            }),
    {
        proof {
            use_type_invariant(&self);
        }
        let BlockExecutor {
            cursor: _,
            phase: _,
            remaining: _,
            block: _,
            workload,
            operation,
            made,
            fees,
            epoch_change: _,
            inserted,
        } = self;
        BlockExecutor {
            cursor,
            phase,
            remaining,
            block,
            workload,
            operation,
            made,
            fees,
            epoch_change,
            inserted,
        }
    }

    /// Gives the run up with `error`.
    fn aborted(self, error: ExecutionError) -> (next: (BlockExecutor, Action))
        ensures
            (next.0@, next.1) == self@.aborted(error),
    {
        let cursor = self.cursor;
        let block = self.block;
        let epoch_change = self.epoch_change;
        (self.moved(cursor, Phase::Idle, 0, block, epoch_change), Action::Abort(error))
    }

    /// Opens the next block of a run with `remaining` blocks to go, after
    /// the head `cursor`, for `proposer`.
    fn execute_block(self, cursor: ChainCursor, remaining: usize, proposer: Option<[u8; 32]>) -> (next:
        (BlockExecutor, Action))
        requires
            1 <= remaining <= MAX_BLOCKS,
        ensures
            (next.0@, next.1) == (ExecutorState {
                cursor,
                phase: Phase::Idle,
                remaining: remaining as nat,
                ..self@
            }).execute_block(proposer),
    {
        let old_block = self.block;
        let epoch_change = self.epoch_change;
        let hash = match proposer {
            None => {
                return (
                    self.moved(cursor, Phase::Idle, 0, old_block, epoch_change),
                    Action::Abort(ExecutionError::EmptyRegistry),
                );
            },
            Some(hash) => hash,
        };
        let (height, time_ms, previous): (Option<u64>, Option<u64>, Option<u64>) =
            match cursor.last_block {
            None => (Some(FIRST_HEIGHT), Some(FIRST_TIME_MS), None),
            Some(block) => (
                block.height.checked_add(1),
                block.time_ms.checked_add(BLOCK_TIME_STEP_MS),
                Some(block.time_ms),
            ),
        };
        match (height, time_ms) {
            (Some(height), Some(time_ms)) => {
                let block = Block { height, time_ms };
                (
                    self.moved(cursor, Phase::Opening, remaining, block, epoch_change),
                    Action::BeginBlock(
                        BlockBeginRequest {
                            block_height: height,
                            block_time_ms: time_ms,
                            previous_block_time_ms: previous,
                            proposer_pro_tx_hash: hash,
                        },
                    ),
                )
            },
            _ => (
                self.moved(cursor, Phase::Idle, 0, old_block, epoch_change),
                Action::Abort(ExecutionError::ChainExhausted),
            ),
        }
    }

    /// The first operation of `workload` at or after `from` that has a
    /// document to make.
    fn next_operation(workload: &Vec<(DocumentOp, u16)>, from: usize) -> (operation: usize)
        requires
            from <= workload@.len(),
        ensures
            operation == next_operation(workload_view(workload@), from as int),
    {
        let mut operation = from;
        while operation < workload.len() && workload[operation].1 == 0
            invariant
                from <= operation <= workload@.len(),
                next_operation(workload_view(workload@), from as int) == next_operation(
                    workload_view(workload@),
                    operation as int,
                ),
            decreases workload@.len() - operation,
        {
            operation = operation + 1;
        }
        operation
    }

    /// Goes on with the open block `block` at the first operation of
    /// `workload` at or after `from` that has a document to make; `inserted`
    /// are the insertions made so far and `fees` their total.
    fn proceed(
        cursor: ChainCursor,
        remaining: usize,
        block: Block,
        epoch_change: Option<u16>,
        workload: Vec<(DocumentOp, u16)>,
        fees: FeesAggregate,
        inserted: Ghost<Seq<(i64, u64)>>,
        from: usize,
    ) -> (next: (BlockExecutor, Action))
        requires
            1 <= remaining <= MAX_BLOCKS,
            follows(cursor, block),
            from <= workload@.len(),
            fees == FeesAggregate::total(inserted@),
            inserted@.len() == documents_planned(workload_view(workload@), from as int),
        ensures
            (next.0@, next.1) == (ExecutorState {
                cursor,
                phase: Phase::BlockOpen,
                remaining: remaining as nat,
                block,
                workload: workload_view(workload@),
                operation: from as int,
                made: 0,
                fees,
                epoch_change,
                inserted: inserted@,
            }).proceed(from as int),
    {
        proof {
            lemma_next_operation(workload_view(workload@), from as int);
        }
        let operation = Self::next_operation(&workload, from);
        if operation < workload.len() {
            (
                BlockExecutor {
                    cursor,
                    phase: Phase::BlockOpen,
                    remaining,
                    block,
                    workload,
                    operation,
                    made: 0,
                    fees,
                    epoch_change,
                    inserted,
                },
                Action::InsertDocument {
                    operation,
                    epoch_index: match cursor.current_epoch {
                        None => FIRST_EPOCH,
                        Some(index) => index,
                    },
                    block_time_ms: block.time_ms,
                },
            )
        } else {
            (
                BlockExecutor {
                    cursor,
                    phase: Phase::WorkloadApplied,
                    remaining,
                    block,
                    workload,
                    operation,
                    made: 0,
                    fees,
                    epoch_change,
                    inserted,
                },
                Action::EndBlock(fees),
            )
        }
    }

    /// Begins the workload of the block that the engine has begun.
    fn execute_current_strategy(self, workload: Vec<(DocumentOp, u16)>) -> (next: (
        BlockExecutor,
        Action,
    ))
        ensures
            (next.0@, next.1) == self@.execute_current_strategy(workload_view(workload@)),
    {
        proof {
            use_type_invariant(&self);
        }
        match self.phase {
            Phase::Opening => Self::proceed(
                self.cursor,
                self.remaining,
                self.block,
                self.epoch_change,
                workload,
                FeesAggregate::new(),
                Ghost(Seq::empty()),
                0,
            ),
            _ => self.aborted(ExecutionError::UnexpectedEvent),
        }
    }

    /// Takes in the fees of the document that the engine has inserted.
    fn document_inserted(self, storage_fee: i64, processing_fee: u64) -> (next: (
        BlockExecutor,
        Action,
    ))
        ensures
            (next.0@, next.1) == self@.document_inserted(storage_fee, processing_fee),
    {
        proof {
            use_type_invariant(&self);
        }
        match self.phase {
            Phase::BlockOpen => {
                let ghost before = self@;
                let BlockExecutor {
                    cursor,
                    phase,
                    remaining,
                    block,
                    workload,
                    operation,
                    made,
                    fees,
                    epoch_change,
                    inserted,
                } = self;
                let mut fees = fees;
                fees.add(storage_fee, processing_fee);
                let inserted: Ghost<Seq<(i64, u64)>> = Ghost(
                    inserted@.push((storage_fee, processing_fee)),
                );
                assert(inserted@.drop_last() == before.inserted);
                let made = made + 1;
                assert(operation < workload.len());
                if made < workload[operation].1 {
                    (
                        BlockExecutor {
                            cursor,
                            phase,
                            remaining,
                            block,
                            workload,
                            operation,
                            made,
                            fees,
                            epoch_change,
                            inserted,
                        },
                        Action::InsertDocument {
                            operation,
                            epoch_index: match cursor.current_epoch {
                                None => FIRST_EPOCH,
                                Some(index) => index,
                            },
                            block_time_ms: block.time_ms,
                        },
                    )
                } else {
                    Self::proceed(
                        cursor,
                        remaining,
                        block,
                        epoch_change,
                        workload,
                        fees,
                        inserted,
                        operation + 1,
                    )
                }
            },
            _ => self.aborted(ExecutionError::UnexpectedEvent),
        }
    }

    /// Takes in what the engine said when it ended the block.
    fn block_ended(self, is_epoch_change: bool, current_epoch_index: u16) -> (next: (
        BlockExecutor,
        Action,
    ))
        ensures
            (next.0@, next.1) == self@.block_ended(is_epoch_change, current_epoch_index),
    {
        proof {
            use_type_invariant(&self);
        }
        match self.phase {
            Phase::WorkloadApplied => {
                let cursor = self.cursor;
                let remaining = self.remaining;
                let block = self.block;
                let epoch_change = if is_epoch_change {
                    Some(current_epoch_index)
                } else {
                    None
                };
                (
                    self.moved(cursor, Phase::Committing, remaining, block, epoch_change),
                    Action::Commit,
                )
            },
            _ => self.aborted(ExecutionError::UnexpectedEvent),
        }
    }

    /// Makes the committed block the head of the chain, and opens the next
    /// block of the run for `proposer`, if one is left.
    fn committed(self, proposer: Option<[u8; 32]>) -> (next: (BlockExecutor, Action))
        ensures
            (next.0@, next.1) == self@.committed(proposer),
    {
        proof {
            use_type_invariant(&self);
        }
        match self.phase {
            Phase::Committing => {
                let cursor = ChainCursor {
                    last_block: Some(self.block),
                    current_epoch: match self.epoch_change {
                        Some(index) => Some(index),
                        None => self.cursor.current_epoch,
                    },
                };
                let remaining = self.remaining - 1;
                if remaining > 0 {
                    self.execute_block(cursor, remaining, proposer)
                } else {
                    let block = self.block;
                    let epoch_change = self.epoch_change;
                    (self.moved(cursor, Phase::Idle, 0, block, epoch_change), Action::Finished)
                }
            },
            _ => self.aborted(ExecutionError::UnexpectedEvent),
        }
    }

    /// Gives the run up after a failure of the engine.
    fn failed(self) -> (next: (BlockExecutor, Action))
        ensures
            (next.0@, next.1) == self@.failed(),
    {
        let error = match self.phase {
            Phase::Idle => ExecutionError::UnexpectedEvent,
            Phase::Opening => ExecutionError::BlockBeginFailed,
            Phase::BlockOpen => ExecutionError::InsertionFailed,
            Phase::WorkloadApplied => ExecutionError::BlockEndFailed,
            Phase::Committing => ExecutionError::CommitFailed,
        };
        self.aborted(error)
    }

    /// Starts a run of `count` blocks with its first block, for `proposer`.
    fn execute_blocks(self, count: usize, proposer: Option<[u8; 32]>) -> (next: (
        BlockExecutor,
        Action,
    ))
        ensures
            (next.0@, next.1) == self@.execute_blocks(count, proposer),
    {
        proof {
            use_type_invariant(&self);
        }
        match self.phase {
            Phase::Idle => {
                if count < MIN_BLOCKS || count > MAX_BLOCKS {
                    (self, Action::Abort(ExecutionError::CountOutOfRange))
                } else {
                    let cursor = self.cursor;
                    self.execute_block(cursor, count, proposer)
                }
            },
            _ => self.aborted(ExecutionError::UnexpectedEvent),
        }
    }

    /// Takes `event` in and says what is to happen next. `proposer` is the
    /// masternode picked for a block that the event opens, and `workload`
    /// the workload drawn for a block that has begun; neither is looked at
    /// where the event has no use for it.
    pub fn apply(
        &mut self,
        event: Event,
        proposer: Option<[u8; 32]>,
        workload: Vec<(DocumentOp, u16)>,
    ) -> (action: Action)
        ensures
            (final(self)@, action) == old(self)@.step(event, proposer, workload_view(workload@)),
            old(self)@.valid(),
            final(self)@.valid(),
    {
        proof {
            use_type_invariant(&*self);
        }
        let mut taken = BlockExecutor::new();
        std::mem::swap(&mut taken, self);
        let (next, action) = match event {
            Event::Start { count } => taken.execute_blocks(count, proposer),
            Event::BlockBegun => taken.execute_current_strategy(workload),
            Event::DocumentInserted { storage_fee, processing_fee } => taken.document_inserted(
                storage_fee,
                processing_fee,
            ),
            Event::BlockEnded { is_epoch_change, current_epoch_index } => taken.block_ended(
                is_epoch_change,
                current_epoch_index,
            ),
            Event::Committed => taken.committed(proposer),
            Event::Failed => taken.failed(),
        };
        proof {
            use_type_invariant(&next);
        }
        *self = next;
        action
    }
}

} // verus!
