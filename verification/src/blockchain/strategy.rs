//! The strategy of a workload: which documents a block makes, and how often.

use crate::blockchain::chance::{lemma_extreme_chances, Chance, NEGATIVE_ZERO_BITS, ONE_BITS};
use crate::random::{random_in_range, random_u64};
use crate::text::{characters, parse_unsigned, same_text, unsigned_value, views};
use std::ops::Range;
use vstd::prelude::*;
use vstd::string::StrSliceExecFns;

verus! {

/// What a strategy needs to know of a data contract: its identifier and the
/// names of its document types.
#[derive(Debug, PartialEq, Eq)]
pub struct Contract {
    pub id: [u8; 32],
    pub document_types: Vec<String>,
}

/// The mathematical value of a `Contract`.
pub struct ContractView {
    pub id: Seq<u8>,
    pub document_types: Seq<Seq<char>>,
}

impl View for Contract {
    type V = ContractView;

    open spec fn view(&self) -> ContractView {
        ContractView { id: self.id@, document_types: views(self.document_types@) }
    }
}

impl Clone for Contract {
    fn clone(&self) -> (copy: Contract)
        ensures
            copy@ == self@,
    {
        let mut document_types: Vec<String> = Vec::new();
        let mut i: usize = 0;
        while i < self.document_types.len()
            invariant
                i <= self.document_types.len(),
                views(document_types@) == views(self.document_types@).take(i as int),
            decreases self.document_types.len() - i,
        {
            let ghost before = views(document_types@);
            let name = self.document_types[i].clone();
            document_types.push(name);
            assert(views(document_types@) =~= before.push(self.document_types@[i as int]@));
            i = i + 1;
            assert(views(self.document_types@).take(i as int) =~= before.push(
                self.document_types@[i - 1]@,
            ));
        }
        assert(views(self.document_types@).take(i as int) == views(self.document_types@));
        Contract { id: self.id, document_types }
    }
}

impl Contract {
    /// Whether the contract has a document type of this name.
    pub fn has_document_type(&self, name: &str) -> (found: bool)
        ensures
            found == self@.document_types.contains(name@),
    {
        let mut i: usize = 0;
        while i < self.document_types.len()
            invariant
                i <= self.document_types.len(),
                forall|k: int| 0 <= k < i ==> views(self.document_types@)[k] != name@,
            decreases self.document_types.len() - i,
        {
            if same_text(self.document_types[i].as_str(), name) {
                assert(views(self.document_types@)[i as int] == name@);
                return true;
            }
            i = i + 1;
        }
        false
    }
}

/// How often an operation runs: in a block it fires with the chance
/// `chance_per_block` (always, where there is none), and when it fires it
/// makes a number of documents drawn from the half-open range
/// `times_per_block_range`.
#[derive(Clone, Copy, Debug, PartialEq, Eq)]
pub struct Frequency {
    low: u16,
    high: u16,
    chance: Option<Chance>,
}

impl Frequency {
    /// The range is in order, and the chance, if there is one, is a probability.
    #[verifier::type_invariant]
    pub closed spec fn valid(self) -> bool {
        &&& self.low <= self.high
        &&& self.chance matches Some(chance) ==> chance.valid()
    }

    /// The least number of documents made when the operation fires.
    pub closed spec fn low(self) -> u16 {
        self.low
    }

    /// The bound that the number of documents stays below.
    pub closed spec fn high(self) -> u16 {
        self.high
    }

    /// The chance with which the operation fires in a block.
    pub closed spec fn chance(self) -> Option<Chance> {
        self.chance
    }

    /// Whether the operation fires in a block whose uniform draw is `draw`.
    pub open spec fn fires_on(self, draw: u64) -> bool {
        match self.chance() {
            None => true,
            Some(chance) => chance.fires_on(draw),
        }
    }

    /// The number of documents made in a block whose draws are `fire_draw`
    /// and, for the count, `count_draw`: none where the operation does not
    /// fire or the range is empty.
    pub open spec fn documents_on(self, fire_draw: u64, count_draw: u16) -> u16 {
        if self.fires_on(fire_draw) && self.low() < self.high() {
            count_draw
        } else {
            0
        }
    }

    /// Whether some draws make `count` documents in a block.
    pub open spec fn admits(self, count: u16) -> bool {
        exists|fire_draw: u64, count_draw: u16|
            (self.low() < self.high() ==> self.low() <= count_draw < self.high())
                && #[trigger] self.documents_on(fire_draw, count_draw) == count
    }

    /// A frequency, unless the range ends before it starts.
    pub fn new(times_per_block_range: Range<u16>, chance_per_block: Option<Chance>) -> (frequency:
        Option<Frequency>)
        ensures
            frequency is Some <==> times_per_block_range.start <= times_per_block_range.end,
            frequency matches Some(f) ==> f.valid() && f.low() == times_per_block_range.start
                && f.high() == times_per_block_range.end && f.chance() == chance_per_block,
    {
        if times_per_block_range.start <= times_per_block_range.end {
            proof {
                if let Some(chance) = chance_per_block {
                    use_type_invariant(chance);
                }
            }
            Some(
                Frequency {
                    low: times_per_block_range.start,
                    high: times_per_block_range.end,
                    chance: chance_per_block,
                },
            )
        } else {
            None
        }
    }

    /// The range that the number of documents is drawn from.
    pub fn times_per_block_range(&self) -> (range: Range<u16>)
        ensures
            range.start == self.low(),
            range.end == self.high(),
            range.start <= range.end,
    {
        proof {
            use_type_invariant(self);
        }
        self.low..self.high
    }

    /// The chance with which the operation fires in a block.
    pub fn chance_per_block(&self) -> (chance: Option<Chance>)
        ensures
            chance == self.chance(),
    {
        self.chance
    }

    /// Whether the operation fires in a block whose uniform draw is `draw`.
    pub fn fires(&self, draw: u64) -> (fired: bool)
        ensures
            fired == self.fires_on(draw),
    {
        match self.chance {
            None => true,
            Some(chance) => chance.fires(draw),
        }
    }

    /// The number of documents made in a block whose draws are `fire_draw`
    /// and `count_draw`.
    pub fn documents(&self, fire_draw: u64, count_draw: u16) -> (count: u16)
        ensures
            count == self.documents_on(fire_draw, count_draw),
    {
        if self.fires(fire_draw) && self.low < self.high {
            count_draw
        } else {
            0
        }
    }

    /// Draws the number of documents that the operation makes in one block:
    /// a uniform draw decides whether it fires where it has a chance, and a
    /// second draw picks the count where it fires and the range is not empty.
    pub fn draw_documents(&self) -> (count: u16)
        ensures
            self.admits(count),
    {
        let fire_draw: u64 = match self.chance {
            None => 0,
            Some(_) => random_u64(),
        };
        let count_draw: u16 = if self.fires(fire_draw) && self.low < self.high {
            random_in_range(self.low as u64, self.high as u64) as u16
        } else {
            self.low
        };
        let count = self.documents(fire_draw, count_draw);
        assert(self.documents_on(fire_draw, count_draw) == count);
        count
    }
}

/// An operation without a chance fires in every block, and so does one
/// with a chance of 1; one with a chance of 0 fires in none.
pub proof fn lemma_certain_and_impossible(frequency: Frequency, draw: u64)
    requires
        frequency.valid(),
    ensures
        frequency.chance() is None ==> frequency.fires_on(draw),
        frequency.chance() matches Some(chance) && chance.bits() == ONE_BITS
            ==> frequency.fires_on(draw),
        frequency.chance() matches Some(chance) && (chance.bits() == 0 || chance.bits()
            == NEGATIVE_ZERO_BITS) ==> !frequency.fires_on(draw),
{
    if let Some(chance) = frequency.chance() {
        lemma_extreme_chances(chance, draw);
    }
}

/// What an operation makes in a block: a number of documents from its
/// range where it is certain to fire and the range is not empty, and none
/// where it cannot fire or the range is empty.
pub proof fn lemma_admitted_counts(frequency: Frequency, count: u16)
    requires
        frequency.valid(),
        frequency.admits(count),
    ensures
        count == 0 || frequency.low() <= count < frequency.high(),
        frequency.low() >= frequency.high() ==> count == 0,
        (frequency.chance() is None || (frequency.chance() matches Some(chance) && chance.bits()
            == ONE_BITS)) && frequency.low() < frequency.high() ==> frequency.low() <= count
            < frequency.high(),
        frequency.chance() matches Some(chance) && (chance.bits() == 0 || chance.bits()
            == NEGATIVE_ZERO_BITS) ==> count == 0,
{
    let (fire_draw, count_draw) = choose|fire_draw: u64, count_draw: u16|
        (frequency.low() < frequency.high() ==> frequency.low() <= count_draw < frequency.high())
            && #[trigger] frequency.documents_on(fire_draw, count_draw) == count;
    lemma_certain_and_impossible(frequency, fire_draw);
}

/// What kind of document to make: a contract and one of its document types.
#[derive(Debug, PartialEq, Eq)]
pub struct DocumentOp {
    contract: Contract,
    document_type: String,
}

/// The mathematical value of a `DocumentOp`.
pub struct DocumentOpView {
    pub contract: ContractView,
    pub document_type: Seq<char>,
}

impl DocumentOpView {
    /// The document type is one of the contract's.
    pub open spec fn valid(self) -> bool {
        self.contract.document_types.contains(self.document_type)
    }
}

impl View for DocumentOp {
    type V = DocumentOpView;

    closed spec fn view(&self) -> DocumentOpView {
        DocumentOpView { contract: self.contract@, document_type: self.document_type@ }
    }
}

impl Clone for DocumentOp {
    fn clone(&self) -> (copy: DocumentOp)
        ensures
            copy@ == self@,
    {
        proof {
            use_type_invariant(self);
        }
        DocumentOp { contract: self.contract.clone(), document_type: self.document_type.clone() }
    }
}

impl DocumentOp {
    #[verifier::type_invariant]
    closed spec fn well_formed(self) -> bool {
        self@.valid()
    }

    /// Pairs a contract with the document type named `document_type`, if
    /// the contract has one of that name.
    pub fn new(contract: Contract, document_type: String) -> (op: Option<DocumentOp>)
        ensures
            op is Some <==> contract@.document_types.contains(document_type@),
            op matches Some(o) ==> o@ == (DocumentOpView {
                contract: contract@,
                document_type: document_type@,
            }),
    {
        if contract.has_document_type(document_type.as_str()) {
            Some(DocumentOp { contract, document_type })
        } else {
            None
        }
    }

    /// The contract of the documents.
    pub fn contract(&self) -> (contract: &Contract)
        ensures
            contract@ == self@.contract,
            self@.valid(),
    {
        proof {
            use_type_invariant(self);
        }
        &self.contract
    }

    /// The name of the document type of the documents.
    pub fn document_type(&self) -> (document_type: &String)
        ensures
            document_type@ == self@.document_type,
    {
        &self.document_type
    }
}

/// The mathematical value of one operation of a strategy.
pub type OperationView = (DocumentOpView, Frequency);

/// The views of a sequence of operations.
pub open spec fn operation_views(operations: Seq<(DocumentOp, Frequency)>) -> Seq<OperationView> {
    operations.map_values(|operation: (DocumentOp, Frequency)| (operation.0@, operation.1))
}

/// A workload recipe: operations with their frequencies, in the order in
/// which a block runs them.
#[derive(Debug, PartialEq, Eq)]
pub struct Strategy {
    pub operations: Vec<(DocumentOp, Frequency)>,
}

impl View for Strategy {
    type V = Seq<OperationView>;

    open spec fn view(&self) -> Seq<OperationView> {
        operation_views(self.operations@)
    }
}

impl Clone for Strategy {
    fn clone(&self) -> (copy: Strategy)
        ensures
            copy@ == self@,
    {
        let mut operations: Vec<(DocumentOp, Frequency)> = Vec::new();
        let mut i: usize = 0;
        while i < self.operations.len()
            invariant
                i <= self.operations.len(),
                operation_views(operations@) == self@.take(i as int),
            decreases self.operations.len() - i,
        {
            let ghost before = operation_views(operations@);
            let op = self.operations[i].0.clone();
            let frequency = self.operations[i].1;
            operations.push((op, frequency));
            assert(operation_views(operations@) =~= before.push(self@[i as int]));
            i = i + 1;
            assert(self@.take(i as int) =~= before.push(self@[i - 1]));
        }
        assert(self@.take(i as int) == self@);
        Strategy { operations }
    }
}

impl Strategy {
    /// A strategy without operations.
    pub fn new() -> (strategy: Strategy)
        ensures
            strategy@ == Seq::<OperationView>::empty(),
    {
        let strategy = Strategy { operations: Vec::new() };
        assert(strategy@ =~= Seq::<OperationView>::empty());
        strategy
    }
}

/// The operations of a block with the number of documents drawn for each.
pub type WorkloadView = Seq<(DocumentOpView, u16)>;

/// The views of a workload.
pub open spec fn workload_view(workload: Seq<(DocumentOp, u16)>) -> WorkloadView {
    workload.map_values(|planned: (DocumentOp, u16)| (planned.0@, planned.1))
}

/// Whether `workload` can be drawn for a block that runs `operations`: it
/// has their operations in their order, each with a number of documents
/// that its frequency admits.
pub open spec fn workload_admitted(operations: Seq<OperationView>, workload: WorkloadView) -> bool {
    &&& workload.len() == operations.len()
    &&& forall|k: int|
        0 <= k < workload.len() ==> (#[trigger] workload[k]).0 == operations[k].0
            && operations[k].1.admits(workload[k].1)
}

impl Strategy {
    /// Draws the workload of one block: for each operation, in their
    /// order, the number of documents that it makes.
    pub fn draw_workload(&self) -> (workload: Vec<(DocumentOp, u16)>)
        ensures
            workload_admitted(self@, workload_view(workload@)),
    {
        let mut workload: Vec<(DocumentOp, u16)> = Vec::new();
        let mut i: usize = 0;
        while i < self.operations.len()
            invariant
                i <= self.operations.len(),
                workload@.len() == i,
                forall|k: int|
                    0 <= k < i ==> (#[trigger] workload_view(workload@)[k]).0 == self@[k].0
                        && self@[k].1.admits(workload_view(workload@)[k].1),
            decreases self.operations.len() - i,
        {
            let ghost before = workload_view(workload@);
            let op = self.operations[i].0.clone();
            let count = self.operations[i].1.draw_documents();
            workload.push((op, count));
            assert(workload_view(workload@) =~= before.push((self@[i as int].0, count)));
            i = i + 1;
        }
        workload
    }
}

/// Why a text is not a range of counts.
#[derive(Clone, Copy, Debug, PartialEq, Eq)]
pub enum RangeError {
    /// The text is not two parts with `..` between them.
    NotARange,
    /// The part before `..` is not an integer of sixteen bits.
    LowerNotAnInteger,
    /// The part after `..` is not an integer of sixteen bits.
    UpperNotAnInteger,
}

/// The first place at or after `from` where `s` has two dots in a row, or
/// the length of `s` where there is none.
pub open spec fn first_dots(s: Seq<char>, from: int) -> int
    decreases s.len() - from,
{
    if from < 0 || from + 1 >= s.len() {
        s.len() as int
    } else if s[from] == '.' && s[from + 1] == '.' {
        from
    } else {
        first_dots(s, from + 1)
    }
}

/// The range written in `s` as `m..n`: `s` has `..` once, with an unsigned
/// integer of sixteen bits on either side.
pub open spec fn range_of(s: Seq<char>) -> Result<(u16, u16), RangeError> {
    let dots = first_dots(s, 0);
    if dots >= s.len() || first_dots(s, dots + 2) < s.len() {
        Err(RangeError::NotARange)
    } else {
        match unsigned_value(s.subrange(0, dots), u16::MAX as nat) {
            None => Err(RangeError::LowerNotAnInteger),
            Some(low) => match unsigned_value(
                s.subrange(dots + 2, s.len() as int),
                u16::MAX as nat,
            ) {
                None => Err(RangeError::UpperNotAnInteger),
                Some(high) => Ok((low as u16, high as u16)),
            },
        }
    }
}

/// The first place at or after `from` where `chars` has two dots in a row.
fn find_dots(chars: &Vec<char>, from: usize) -> (place: usize)
    requires
        from <= chars@.len(),
    ensures
        place == first_dots(chars@, from as int),
        from <= place <= chars@.len(),
        place < chars@.len() ==> place + 2 <= chars@.len(),
{
    let mut i = from;
    while i < chars.len() && i + 1 < chars.len()
        invariant
            from <= i <= chars@.len(),
            first_dots(chars@, from as int) == first_dots(chars@, i as int),
        decreases chars@.len() - i,
    {
        if chars[i] == '.' && chars[i + 1] == '.' {
            return i;
        }
        i = i + 1;
    }
    chars.len()
}

/// Reads a range of counts written as `m..n`.
pub fn get_u16_range_from_input(input: &str) -> (range: Result<Range<u16>, RangeError>)
    ensures
        match range {
            Ok(found) => range_of(input@) == Ok::<(u16, u16), RangeError>((found.start, found.end)),
            Err(error) => range_of(input@) == Err::<(u16, u16), RangeError>(error),
        },
{
    let chars = characters(input);
    let n = chars.len();
    let dots = find_dots(&chars, 0);
    if dots >= n {
        return Err(RangeError::NotARange);
    }
    if find_dots(&chars, dots + 2) < n {
        return Err(RangeError::NotARange);
    }
    let low = match parse_unsigned(input.substring_char(0, dots), 0xFFFF) {
        None => { return Err(RangeError::LowerNotAnInteger); },
        Some(low) => low as u16,
    };
    let high = match parse_unsigned(input.substring_char(dots + 2, n), 0xFFFF) {
        None => { return Err(RangeError::UpperNotAnInteger); },
        Some(high) => high as u16,
    };
    Ok(low..high)
}

} // verus!
