//! The fees that the insertions of a block add up to.

use vstd::prelude::*;

verus! {

/// The fees of the documents inserted in one block.
#[derive(Clone, Copy, Debug, PartialEq, Eq)]
pub struct FeesAggregate {
    pub processing_fees: u64,
    pub storage_fees: u64,
}

/// `amount` where it is a `u64`, and else the nearest `u64`.
pub open spec fn saturated(amount: int) -> u64 {
    if amount < 0 {
        0
    } else if amount > u64::MAX {
        u64::MAX
    } else {
        amount as u64
    }
}

/// The sum of the storage fees in `fees`.
pub open spec fn storage_sum(fees: Seq<(i64, u64)>) -> int
    decreases fees.len(),
{
    if fees.len() == 0 {
        0
    } else {
        storage_sum(fees.drop_last()) + fees.last().0
    }
}

/// The sum of the processing fees in `fees`.
pub open spec fn processing_sum(fees: Seq<(i64, u64)>) -> int
    decreases fees.len(),
{
    if fees.len() == 0 {
        0
    } else {
        processing_sum(fees.drop_last()) + fees.last().1
    }
}

impl FeesAggregate {
    /// No fees.
    pub open spec fn zero() -> FeesAggregate {
        FeesAggregate { processing_fees: 0, storage_fees: 0 }
    }

    /// These fees and those of one more insertion, by saturating addition.
    pub open spec fn plus(self, storage_fee: i64, processing_fee: u64) -> FeesAggregate {
        FeesAggregate {
            processing_fees: saturated(self.processing_fees + processing_fee),
            storage_fees: saturated(self.storage_fees + storage_fee),
        }
    }

    /// The fees of the insertions `fees`, added up in their order.
    pub open spec fn total(fees: Seq<(i64, u64)>) -> FeesAggregate
        decreases fees.len(),
    {
        if fees.len() == 0 {
            FeesAggregate::zero()
        } else {
            FeesAggregate::total(fees.drop_last()).plus(fees.last().0, fees.last().1)
        }
    }

    /// No fees.
    pub fn new() -> (fees: FeesAggregate)
        ensures
            fees == FeesAggregate::zero(),
    {
        FeesAggregate { processing_fees: 0, storage_fees: 0 }
    }

    /// Adds the fees of one insertion, by saturating addition.
    pub fn add(&mut self, storage_fee: i64, processing_fee: u64)
        ensures
            *final(self) == old(self).plus(storage_fee, processing_fee),
    {
        let processing_fees: u64 = if processing_fee > u64::MAX - self.processing_fees {
            u64::MAX
        } else {
            self.processing_fees + processing_fee
        };
        let storage_fees: u64 = if storage_fee >= 0 {
            let fee: u64 = storage_fee as u64;
            if fee > u64::MAX - self.storage_fees {
                u64::MAX
            } else {
                self.storage_fees + fee
            }
        } else {
            let refund: u64 = (-(storage_fee + 1)) as u64 + 1;
            if refund > self.storage_fees {
                0
            } else {
                self.storage_fees - refund
            }
        };
        self.processing_fees = processing_fees;
        self.storage_fees = storage_fees;
    }
}

/// Without saturation the aggregate is the exact sum: where every running
/// sum of `fees` is a `u64`, the total of `fees` holds the two sums.
pub proof fn lemma_total_is_exact(fees: Seq<(i64, u64)>)
    requires
        forall|k: int|
            0 <= k <= fees.len() ==> 0 <= #[trigger] storage_sum(fees.take(k)) <= u64::MAX,
        forall|k: int|
            0 <= k <= fees.len() ==> #[trigger] processing_sum(fees.take(k)) <= u64::MAX,
    ensures
        FeesAggregate::total(fees).storage_fees == storage_sum(fees),
        FeesAggregate::total(fees).processing_fees == processing_sum(fees),
    decreases fees.len(),
{
    assert(fees.take(fees.len() as int) == fees);
    if fees.len() > 0 {
        let front = fees.drop_last();
        assert forall|k: int| 0 <= k <= front.len() implies 0 <= #[trigger] storage_sum(
            front.take(k),
        ) <= u64::MAX by {
            assert(front.take(k) == fees.take(k));
        }
        assert forall|k: int| 0 <= k <= front.len() implies #[trigger] processing_sum(
            front.take(k),
        ) <= u64::MAX by {
            assert(front.take(k) == fees.take(k));
        }
        lemma_total_is_exact(front);
        lemma_processing_sum_grows(front);
    }
}

/// A sum of processing fees is not negative.
pub proof fn lemma_processing_sum_grows(fees: Seq<(i64, u64)>)
    ensures
        0 <= processing_sum(fees),
    decreases fees.len(),
{
    if fees.len() > 0 {
        lemma_processing_sum_grows(fees.drop_last());
    }
}

} // verus!
