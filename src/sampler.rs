use vstd::prelude::*;
use crate::aggregate::{
    AggregateSentiment, AggregateValue, add_aggregate, aggregate_fits, scale_aggregate,
    zero_aggregate,
};

verus! {

/// Sum of a sequence of aggregate values, folded from the front.
pub open spec fn sum_of(s: Seq<AggregateValue>) -> AggregateValue
    decreases s.len(),
{
    if s.len() == 0 {
        zero_aggregate()
    } else {
        add_aggregate(sum_of(s.drop_last()), s.last())
    }
}

/// Average of a sequence of aggregate values, divided by its length and
/// rounded toward zero; the average of no values is zero.
pub open spec fn average_of(s: Seq<AggregateValue>) -> AggregateValue {
    if s.len() == 0 {
        zero_aggregate()
    } else {
        scale_aggregate(sum_of(s), s.len() as int)
    }
}

/// Whether every running total along `s` stays within the range of `i64`.
pub open spec fn running_sums_fit(s: Seq<AggregateValue>) -> bool {
    forall|i: int| 0 <= i <= s.len() ==> #[trigger] aggregate_fits(sum_of(s.take(i)))
}

/// The values of a sequence of aggregates.
pub open spec fn values_of(s: Seq<AggregateSentiment>) -> Seq<AggregateValue> {
    s.map_values(|a: AggregateSentiment| a@)
}

/// Number of items that a run with sample bound `bound` takes from a source
/// of `available` items: the bound is inclusive, so up to `bound + 1`.
pub open spec fn items_taken(available: int, bound: int) -> int {
    if available <= bound + 1 {
        available
    } else {
        bound + 1
    }
}

/// Why a sampling run stopped without a result.
#[derive(Clone, Copy, Debug, PartialEq, Eq, Structural)]
pub enum SampleError {
    /// A running total, or the item count, would leave the range of its integer type.
    Overflow,
}

/// The outcome of a sampling run.
#[derive(Clone, Copy, Debug, PartialEq, Eq, Structural)]
pub struct Sample {
    /// The average of the items taken.
    pub average: AggregateSentiment,
    /// How many items were taken; the divisor of the average.
    pub items: u64,
}

/// The state of a sampling run over a stream of analysed items: the items
/// taken so far, their running total and the sample bound. The bound is
/// inclusive: a run with bound `k` asks for `k + 1` items.
pub struct Sampler {
    total: AggregateSentiment,
    processed: u64,
    bound: u64,
    taken: Ghost<Seq<AggregateValue>>,
}

impl Sampler {
    /// The values of the items taken so far, in order.
    pub closed spec fn taken(&self) -> Seq<AggregateValue> {
        self.taken@
    }

    /// The sample bound that the run was started with.
    pub closed spec fn bound(&self) -> int {
        self.bound as int
    }

    pub closed spec fn wf(&self) -> bool {
        &&& self.processed as int == self.taken@.len()
        &&& self.taken@.len() <= self.bound as int + 1
        &&& self.total@ == sum_of(self.taken@)
    }

    /// Starts a run that takes at most `bound + 1` items.
    pub fn new(bound: u64) -> (r: Sampler)
        ensures
            r.wf(),
            r.taken() == Seq::<AggregateValue>::empty(),
            r.bound() == bound as int,
    {
        Sampler { total: AggregateSentiment::zero(), processed: 0, bound, taken: Ghost(Seq::empty()) }
    }

    /// Whether the run asks for another item.
    pub fn wants_more(&self) -> (r: bool)
        requires
            self.wf(),
        ensures
            r == (self.taken().len() <= self.bound()),
    {
        self.processed <= self.bound
    }

    /// How many items have been taken.
    pub fn processed(&self) -> (r: u64)
        requires
            self.wf(),
        ensures
            r as int == self.taken().len(),
    {
        self.processed
    }

    /// Folds the analysis of one more item into the running total. Fails,
    /// and leaves the run as it was, where the total or the count would
    /// leave the range of its integer type.
    pub fn take(&mut self, delta: &AggregateSentiment) -> (r: Result<(), SampleError>)
        requires
            old(self).wf(),
            old(self).taken().len() <= old(self).bound(),
        ensures
            final(self).wf(),
            final(self).bound() == old(self).bound(),
            r.is_ok() == (aggregate_fits(add_aggregate(sum_of(old(self).taken()), delta@))
                && old(self).taken().len() < u64::MAX),
            r.is_ok() ==> final(self).taken() == old(self).taken().push(delta@),
            r.is_err() ==> final(self).taken() == old(self).taken(),
    {
        if self.processed == u64::MAX || !self.total.can_accumulate(delta) {
            return Err(SampleError::Overflow);
        }
        self.total.accumulate(delta);
        self.processed = self.processed + 1;
        proof {
            let ghost prev = self.taken@;
            assert(prev.push(delta@).drop_last() =~= prev);
            self.taken = Ghost(prev.push(delta@));
        }
        Ok(())
    }

    /// The average of the items taken: their total divided by their number,
    /// or zero where no item was taken.
    pub fn finish(&self) -> (r: AggregateSentiment)
        requires
            self.wf(),
        ensures
            r@ == average_of(self.taken()),
    {
        let mut avg = self.total;
        if self.processed > 0 {
            avg.scale_down(self.processed);
        }
        avg
    }
}

/// Runs a sample over a finite source of analysed items: takes items in
/// order until `bound + 1` have been taken or the source is exhausted, and
/// averages them over the number actually taken.
pub fn run(source: &Vec<AggregateSentiment>, bound: u64) -> (r: Result<Sample, SampleError>)
    ensures
        ({
            let taken = values_of(source@).take(items_taken(source@.len() as int, bound as int));
            &&& r.is_ok() == running_sums_fit(taken)
            &&& r matches Ok(s) ==> s.items as int == taken.len() && s.average@ == average_of(taken)
        }),
{
    let ghost values = values_of(source@);
    let ghost n = items_taken(source@.len() as int, bound as int);
    let mut sampler = Sampler::new(bound);
    let mut i: usize = 0;
    assert(values.take(0) =~= Seq::<AggregateValue>::empty());
    while i < source.len() && sampler.wants_more()
        invariant
            sampler.wf(),
            sampler.bound() == bound as int,
            i <= source@.len(),
            i <= n,
            values.len() == source@.len(),
            values == values_of(source@),
            n == items_taken(source@.len() as int, bound as int),
            sampler.taken() == values.take(i as int),
            forall|j: int| 0 <= j <= i ==> #[trigger] aggregate_fits(sum_of(values.take(j))),
        decreases source@.len() - i,
    {
        let ghost before = sampler.taken();
        let step = sampler.take(&source[i]);
        assert(values.take(i + 1) =~= before.push(values[i as int]));
        if step.is_err() {
            assert(!aggregate_fits(sum_of(values.take(i + 1)))) by {
                assert(before.push(values[i as int]).drop_last() =~= before);
            }
            assert(!running_sums_fit(values.take(n))) by {
                assert(values.take(n).take(i + 1) =~= values.take(i + 1));
            }
            return Err(SampleError::Overflow);
        }
        i = i + 1;
    }
    assert(i == n);
    assert(running_sums_fit(values.take(n))) by {
        assert forall|j: int| 0 <= j <= values.take(n).len() implies #[trigger] aggregate_fits(
            sum_of(values.take(n).take(j)),
        ) by {
            assert(values.take(n).take(j) =~= values.take(j));
        }
    }
    Ok(Sample { average: sampler.finish(), items: sampler.processed() })
}

} // verus!
