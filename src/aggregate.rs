use vstd::prelude::*;
use crate::score::{ScoreValue, SentimentScore, add_score, scale_score, score_fits};

verus! {

/// The mathematical value of an aggregate: (total, positive, negative).
pub type AggregateValue = (ScoreValue, ScoreValue, ScoreValue);

pub open spec fn zero_aggregate() -> AggregateValue {
    ((0int, 0int), (0int, 0int), (0int, 0int))
}

/// Slot-wise sum of two aggregate values.
pub open spec fn add_aggregate(a: AggregateValue, b: AggregateValue) -> AggregateValue {
    (add_score(a.0, b.0), add_score(a.1, b.1), add_score(a.2, b.2))
}

/// Every slot of an aggregate value divided by the same `d`, rounding toward zero.
pub open spec fn scale_aggregate(a: AggregateValue, d: int) -> AggregateValue {
    (scale_score(a.0, d), scale_score(a.1, d), scale_score(a.2, d))
}

pub open spec fn aggregate_fits(a: AggregateValue) -> bool {
    score_fits(a.0) && score_fits(a.1) && score_fits(a.2)
}

/// The overall, positive-only and negative-only sentiment of a text, or of
/// a run of texts, tracked together.
#[derive(Clone, Copy, Debug, PartialEq, Eq, Structural)]
pub struct AggregateSentiment {
    pub total: SentimentScore,
    pub positive: SentimentScore,
    pub negative: SentimentScore,
}

impl View for AggregateSentiment {
    type V = AggregateValue;

    open spec fn view(&self) -> AggregateValue {
        (self.total@, self.positive@, self.negative@)
    }
}

impl AggregateSentiment {
    /// An aggregate with all six components zero.
    pub fn zero() -> (r: AggregateSentiment)
        ensures
            r@ == zero_aggregate(),
    {
        AggregateSentiment {
            total: SentimentScore::zero(),
            positive: SentimentScore::zero(),
            negative: SentimentScore::zero(),
        }
    }

    /// Whether `accumulate(other)` can be carried out without leaving the range of `i64`.
    pub fn can_accumulate(&self, other: &AggregateSentiment) -> (r: bool)
        ensures
            r == aggregate_fits(add_aggregate(self@, other@)),
    {
        self.total.can_accumulate(&other.total) && self.positive.can_accumulate(&other.positive)
            && self.negative.can_accumulate(&other.negative)
    }

    /// Adds `other` into this aggregate, slot by slot.
    pub fn accumulate(&mut self, other: &AggregateSentiment)
        requires
            aggregate_fits(add_aggregate(old(self)@, other@)),
        ensures
            final(self)@ == add_aggregate(old(self)@, other@),
    {
        self.total.accumulate(&other.total);
        self.positive.accumulate(&other.positive);
        self.negative.accumulate(&other.negative);
    }

    /// Divides every slot by the same `divisor`, rounding toward zero.
    pub fn scale_down(&mut self, divisor: u64)
        requires
            divisor > 0,
        ensures
            final(self)@ == scale_aggregate(old(self)@, divisor as int),
    {
        self.total.scale_down(divisor);
        self.positive.scale_down(divisor);
        self.negative.scale_down(divisor);
    }
}

} // verus!
