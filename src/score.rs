use vstd::prelude::*;

verus! {

/// Number of fixed-point units in one sentiment point.
pub const UNITS_PER_POINT: i64 = 1_000_000;

/// The mathematical value of a score: (score, comparative).
pub type ScoreValue = (int, int);

/// Whether a mathematical integer can be held in an `i64`.
pub open spec fn fits_i64(v: int) -> bool {
    i64::MIN <= v <= i64::MAX
}

/// Division that rounds toward zero, as `/` does on Rust's signed integers.
pub open spec fn div_toward_zero(a: int, d: int) -> int {
    if a >= 0 {
        a / d
    } else {
        -((-a) / d)
    }
}

/// Componentwise sum of two score values.
pub open spec fn add_score(a: ScoreValue, b: ScoreValue) -> ScoreValue {
    (a.0 + b.0, a.1 + b.1)
}

/// Both components of a score value divided by `d`, rounding toward zero.
pub open spec fn scale_score(a: ScoreValue, d: int) -> ScoreValue {
    (div_toward_zero(a.0, d), div_toward_zero(a.1, d))
}

pub open spec fn score_fits(a: ScoreValue) -> bool {
    fits_i64(a.0) && fits_i64(a.1)
}

/// One sentiment measurement in fixed point: `score` is the raw magnitude,
/// `comparative` the magnitude normalised by the length of the text, both in
/// units of one millionth of a point.
#[derive(Clone, Copy, Debug, PartialEq, Eq, Structural)]
pub struct SentimentScore {
    pub score: i64,
    pub comparative: i64,
}

impl View for SentimentScore {
    type V = ScoreValue;

    open spec fn view(&self) -> ScoreValue {
        (self.score as int, self.comparative as int)
    }
}

fn div_i64_toward_zero(a: i64, d: u64) -> (r: i64)
    requires
        d > 0,
    ensures
        r as int == div_toward_zero(a as int, d as int),
{
    let wide: i128 = a as i128;
    let dw: i128 = d as i128;
    if wide >= 0 {
        let q: i128 = wide / dw;
        assert(q <= wide) by (nonlinear_arith)
            requires wide >= 0, dw > 0, q == wide / dw;
        q as i64
    } else {
        let neg: i128 = -wide;
        let q: i128 = neg / dw;
        assert(0 <= q <= neg) by (nonlinear_arith)
            requires neg >= 0, dw > 0, q == neg / dw;
        (-q) as i64
    }
}

impl SentimentScore {
    /// A score of zero in both components.
    pub fn zero() -> (r: SentimentScore)
        ensures
            r@ == (0int, 0int),
    {
        SentimentScore { score: 0, comparative: 0 }
    }

    /// Whether `accumulate(other)` can be carried out without leaving the range of `i64`.
    pub fn can_accumulate(&self, other: &SentimentScore) -> (r: bool)
        ensures
            r == score_fits(add_score(self@, other@)),
    {
        self.score.checked_add(other.score).is_some() && self.comparative.checked_add(
            other.comparative,
        ).is_some()
    }

    /// Adds `other` into this score, component by component.
    pub fn accumulate(&mut self, other: &SentimentScore)
        requires
            score_fits(add_score(old(self)@, other@)),
        ensures
            final(self)@ == add_score(old(self)@, other@),
    {
        self.score = self.score + other.score;
        self.comparative = self.comparative + other.comparative;
    }

    /// Divides both components by `divisor`, rounding toward zero.
    pub fn scale_down(&mut self, divisor: u64)
        requires
            divisor > 0,
        ensures
            final(self)@ == scale_score(old(self)@, divisor as int),
    {
        self.score = div_i64_toward_zero(self.score, divisor);
        self.comparative = div_i64_toward_zero(self.comparative, divisor);
    }
}

} // verus!
