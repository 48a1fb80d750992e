use vstd::prelude::*;
use vstd::arithmetic::div_mod::lemma_div_multiples_vanish;
use crate::score::{ScoreValue, add_score, div_toward_zero};
use crate::aggregate::{AggregateValue, scale_aggregate, zero_aggregate};
use crate::sampler::{average_of, sum_of};

verus! {

/// `n` copies of the same aggregate value.
pub open spec fn repeated(x: AggregateValue, n: nat) -> Seq<AggregateValue> {
    Seq::new(n, |i: int| x)
}

/// Every component of an aggregate value multiplied by `n`.
pub open spec fn times(x: AggregateValue, n: int) -> AggregateValue {
    (
        (n * x.0.0, n * x.0.1),
        (n * x.1.0, n * x.1.1),
        (n * x.2.0, n * x.2.1),
    )
}

/// Accumulating `b` into `a` gives the same score as accumulating `a` into `b`.
pub proof fn lemma_accumulate_commutes(a: ScoreValue, b: ScoreValue)
    ensures
        add_score(a, b) == add_score(b, a),
{
}

/// Accumulating three scores gives the same result however the
/// accumulations are grouped.
pub proof fn lemma_accumulate_associates(a: ScoreValue, b: ScoreValue, c: ScoreValue)
    ensures
        add_score(add_score(a, b), c) == add_score(a, add_score(b, c)),
{
}

/// Scaling down an all-zero aggregate by any nonzero divisor leaves it all zero.
pub proof fn lemma_scale_zero(d: int)
    requires
        d != 0,
    ensures
        scale_aggregate(zero_aggregate(), d) == zero_aggregate(),
{
    assert(0int / d == 0) by (nonlinear_arith)
        requires d != 0;
}

proof fn lemma_sum_repeated(x: AggregateValue, n: nat)
    ensures
        sum_of(repeated(x, n)) == times(x, n as int),
    decreases n,
{
    if n > 0 {
        assert(repeated(x, n).drop_last() =~= repeated(x, (n - 1) as nat));
        lemma_sum_repeated(x, (n - 1) as nat);
        let m = n as int;
        assert forall|a: int| #[trigger] (m * a) == (m - 1) * a + a by {
            assert(m * a == (m - 1) * a + a) by (nonlinear_arith);
        }
    } else {
        assert(times(x, 0) == zero_aggregate());
    }
}

proof fn lemma_div_multiple_toward_zero(a: int, n: int)
    requires
        n > 0,
    ensures
        div_toward_zero(n * a, n) == a,
{
    if a >= 0 {
        assert(n * a >= 0) by (nonlinear_arith)
            requires n > 0, a >= 0;
        lemma_div_multiples_vanish(a, n);
    } else {
        assert(n * a < 0 && -(n * a) == n * (-a)) by (nonlinear_arith)
            requires n > 0, a < 0;
        lemma_div_multiples_vanish(-a, n);
    }
}

/// The average of `n` equal items is that item: scaling down the sum of `n`
/// copies of `x` by `n` gives `x` exactly.
pub proof fn lemma_average_of_equal_items(x: AggregateValue, n: nat)
    requires
        n > 0,
    ensures
        scale_aggregate(sum_of(repeated(x, n)), n as int) == x,
        average_of(repeated(x, n)) == x,
{
    lemma_sum_repeated(x, n);
    lemma_div_multiple_toward_zero(x.0.0, n as int);
    lemma_div_multiple_toward_zero(x.0.1, n as int);
    lemma_div_multiple_toward_zero(x.1.0, n as int);
    lemma_div_multiple_toward_zero(x.1.1, n as int);
    lemma_div_multiple_toward_zero(x.2.0, n as int);
    lemma_div_multiple_toward_zero(x.2.1, n as int);
}

} // verus!
