use subreddit_sentiment::aggregate::AggregateSentiment;
use subreddit_sentiment::sampler::{run, Sample, SampleError, Sampler};
use subreddit_sentiment::score::{SentimentScore, UNITS_PER_POINT};

fn sc(score: i64, comparative: i64) -> SentimentScore {
    SentimentScore { score, comparative }
}

fn agg(total: (i64, i64), positive: (i64, i64), negative: (i64, i64)) -> AggregateSentiment {
    AggregateSentiment {
        total: sc(total.0, total.1),
        positive: sc(positive.0, positive.1),
        negative: sc(negative.0, negative.1),
    }
}

#[test]
fn accumulate_adds_each_component() {
    let mut a = sc(3, -5);
    a.accumulate(&sc(4, 2));
    assert_eq!(a, sc(7, -3));
}

#[test]
fn accumulate_is_commutative_and_associative() {
    let (x, y, z) = (sc(1, 250_000), sc(-4, 10), sc(9, -3));
    let mut xy = x;
    xy.accumulate(&y);
    let mut yx = y;
    yx.accumulate(&x);
    assert_eq!(xy, yx);
    let mut left = xy;
    left.accumulate(&z);
    let mut yz = y;
    yz.accumulate(&z);
    let mut right = x;
    right.accumulate(&yz);
    assert_eq!(left, right);
}

#[test]
fn can_accumulate_reports_overflow() {
    assert!(sc(i64::MAX - 1, 0).can_accumulate(&sc(1, 0)));
    assert!(!sc(i64::MAX, 0).can_accumulate(&sc(1, 0)));
    assert!(!sc(0, i64::MIN).can_accumulate(&sc(0, -1)));
}

#[test]
fn scale_down_rounds_toward_zero() {
    let mut a = sc(7, -7);
    a.scale_down(2);
    assert_eq!(a, sc(3, -3));
    let mut b = sc(i64::MIN, i64::MAX);
    b.scale_down(1);
    assert_eq!(b, sc(i64::MIN, i64::MAX));
}

#[test]
fn zero_aggregate_stays_zero_when_scaled() {
    for d in [1u64, 2, 3, 1000, u64::MAX] {
        let mut a = AggregateSentiment::zero();
        a.scale_down(d);
        assert_eq!(a, AggregateSentiment::zero());
    }
}

#[test]
fn average_of_equal_items_is_the_item() {
    let item = agg((-1_234_567, 7), (5, 333_333), (-9, 0));
    for n in [1u64, 2, 3, 7, 50] {
        let mut sum = AggregateSentiment::zero();
        for _ in 0..n {
            sum.accumulate(&item);
        }
        sum.scale_down(n);
        assert_eq!(sum, item);
    }
}

#[test]
fn aggregate_accumulate_and_scale_each_slot() {
    let mut a = agg((1, 2), (3, 4), (5, 6));
    assert!(a.can_accumulate(&agg((10, 20), (30, 40), (50, 60))));
    a.accumulate(&agg((10, 20), (30, 40), (50, 60)));
    assert_eq!(a, agg((11, 22), (33, 44), (55, 66)));
    a.scale_down(11);
    assert_eq!(a, agg((1, 2), (3, 4), (5, 6)));
    assert!(!a.can_accumulate(&agg((0, 0), (0, 0), (i64::MAX, 0))));
}

fn unit_items(n: usize) -> Vec<AggregateSentiment> {
    (0..n).map(|i| agg((i as i64, 0), (1, 1), (0, 0))).collect()
}

#[test]
fn run_takes_bound_plus_one_items() {
    let source = unit_items(6);
    let r = run(&source, 2).unwrap();
    assert_eq!(r.items, 3);
    // totals 0 + 1 + 2 = 3 over 3 items
    assert_eq!(r.average, agg((1, 0), (1, 1), (0, 0)));
}

#[test]
fn run_with_zero_bound_takes_one_item() {
    let source = unit_items(4);
    let r = run(&source, 0).unwrap();
    assert_eq!(r.items, 1);
    assert_eq!(r.average, source[0]);
}

#[test]
fn run_stops_at_exhaustion_and_divides_by_items_taken() {
    let source = unit_items(2);
    let r = run(&source, 10).unwrap();
    assert_eq!(r.items, 2);
    // totals 0 + 1 over 2 items rounds toward zero
    assert_eq!(r.average, agg((0, 0), (1, 1), (0, 0)));
}

#[test]
fn run_on_empty_source_is_zero() {
    let r = run(&Vec::new(), 3).unwrap();
    assert_eq!(r, Sample { average: AggregateSentiment::zero(), items: 0 });
}

#[test]
fn run_reports_overflow() {
    let big = agg((i64::MAX, 0), (0, 0), (0, 0));
    assert_eq!(run(&vec![big, big], 5), Err(SampleError::Overflow));
    // the second item lies beyond the bound, so it is never added
    assert_eq!(run(&vec![big, big], 0).unwrap().items, 1);
}

#[test]
fn three_comment_scenario() {
    let p = UNITS_PER_POINT;
    // "great day", "terrible news", "ok fine"
    let source = vec![
        agg((p, p), (p, p), (0, 0)),
        agg((-p, -p), (0, 0), (p, p)),
        agg((0, 0), (0, 0), (0, 0)),
    ];
    let r = run(&source, 2).unwrap();
    assert_eq!(r.items, 3);
    assert_eq!(r.average.total, sc(0, 0));
    assert_eq!(r.average.positive, sc(333_333, 333_333));
    assert_eq!(r.average.negative, sc(333_333, 333_333));
    let third = 1.0 / 3.0;
    assert!((r.average.positive.score as f64 / p as f64 - third).abs() < 1e-6);
}

#[test]
fn sampler_steps_match_run() {
    let source = unit_items(5);
    let mut s = Sampler::new(1);
    let mut taken = 0;
    for item in &source {
        if !s.wants_more() {
            break;
        }
        s.take(item).unwrap();
        taken += 1;
    }
    assert_eq!(taken, 2);
    assert_eq!(s.processed(), 2);
    assert_eq!(s.finish(), run(&source, 1).unwrap().average);
}

#[test]
fn sampler_take_failure_leaves_state() {
    let mut s = Sampler::new(3);
    s.take(&agg((i64::MAX, 0), (0, 0), (0, 0))).unwrap();
    assert_eq!(s.take(&agg((1, 0), (0, 0), (0, 0))), Err(SampleError::Overflow));
    assert_eq!(s.processed(), 1);
    assert_eq!(s.finish(), agg((i64::MAX, 0), (0, 0), (0, 0)));
}
