use ternary_streaming::{
    downsample, SampleMethod, StreamAggregator, StreamDetector, StreamSampler, StreamWindow,
    Ternary, TransitionDetector,
};

fn t(v: i8) -> Ternary {
    Ternary::from_i8(v).unwrap()
}

fn seq(vs: &[i8]) -> Vec<Ternary> {
    vs.iter().map(|&v| t(v)).collect()
}

// ── Ternary ──

#[test]
fn from_i8_rejects_out_of_range() {
    assert_eq!(Ternary::from_i8(-2), None);
    assert_eq!(Ternary::from_i8(i8::MIN), None);
    assert_eq!(Ternary::from_i8(i8::MAX), None);
}

#[test]
fn to_i8_round_trip() {
    for v in [-1i8, 0, 1] {
        assert_eq!(Ternary::from_i8(v).unwrap().to_i8(), v);
    }
    assert_eq!(Ternary::Neg.to_i8(), -1);
    assert_eq!(Ternary::Zero.to_i8(), 0);
    assert_eq!(Ternary::Pos.to_i8(), 1);
}

#[test]
fn negation_is_involutive_and_flips_value() {
    for x in [Ternary::Neg, Ternary::Zero, Ternary::Pos] {
        assert_eq!(-(-x), x);
        assert_eq!((-x).to_i8(), -x.to_i8());
    }
}

// ── StreamWindow ──

#[test]
fn window_keeps_latest_values() {
    let mut w = StreamWindow::new(3);
    let mut evicted = Vec::new();
    for v in [1, 0, -1, -1, 1, 0] {
        if let Some(e) = w.push(t(v)) {
            evicted.push(e);
        }
        assert!(w.len() <= w.capacity());
    }
    assert_eq!(w.contents(), seq(&[-1, 1, 0]));
    assert_eq!(evicted, seq(&[1, 0, -1]));
    assert_eq!(w.capacity(), 3);
}

#[test]
fn window_capacity_zero_stays_empty() {
    let mut w = StreamWindow::new(0);
    assert_eq!(w.push(t(1)), Some(t(1)));
    assert_eq!(w.push(t(-1)), Some(t(-1)));
    assert_eq!(w.push(t(0)), Some(t(0)));
    assert_eq!(w.len(), 0);
    assert!(w.is_empty());
    assert_eq!(w.contents(), vec![]);
    assert_eq!(w.capacity(), 0);
}

#[test]
fn window_clone_is_independent() {
    let mut w = StreamWindow::new(2);
    w.push(t(1));
    let c = w.clone();
    w.push(t(-1));
    assert_eq!(c.contents(), seq(&[1]));
    assert_eq!(c.capacity(), 2);
    assert_eq!(w.contents(), seq(&[1, -1]));
}

#[test]
fn window_sum_is_positives_minus_negatives() {
    let mut w = StreamWindow::new(10);
    for v in [1, 1, 0, -1, 1, 0, 1] {
        w.push(t(v));
    }
    assert_eq!(w.sum(), 3);
    let empty = StreamWindow::new(4);
    assert_eq!(empty.sum(), 0);
    assert!(empty.is_empty());
}

#[test]
fn window_majority_needs_strict_winner() {
    let mut w = StreamWindow::new(4);
    for v in [-1, -1, 0, 1] {
        w.push(t(v));
    }
    assert_eq!(w.majority(), Ternary::Neg);
    let mut w = StreamWindow::new(4);
    for v in [0, 0, 1, 1] {
        w.push(t(v));
    }
    assert_eq!(w.majority(), Ternary::Zero);
    let w = StreamWindow::new(4);
    assert_eq!(w.majority(), Ternary::Zero);
}

#[test]
fn window_clear_keeps_capacity() {
    let mut w = StreamWindow::new(2);
    w.push(t(1));
    w.push(t(1));
    w.clear();
    assert_eq!(w.len(), 0);
    assert_eq!(w.capacity(), 2);
    assert_eq!(w.push(t(0)), None);
}

// ── StreamAggregator ──

#[test]
fn aggregator_counts_add_up() {
    let mut agg = StreamAggregator::default();
    for v in [1, 0, 0, -1, 1, 1, 0] {
        agg.observe(t(v));
    }
    assert_eq!(agg.count(), agg.count_neg() + agg.count_zero() + agg.count_pos());
    assert_eq!(agg.sum(), agg.count_pos() as i64 - agg.count_neg() as i64);
    assert_eq!((agg.count_neg(), agg.count_zero(), agg.count_pos()), (1, 3, 3));
}

#[test]
fn aggregator_mean_truncates_toward_zero() {
    let mut agg = StreamAggregator::new();
    for v in [-1, 0, 0] {
        agg.observe(t(v));
    }
    assert_eq!(agg.mean_milli(), Some(-333));
    let mut agg = StreamAggregator::new();
    for v in [1, 1, 0] {
        agg.observe(t(v));
    }
    assert_eq!(agg.mean_milli(), Some(666));
    let mut agg = StreamAggregator::new();
    agg.observe(t(-1));
    assert_eq!(agg.mean_milli(), Some(-1000));
}

#[test]
fn aggregator_mode_ties() {
    let agg = StreamAggregator::new();
    assert_eq!(agg.mode(), Ternary::Pos);
    let mut agg = StreamAggregator::new();
    agg.observe(t(-1));
    agg.observe(t(1));
    assert_eq!(agg.mode(), Ternary::Pos);
    let mut agg = StreamAggregator::new();
    agg.observe(t(-1));
    agg.observe(t(0));
    assert_eq!(agg.mode(), Ternary::Neg);
    let mut agg = StreamAggregator::new();
    agg.observe(t(0));
    agg.observe(t(0));
    agg.observe(t(1));
    assert_eq!(agg.mode(), Ternary::Zero);
}

#[test]
fn aggregator_merge_matches_concatenated_stream() {
    let s1 = [1, 0, -1, -1];
    let s2 = [0, 1, 1];
    let mut a = StreamAggregator::new();
    for v in s1 {
        a.observe(t(v));
    }
    let mut b = StreamAggregator::new();
    for v in s2 {
        b.observe(t(v));
    }
    let mut whole = StreamAggregator::new();
    for v in s1.iter().chain(s2.iter()) {
        whole.observe(t(*v));
    }
    let b_copy = b.clone();
    a.merge(&b);
    b.merge(&{
        let mut x = StreamAggregator::new();
        for v in s1 {
            x.observe(t(v));
        }
        x
    });
    for agg in [&a, &b] {
        assert_eq!(agg.count(), whole.count());
        assert_eq!(agg.sum(), whole.sum());
        assert_eq!(agg.count_neg(), whole.count_neg());
        assert_eq!(agg.count_zero(), whole.count_zero());
        assert_eq!(agg.count_pos(), whole.count_pos());
    }
    assert_eq!(b_copy.count(), 3);
}

// ── StreamDetector ──

#[test]
fn detector_empty_pattern_never_matches() {
    let mut d = StreamDetector::new(&[]);
    for v in [1, 0, -1] {
        assert!(!d.feed(t(v)));
    }
}

#[test]
fn detector_matches_repeatedly_and_overlapping() {
    let mut d = StreamDetector::new(&seq(&[1, 1]));
    let got: Vec<bool> = [1, 1, 1, 0, 1, 1].iter().map(|&v| d.feed(t(v))).collect();
    assert_eq!(got, vec![false, true, true, false, false, true]);
}

#[test]
fn detector_interrupted_match_is_discarded() {
    let mut d = StreamDetector::new(&seq(&[1, 0, -1]));
    assert!(!d.feed(t(1)));
    assert!(!d.feed(t(1)));
    assert!(!d.feed(t(-1)));
    assert!(!d.feed(t(1)));
    assert!(!d.feed(t(0)));
    assert!(d.feed(t(-1)));
}

#[test]
fn detector_reset_forgets_history() {
    let mut d = StreamDetector::new(&seq(&[1, 0]));
    assert!(!d.feed(t(1)));
    d.reset();
    assert!(!d.feed(t(0)));
    assert!(!d.feed(t(1)));
    assert!(d.feed(t(0)));
}

#[test]
fn detector_run_breaks_and_resumes() {
    let mut d = StreamDetector::new(&[]);
    assert!(!d.feed_run(t(0), 2));
    assert!(d.feed_run(t(0), 2));
    assert!(!d.feed_run(t(1), 2));
    assert!(d.feed_run(t(1), 2));
    assert!(d.feed_run(t(1), 2));
}

#[test]
fn detector_run_after_shorter_run_length() {
    let mut d = StreamDetector::new(&[]);
    assert!(!d.feed_run(t(-1), 3));
    assert!(!d.feed_run(t(-1), 3));
    assert!(d.feed_run(t(1), 1));
    assert!(!d.feed_run(t(1), 3));
}

#[test]
fn detector_feed_after_longer_run_buffer() {
    let mut d = StreamDetector::new(&[t(1)]);
    assert!(!d.feed_run(t(-1), 3));
    assert!(!d.feed_run(t(-1), 3));
    assert!(d.feed_run(t(-1), 3));
    assert!(d.feed(t(1)));
}

#[test]
fn detector_clone_keeps_state() {
    let mut d = StreamDetector::new(&seq(&[0, 1]));
    d.feed(t(0));
    let mut c = d.clone();
    assert!(c.feed(t(1)));
    assert!(d.feed(t(1)));
}

#[test]
fn detector_run_of_length_zero_always_matches() {
    let mut d = StreamDetector::new(&[]);
    assert!(d.feed_run(t(1), 0));
    assert!(d.feed_run(t(-1), 0));
}

// ── TransitionDetector ──

#[test]
fn transition_detailed_same_value_is_none() {
    let mut td = TransitionDetector::default();
    assert_eq!(td.feed_detailed(t(0)), None);
    assert_eq!(td.feed_detailed(t(0)), None);
    assert_eq!(td.feed_detailed(t(1)), Some((t(0), t(1))));
    td.reset();
    assert_eq!(td.feed_detailed(t(-1)), None);
}

#[test]
fn transition_clone_keeps_last_value() {
    let mut td = TransitionDetector::new();
    td.feed(t(1));
    let mut c = td.clone();
    assert_eq!(td.feed_detailed(t(0)), Some((t(1), t(0))));
    assert!(c.feed(t(0)));
    assert!(!c.feed(t(0)));
}

#[test]
fn transition_oscillation_fires_every_step() {
    let mut td = TransitionDetector::new();
    let stream = [1, -1, 1, -1, 1];
    let fired = stream.iter().filter(|&&v| td.feed(t(v))).count();
    assert_eq!(fired, stream.len() - 1);
}

#[test]
fn transition_feed_and_detailed_agree() {
    let stream = [1, 1, 0, -1, -1, 1];
    let mut a = TransitionDetector::new();
    let mut b = TransitionDetector::new();
    for v in stream {
        assert_eq!(a.feed(t(v)), b.feed_detailed(t(v)).is_some());
    }
}

// ── StreamSampler ──

#[test]
fn sampler_flush_empty_is_none() {
    let mut s = StreamSampler::new(3, SampleMethod::First);
    assert_eq!(s.flush(), None);
    s.push(t(1));
    assert_eq!(s.flush(), Some(Ternary::Pos));
    assert_eq!(s.flush(), None);
}

#[test]
fn sampler_sum_loses_magnitude() {
    assert_eq!(downsample(&seq(&[1, -1]), 2, SampleMethod::Sum), downsample(&seq(&[0, 0]), 2, SampleMethod::Sum));
    assert_eq!(downsample(&seq(&[1, 1, 1]), 3, SampleMethod::Sum), vec![Ternary::Pos]);
}

#[test]
fn sampler_majority_ties() {
    // Pos beats Neg and ties Zero: Pos.
    assert_eq!(downsample(&seq(&[1, 0]), 2, SampleMethod::Majority), vec![Ternary::Pos]);
    // Neg ties Pos: Zero.
    assert_eq!(downsample(&seq(&[1, -1]), 2, SampleMethod::Majority), vec![Ternary::Zero]);
    // Neg beats Pos and ties Zero: Neg.
    assert_eq!(downsample(&seq(&[-1, 0]), 2, SampleMethod::Majority), vec![Ternary::Neg]);
}

#[test]
fn sampler_reduction_has_no_sign_bias() {
    let groups: [&[i8]; 5] = [&[1, 0], &[1, -1], &[1, 1, -1], &[0, 0, 1], &[-1, 0, 0]];
    for g in groups {
        let data = seq(g);
        let negated: Vec<Ternary> = data.iter().map(|&x| -x).collect();
        for m in [SampleMethod::Majority, SampleMethod::Sum, SampleMethod::First, SampleMethod::Last] {
            let a = downsample(&data, g.len(), m);
            let b = downsample(&negated, g.len(), m);
            assert_eq!(b, vec![-a[0]]);
        }
    }
}

#[test]
fn sampler_factor_one_passes_values_through() {
    let data = seq(&[1, 0, -1, -1]);
    for m in [SampleMethod::Majority, SampleMethod::Sum, SampleMethod::First, SampleMethod::Last] {
        assert_eq!(downsample(&data, 1, m), data);
    }
}

#[test]
fn downsample_partial_last_group() {
    let data = seq(&[1, 1, -1, 0, -1, -1, 0]);
    assert_eq!(downsample(&data, 3, SampleMethod::Majority), seq(&[1, -1, 0]));
    assert_eq!(downsample(&data, 3, SampleMethod::First), seq(&[1, 0, 0]));
    assert_eq!(downsample(&data, 3, SampleMethod::Last), seq(&[-1, -1, 0]));
    assert_eq!(downsample(&data, 3, SampleMethod::Sum), seq(&[1, -1, 0]));
    assert_eq!(downsample(&[], 3, SampleMethod::Sum), vec![]);
    assert_eq!(downsample(&data, 10, SampleMethod::Last), seq(&[0]));
}

#[test]
fn downsample_length_is_ceiling() {
    for n in 0..10usize {
        let data: Vec<Ternary> = (0..n).map(|i| t((i % 3) as i8 - 1)).collect();
        for f in 1..5usize {
            assert_eq!(downsample(&data, f, SampleMethod::Last).len(), (n + f - 1) / f);
        }
    }
}

#[test]
fn sampler_streaming_matches_batch() {
    let data = seq(&[1, 0, -1, 1, 1, 0, -1]);
    let mut s = StreamSampler::new(2, SampleMethod::Sum);
    let mut out = Vec::new();
    for &v in &data {
        if let Some(x) = s.push(v) {
            out.push(x);
        }
    }
    let copy = s.clone();
    if let Some(x) = s.flush() {
        out.push(x);
    }
    assert_eq!(out, downsample(&data, 2, SampleMethod::Sum));
    let mut copy = copy;
    assert_eq!(copy.flush(), Some(Ternary::Neg));
}
