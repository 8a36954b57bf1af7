use ternary_streaming::{
    downsample, SampleMethod, StreamAggregator, StreamDetector, StreamSampler, StreamWindow,
    Ternary, TransitionDetector,
};

fn t(v: i8) -> Ternary {
    Ternary::from_i8(v).unwrap()
}

// ── Ternary basics ──
#[test]
fn ternary_from_i8() {
    assert_eq!(Ternary::from_i8(-1), Some(Ternary::Neg));
    assert_eq!(Ternary::from_i8(0), Some(Ternary::Zero));
    assert_eq!(Ternary::from_i8(1), Some(Ternary::Pos));
    assert_eq!(Ternary::from_i8(2), None);
}

#[test]
fn ternary_neg() {
    assert_eq!(-Ternary::Neg, Ternary::Pos);
    assert_eq!(-Ternary::Pos, Ternary::Neg);
    assert_eq!(-Ternary::Zero, Ternary::Zero);
}

// ── StreamWindow ──
#[test]
fn window_slides() {
    let mut w = StreamWindow::new(3);
    assert!(w.push(t(1)).is_none());
    assert!(w.push(t(0)).is_none());
    assert!(w.push(t(-1)).is_none());
    assert_eq!(w.push(t(1)), Some(t(1)));
    assert_eq!(w.contents(), vec![t(0), t(-1), t(1)]);
}

#[test]
fn window_sum() {
    let mut w = StreamWindow::new(5);
    for v in [1, -1, 1, 0, -1] {
        w.push(t(v));
    }
    assert_eq!(w.sum(), 0);
}

#[test]
fn window_majority() {
    let mut w = StreamWindow::new(5);
    for v in [1, 1, 1, 0, -1] {
        w.push(t(v));
    }
    assert_eq!(w.majority(), Ternary::Pos);
}

#[test]
fn window_majority_tie() {
    let mut w = StreamWindow::new(2);
    w.push(t(1));
    w.push(t(-1));
    assert_eq!(w.majority(), Ternary::Zero);
}

#[test]
fn window_clear() {
    let mut w = StreamWindow::new(3);
    w.push(t(1));
    w.clear();
    assert!(w.is_empty());
}

// ── StreamAggregator ──
#[test]
fn aggregator_basic() {
    let mut agg = StreamAggregator::new();
    agg.observe(t(1));
    agg.observe(t(-1));
    agg.observe(t(1));
    assert_eq!(agg.count(), 3);
    assert_eq!(agg.sum(), 1);
    assert_eq!(agg.count_pos(), 2);
    assert_eq!(agg.count_neg(), 1);
    assert_eq!(agg.count_zero(), 0);
}

#[test]
fn aggregator_mean_milli() {
    let mut agg = StreamAggregator::new();
    assert!(agg.mean_milli().is_none());
    agg.observe(t(1));
    agg.observe(t(1));
    assert_eq!(agg.mean_milli(), Some(1000));
}

#[test]
fn aggregator_mode() {
    let mut agg = StreamAggregator::new();
    for _ in 0..5 {
        agg.observe(t(-1));
    }
    for _ in 0..3 {
        agg.observe(t(1));
    }
    assert_eq!(agg.mode(), Ternary::Neg);
}

#[test]
fn aggregator_merge() {
    let mut a = StreamAggregator::new();
    a.observe(t(1));
    let mut b = StreamAggregator::new();
    b.observe(t(-1));
    b.observe(t(1));
    a.merge(&b);
    assert_eq!(a.count(), 3);
    assert_eq!(a.sum(), 1);
}

// ── StreamDetector ──
#[test]
fn detector_pattern_match() {
    let mut d = StreamDetector::new(&[t(1), t(0), t(-1)]);
    assert!(!d.feed(t(1)));
    assert!(!d.feed(t(0)));
    assert!(d.feed(t(-1)));
}

#[test]
fn detector_no_match() {
    let mut d = StreamDetector::new(&[t(1), t(1)]);
    assert!(!d.feed(t(1)));
    assert!(!d.feed(t(0)));
}

#[test]
fn detector_run() {
    let mut d = StreamDetector::new(&[]);
    // Build up a run of 3 identical values
    assert!(!d.feed_run(t(1), 3));
    assert!(!d.feed_run(t(1), 3));
    assert!(d.feed_run(t(1), 3));
}

// ── TransitionDetector ──
#[test]
fn transition_detect() {
    let mut td = TransitionDetector::new();
    assert!(!td.feed(t(1))); // first, no transition
    assert!(td.feed(t(0))); // 1→0
    assert!(!td.feed(t(0))); // same
    assert!(td.feed(t(-1))); // 0→-1
}

#[test]
fn transition_detailed() {
    let mut td = TransitionDetector::new();
    assert!(td.feed_detailed(t(1)).is_none());
    assert_eq!(td.feed_detailed(t(-1)), Some((t(1), t(-1))));
}

// ── StreamSampler ──
#[test]
fn sampler_sum_method() {
    let mut s = StreamSampler::new(2, SampleMethod::Sum);
    assert_eq!(s.push(t(1)), None);
    assert_eq!(s.push(t(-1)), Some(Ternary::Zero));
    assert_eq!(s.push(t(1)), None);
    assert_eq!(s.flush(), Some(Ternary::Pos));
}

#[test]
fn sampler_majority_method() {
    let mut s = StreamSampler::new(3, SampleMethod::Majority);
    assert_eq!(s.push(t(1)), None);
    assert_eq!(s.push(t(1)), None);
    assert_eq!(s.push(t(-1)), Some(Ternary::Pos));
}

#[test]
fn sampler_first_method() {
    let mut s = StreamSampler::new(3, SampleMethod::First);
    assert_eq!(s.push(t(-1)), None);
    assert_eq!(s.push(t(1)), None);
    assert_eq!(s.push(t(0)), Some(Ternary::Neg));
}

#[test]
fn sampler_last_method() {
    let mut s = StreamSampler::new(2, SampleMethod::Last);
    assert_eq!(s.push(t(-1)), None);
    assert_eq!(s.push(t(1)), Some(Ternary::Pos));
}

#[test]
fn downsample_batch() {
    let data: Vec<Ternary> = [1, 0, -1, 1, 0, -1].iter().map(|&v| t(v)).collect();
    let result = downsample(&data, 2, SampleMethod::Sum);
    assert_eq!(result, vec![Ternary::Pos, Ternary::Zero, Ternary::Neg]);
}
