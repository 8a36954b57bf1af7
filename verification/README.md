# ternary_streaming

Streaming primitives for ternary signals (values in {-1, 0, +1}), verified
with Verus.

Layout of `src/`:

- `ternary.rs`: the `Ternary` value, its integer conversions and negation.
- `tally.rs`: counting and summing sequences of ternary values (specification
  and the loops that compute them).
- `window.rs`: `StreamWindow`, a fixed-capacity sliding window.
- `aggregator.rs`: `StreamAggregator`, running counts, sum, mean and mode;
  aggregators merge.
- `detector.rs`: `StreamDetector`, contiguous pattern and run detection.
- `transition.rs`: `TransitionDetector`, value changes in a stream.
- `sampler.rs`: `StreamSampler` and `downsample`, group-wise downsampling.

Each public function states its result over a mathematical model (sequences
and counts); the proof functions next to them state properties that span
several calls, such as what a window holds after a stream of pushes or that
merging aggregators equals aggregating the concatenated streams.
