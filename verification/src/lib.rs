//! Streaming processing of ternary signals: sliding windows, running
//! statistics, pattern and transition detection, and downsampling for
//! streams whose elements are in {-1, 0, +1}.

pub mod aggregator;
pub mod detector;
pub mod sampler;
pub mod tally;
pub mod ternary;
pub mod transition;
pub mod window;

pub use ternary::Ternary;

pub use aggregator::StreamAggregator;
pub use detector::StreamDetector;
pub use sampler::{downsample, SampleMethod, StreamSampler};
pub use transition::TransitionDetector;
pub use window::StreamWindow;
