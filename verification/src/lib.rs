//! A batching and collation engine: turns an indexable collection of samples
//! into an ordered sequence of batches, with sequential or shuffled index
//! order, exact length accounting under `drop_last`, and recursive collation
//! of nested composite samples.

use vstd::prelude::*;

pub mod collate;
pub mod dataloader;
pub mod iterable;
pub mod sample;
pub mod sampler;

pub use collate::{Collate, CollateError, Collated, DefaultCollate, NoOpCollate};
pub use dataloader::{Builder, ConfigurationError, DataLoader, SingleProcessDataLoaderIter};
pub use iterable::{ShuffleBuffer, StreamBatcher};
pub use sample::Sample;
pub use sampler::{BatchSampler, SamplerKind};

verus! {

/// Number of batches that a dataset of length `n` yields at batch size `b`:
/// `ceil(n / b)` normally, `floor(n / b)` when the final short batch is dropped.
pub open spec fn num_batches(n: int, b: int, drop_last: bool) -> int
    recommends
        b >= 1,
        n >= 0,
{
    if drop_last {
        n / b
    } else {
        (n + b - 1) / b
    }
}

} // verus!
