use vstd::prelude::*;

verus! {

/// The sampler that reads process metrics from the operating system.
pub struct DefaultSampler;

pub fn default_sampler() -> DefaultSampler {
    DefaultSampler
}

} // verus!
