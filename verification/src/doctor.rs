use vstd::prelude::*;

use crate::profiler::HardwareProfile;
use crate::text::{decimal, push_decimal};

verus! {

/// The summary lines `doctor` prints: platform, logical cores, GPU backend ("none" when
/// unknown).
pub open spec fn summary_lines(p: HardwareProfile) -> Seq<Seq<char>> {
    seq![
        p.os@ + " "@ + p.arch@,
        "logical cores: "@ + decimal(p.logical_cores as nat),
        "gpu backend: "@ + match p.gpu_backend {
            Some(b) => b@,
            None => "none"@,
        },
    ]
}

pub fn summarize(profile: &HardwareProfile) -> (r: Vec<String>)
    ensures
        r@.map_values(|s: String| s@) == summary_lines(*profile),
{
    let mut platform = profile.os.clone();
    platform.append(" ");
    platform.append(profile.arch.as_str());
    let mut cores = String::from_str("logical cores: ");
    push_decimal(&mut cores, profile.logical_cores as u64);
    let mut gpu = String::from_str("gpu backend: ");
    match &profile.gpu_backend {
        Some(b) => gpu.append(b.as_str()),
        None => gpu.append("none"),
    }
    let r = vec![platform, cores, gpu];
    assert(r@.map_values(|s: String| s@) =~= summary_lines(*profile));
    r
}

} // verus!
