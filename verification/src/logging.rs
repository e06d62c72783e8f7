use vstd::prelude::*;

verus! {

/// The log level for a count of `-v` flags: info, then debug, then trace.
pub open spec fn level_name(verbosity: u8) -> Seq<char> {
    if verbosity == 0 {
        "info"@
    } else if verbosity == 1 {
        "debug"@
    } else {
        "trace"@
    }
}

pub fn log_level(verbosity: u8) -> (r: &'static str)
    ensures
        r@ == level_name(verbosity),
{
    if verbosity == 0 {
        "info"
    } else if verbosity == 1 {
        "debug"
    } else {
        "trace"
    }
}

} // verus!
