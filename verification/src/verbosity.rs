//! How much the server logs.

use vstd::prelude::*;

verus! {

/// The log filter for a count of `-d` flags: one flag shows errors, two add
/// information, three add debugging output; anything else is silence.
pub open spec fn filter_spec(debug: Option<u8>) -> Seq<char> {
    match debug {
        Some(1) => "error"@,
        Some(2) => "info"@,
        Some(3) => "debug"@,
        _ => "off"@,
    }
}

/// The log filter for a count of `-d` flags.
pub fn log_filter(debug: Option<u8>) -> (filter: &'static str)
    ensures
        filter@ == filter_spec(debug),
{
    match debug {
        Some(1) => "error",
        Some(2) => "info",
        Some(3) => "debug",
        _ => "off",
    }
}

} // verus!
