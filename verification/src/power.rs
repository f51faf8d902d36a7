//! The power signal as the decision logic sees it: mains, battery, or
//! unknown when the probe could not tell. An unknown state is treated as
//! "not on mains" wherever it matters.

use vstd::prelude::*;

verus! {

/// The sampled power-supply state.
#[derive(Debug, Clone, Copy, PartialEq, Eq, Structural)]
pub enum PowerState {
    AC,
    Battery,
    Unknown,
}

} // verus!
