//! The idle monitor's decision core: the configured timeout and the rule
//! that turns a sampled idle duration into an idle/not-idle answer. The
//! sampling itself (display-protocol or X11 queries) lives outside the
//! library and hands in plain seconds.

use vstd::prelude::*;

verus! {

/// The idle rule: idle exactly when the sampled idle time reaches the
/// configured timeout.
#[derive(Debug, Clone, Copy, PartialEq, Eq, Structural)]
pub struct IdleMonitor {
    pub timeout_seconds: u64,
}

impl IdleMonitor {
    /// A monitor with the given timeout in seconds.
    pub fn new(timeout_seconds: u64) -> (r: IdleMonitor)
        ensures
            r.timeout_seconds == timeout_seconds,
    {
        IdleMonitor { timeout_seconds }
    }

    /// Whether a sampled idle duration, in seconds, counts as idle.
    pub fn is_idle(&self, idle_seconds: u64) -> (r: bool)
        ensures
            r == (idle_seconds >= self.timeout_seconds),
    {
        idle_seconds >= self.timeout_seconds
    }
}

} // verus!
