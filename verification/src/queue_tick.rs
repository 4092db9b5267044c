//! How often a queue ticks.
use vstd::prelude::*;

verus! {

/// Interval between the ticks of a queue, with the jitter around it.
#[derive(Debug, Clone, Copy, PartialEq, Eq, Structural)]
pub struct QueueTickCadence {
    /// Mean interval in milliseconds.
    pub interval_ms: u64,
    /// Half-width of the jitter in milliseconds.
    pub jitter_ms: u64,
}

impl QueueTickCadence {
    /// An interval without jitter.
    pub fn fixed(interval_ms: u64) -> (c: Self)
        ensures
            c == (QueueTickCadence { interval_ms, jitter_ms: 0 }),
    {
        QueueTickCadence { interval_ms, jitter_ms: 0 }
    }

    /// An interval with jitter.
    pub fn from_millis(interval_ms: u64, jitter_ms: u64) -> (c: Self)
        ensures
            c == (QueueTickCadence { interval_ms, jitter_ms }),
    {
        QueueTickCadence { interval_ms, jitter_ms }
    }
}

} // verus!
