//! A small, allocation-light logging front-end.
//!
//! The crate has three parts: a severity [`Level`] with a [`Gate`] that
//! decides which severities are currently enabled, a fixed-capacity
//! buffered sink (the [`sink`] module) with an overflow protocol and a
//! flush-on-line-boundary policy, and one thin emission adapter per
//! platform (the [`out`] module). A [`time`] module formats the
//! timestamp block that the stream-descriptor adapter prepends.

use vstd::prelude::*;

pub mod data;
pub mod out;
pub mod sink;
pub mod time;

pub use out::Out;

verus! {

/// Logging severity. `NONE` is a sentinel meaning "nothing enabled";
/// it is never the level of a message itself. Levels are totally
/// ordered by their rank, `NONE` lowest, `TRACE` highest.
#[derive(Clone, Copy, Debug, PartialEq, Eq, Structural)]
pub enum Level {
    /// Sentinel: no logging at all.
    NONE,
    /// Designates very serious errors.
    ERROR,
    /// Designates hazardous situations.
    WARN,
    /// Designates useful information.
    INFO,
    /// Designates lower priority information.
    DEBUG,
    /// Designates very low priority, often extremely verbose, information.
    TRACE,
}

/// The numeric rank by which levels are compared.
pub open spec fn rank(level: Level) -> u8 {
    match level {
        Level::NONE => 0,
        Level::ERROR => 1,
        Level::WARN => 2,
        Level::INFO => 3,
        Level::DEBUG => 4,
        Level::TRACE => 5,
    }
}

/// Executable twin of [`rank`].
pub fn level_rank(level: Level) -> (r: u8)
    ensures
        r == rank(level),
{
    match level {
        Level::NONE => 0,
        Level::ERROR => 1,
        Level::WARN => 2,
        Level::INFO => 3,
        Level::DEBUG => 4,
        Level::TRACE => 5,
    }
}

/// The state deciding which severities are enabled: the rank of the
/// current minimum level. A fresh gate has everything disabled.
///
/// A host that wants one shared, process-wide gate keeps this rank
/// in an atomic integer and applies these operations to it.
pub struct Gate {
    current: u8,
}

impl Gate {
    /// The stored rank, as the contracts speak of it.
    pub closed spec fn level_rank(self) -> u8 {
        self.current
    }

    /// A new gate; no severity is enabled until `set_level` is called.
    pub fn new() -> (gate: Gate)
        ensures
            gate.level_rank() == rank(Level::NONE),
    {
        Gate { current: 0 }
    }
}

/// Whether `gate` admits a message of severity `level`.
pub open spec fn gate_allows(gate: Gate, level: Level) -> bool {
    gate.level_rank() >= rank(level)
}

/// Sets the logging level: every severity ranking at or below `level`
/// becomes enabled, every other one disabled.
pub fn set_level(gate: &mut Gate, level: Level)
    ensures
        final (gate).level_rank() == rank(level),
{
    gate.current = level_rank(level);
}

/// Checks if logging is enabled for `level`: true iff the stored level
/// ranks at or above `level`.
pub fn is_enabled(gate: &Gate, level: Level) -> (enabled: bool)
    ensures
        enabled == gate_allows(*gate, level),
{
    gate.current >= level_rank(level)
}

/// Law: a gate set to `NONE` lets no severity other than the sentinel
/// itself through, and a gate set to `TRACE` lets every severity through.
pub proof fn lemma_gate_extremes(gate: Gate)
    ensures
        gate.level_rank() == rank(Level::NONE) ==> forall|level: Level|
            rank(level) >= 1 ==> !gate_allows(gate, level),
        gate.level_rank() == rank(Level::TRACE) ==> forall|level: Level|
            gate_allows(gate, level),
{
    assert forall|level: Level| rank(level) >= 1 && gate.level_rank() == 0 implies !gate_allows(
        gate,
        level,
    ) by {}
    assert forall|level: Level| gate.level_rank() == 5 implies gate_allows(gate, level) by {
        assert(rank(level) <= 5);
    }
}

} // verus!
