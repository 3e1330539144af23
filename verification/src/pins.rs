//! Levels of digital lines.

use vstd::prelude::*;

verus! {

/// The level a line is driven to, or read at.
#[derive(Clone, Copy, Debug, PartialEq, Eq, Structural)]
pub enum PinMode {
    /// The line is high.
    High,
    /// The line is low.
    Low,
}

impl PinMode {
    /// Whether the level is high.
    pub open spec fn high(self) -> bool {
        self == PinMode::High
    }

    /// The level of a line that reads `high`.
    pub fn from_level(high: bool) -> (mode: PinMode)
        ensures
            mode.high() == high,
    {
        if high {
            PinMode::High
        } else {
            PinMode::Low
        }
    }

    /// Whether the level is high.
    pub fn is_high(self) -> (high: bool)
        ensures
            high == self.high(),
    {
        match self {
            PinMode::High => true,
            PinMode::Low => false,
        }
    }
}

} // verus!
