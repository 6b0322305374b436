//! Pin modes, logic levels and the state of a single pin.
use vstd::prelude::*;

verus! {

/// Number of pins in a table.
pub const PIN_COUNT: usize = 14;

/// Direction a pin has been configured for.
#[derive(PartialEq, Eq, Structural, Clone, Copy, Debug)]
pub enum PinMode {
    Input,
    Output,
}

/// Logic level of a pin.
#[derive(PartialEq, Eq, Structural, Clone, Copy, Debug)]
pub enum PinValue {
    Low,
    High,
}

/// State of one pin: its mode, if configured, and its level.
#[derive(PartialEq, Eq, Structural, Clone, Copy, Debug)]
pub struct Pin {
    pub mode: Option<PinMode>,
    pub value: PinValue,
}

/// The state every pin starts in: unconfigured and low.
pub open spec fn initial_pin() -> Pin {
    Pin { mode: None, value: PinValue::Low }
}

impl Pin {
    /// An unconfigured pin at a low level.
    pub fn default() -> (r: Pin)
        ensures
            r == initial_pin(),
    {
        Pin { mode: None, value: PinValue::Low }
    }
}

} // verus!
