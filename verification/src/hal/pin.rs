//! The GPIO surface: direction, level, and the traits a pin driver
//! implements for its consumers.

use vstd::prelude::*;

verus! {

/// GPIO direction.
#[derive(Clone, Copy, PartialEq, Eq, Structural, Debug)]
pub enum GpioDirection {
    /// Input mode.
    In,
    /// Output mode.
    Out,
}

/// Logic levels.
#[derive(Clone, Copy, PartialEq, Eq, Structural, Debug)]
pub enum GpioLevel {
    /// Logic low.
    Low,
    /// Logic high.
    High,
}

/// A general-purpose I/O pin, as its consumers see it.
pub trait Gpio: Sized {
    /// Set the logic level.
    fn set_level(&mut self, level: GpioLevel);

    /// Read the current logic level.
    fn level(&mut self) -> GpioLevel;

    /// Set the direction for reading or writing.
    fn set_direction(&mut self, new_mode: GpioDirection);

    /// Set logic low.
    fn set_low(&mut self) {
        self.set_level(GpioLevel::Low)
    }

    /// Set logic high.
    fn set_high(&mut self) {
        self.set_level(GpioLevel::High)
    }
}

/// An analog input.
pub trait Adc: Sized {
    /// Read the analog input value.
    fn read(&mut self) -> u32;
}

/// Minimal configuration of a GPIO pin.
#[derive(Clone, Copy, PartialEq, Eq, Structural, Debug)]
pub struct GpioConf {
    pub index: usize,
    pub direction: GpioDirection,
}

} // verus!
