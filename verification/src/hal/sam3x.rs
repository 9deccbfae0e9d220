//! SAM3X peripherals over the register model.

pub mod peripheral_clock;
pub mod pin;
pub mod system_clock;
pub mod watchdog;
