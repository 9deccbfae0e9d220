//! A minimal hardware-abstraction layer written against the register
//! model: the GPIO surface and the SAM3X peripherals that the examples
//! drive (parallel I/O controller, power management controller, flash
//! controller, watchdog).

pub mod pin;
pub mod sam3x;
pub mod systick;
