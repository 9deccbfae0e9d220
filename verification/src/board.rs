//! Board-level helpers for the bare example board.

pub mod watchdog;
