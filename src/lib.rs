//! Hotkey daemon core: per-keyboard key state, hotkey matching with exact
//! modifier equality, software repeat with a cooldown, and the run modes
//! driven by process signals.

pub mod keys;
pub mod keyset;
pub mod state;
pub mod engine;
pub mod startup;
