//! Patches the description of a microcontroller's peripherals according to
//! commands read from a dynamically typed configuration document.
//!
//! The `patch` module holds both halves: the typed accessors over the
//! configuration value tree, and the engine that deletes and copies
//! peripherals.

pub mod patch;
