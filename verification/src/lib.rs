//! Rule-based wallpaper selection.
//!
//! Given the current month, hour and weather condition, and an ordered set of
//! user-authored rules (each scoping an image to an hour window, a month
//! window and a weather condition), the library picks one image path. It
//! tries progressively weaker notions of "matching weather" at each candidate
//! time slot, and progressively later slots, until a rule with an existing
//! image file is found or the bounded search space is exhausted.
//!
//! The library is pure: the clock, the filesystem probe and the weather
//! source are supplied by the caller as plain values.

pub mod weather;
pub mod rules;
pub mod search;
