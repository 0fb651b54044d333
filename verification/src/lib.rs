//! Verified core of an aim trainer: drills, the session clock, navigation,
//! settings and record keeping, the target generator and scenario import.

pub mod drill;
pub mod clock;
pub mod rng;
pub mod settings;
pub mod records;
pub mod nav;
pub mod picker;
pub mod scenario;
pub mod editor;
