//! Import of embedded-map scenario files.

pub mod error;
pub mod identity;
pub mod lists;
pub mod map;
pub mod profile;
pub mod roster;
pub mod text;
