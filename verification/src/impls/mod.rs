//! The generators that come with the library, and the map keyed by a
//! generator.

pub mod atomic;
pub mod hashmap;
pub mod map_model;
pub mod unsigned;
