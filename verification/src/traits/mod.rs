//! The generator capabilities.

pub mod finite;
pub mod sequence;
pub mod unique;

pub use finite::FiniteSequential;
pub use unique::UniqueGenerator;
