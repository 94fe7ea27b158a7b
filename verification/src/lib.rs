//! Sequential generators of unique identifiers, and a hash map keyed by them.

pub mod impls;
pub mod traits;

pub use impls::atomic::{
    AtomicCounterU16, AtomicCounterU32, AtomicCounterU64, AtomicCounterU8, AtomicCounterUsize,
};
pub use impls::hashmap::{Reservation, SeqHashMap};
pub use impls::map_model::MapModel;
pub use traits::{FiniteSequential, UniqueGenerator};
