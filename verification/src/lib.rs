//! A typed slot allocator: a growable store of homogeneous values addressed
//! by lightweight, type-tagged handles instead of references.
//!
//! Callers allocate values into an [`Arena`], receive copyable [`ArenaId`]
//! handles, and resolve those handles back through the arena. Freed slots are
//! recycled most-recently-freed first; the slot sequence itself never shrinks.

pub mod arena;
pub mod model;

pub use arena::Arena;
pub use arena::ArenaId;
pub use arena::ArenaIter;
