//! Core of a permission-gated, concurrency-controlled REST-style resource
//! framework: a bitset permission algebra, version tokens for optimistic
//! concurrency, a field-level validation-and-patch pipeline with cascading
//! renumbering of a ranked collection, and stable pagination cursors.
//!
//! HTTP routing, serialization and the backing data store are collaborators
//! outside this library; every operation here is a pure, verified function
//! from plain values to plain values.

pub mod error;
pub mod permissions;
pub mod demon;
pub mod precondition;
pub mod patch;
pub mod list;
pub mod pagination;
