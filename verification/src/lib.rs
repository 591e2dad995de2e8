//! Attribute channels for meshes: named, typed, per-element value series
//! stored by element kind and value type, with runtime-checked borrows and a
//! tag-driven access path for callers that only know the types at run time.

pub mod arena;
pub mod borrow;
pub mod bridge;
pub mod cell;
pub mod channel;
pub mod group;
pub mod handle;
pub mod ids;
pub mod names;
pub mod script;
pub mod slots;
pub mod store;
pub mod tags;
pub mod typed;
pub mod values;
