//! An in-memory, multi-type key-value store. Keys are byte strings in
//! byte-lexicographic order; each holds a scalar, a dictionary, a set or a
//! deque. Every command is a function on the store whose result and effect
//! are stated over a mathematical model of it, and a failed command leaves
//! the store unchanged.
pub mod key_order;
pub mod sorted_map;
pub mod protobuf;
pub mod error;
pub mod value;
pub mod store;
pub mod svc;
pub mod laws;
