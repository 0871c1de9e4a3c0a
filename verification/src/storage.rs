//! The byte-keyed store and the layout of the keys this crate uses in it.

pub mod append_list;
pub mod keys;
pub mod memory;
