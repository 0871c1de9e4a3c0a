//! The virtual-pet game: pet records, their per-owner lists and the
//! feeding rules.

pub mod contract;
pub mod frames;
pub mod msg;
pub mod pets;
pub mod records;
pub mod state;
