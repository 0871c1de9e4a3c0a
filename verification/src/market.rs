//! The token sale: deposits in the accepted currency are added up and
//! answered with an order to mint tokens at a fixed exchange rate.

pub mod contract;
pub mod msg;
pub mod state;
