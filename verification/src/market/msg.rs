//! The messages of the token sale and the answers to them.

use vstd::prelude::*;

verus! {

/// Sets the sale up.
#[derive(Clone, Debug, PartialEq)]
pub struct InitMsg {
    pub token_contract_address: String,
    pub token_contract_hash: String,
    pub token_exchange_rate: u128,
    pub admin: Option<String>,
}

/// The operations that change the sale.
#[derive(Clone, Copy, Debug, PartialEq, Eq, Structural)]
pub enum HandleMessage {
    /// Buys food with the funds attached to the call.
    BuyFood {  },
}

/// The questions that can be asked of the sale.
#[derive(Clone, Copy, Debug, PartialEq, Eq, Structural)]
pub enum QueryMessage {
    Config {  },
    TotalRaised {  },
}

/// The settings of the sale.
#[derive(Clone, Debug, PartialEq)]
pub struct ConfigResponse {
    pub token_contract_hash: String,
    pub exchange_rate: u128,
    pub token_contract_address: String,
    pub admin: String,
}

/// The sum of all deposits so far.
#[derive(Clone, Copy, Debug, PartialEq, Eq, Structural)]
pub struct TotalRaisedResponse {
    pub amount: u128,
}

/// The answer to a question.
#[derive(Clone, Debug, PartialEq)]
pub enum QueryResponse {
    Config { config: ConfigResponse },
    TotalRaised { total: TotalRaisedResponse },
}

/// What a purchase hands back: the order to mint `mint_amount` tokens for
/// `recipient`, who paid `deposit_amount`.
#[derive(Clone, Debug, PartialEq)]
pub struct Purchase {
    pub recipient: String,
    pub deposit_amount: u128,
    pub mint_amount: u128,
}

} // verus!
