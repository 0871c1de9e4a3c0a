//! The messages of the pet game and the answers to them.

use crate::pet::pets::Pet;
use crate::pet::state::SecretToken;
use vstd::prelude::*;

verus! {

/// Sets the game up.
#[derive(Clone, Debug, PartialEq)]
pub struct InitMsg {
    pub accepted_token: SecretToken,
    pub admin: Option<String>,
}

/// The operations that change the game.
#[derive(Clone, Debug, PartialEq)]
pub enum HandleMsg {
    /// Food arrived from the token contract: `from` names the owner whose
    /// pet is fed, in canonical form, or is `None` where the host could
    /// not resolve the owner's address; `msg` holds the pet's id.
    Receive { sender: String, from: Option<Vec<u8>>, amount: u128, msg: Option<Vec<u8>> },
    CreatePet { name: String, allowed_feed_timespan: u64, total_saturation_time: u64 },
}

/// The questions that can be asked of the game. Owners are named by the
/// canonical form of their address.
#[derive(Clone, Debug, PartialEq)]
pub enum QueryMsg {
    LastFed { id: u64, owner: Vec<u8> },
    Pet { id: u64, owner: Vec<u8> },
    Pets { owner: Vec<u8>, page: Option<u32>, page_size: Option<u32> },
    AcceptedToken {  },
}

/// The answers to the questions.
#[derive(Clone, Debug, PartialEq)]
pub enum QueryAnswer {
    LastFedResponse { timestamp: u64 },
    PetInfoResponse {
        id: u64,
        name: String,
        allowed_feed_timespan: u64,
        total_saturation_time: u64,
    },
    AcceptedToken { address: String, hash: String },
    Pets { size: u64, pets: Vec<Pet> },
}

/// The data that a handled operation returns.
#[derive(Clone, Debug, PartialEq)]
pub enum HandleAnswer {
    CreatePet { name: String, id: u64 },
}

/// A message that setting the game up sends to the accepted token
/// contract, named by `token_hash` and `token_address`.
#[derive(Clone, Debug, PartialEq)]
pub enum TokenMessage {
    /// Registers the game, by its code hash, as a receiver of transfers.
    RegisterReceive { code_hash: String, token_hash: String, token_address: String },
    /// Sets the key with which the game may view its balance.
    SetViewingKey { key: String, token_hash: String, token_address: String },
}

/// What a handled operation hands back.
#[derive(Clone, Debug, PartialEq)]
pub enum HandleReply {
    /// The pet with this id was fed at `time` with `food_amount` of food.
    Fed { id: u64, time: u64, food_amount: u128 },
    /// A pet was created.
    Created { answer: HandleAnswer },
}

} // verus!
