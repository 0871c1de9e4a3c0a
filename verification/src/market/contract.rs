//! The operations of the token sale.

use crate::env::Coin;
use crate::env::Env;
use crate::error::ContractError;
use crate::market::msg::ConfigResponse;
use crate::market::msg::HandleMessage;
use crate::market::msg::InitMsg;
use crate::market::msg::Purchase;
use crate::market::msg::QueryMessage;
use crate::market::msg::QueryResponse;
use crate::market::msg::TotalRaisedResponse;
use crate::market::state::deposit_result;
use crate::market::state::funds_total;
use crate::market::state::State;
use crate::market::state::StateView;
use vstd::prelude::*;

verus! {

/// The state with which the sale starts: nothing raised, and as the
/// administrator the one the message names, or else the caller.
pub open spec fn initial_state(env: Env, msg: InitMsg) -> StateView {
    StateView {
        exchange_rate: msg.token_exchange_rate,
        admin: match msg.admin {
            Some(admin) => admin@,
            None => env.sender@,
        },
        contract_adress: msg.token_contract_address@,
        contract_hash: msg.token_contract_hash@,
        total_raised: 0,
    }
}

/// Sets the sale up.
pub fn init(env: &Env, msg: InitMsg) -> (state: State)
    ensures
        state@ == initial_state(*env, msg),
{
    State {
        exchange_rate: msg.token_exchange_rate,
        admin: match msg.admin {
            Some(admin) => admin,
            None => env.sender.clone(),
        },
        contract_adress: msg.token_contract_address,
        total_raised: 0,
        contract_hash: msg.token_contract_hash,
    }
}

/// Whether a purchase with `funds` by `sender`, made in the state
/// `before`, may end with `r` and the state `after`: as the deposit ends,
/// the minted tokens going to the sender.
pub open spec fn purchase_outcome(
    before: StateView,
    after: StateView,
    sender: Seq<char>,
    funds: Seq<Coin>,
    r: Result<Purchase, ContractError>,
) -> bool {
    match deposit_result(before.total_raised, before.exchange_rate, funds) {
        Ok((raised, minted)) => {
            &&& r matches Ok(purchase)
            &&& r->Ok_0.recipient@ == sender
            &&& r->Ok_0.deposit_amount == funds_total(funds)
            &&& r->Ok_0.mint_amount == minted
            &&& after == (StateView { total_raised: raised, ..before })
        },
        Err(e) => r matches Err(f) && f == e && after == before,
    }
}

/// Handles a message that changes the sale.
pub fn handle(state: &mut State, env: &Env, msg: HandleMessage) -> (r: Result<
    Purchase,
    ContractError,
>)
    ensures
        purchase_outcome(old(state)@, final(state)@, env.sender@, env.sent_funds@, r),
{
    match msg {
        HandleMessage::BuyFood {  } => try_buy_food(state, env),
    }
}

/// Answers a question.
pub fn query(state: &State, msg: QueryMessage) -> (r: QueryResponse)
    ensures
        match msg {
            QueryMessage::Config {  } => r matches QueryResponse::Config { config }
                && is_config_of(config, state@),
            QueryMessage::TotalRaised {  } => r == (QueryResponse::TotalRaised {
                total: TotalRaisedResponse { amount: state.total_raised },
            }),
        },
{
    match msg {
        QueryMessage::Config {  } => QueryResponse::Config { config: query_config(state) },
        QueryMessage::TotalRaised {  } => QueryResponse::TotalRaised {
            total: query_total_raised(state),
        },
    }
}

/// The sum of all deposits so far.
pub fn query_total_raised(state: &State) -> (r: TotalRaisedResponse)
    ensures
        r.amount == state.total_raised,
{
    TotalRaisedResponse { amount: state.total_raised }
}

/// Whether `config` shows the settings of `state`.
pub open spec fn is_config_of(config: ConfigResponse, state: StateView) -> bool {
    &&& config.token_contract_hash@ == state.contract_hash
    &&& config.exchange_rate == state.exchange_rate
    &&& config.token_contract_address@ == state.contract_adress
    &&& config.admin@ == state.admin
}

/// The settings of the sale.
pub fn query_config(state: &State) -> (r: ConfigResponse)
    ensures
        is_config_of(r, state@),
{
    ConfigResponse {
        token_contract_hash: state.contract_hash.clone(),
        exchange_rate: state.exchange_rate,
        token_contract_address: state.contract_adress.clone(),
        admin: state.admin.clone(),
    }
}

/// Buys food with the funds attached to the call: takes them as a deposit
/// and orders the minting of what they buy for the caller.
pub fn try_buy_food(state: &mut State, env: &Env) -> (r: Result<Purchase, ContractError>)
    ensures
        purchase_outcome(old(state)@, final(state)@, env.sender@, env.sent_funds@, r),
{
    match state.record_deposit(&env.sent_funds) {
        Ok(deposit) => Ok(
            Purchase {
                recipient: env.sender.clone(),
                deposit_amount: deposit.deposit_amount,
                mint_amount: deposit.mint_amount,
            },
        ),
        Err(e) => Err(e),
    }
}

/// The sum of the deposits of a run of purchases.
pub open spec fn deposits_total(deposits: Seq<Seq<Coin>>) -> nat
    decreases deposits.len(),
{
    if deposits.len() == 0 {
        0
    } else {
        deposits_total(deposits.drop_last()) + funds_total(deposits.last())
    }
}

/// The sum raised after a run of deposits, each made on what the ones
/// before it left; `None` where one of them is refused.
pub open spec fn raised_after(
    total_raised: u128,
    exchange_rate: u128,
    deposits: Seq<Seq<Coin>>,
) -> Option<u128>
    decreases deposits.len(),
{
    if deposits.len() == 0 {
        Some(total_raised)
    } else {
        match raised_after(total_raised, exchange_rate, deposits.drop_last()) {
            Some(raised) => match deposit_result(raised, exchange_rate, deposits.last()) {
                Ok((raised, _)) => Some(raised),
                Err(_) => None,
            },
            None => None,
        }
    }
}

/// After any run of deposits that were all taken, the sum raised is the
/// sum raised before plus the sum of their amounts.
pub proof fn lemma_total_raised_is_sum(
    total_raised: u128,
    exchange_rate: u128,
    deposits: Seq<Seq<Coin>>,
)
    ensures
        raised_after(total_raised, exchange_rate, deposits) matches Some(raised) ==> raised
            == total_raised + deposits_total(deposits),
    decreases deposits.len(),
{
    if deposits.len() > 0 {
        lemma_total_raised_is_sum(total_raised, exchange_rate, deposits.drop_last());
    }
}

/// A deposit that is taken mints exactly the deposit times the exchange
/// rate; and a deposit and a rate of up to 10^18 each never fail for the
/// size of that product.
pub proof fn lemma_mint_is_exact(total_raised: u128, exchange_rate: u128, funds: Seq<Coin>)
    ensures
        deposit_result(total_raised, exchange_rate, funds) matches Ok((_, minted)) ==> minted
            == funds_total(funds) * exchange_rate,
        funds_total(funds) <= 1_000_000_000_000_000_000 && exchange_rate
            <= 1_000_000_000_000_000_000 ==> funds_total(funds) * exchange_rate <= u128::MAX,
{
    let total = funds_total(funds);
    if total <= 1_000_000_000_000_000_000 && exchange_rate <= 1_000_000_000_000_000_000 {
        assert(total * exchange_rate <= 1_000_000_000_000_000_000 * 1_000_000_000_000_000_000)
            by (nonlinear_arith)
            requires
                total <= 1_000_000_000_000_000_000,
                exchange_rate <= 1_000_000_000_000_000_000,
        ;
    }
}

} // verus!
