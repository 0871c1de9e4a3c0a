use pet_market::env::{Coin, Env};
use pet_market::error::ContractError;
use pet_market::market::contract::{
    handle, init, query, query_config, query_total_raised, try_buy_food,
};
use pet_market::market::msg::{
    HandleMessage, InitMsg, QueryMessage, QueryResponse, TotalRaisedResponse,
};
use pet_market::market::state::State;
use secret_cosmwasm_std::testing::mock_env;
use secret_cosmwasm_std::{coins, Coin as HostCoin};

fn library_env(sender: &str, sent: &[HostCoin]) -> Env {
    let env = mock_env(sender, sent);
    Env {
        sender: env.message.sender.0.clone(),
        sender_canonical: Vec::new(),
        block_time: env.block.time,
        sent_funds: env
            .message
            .sent_funds
            .iter()
            .map(|coin| Coin { denom: coin.denom.clone(), amount: coin.amount.u128() })
            .collect(),
        contract_code_hash: env.contract_code_hash.clone(),
    }
}

fn init_default() -> State {
    let token = mock_env("snip", &[]);
    let env = library_env("instantiator", &[]);
    let init_msg = InitMsg {
        token_exchange_rate: 100,
        token_contract_address: token.contract.address.0,
        token_contract_hash: token.contract_code_hash,
        admin: None,
    };
    init(&env, init_msg)
}

fn uscrt(amount: u128) -> Coin {
    Coin { denom: "uscrt".to_string(), amount }
}

fn buyer(funds: Vec<Coin>) -> Env {
    Env {
        sender: "buyer".to_string(),
        sender_canonical: Vec::new(),
        block_time: 0,
        sent_funds: funds,
        contract_code_hash: String::new(),
    }
}

#[test]
fn test_init() {
    let state = init_default();
    assert_eq!(state.exchange_rate, 100);
    assert_eq!(state.total_raised, 0);
    assert_eq!(state.admin, "instantiator");
    assert_eq!(state.contract_adress, "cosmos2contract");
}

#[test]
fn test_buy_with_coins() {
    let token = mock_env("snip", &[]);
    let env = library_env("instantiator", &coins(1, "uscrt"));

    let init_msg = InitMsg {
        token_exchange_rate: 100,
        token_contract_address: token.contract.address.0.clone(),
        token_contract_hash: token.contract_code_hash.clone(),
        admin: None,
    };
    let mut state = init(&env, init_msg.clone());

    let msg = HandleMessage::BuyFood {};
    let _res = handle(&mut state, &env, msg).unwrap();
}

#[test]
fn test_buy_no_coins() {
    let token = mock_env("snip", &[]);
    let env = library_env("instantiator", &[]);

    let init_msg = InitMsg {
        token_exchange_rate: 100,
        token_contract_address: token.contract.address.0,
        token_contract_hash: token.contract_code_hash,
        admin: None,
    };
    let mut state = init(&env, init_msg);

    let msg = HandleMessage::BuyFood {};
    let res = handle(&mut state, &env, msg);
    assert!(res.is_err(), "should error");
}

#[test]
fn init_keeps_named_admin() {
    let env = library_env("instantiator", &[]);
    let msg = InitMsg {
        token_exchange_rate: 7,
        token_contract_address: "token".to_string(),
        token_contract_hash: "hash".to_string(),
        admin: Some("boss".to_string()),
    };
    let state = init(&env, msg);
    assert_eq!(state.admin, "boss");
    assert_eq!(state.contract_hash, "hash");
    assert_eq!(state.exchange_rate, 7);
}

#[test]
fn one_coin_at_rate_100_mints_100() {
    let mut state = init_default();
    let env = buyer(vec![uscrt(1)]);
    let purchase = try_buy_food(&mut state, &env).unwrap();
    assert_eq!(purchase.mint_amount, 100);
    assert_eq!(purchase.deposit_amount, 1);
    assert_eq!(purchase.recipient, "buyer");
    assert_eq!(state.total_raised, 1);
}

#[test]
fn empty_deposit_is_refused() {
    let mut state = init_default();
    let before = state.clone();
    assert_eq!(try_buy_food(&mut state, &buyer(vec![])), Err(ContractError::EmptyDeposit));
    assert_eq!(state, before);
}

#[test]
fn zero_amount_deposit_is_refused() {
    let mut state = init_default();
    assert_eq!(
        try_buy_food(&mut state, &buyer(vec![uscrt(0), uscrt(0)])),
        Err(ContractError::EmptyDeposit)
    );
    assert_eq!(state.total_raised, 0);
}

#[test]
fn second_currency_is_refused() {
    let mut state = init_default();
    let funds = vec![uscrt(5), Coin { denom: "uatom".to_string(), amount: 3 }];
    assert_eq!(try_buy_food(&mut state, &buyer(funds)), Err(ContractError::InvalidDenomination));
    assert_eq!(state.total_raised, 0);
}

#[test]
fn foreign_currency_wins_over_overflow() {
    let mut state = init_default();
    let funds = vec![uscrt(u128::MAX), uscrt(1), Coin { denom: "uatom".to_string(), amount: 3 }];
    assert_eq!(try_buy_food(&mut state, &buyer(funds)), Err(ContractError::InvalidDenomination));
}

#[test]
fn total_raised_is_the_sum_of_deposits() {
    let mut state = init_default();
    let amounts: [u128; 4] = [1, 20, 300, 4000];
    for amount in amounts.iter() {
        let purchase = try_buy_food(&mut state, &buyer(vec![uscrt(*amount)])).unwrap();
        assert_eq!(purchase.mint_amount, amount * 100);
    }
    assert_eq!(state.total_raised, 4321);
    assert_eq!(query_total_raised(&state), TotalRaisedResponse { amount: 4321 });
}

#[test]
fn several_coins_in_one_deposit_add_up() {
    let mut state = init_default();
    let purchase = try_buy_food(&mut state, &buyer(vec![uscrt(2), uscrt(3), uscrt(0)])).unwrap();
    assert_eq!(purchase.deposit_amount, 5);
    assert_eq!(purchase.mint_amount, 500);
    assert_eq!(state.total_raised, 5);
}

#[test]
fn mint_is_exact_for_large_amounts() {
    let big: u128 = 1_000_000_000_000_000_000;
    let mut state = State {
        exchange_rate: big,
        admin: "a".to_string(),
        contract_adress: "c".to_string(),
        contract_hash: "h".to_string(),
        total_raised: 0,
    };
    let purchase = try_buy_food(&mut state, &buyer(vec![uscrt(big)])).unwrap();
    assert_eq!(purchase.mint_amount, 1_000_000_000_000_000_000_000_000_000_000_000_000);
    assert_eq!(state.total_raised, big);
}

#[test]
fn mint_overflow_is_refused_and_changes_nothing() {
    let mut state = State {
        exchange_rate: u128::MAX,
        admin: "a".to_string(),
        contract_adress: "c".to_string(),
        contract_hash: "h".to_string(),
        total_raised: 9,
    };
    assert_eq!(try_buy_food(&mut state, &buyer(vec![uscrt(2)])), Err(ContractError::Overflow));
    assert_eq!(state.total_raised, 9);
}

#[test]
fn sum_overflow_is_refused() {
    let mut state = init_default();
    state.exchange_rate = 1;
    state.total_raised = u128::MAX;
    assert_eq!(try_buy_food(&mut state, &buyer(vec![uscrt(1)])), Err(ContractError::Overflow));
    assert_eq!(state.total_raised, u128::MAX);
    state.total_raised = 0;
    let funds = vec![uscrt(u128::MAX), uscrt(1)];
    assert_eq!(try_buy_food(&mut state, &buyer(funds)), Err(ContractError::Overflow));
    assert_eq!(state.total_raised, 0);
}

#[test]
fn record_deposit_reports_both_amounts() {
    let mut state = init_default();
    let deposit = state.record_deposit(&vec![uscrt(12)]).unwrap();
    assert_eq!(deposit.deposit_amount, 12);
    assert_eq!(deposit.mint_amount, 1200);
    assert_eq!(state.total_raised, 12);
}

#[test]
fn queries_show_the_state() {
    let mut state = init_default();
    try_buy_food(&mut state, &buyer(vec![uscrt(42)])).unwrap();
    let config = query_config(&state);
    assert_eq!(config.exchange_rate, 100);
    assert_eq!(config.admin, "instantiator");
    assert_eq!(config.token_contract_address, "cosmos2contract");
    assert_eq!(config.token_contract_hash, state.contract_hash);
    assert_eq!(query(&state, QueryMessage::Config {}), QueryResponse::Config { config });
    assert_eq!(
        query(&state, QueryMessage::TotalRaised {}),
        QueryResponse::TotalRaised { total: TotalRaisedResponse { amount: 42 } }
    );
}
