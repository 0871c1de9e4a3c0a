//! The state of the token sale and the accounting of deposits.

use crate::env::Coin;
use crate::error::ContractError;
use vstd::prelude::*;

verus! {

/// The singleton state of the sale.
#[derive(Clone, Debug, PartialEq, Eq)]
pub struct State {
    /// How many tokens one unit of the accepted currency buys.
    pub exchange_rate: u128,
    pub admin: String,
    pub contract_adress: String,
    pub contract_hash: String,
    /// The sum of all deposits so far.
    pub total_raised: u128,
}

/// The mathematical value of a [`State`].
pub struct StateView {
    pub exchange_rate: u128,
    pub admin: Seq<char>,
    pub contract_adress: Seq<char>,
    pub contract_hash: Seq<char>,
    pub total_raised: u128,
}

impl View for State {
    type V = StateView;

    open spec fn view(&self) -> StateView {
        StateView {
            exchange_rate: self.exchange_rate,
            admin: self.admin@,
            contract_adress: self.contract_adress@,
            contract_hash: self.contract_hash@,
            total_raised: self.total_raised,
        }
    }
}

/// A deposit that was taken: what was paid and what it buys.
#[derive(Clone, Copy, Debug, PartialEq, Eq, Structural)]
pub struct Deposit {
    pub deposit_amount: u128,
    pub mint_amount: u128,
}

/// The one currency in which deposits are taken.
pub open spec fn accepted_denom() -> Seq<char> {
    "uscrt"@
}

/// Whether all of the funds are in the accepted currency.
pub open spec fn funds_accepted(funds: Seq<Coin>) -> bool {
    forall|i: int| 0 <= i < funds.len() ==> (#[trigger] funds[i]).denom@ == accepted_denom()
}

/// The sum of the amounts of the funds.
pub open spec fn funds_total(funds: Seq<Coin>) -> nat
    decreases funds.len(),
{
    if funds.len() == 0 {
        0
    } else {
        funds_total(funds.drop_last()) + funds.last().amount as nat
    }
}

/// How a deposit of `funds` ends when `total_raised` was raised before and
/// the exchange rate is `exchange_rate`: with the new sum of deposits and
/// the amount to mint, which is the deposit times the rate.
///
/// Funds in another currency are refused with `InvalidDenomination`, funds
/// that add up to nothing with `EmptyDeposit`, and a deposit with which
/// the sum of deposits or the amount to mint would pass `u128::MAX` with
/// `Overflow`.
pub open spec fn deposit_result(
    total_raised: u128,
    exchange_rate: u128,
    funds: Seq<Coin>,
) -> Result<(u128, u128), ContractError> {
    if !funds_accepted(funds) {
        Err(ContractError::InvalidDenomination)
    } else if funds_total(funds) == 0 {
        Err(ContractError::EmptyDeposit)
    } else if total_raised + funds_total(funds) > u128::MAX || funds_total(funds) * exchange_rate
        > u128::MAX {
        Err(ContractError::Overflow)
    } else {
        Ok(
            (
                (total_raised + funds_total(funds)) as u128,
                (funds_total(funds) * exchange_rate) as u128,
            ),
        )
    }
}

/// The sum of a run of funds grows by each amount that is added to it.
pub proof fn lemma_funds_total_step(funds: Seq<Coin>, i: int)
    requires
        0 <= i < funds.len(),
    ensures
        funds_total(funds.take(i + 1)) == funds_total(funds.take(i)) + funds[i].amount,
{
    assert(funds.take(i + 1).drop_last() =~= funds.take(i));
}

impl State {
    /// Takes a deposit: adds it to the sum of deposits and says how much
    /// it buys. A deposit that is refused leaves the state as it was.
    pub fn record_deposit(&mut self, funds: &Vec<Coin>) -> (r: Result<Deposit, ContractError>)
        ensures
            match deposit_result(old(self).total_raised, old(self).exchange_rate, funds@) {
                Ok((raised, minted)) => {
                    &&& r == Ok::<Deposit, ContractError>(
                        Deposit {
                            deposit_amount: funds_total(funds@) as u128,
                            mint_amount: minted,
                        },
                    )
                    &&& final(self)@ == (StateView { total_raised: raised, ..old(self)@ })
                },
                Err(e) => r == Err::<Deposit, ContractError>(e) && *final(self) == *old(self),
            },
            final(self).total_raised >= old(self).total_raised,
    {
        let accepted = "uscrt".to_owned();
        let mut total_coins_sent: u128 = 0;
        let mut overflowed = false;
        let mut i: usize = 0;
        while i < funds.len()
            invariant
                i <= funds.len(),
                accepted@ == accepted_denom(),
                funds_accepted(funds@.take(i as int)),
                !overflowed ==> total_coins_sent == funds_total(funds@.take(i as int)),
                overflowed ==> funds_total(funds@.take(i as int)) > u128::MAX,
            decreases funds.len() - i,
        {
            proof {
                lemma_funds_total_step(funds@, i as int);
            }
            if funds[i].denom != accepted {
                assert(!funds_accepted(funds@));
                return Err(ContractError::InvalidDenomination);
            }
            if !overflowed {
                match total_coins_sent.checked_add(funds[i].amount) {
                    Some(sum) => {
                        total_coins_sent = sum;
                    },
                    None => {
                        overflowed = true;
                    },
                }
            }
            assert forall|j: int| 0 <= j < i + 1 implies (#[trigger] funds@.take(i + 1)[j]).denom@
                == accepted_denom() by {
                if j < i {
                    assert(funds@.take(i as int)[j] == funds@[j]);
                }
            }
            i = i + 1;
        }
        assert(funds@.take(funds.len() as int) =~= funds@);
        if overflowed {
            return Err(ContractError::Overflow);
        }
        if total_coins_sent == 0 {
            return Err(ContractError::EmptyDeposit);
        }
        let raised = match self.total_raised.checked_add(total_coins_sent) {
            Some(raised) => raised,
            None => {
                return Err(ContractError::Overflow);
            },
        };
        let amount_to_mint = match total_coins_sent.checked_mul(self.exchange_rate) {
            Some(amount) => amount,
            None => {
                return Err(ContractError::Overflow);
            },
        };
        self.total_raised = raised;
        Ok(Deposit { deposit_amount: total_coins_sent, mint_amount: amount_to_mint })
    }
}

} // verus!
