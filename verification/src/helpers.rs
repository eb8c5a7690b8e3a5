//! Validation of the funds attached to a request.

use vstd::prelude::*;

use crate::error::ContractError;
use crate::state::Coin;

verus! {

/// Checks that `sent_funds` consists of exactly one coin in denomination
/// `denom` and hands that coin back.
///
/// Fails `WrongCoinSent` when the bundle does not hold exactly one
/// denomination, and `WrongFundCoin` when the one coin is of the wrong
/// denomination.
pub fn extract_coin(sent_funds: &Vec<Coin>, denom: &String) -> (r: Result<Coin, ContractError>)
    ensures
        (r matches Err(ContractError::WrongCoinSent {})) <==> sent_funds@.len() != 1,
        (r matches Err(ContractError::WrongFundCoin { .. })) <==> (sent_funds@.len() == 1
            && sent_funds@[0].denom@ != denom@),
        (r matches Err(ContractError::WrongFundCoin { expected, got }) ==> expected@ == denom@
            && got@ == sent_funds@[0].denom@),
        (r is Ok) <==> (sent_funds@.len() == 1 && sent_funds@[0].denom@ == denom@),
        (r matches Ok(c) ==> c == sent_funds@[0]),
{
    if sent_funds.len() != 1 {
        return Err(ContractError::WrongCoinSent {});
    }
    let coin = &sent_funds[0];
    if !(coin.denom == *denom) {
        return Err(ContractError::WrongFundCoin {
            expected: denom.clone(),
            got: coin.denom.clone(),
        });
    }
    let c = Coin { denom: coin.denom.clone(), amount: coin.amount };
    proof {
        assert(c =~= sent_funds@[0]);
    }
    Ok(c)
}

} // verus!
