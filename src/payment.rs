use vstd::prelude::*;

use crate::error::PaymentError;

verus! {

/// An amount of one token denomination.
#[derive(Debug, Clone, PartialEq, Eq)]
pub struct BorshableCoin {
    pub denom: String,
    pub amount: u128,
}

/// Refuses any attached payment.
pub fn enforce_unfunded(funds: &Vec<BorshableCoin>) -> (r: Result<(), PaymentError>)
    ensures
        r is Ok <==> funds@.len() == 0,
        r is Err ==> r == Err::<(), PaymentError>(PaymentError::NonPayable),
{
    if funds.len() == 0 {
        Ok(())
    } else {
        Err(PaymentError::NonPayable)
    }
}

/// Requires exactly one coin, of a non-zero amount, in the given denomination,
/// and returns its amount.
pub fn enforce_single_payment(funds: &Vec<BorshableCoin>, denom: &String) -> (r: Result<
    u128,
    PaymentError,
>)
    ensures
        r is Ok <==> (funds@.len() == 1 && funds@[0].amount > 0 && funds@[0].denom@ == denom@),
        r is Ok ==> r->Ok_0 == funds@[0].amount,
        r == Err::<u128, PaymentError>(PaymentError::NoFunds) <==> (funds@.len() == 0 || (
        funds@.len() == 1 && funds@[0].amount == 0)),
        r == Err::<u128, PaymentError>(PaymentError::MultipleDenoms) <==> funds@.len() > 1,
        (r matches Err(PaymentError::MissingDenom(d)) && d@ == denom@) <==> (funds@.len() == 1
            && funds@[0].amount > 0 && funds@[0].denom@ != denom@),
        r is Err ==> !(r matches Err(PaymentError::NonPayable)),
{
    if funds.len() == 0 {
        return Err(PaymentError::NoFunds);
    }
    if funds.len() > 1 {
        return Err(PaymentError::MultipleDenoms);
    }
    let coin = &funds[0];
    if coin.amount == 0 {
        return Err(PaymentError::NoFunds);
    }
    if coin.denom == *denom {
        Ok(coin.amount)
    } else {
        Err(PaymentError::MissingDenom(denom.clone()))
    }
}

} // verus!
