use vstd::prelude::*;

use crate::payment::BorshableCoin;

verus! {

/// One action bundled in a proposal. The engine stores these and hands them
/// out when the proposal is executed; only a mint of the governance token
/// itself is looked at, because it changes the supply.
#[derive(Debug, Clone, PartialEq, Eq)]
pub enum ProposedCourtMsg {
    /// Sends a coin. Native or contract-driven
    SendCoin { to: String, denom: String, amount: u128 },
    /// Calls an EVM contract, `value` is in the chain's smallest native unit
    ExecuteEvmContract { contract: String, msg: Vec<u8>, value: u128 },
    ExecuteWasmContract { contract: String, msg: Vec<u8>, funds: Vec<BorshableCoin> },
    UpgradeWasmContract { contract: String, new_code_id: u64, msg: Vec<u8> },
    ChangeWasmContractAdmin { contract: String, new_admin: String },
    ClearWasmContractAdmin { contract: String },
    TokenfactoryMint { tokens: BorshableCoin },
}

/// How much of `denom` the actions mint.
pub open spec fn minted_amount(msgs: Seq<ProposedCourtMsg>, denom: Seq<char>) -> int
    decreases msgs.len(),
{
    if msgs.len() == 0 {
        0
    } else {
        minted_amount(msgs.drop_last(), denom) + match msgs.last() {
            ProposedCourtMsg::TokenfactoryMint { tokens } => if tokens.denom@ == denom {
                tokens.amount as int
            } else {
                0
            },
            _ => 0,
        }
    }
}

pub proof fn lemma_minted_amount_nonneg(msgs: Seq<ProposedCourtMsg>, denom: Seq<char>)
    ensures
        minted_amount(msgs, denom) >= 0,
    decreases msgs.len(),
{
    if msgs.len() > 0 {
        lemma_minted_amount_nonneg(msgs.drop_last(), denom);
    }
}

/// A longer run of actions mints at least as much as a shorter one.
pub proof fn lemma_minted_amount_monotone(msgs: Seq<ProposedCourtMsg>, denom: Seq<char>, i: int, j: int)
    requires
        0 <= i <= j <= msgs.len(),
    ensures
        minted_amount(msgs.take(i), denom) <= minted_amount(msgs.take(j), denom),
    decreases j - i,
{
    if i < j {
        lemma_minted_amount_monotone(msgs, denom, i, j - 1);
        assert(msgs.take(j).drop_last() =~= msgs.take(j - 1));
    }
}

} // verus!
