//! The mint operation: credit a balance and describe the one balance-change
//! event emitted for it.

use vstd::prelude::*;
use vstd::string::StringExecFns;

use crate::key::AddrV;
use crate::key::Address;

verus! {

/// The severity scope of an emitted event.
#[derive(Clone, Copy, Debug, PartialEq, Eq, Structural)]
pub enum EventLevel {
    /// Attributed to one transaction.
    Tx,
    /// Attributed to a whole block.
    Block,
}

/// A structured balance-change event.
#[derive(Clone, Debug, PartialEq, Eq)]
pub struct BalanceChangeEvent {
    /// The severity scope.
    pub level: EventLevel,
    /// What kind of balance change this is.
    pub descriptor: String,
    /// The token whose balance changed.
    pub token: Address,
    /// The account whose balance changed.
    pub target: Address,
    /// The balance after the change.
    pub post_balance: u128,
    /// The amount credited.
    pub diff: u128,
}

/// The module's own reserved internal authority: every mint this module
/// performs is attributed to it. The host must hand this address to its
/// token ledger as the minter.
pub fn mint_authority() -> (a: Address)
    ensures
        a@ == AddrV::Ibc,
{
    Address::Ibc
}

/// Credits `amount` of `token` to `target`, attributed to `mint_authority`;
/// `balance` is the target's balance before the mint. Describes the one
/// event emitted for it: transaction-level, with the mint descriptor, the
/// post-mint balance, and the credited amount. Fails before producing any
/// event when the balance cannot hold the credit, so no event without a
/// balance mutation can be observed.
pub fn mint_tokens(balance: u128, token: &Address, target: &Address, amount: u128) -> (r: Option<
    (u128, BalanceChangeEvent),
>)
    ensures
        r matches Some(p) ==> {
            &&& balance + amount <= u128::MAX
            &&& p.0 == balance + amount
            &&& p.1.level == EventLevel::Tx
            &&& p.1.descriptor@ == "mint-ibc-tokens"@
            &&& p.1.token@ == token@
            &&& p.1.target@ == target@
            &&& p.1.post_balance == balance + amount
            &&& p.1.diff == amount
        },
        r is None <==> balance + amount > u128::MAX,
{
    if amount <= u128::MAX - balance {
        let post = balance + amount;
        let event = BalanceChangeEvent {
            level: EventLevel::Tx,
            descriptor: String::from_str("mint-ibc-tokens"),
            token: token.dup(),
            target: target.dup(),
            post_balance: post,
            diff: amount,
        };
        Some((post, event))
    } else {
        None
    }
}

} // verus!
