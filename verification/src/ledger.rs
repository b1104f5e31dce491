//! Transfers of value, and the model of the token ledger against which the
//! managers' effects are stated.
//!
//! The managers never move value themselves. Each operation that succeeds
//! hands back the [`Transfer`]s that the caller is to perform on the token
//! ledger. [`Ledger`] is the mathematical picture of that ledger: a balance
//! per token and owner, and a transfer that either fails for want of funds
//! or debits one account and credits the other.

use crate::sdk::clone_address;
use soroban_sdk::Address;
use vstd::prelude::*;

verus! {

/// An instruction to move `amount` of `token` from one account to another.
#[derive(Debug, PartialEq, Eq)]
pub struct Transfer {
    pub token: Address,
    pub from: Address,
    pub to: Address,
    pub amount: i128,
}

impl Clone for Transfer {
    fn clone(&self) -> (copy: Self)
        ensures
            copy == *self,
    {
        Transfer {
            token: clone_address(&self.token),
            from: clone_address(&self.from),
            to: clone_address(&self.to),
            amount: self.amount,
        }
    }
}

/// The balances of a token ledger: for each token and owner, the amount held.
/// An account that was never credited holds nothing.
pub struct Ledger {
    pub balances: Map<(Address, Address), int>,
}

impl Ledger {
    /// What `owner` holds of `token`.
    pub open spec fn balance(self, token: Address, owner: Address) -> int {
        if self.balances.contains_key((token, owner)) {
            self.balances[(token, owner)]
        } else {
            0
        }
    }

    /// No account holds less than nothing.
    pub open spec fn wf(self) -> bool {
        forall|token: Address, owner: Address| 0 <= #[trigger] self.balance(token, owner)
    }

    /// Whether the ledger would carry out `transfer`: the paying account must
    /// hold at least the amount.
    pub open spec fn permits(self, transfer: Transfer) -> bool {
        self.balance(transfer.token, transfer.from) >= transfer.amount
    }

    /// The ledger once `transfer` has been carried out: the amount is taken
    /// from the paying account and then added to the receiving one.
    pub open spec fn after(self, transfer: Transfer) -> Ledger {
        let debited = self.balances.insert(
            (transfer.token, transfer.from),
            self.balance(transfer.token, transfer.from) - transfer.amount,
        );
        let held = Ledger { balances: debited }.balance(transfer.token, transfer.to);
        Ledger { balances: debited.insert((transfer.token, transfer.to), held + transfer.amount) }
    }

    /// The ledger once every transfer of `transfers` has been carried out, one
    /// after the other.
    pub open spec fn after_all(self, transfers: Seq<Transfer>) -> Ledger
        decreases transfers.len(),
    {
        if transfers.len() == 0 {
            self
        } else {
            self.after_all(transfers.drop_last()).after(transfers.last())
        }
    }

    /// Whether the ledger would carry out every transfer of `transfers`, one
    /// after the other: each must be permitted once those before it are done.
    pub open spec fn permits_all(self, transfers: Seq<Transfer>) -> bool
        decreases transfers.len(),
    {
        if transfers.len() == 0 {
            true
        } else {
            self.permits_all(transfers.drop_last()) && self.after_all(
                transfers.drop_last(),
            ).permits(transfers.last())
        }
    }
}

/// A transfer between two different accounts takes the amount from the one,
/// gives it to the other, and leaves every other balance as it was.
pub proof fn lemma_transfer_moves_amount(ledger: Ledger, transfer: Transfer)
    requires
        transfer.from != transfer.to,
    ensures
        ledger.after(transfer).balance(transfer.token, transfer.from) == ledger.balance(
            transfer.token,
            transfer.from,
        ) - transfer.amount,
        ledger.after(transfer).balance(transfer.token, transfer.to) == ledger.balance(
            transfer.token,
            transfer.to,
        ) + transfer.amount,
        forall|token: Address, owner: Address|
            (token, owner) != (transfer.token, transfer.from) && (token, owner) != (
                transfer.token,
                transfer.to,
            ) ==> #[trigger] ledger.after(transfer).balance(token, owner) == ledger.balance(
                token,
                owner,
            ),
{
}

/// A transfer from an account to itself changes no balance.
pub proof fn lemma_transfer_to_self_changes_nothing(ledger: Ledger, transfer: Transfer)
    requires
        transfer.from == transfer.to,
    ensures
        forall|token: Address, owner: Address| #[trigger]
            ledger.after(transfer).balance(token, owner) == ledger.balance(token, owner),
{
}

/// A permitted transfer of an amount that is not negative leaves no account
/// with less than nothing.
pub proof fn lemma_transfer_keeps_balances_nonnegative(ledger: Ledger, transfer: Transfer)
    requires
        ledger.wf(),
        ledger.permits(transfer),
        transfer.amount >= 0,
    ensures
        ledger.after(transfer).wf(),
{
    if transfer.from == transfer.to {
        lemma_transfer_to_self_changes_nothing(ledger, transfer);
    } else {
        lemma_transfer_moves_amount(ledger, transfer);
    }
}

} // verus!
