//! The escrow manager: value held by the contract until it is released to the
//! receiver or refunded to the sender.
//!
//! Opening an escrow moves the amount from the sender to the holding account.
//! Exactly one of release and refund can follow, exactly once; after it the
//! record is terminal and every further release or refund is refused. The
//! condition tag of an escrow is stored with it and not interpreted: a release
//! does not depend on it.

use crate::error::Error;
use crate::ledger::{
    lemma_transfer_moves_amount, lemma_transfer_to_self_changes_nothing, Ledger, Transfer,
};
use crate::sdk::{clone_address, clone_symbol};
use crate::store::{has_id, record_at, with_record, RecordStore};
use soroban_sdk::{Address, Symbol};
use vstd::prelude::*;

verus! {

/// One escrow.
#[derive(Debug, PartialEq, Eq)]
pub struct EscrowInfo {
    pub sender: Address,
    pub receiver: Address,
    pub amount: i128,
    pub condition: Symbol,
    pub released: bool,
    pub refunded: bool,
}

impl Clone for EscrowInfo {
    fn clone(&self) -> (copy: Self)
        ensures
            copy == *self,
    {
        EscrowInfo {
            sender: clone_address(&self.sender),
            receiver: clone_address(&self.receiver),
            amount: self.amount,
            condition: clone_symbol(&self.condition),
            released: self.released,
            refunded: self.refunded,
        }
    }
}

impl EscrowInfo {
    /// The amount is positive, and the escrow is not both released and
    /// refunded.
    pub open spec fn wf(self) -> bool {
        self.amount > 0 && !(self.released && self.refunded)
    }

    /// Released or refunded: no operation changes the escrow any more.
    pub open spec fn is_terminal(self) -> bool {
        self.released || self.refunded
    }

    /// Whether this escrow is well formed.
    pub fn is_well_formed(&self) -> (ok: bool)
        ensures
            ok == self.wf(),
    {
        self.amount > 0 && !(self.released && self.refunded)
    }

    /// The escrow as `create` stores it: neither released nor refunded.
    pub open spec fn opened(
        sender: Address,
        receiver: Address,
        amount: i128,
        condition: Symbol,
    ) -> EscrowInfo {
        EscrowInfo { sender, receiver, amount, condition, released: false, refunded: false }
    }

    /// The transfer that funds this escrow: its amount, from the sender to
    /// the holding account.
    pub open spec fn deposit(self, token: Address, holding: Address) -> Transfer {
        Transfer { token, from: self.sender, to: holding, amount: self.amount }
    }

    /// The transfer that releases this escrow: its amount, from the holding
    /// account to the receiver.
    pub open spec fn payout(self, token: Address, holding: Address) -> Transfer {
        Transfer { token, from: holding, to: self.receiver, amount: self.amount }
    }

    /// The transfer that refunds this escrow: its amount, from the holding
    /// account back to the sender.
    pub open spec fn repayment(self, token: Address, holding: Address) -> Transfer {
        Transfer { token, from: holding, to: self.sender, amount: self.amount }
    }

    /// This escrow, released.
    pub open spec fn as_released(self) -> EscrowInfo {
        EscrowInfo { released: true, ..self }
    }

    /// This escrow, refunded.
    pub open spec fn as_refunded(self) -> EscrowInfo {
        EscrowInfo { refunded: true, ..self }
    }
}

/// Every escrow of the family is well formed.
pub open spec fn escrows_wf(escrows: Seq<EscrowInfo>) -> bool {
    forall|i: int| 0 <= i < escrows.len() ==> (#[trigger] escrows[i]).wf()
}

/// Why opening an escrow is refused, if it is: the sender has not consented,
/// or holds less than the amount.
pub open spec fn create_refusal(authorized: bool, amount: i128, sender_balance: i128) -> Option<
    Error,
> {
    if !authorized {
        Some(Error::AuthorizationFailure)
    } else if sender_balance < amount {
        Some(Error::InsufficientFunds)
    } else {
        None
    }
}

/// Why a release of escrow `id` is refused, if it is: there is no such
/// escrow, it is terminal, or the holding account holds less than its amount.
pub open spec fn release_refusal(escrows: Seq<EscrowInfo>, id: u32, holding_balance: i128) -> Option<
    Error,
> {
    if !has_id(escrows, id) {
        Some(Error::NotFound)
    } else if record_at(escrows, id).is_terminal() {
        Some(Error::InvalidState)
    } else if holding_balance < record_at(escrows, id).amount {
        Some(Error::InsufficientFunds)
    } else {
        None
    }
}

/// Why a refund of escrow `id` is refused, if it is: there is no such escrow,
/// its sender has not consented, it is terminal, or the holding account holds
/// less than its amount.
pub open spec fn refund_refusal(
    escrows: Seq<EscrowInfo>,
    id: u32,
    authorized: bool,
    holding_balance: i128,
) -> Option<Error> {
    if !has_id(escrows, id) {
        Some(Error::NotFound)
    } else if !authorized {
        Some(Error::AuthorizationFailure)
    } else if record_at(escrows, id).is_terminal() {
        Some(Error::InvalidState)
    } else if holding_balance < record_at(escrows, id).amount {
        Some(Error::InsufficientFunds)
    } else {
        None
    }
}

/// The escrow manager with its family of escrows.
pub struct EscrowContract {
    escrows: RecordStore<EscrowInfo>,
}

impl View for EscrowContract {
    type V = Seq<EscrowInfo>;

    /// The escrows in the order of their identifiers.
    closed spec fn view(&self) -> Seq<EscrowInfo> {
        self.escrows@
    }
}

impl EscrowContract {
    /// The counter fits an identifier and every escrow is well formed.
    pub open spec fn wf(&self) -> bool {
        self@.len() <= u32::MAX && escrows_wf(self@)
    }

    /// A manager without escrows.
    pub fn new() -> (contract: Self)
        ensures
            contract@ == Seq::<EscrowInfo>::empty(),
            contract.wf(),
    {
        EscrowContract { escrows: RecordStore::new() }
    }

    /// A manager over `records`, numbered from 1 in their order: the way back
    /// from escrows that were stored elsewhere. `None` where one of them is
    /// not well formed or they are more than identifiers can number.
    pub fn from_records(records: Vec<EscrowInfo>) -> (restored: Option<Self>)
        ensures
            restored is Some <==> records@.len() <= u32::MAX && escrows_wf(records@),
            restored matches Some(manager) ==> manager@ == records@ && manager.wf(),
    {
        let mut i: usize = 0;
        while i < records.len()
            invariant
                0 <= i <= records.len(),
                forall|j: int| 0 <= j < i ==> (#[trigger] records@[j]).wf(),
            decreases records.len() - i,
        {
            if !records[i].is_well_formed() {
                return None;
            }
            i = i + 1;
        }
        match RecordStore::from_records(records) {
            Some(escrows) => Some(EscrowContract { escrows }),
            None => None,
        }
    }

    /// The number of escrows opened so far, which is the identifier given
    /// out last.
    pub fn count(&self) -> (count: u32)
        requires
            self.wf(),
        ensures
            count == self@.len(),
    {
        self.escrows.count()
    }

    /// Opens an escrow of `amount` from `sender` to `receiver`.
    ///
    /// Needs the sender's consent, and the sender must hold the amount. On
    /// success the escrow is stored under the next identifier, neither
    /// released nor refunded, and the caller is told to move the amount from
    /// the sender to the holding account.
    pub fn create(
        &mut self,
        sender: Address,
        receiver: Address,
        amount: i128,
        condition: Symbol,
        token_address: Address,
        holding: Address,
        sender_balance: i128,
        authorized: bool,
    ) -> (result: Result<(u32, Transfer), Error>)
        requires
            old(self).wf(),
            old(self)@.len() < u32::MAX,
            amount > 0,
        ensures
            final(self).wf(),
            match result {
                Ok((id, deposit)) => {
                    &&& create_refusal(authorized, amount, sender_balance) is None
                    &&& id == old(self)@.len() + 1
                    &&& final(self)@ == old(self)@.push(
                        EscrowInfo::opened(sender, receiver, amount, condition),
                    )
                    &&& deposit == EscrowInfo::opened(sender, receiver, amount, condition).deposit(
                        token_address,
                        holding,
                    )
                },
                Err(e) => {
                    &&& create_refusal(authorized, amount, sender_balance) == Some(e)
                    &&& final(self)@ == old(self)@
                },
            },
    {
        if !authorized {
            return Err(Error::AuthorizationFailure);
        }
        if sender_balance < amount {
            return Err(Error::InsufficientFunds);
        }
        let deposit = Transfer {
            token: token_address,
            from: clone_address(&sender),
            to: holding,
            amount,
        };
        let info = EscrowInfo {
            sender,
            receiver,
            amount,
            condition,
            released: false,
            refunded: false,
        };
        let id = self.escrows.allocate(info);
        Ok((id, deposit))
    }

    /// Releases escrow `escrow_id` to its receiver.
    ///
    /// Anyone may ask for a release. On success the escrow is marked released
    /// and the caller is told to move its amount from the holding account to
    /// the receiver.
    pub fn release(
        &mut self,
        escrow_id: u32,
        token_address: Address,
        holding: Address,
        holding_balance: i128,
    ) -> (result: Result<Transfer, Error>)
        requires
            old(self).wf(),
        ensures
            final(self).wf(),
            match result {
                Ok(payout) => {
                    &&& release_refusal(old(self)@, escrow_id, holding_balance) is None
                    &&& final(self)@ == with_record(
                        old(self)@,
                        escrow_id,
                        record_at(old(self)@, escrow_id).as_released(),
                    )
                    &&& payout == record_at(old(self)@, escrow_id).payout(token_address, holding)
                },
                Err(e) => {
                    &&& release_refusal(old(self)@, escrow_id, holding_balance) == Some(e)
                    &&& final(self)@ == old(self)@
                },
            },
    {
        let mut info = match self.escrows.get(escrow_id) {
            Some(found) => found.clone(),
            None => {
                return Err(Error::NotFound);
            },
        };
        if info.released || info.refunded {
            return Err(Error::InvalidState);
        }
        if holding_balance < info.amount {
            return Err(Error::InsufficientFunds);
        }
        let payout = Transfer {
            token: token_address,
            from: holding,
            to: clone_address(&info.receiver),
            amount: info.amount,
        };
        info.released = true;
        self.escrows.put(escrow_id, info);
        Ok(payout)
    }

    /// Refunds escrow `escrow_id` to its sender.
    ///
    /// Needs the consent of the escrow's sender. On success the escrow is
    /// marked refunded and the caller is told to move its amount from the
    /// holding account back to the sender.
    pub fn refund(
        &mut self,
        escrow_id: u32,
        token_address: Address,
        holding: Address,
        holding_balance: i128,
        authorized: bool,
    ) -> (result: Result<Transfer, Error>)
        requires
            old(self).wf(),
        ensures
            final(self).wf(),
            match result {
                Ok(payout) => {
                    &&& refund_refusal(old(self)@, escrow_id, authorized, holding_balance) is None
                    &&& final(self)@ == with_record(
                        old(self)@,
                        escrow_id,
                        record_at(old(self)@, escrow_id).as_refunded(),
                    )
                    &&& payout == record_at(old(self)@, escrow_id).repayment(
                        token_address,
                        holding,
                    )
                },
                Err(e) => {
                    &&& refund_refusal(old(self)@, escrow_id, authorized, holding_balance) == Some(
                        e,
                    )
                    &&& final(self)@ == old(self)@
                },
            },
    {
        let mut info = match self.escrows.get(escrow_id) {
            Some(found) => found.clone(),
            None => {
                return Err(Error::NotFound);
            },
        };
        if !authorized {
            return Err(Error::AuthorizationFailure);
        }
        if info.released || info.refunded {
            return Err(Error::InvalidState);
        }
        if holding_balance < info.amount {
            return Err(Error::InsufficientFunds);
        }
        let payout = Transfer {
            token: token_address,
            from: holding,
            to: clone_address(&info.sender),
            amount: info.amount,
        };
        info.refunded = true;
        self.escrows.put(escrow_id, info);
        Ok(payout)
    }

    /// A copy of escrow `escrow_id`.
    pub fn get_escrow(&self, escrow_id: u32) -> (result: Result<EscrowInfo, Error>)
        ensures
            match result {
                Ok(info) => has_id(self@, escrow_id) && info == record_at(self@, escrow_id),
                Err(e) => !has_id(self@, escrow_id) && e == Error::NotFound,
            },
    {
        match self.escrows.get(escrow_id) {
            Some(found) => Ok(found.clone()),
            None => Err(Error::NotFound),
        }
    }
}

/// An escrow that was just opened is found under the identifier that
/// `create` returned, neither released nor refunded.
pub proof fn lemma_created_escrow_is_open(
    escrows: Seq<EscrowInfo>,
    sender: Address,
    receiver: Address,
    amount: i128,
    condition: Symbol,
)
    requires
        escrows.len() < u32::MAX,
    ensures
        ({
            let id = (escrows.len() + 1) as u32;
            let after = escrows.push(EscrowInfo::opened(sender, receiver, amount, condition));
            &&& has_id(after, id)
            &&& !has_id(escrows, id)
            &&& record_at(after, id) == EscrowInfo::opened(sender, receiver, amount, condition)
            &&& !record_at(after, id).released
            &&& !record_at(after, id).refunded
        }),
{
}

/// Opening an escrow moves its amount into the holding account: the ledger
/// carries the deposit out, the sender then holds that much less and the
/// holding account that much more, where the two are different accounts.
pub proof fn lemma_deposit_funds_holding_account(
    ledger: Ledger,
    info: EscrowInfo,
    token: Address,
    holding: Address,
    sender_balance: i128,
)
    requires
        create_refusal(true, info.amount, sender_balance) is None,
        sender_balance == ledger.balance(token, info.sender),
        info.sender != holding,
    ensures
        ({
            let funded = ledger.after(info.deposit(token, holding));
            &&& ledger.permits(info.deposit(token, holding))
            &&& funded.balance(token, info.sender) == ledger.balance(token, info.sender)
                - info.amount
            &&& funded.balance(token, holding) == ledger.balance(token, holding) + info.amount
        }),
{
}

/// A release marks the escrow released and moves its amount: the receiver
/// then holds that much more and the holding account that much less, where
/// the two are different accounts.
pub proof fn lemma_release_pays_receiver(
    ledger: Ledger,
    escrows: Seq<EscrowInfo>,
    id: u32,
    token: Address,
    holding: Address,
    holding_balance: i128,
)
    requires
        release_refusal(escrows, id, holding_balance) is None,
        holding_balance == ledger.balance(token, holding),
        record_at(escrows, id).receiver != holding,
    ensures
        ({
            let info = record_at(escrows, id);
            let after = with_record(escrows, id, info.as_released());
            let paid = ledger.after(info.payout(token, holding));
            &&& record_at(after, id).released
            &&& !record_at(after, id).refunded
            &&& ledger.permits(info.payout(token, holding))
            &&& paid.balance(token, info.receiver) == ledger.balance(token, info.receiver)
                + info.amount
            &&& paid.balance(token, holding) == ledger.balance(token, holding) - info.amount
        }),
{
}

/// A refund marks the escrow refunded, and it undoes the deposit: once an
/// escrow is funded and then refunded, every account holds what it held
/// before the escrow was opened.
pub proof fn lemma_refund_restores_sender(
    ledger: Ledger,
    escrows: Seq<EscrowInfo>,
    id: u32,
    token: Address,
    holding: Address,
    holding_balance: i128,
)
    requires
        ledger.wf(),
        refund_refusal(escrows, id, true, holding_balance) is None,
    ensures
        ({
            let info = record_at(escrows, id);
            let after = with_record(escrows, id, info.as_refunded());
            let funded = ledger.after(info.deposit(token, holding));
            let refunded = funded.after(info.repayment(token, holding));
            &&& record_at(after, id).refunded
            &&& !record_at(after, id).released
            &&& ledger.permits(info.deposit(token, holding)) ==> funded.permits(
                info.repayment(token, holding),
            )
            &&& forall|t: Address, owner: Address| #[trigger]
                refunded.balance(t, owner) == ledger.balance(t, owner)
        }),
{
    let info = record_at(escrows, id);
    let deposit = info.deposit(token, holding);
    let repayment = info.repayment(token, holding);
    let funded = ledger.after(deposit);
    let refunded = funded.after(repayment);
    if info.sender == holding {
        lemma_transfer_to_self_changes_nothing(ledger, deposit);
        lemma_transfer_to_self_changes_nothing(funded, repayment);
    } else {
        lemma_transfer_moves_amount(ledger, deposit);
        lemma_transfer_moves_amount(funded, repayment);
    }
}

/// Once an escrow is released, every further release of it and every refund
/// that its sender asks for is refused as an invalid state.
pub proof fn lemma_released_escrow_is_closed(
    escrows: Seq<EscrowInfo>,
    id: u32,
    first_balance: i128,
    second_balance: i128,
)
    requires
        release_refusal(escrows, id, first_balance) is None,
    ensures
        ({
            let after = with_record(escrows, id, record_at(escrows, id).as_released());
            &&& refund_refusal(after, id, true, second_balance) == Some(Error::InvalidState)
            &&& release_refusal(after, id, second_balance) == Some(Error::InvalidState)
        }),
{
}

/// Once an escrow is refunded, every release of it and every further refund
/// that its sender asks for is refused as an invalid state.
pub proof fn lemma_refunded_escrow_is_closed(
    escrows: Seq<EscrowInfo>,
    id: u32,
    first_balance: i128,
    second_balance: i128,
)
    requires
        refund_refusal(escrows, id, true, first_balance) is None,
    ensures
        ({
            let after = with_record(escrows, id, record_at(escrows, id).as_refunded());
            &&& release_refusal(after, id, second_balance) == Some(Error::InvalidState)
            &&& refund_refusal(after, id, true, second_balance) == Some(Error::InvalidState)
        }),
{
}

/// A terminal escrow never changes: opening another escrow leaves it as it
/// is, and so does every release or refund of another escrow, while every
/// release or refund of the escrow itself is refused.
pub proof fn lemma_terminal_escrow_is_final(
    escrows: Seq<EscrowInfo>,
    id: u32,
    opened: EscrowInfo,
    other: u32,
    authorized: bool,
    holding_balance: i128,
)
    requires
        has_id(escrows, id),
        record_at(escrows, id).is_terminal(),
    ensures
        record_at(escrows.push(opened), id) == record_at(escrows, id),
        release_refusal(escrows, id, holding_balance) is Some,
        refund_refusal(escrows, id, authorized, holding_balance) is Some,
        release_refusal(escrows, other, holding_balance) is None ==> record_at(
            with_record(escrows, other, record_at(escrows, other).as_released()),
            id,
        ) == record_at(escrows, id),
        refund_refusal(escrows, other, authorized, holding_balance) is None ==> record_at(
            with_record(escrows, other, record_at(escrows, other).as_refunded()),
            id,
        ) == record_at(escrows, id),
{
}

} // verus!
