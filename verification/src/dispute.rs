//! The dispute resolver: a contested payment that a resolver decides for the
//! initiator or for the respondent.
//!
//! A dispute is opened by its initiator and starts open. Resolving it pays
//! its amount out of the holding account, to the initiator where the decision
//! is in the initiator's favour and to the respondent where it is not, and
//! records the resolver and the decision. A resolved dispute never changes
//! again. No operation cancels a dispute: the status exists for records that
//! were cancelled elsewhere.

use crate::error::Error;
use crate::ledger::{Ledger, Transfer};
use crate::sdk::{clone_address, clone_symbol};
use crate::store::{has_id, record_at, with_record, RecordStore};
use soroban_sdk::{Address, Symbol};
use vstd::prelude::*;

verus! {

/// Where a dispute stands.
#[derive(Clone, Copy, Debug, PartialEq, Eq, Structural)]
pub enum DisputeStatus {
    Open,
    Resolved,
    Canceled,
}

/// One dispute.
#[derive(Debug, PartialEq, Eq)]
pub struct Dispute {
    pub payment_id: u32,
    pub initiator: Address,
    pub respondent: Address,
    pub reason: Symbol,
    pub status: DisputeStatus,
    pub resolver: Option<Address>,
    /// `true` favours the initiator, `false` the respondent.
    pub decision: Option<bool>,
    pub amount: i128,
    pub token_address: Address,
}

impl Clone for Dispute {
    fn clone(&self) -> (copy: Self)
        ensures
            copy == *self,
    {
        let resolver = match &self.resolver {
            Some(address) => Some(clone_address(address)),
            None => None,
        };
        Dispute {
            payment_id: self.payment_id,
            initiator: clone_address(&self.initiator),
            respondent: clone_address(&self.respondent),
            reason: clone_symbol(&self.reason),
            status: self.status,
            resolver,
            decision: self.decision,
            amount: self.amount,
            token_address: clone_address(&self.token_address),
        }
    }
}

impl Dispute {
    /// The amount is positive, and resolver and decision are recorded
    /// together, exactly on a resolved dispute.
    pub open spec fn wf(self) -> bool {
        &&& self.amount > 0
        &&& self.status == DisputeStatus::Resolved <==> self.resolver is Some
        &&& self.resolver is Some <==> self.decision is Some
    }

    /// Whether this dispute is well formed.
    pub fn is_well_formed(&self) -> (ok: bool)
        ensures
            ok == self.wf(),
    {
        let resolved = match self.status {
            DisputeStatus::Resolved => true,
            _ => false,
        };
        self.amount > 0 && resolved == self.resolver.is_some() && self.resolver.is_some()
            == self.decision.is_some()
    }

    /// The dispute as `open_dispute` stores it: open, with neither resolver
    /// nor decision.
    pub open spec fn opened(
        payment_id: u32,
        initiator: Address,
        respondent: Address,
        reason: Symbol,
        amount: i128,
        token_address: Address,
    ) -> Dispute {
        Dispute {
            payment_id,
            initiator,
            respondent,
            reason,
            status: DisputeStatus::Open,
            resolver: None,
            decision: None,
            amount,
            token_address,
        }
    }

    /// The transfer that settles this dispute with `decision`: its amount,
    /// from the holding account to the favoured party.
    pub open spec fn payout(self, holding: Address, decision: bool) -> Transfer {
        Transfer {
            token: self.token_address,
            from: holding,
            to: self.favoured(decision),
            amount: self.amount,
        }
    }

    /// The party that a decision favours.
    pub open spec fn favoured(self, decision: bool) -> Address {
        if decision {
            self.initiator
        } else {
            self.respondent
        }
    }

    /// This dispute, resolved by `resolver` with `decision`.
    pub open spec fn as_resolved(self, resolver: Address, decision: bool) -> Dispute {
        Dispute {
            status: DisputeStatus::Resolved,
            resolver: Some(resolver),
            decision: Some(decision),
            ..self
        }
    }
}

/// Every dispute of the family is well formed.
pub open spec fn disputes_wf(disputes: Seq<Dispute>) -> bool {
    forall|i: int| 0 <= i < disputes.len() ==> (#[trigger] disputes[i]).wf()
}

/// Why opening a dispute is refused, if it is: the initiator has not
/// consented.
pub open spec fn open_refusal(authorized: bool) -> Option<Error> {
    if !authorized {
        Some(Error::AuthorizationFailure)
    } else {
        None
    }
}

/// Why resolving dispute `id` is refused, if it is: the resolver has not
/// consented, there is no such dispute, it is not open, or the holding
/// account holds less than its amount.
pub open spec fn resolve_refusal(
    disputes: Seq<Dispute>,
    id: u32,
    authorized: bool,
    holding_balance: i128,
) -> Option<Error> {
    if !authorized {
        Some(Error::AuthorizationFailure)
    } else if !has_id(disputes, id) {
        Some(Error::NotFound)
    } else if record_at(disputes, id).status != DisputeStatus::Open {
        Some(Error::InvalidState)
    } else if holding_balance < record_at(disputes, id).amount {
        Some(Error::InsufficientFunds)
    } else {
        None
    }
}

/// The dispute resolver with its family of disputes.
pub struct DisputeResolution {
    disputes: RecordStore<Dispute>,
}

impl View for DisputeResolution {
    type V = Seq<Dispute>;

    /// The disputes in the order of their identifiers.
    closed spec fn view(&self) -> Seq<Dispute> {
        self.disputes@
    }
}

impl DisputeResolution {
    /// The counter fits an identifier and every dispute is well formed.
    pub open spec fn wf(&self) -> bool {
        self@.len() <= u32::MAX && disputes_wf(self@)
    }

    /// A resolver without disputes.
    pub fn new() -> (resolution: Self)
        ensures
            resolution@ == Seq::<Dispute>::empty(),
            resolution.wf(),
    {
        DisputeResolution { disputes: RecordStore::new() }
    }

    /// A manager over `records`, numbered from 1 in their order: the way back
    /// from disputes that were stored elsewhere. `None` where one of them is
    /// not well formed or they are more than identifiers can number.
    pub fn from_records(records: Vec<Dispute>) -> (restored: Option<Self>)
        ensures
            restored is Some <==> records@.len() <= u32::MAX && disputes_wf(records@),
            restored matches Some(manager) ==> manager@ == records@ && manager.wf(),
    {
        let mut i: usize = 0;
        while i < records.len()
            invariant
                0 <= i <= records.len(),
                forall|j: int| 0 <= j < i ==> (#[trigger] records@[j]).wf(),
            decreases records.len() - i,
        {
            if !records[i].is_well_formed() {
                return None;
            }
            i = i + 1;
        }
        match RecordStore::from_records(records) {
            Some(disputes) => Some(DisputeResolution { disputes }),
            None => None,
        }
    }

    /// The number of disputes opened so far, which is the identifier given
    /// out last.
    pub fn count(&self) -> (count: u32)
        requires
            self.wf(),
        ensures
            count == self@.len(),
    {
        self.disputes.count()
    }

    /// Opens a dispute over payment `payment_id`.
    ///
    /// Needs the initiator's consent. On success the dispute is stored under
    /// the next identifier, open, with neither resolver nor decision. No
    /// value moves.
    pub fn open_dispute(
        &mut self,
        payment_id: u32,
        initiator: Address,
        respondent: Address,
        reason: Symbol,
        amount: i128,
        token_address: Address,
        authorized: bool,
    ) -> (result: Result<u32, Error>)
        requires
            old(self).wf(),
            old(self)@.len() < u32::MAX,
            amount > 0,
        ensures
            final(self).wf(),
            match result {
                Ok(id) => {
                    &&& open_refusal(authorized) is None
                    &&& id == old(self)@.len() + 1
                    &&& final(self)@ == old(self)@.push(
                        Dispute::opened(
                            payment_id,
                            initiator,
                            respondent,
                            reason,
                            amount,
                            token_address,
                        ),
                    )
                },
                Err(e) => {
                    &&& open_refusal(authorized) == Some(e)
                    &&& final(self)@ == old(self)@
                },
            },
    {
        if !authorized {
            return Err(Error::AuthorizationFailure);
        }
        let info = Dispute {
            payment_id,
            initiator,
            respondent,
            reason,
            status: DisputeStatus::Open,
            resolver: None,
            decision: None,
            amount,
            token_address,
        };
        Ok(self.disputes.allocate(info))
    }

    /// Resolves dispute `dispute_id` as `resolver` decides.
    ///
    /// Needs the resolver's consent; any account may act as resolver. On
    /// success the dispute is marked resolved, resolver and decision are
    /// recorded with it, and the caller is told to move its amount from the
    /// holding account to the favoured party.
    pub fn resolve_dispute(
        &mut self,
        dispute_id: u32,
        resolver: Address,
        decision: bool,
        holding: Address,
        holding_balance: i128,
        authorized: bool,
    ) -> (result: Result<Transfer, Error>)
        requires
            old(self).wf(),
        ensures
            final(self).wf(),
            match result {
                Ok(payout) => {
                    &&& resolve_refusal(old(self)@, dispute_id, authorized, holding_balance) is None
                    &&& final(self)@ == with_record(
                        old(self)@,
                        dispute_id,
                        record_at(old(self)@, dispute_id).as_resolved(resolver, decision),
                    )
                    &&& payout == record_at(old(self)@, dispute_id).payout(holding, decision)
                },
                Err(e) => {
                    &&& resolve_refusal(old(self)@, dispute_id, authorized, holding_balance)
                        == Some(e)
                    &&& final(self)@ == old(self)@
                },
            },
    {
        if !authorized {
            return Err(Error::AuthorizationFailure);
        }
        let mut info = match self.disputes.get(dispute_id) {
            Some(found) => found.clone(),
            None => {
                return Err(Error::NotFound);
            },
        };
        if info.status != DisputeStatus::Open {
            return Err(Error::InvalidState);
        }
        if holding_balance < info.amount {
            return Err(Error::InsufficientFunds);
        }
        let favoured = if decision {
            clone_address(&info.initiator)
        } else {
            clone_address(&info.respondent)
        };
        let payout = Transfer {
            token: clone_address(&info.token_address),
            from: holding,
            to: favoured,
            amount: info.amount,
        };
        info.status = DisputeStatus::Resolved;
        info.resolver = Some(resolver);
        info.decision = Some(decision);
        self.disputes.put(dispute_id, info);
        Ok(payout)
    }

    /// A copy of dispute `dispute_id`.
    pub fn get_dispute(&self, dispute_id: u32) -> (result: Result<Dispute, Error>)
        ensures
            match result {
                Ok(info) => has_id(self@, dispute_id) && info == record_at(self@, dispute_id),
                Err(e) => !has_id(self@, dispute_id) && e == Error::NotFound,
            },
    {
        match self.disputes.get(dispute_id) {
            Some(found) => Ok(found.clone()),
            None => Err(Error::NotFound),
        }
    }
}

/// A dispute that was just opened is found under the identifier that
/// `open_dispute` returned, open and undecided.
pub proof fn lemma_opened_dispute_is_open(disputes: Seq<Dispute>, opened: Dispute)
    requires
        disputes.len() < u32::MAX,
        opened.status == DisputeStatus::Open,
    ensures
        ({
            let id = (disputes.len() + 1) as u32;
            &&& has_id(disputes.push(opened), id)
            &&& !has_id(disputes, id)
            &&& record_at(disputes.push(opened), id) == opened
        }),
{
}

/// Resolving a dispute that is not open is refused as an invalid state,
/// whoever the consenting resolver is.
pub proof fn lemma_resolve_needs_open_dispute(
    disputes: Seq<Dispute>,
    id: u32,
    holding_balance: i128,
)
    requires
        has_id(disputes, id),
        record_at(disputes, id).status != DisputeStatus::Open,
    ensures
        resolve_refusal(disputes, id, true, holding_balance) == Some(Error::InvalidState),
{
}

/// A resolution marks the dispute resolved, records resolver and decision,
/// and pays the favoured party: the initiator where the decision is `true`,
/// the respondent where it is `false`. That party then holds the amount more
/// and the holding account the amount less, where the two are different
/// accounts.
pub proof fn lemma_resolution_pays_favoured_party(
    ledger: Ledger,
    disputes: Seq<Dispute>,
    id: u32,
    resolver: Address,
    decision: bool,
    holding: Address,
    holding_balance: i128,
)
    requires
        resolve_refusal(disputes, id, true, holding_balance) is None,
        holding_balance == ledger.balance(record_at(disputes, id).token_address, holding),
        record_at(disputes, id).favoured(decision) != holding,
    ensures
        ({
            let info = record_at(disputes, id);
            let after = with_record(disputes, id, info.as_resolved(resolver, decision));
            let payout = info.payout(holding, decision);
            let paid = ledger.after(payout);
            &&& record_at(after, id).status == DisputeStatus::Resolved
            &&& record_at(after, id).resolver == Some(resolver)
            &&& record_at(after, id).decision == Some(decision)
            &&& payout.amount == info.amount
            &&& decision ==> payout.to == info.initiator
            &&& !decision ==> payout.to == info.respondent
            &&& ledger.permits(payout)
            &&& paid.balance(info.token_address, payout.to) == ledger.balance(
                info.token_address,
                payout.to,
            ) + info.amount
            &&& paid.balance(info.token_address, holding) == ledger.balance(
                info.token_address,
                holding,
            ) - info.amount
        }),
{
}

/// A resolved dispute never changes: opening another dispute leaves it as it
/// is, so does resolving another dispute, and every attempt to resolve it
/// again is refused.
pub proof fn lemma_resolved_dispute_is_final(
    disputes: Seq<Dispute>,
    id: u32,
    opened: Dispute,
    other: u32,
    resolver: Address,
    decision: bool,
    authorized: bool,
    holding_balance: i128,
)
    requires
        has_id(disputes, id),
        record_at(disputes, id).status == DisputeStatus::Resolved,
    ensures
        record_at(disputes.push(opened), id) == record_at(disputes, id),
        resolve_refusal(disputes, id, authorized, holding_balance) is Some,
        resolve_refusal(disputes, other, authorized, holding_balance) is None ==> record_at(
            with_record(disputes, other, record_at(disputes, other).as_resolved(resolver, decision)),
            id,
        ) == record_at(disputes, id),
{
}

/// No operation cancels a dispute: where none is cancelled before a dispute
/// is opened or resolved, none is cancelled after.
pub proof fn lemma_no_dispute_is_canceled(
    disputes: Seq<Dispute>,
    opened: Dispute,
    other: u32,
    resolver: Address,
    decision: bool,
)
    requires
        forall|j: int| 0 <= j < disputes.len() ==> (#[trigger] disputes[j]).status
            != DisputeStatus::Canceled,
        opened.status == DisputeStatus::Open,
        has_id(disputes, other),
    ensures
        forall|j: int| 0 <= j <= disputes.len() ==> (#[trigger] disputes.push(opened)[j]).status
            != DisputeStatus::Canceled,
        forall|j: int|
            0 <= j < disputes.len() ==> (#[trigger] with_record(
                disputes,
                other,
                record_at(disputes, other).as_resolved(resolver, decision),
            )[j]).status != DisputeStatus::Canceled,
{
}

} // verus!
