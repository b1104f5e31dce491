//! The recurring payment scheduler: a fixed amount paid from payer to payee
//! a fixed number of times, one interval apart.
//!
//! Setting a schedule up pays the first instalment at once. Every later
//! instalment is paid by `execute`, which anyone may call once the
//! instalment is due. Each payment counts one instalment and moves the due
//! time on by one interval. A schedule whose instalments are all paid stays
//! in the store and refuses every further execution.

use crate::error::Error;
use crate::ledger::{Ledger, Transfer};
use crate::sdk::clone_address;
use crate::store::{has_id, record_at, with_record, RecordStore};
use soroban_sdk::Address;
use vstd::prelude::*;

verus! {

/// One payment schedule.
#[derive(Debug, PartialEq, Eq)]
pub struct RecurringPayment {
    pub payer: Address,
    pub payee: Address,
    pub amount: i128,
    pub interval: u64,
    pub next_payment: u64,
    pub iterations: u32,
    pub completed: u32,
    pub token_address: Address,
}

impl Clone for RecurringPayment {
    fn clone(&self) -> (copy: Self)
        ensures
            copy == *self,
    {
        RecurringPayment {
            payer: clone_address(&self.payer),
            payee: clone_address(&self.payee),
            amount: self.amount,
            interval: self.interval,
            next_payment: self.next_payment,
            iterations: self.iterations,
            completed: self.completed,
            token_address: clone_address(&self.token_address),
        }
    }
}

impl RecurringPayment {
    /// Amount and interval are positive, no more instalments are paid than
    /// the schedule has, and the due times of the instalments still to come
    /// can all be represented.
    pub open spec fn wf(self) -> bool {
        &&& self.amount > 0
        &&& self.interval > 0
        &&& self.completed <= self.iterations
        &&& self.next_payment + (self.iterations - self.completed) * self.interval <= u64::MAX
    }

    /// Whether this schedule is well formed.
    pub fn is_well_formed(&self) -> (ok: bool)
        ensures
            ok == self.wf(),
    {
        if self.amount <= 0 || self.interval == 0 || self.completed > self.iterations {
            return false;
        }
        let left: u128 = (self.iterations - self.completed) as u128;
        let step: u128 = self.interval as u128;
        assert(left * step <= 0xffff_ffff * 0xffff_ffff_ffff_ffff) by (nonlinear_arith)
            requires
                0 <= left <= 0xffff_ffff,
                0 <= step <= 0xffff_ffff_ffff_ffff,
        ;
        self.next_payment as u128 + left * step <= u64::MAX as u128
    }

    /// Every instalment is paid.
    pub open spec fn is_complete(self) -> bool {
        self.completed >= self.iterations
    }

    /// This schedule once one more instalment is paid: one more is counted
    /// and the next is due one interval later.
    pub open spec fn after_payment(self) -> RecurringPayment {
        RecurringPayment {
            completed: (self.completed + 1) as u32,
            next_payment: (self.next_payment + self.interval) as u64,
            ..self
        }
    }

    /// This schedule once `count` more instalments are paid.
    pub open spec fn after_payments(self, count: nat) -> RecurringPayment
        decreases count,
    {
        if count == 0 {
            self
        } else {
            self.after_payments((count - 1) as nat).after_payment()
        }
    }

    /// The transfer that pays one instalment of this schedule.
    pub open spec fn instalment(self) -> Transfer {
        Transfer {
            token: self.token_address,
            from: self.payer,
            to: self.payee,
            amount: self.amount,
        }
    }
}

/// The schedule as `setup` first stores it at time `now`: nothing paid, the
/// next payment due one interval from now.
pub open spec fn scheduled(
    payer: Address,
    payee: Address,
    amount: i128,
    interval: u64,
    iterations: u32,
    token_address: Address,
    now: u64,
) -> RecurringPayment {
    RecurringPayment {
        payer,
        payee,
        amount,
        interval,
        next_payment: (now + interval) as u64,
        iterations,
        completed: 0,
        token_address,
    }
}

/// Every schedule of the family is well formed.
pub open spec fn payments_wf(payments: Seq<RecurringPayment>) -> bool {
    forall|i: int| 0 <= i < payments.len() ==> (#[trigger] payments[i]).wf()
}

/// Why setting a schedule up is refused, if it is: the payer has not
/// consented, holds less than one instalment, or the schedule has no
/// instalment for the first payment to count against.
pub open spec fn setup_refusal(
    authorized: bool,
    amount: i128,
    iterations: u32,
    payer_balance: i128,
) -> Option<Error> {
    if !authorized {
        Some(Error::AuthorizationFailure)
    } else if payer_balance < amount {
        Some(Error::InsufficientFunds)
    } else if iterations == 0 {
        Some(Error::InvalidState)
    } else {
        None
    }
}

/// Why executing schedule `id` at time `now` is refused, if it is: there is
/// no such schedule, its next payment is not yet due, all its instalments are
/// paid, or the payer holds less than one instalment.
pub open spec fn execute_refusal(
    payments: Seq<RecurringPayment>,
    id: u32,
    now: u64,
    payer_balance: i128,
) -> Option<Error> {
    if !has_id(payments, id) {
        Some(Error::NotFound)
    } else if now < record_at(payments, id).next_payment {
        Some(Error::TooEarly)
    } else if record_at(payments, id).is_complete() {
        Some(Error::InvalidState)
    } else if payer_balance < record_at(payments, id).amount {
        Some(Error::InsufficientFunds)
    } else {
        None
    }
}

/// The scheduler with its family of payment schedules.
pub struct RecurringPayments {
    payments: RecordStore<RecurringPayment>,
}

impl View for RecurringPayments {
    type V = Seq<RecurringPayment>;

    /// The schedules in the order of their identifiers.
    closed spec fn view(&self) -> Seq<RecurringPayment> {
        self.payments@
    }
}

impl RecurringPayments {
    /// The counter fits an identifier and every schedule is well formed.
    pub open spec fn wf(&self) -> bool {
        self@.len() <= u32::MAX && payments_wf(self@)
    }

    /// A scheduler without schedules.
    pub fn new() -> (scheduler: Self)
        ensures
            scheduler@ == Seq::<RecurringPayment>::empty(),
            scheduler.wf(),
    {
        RecurringPayments { payments: RecordStore::new() }
    }

    /// A manager over `records`, numbered from 1 in their order: the way back
    /// from schedules that were stored elsewhere. `None` where one of them is
    /// not well formed or they are more than identifiers can number.
    pub fn from_records(records: Vec<RecurringPayment>) -> (restored: Option<Self>)
        ensures
            restored is Some <==> records@.len() <= u32::MAX && payments_wf(records@),
            restored matches Some(manager) ==> manager@ == records@ && manager.wf(),
    {
        let mut i: usize = 0;
        while i < records.len()
            invariant
                0 <= i <= records.len(),
                forall|j: int| 0 <= j < i ==> (#[trigger] records@[j]).wf(),
            decreases records.len() - i,
        {
            if !records[i].is_well_formed() {
                return None;
            }
            i = i + 1;
        }
        match RecordStore::from_records(records) {
            Some(payments) => Some(RecurringPayments { payments }),
            None => None,
        }
    }

    /// The number of schedules set up so far, which is the identifier given
    /// out last.
    pub fn count(&self) -> (count: u32)
        requires
            self.wf(),
        ensures
            count == self@.len(),
    {
        self.payments.count()
    }

    /// Sets up a schedule of `iterations` payments of `amount` from `payer`
    /// to `payee`, `interval` apart, and pays the first at once.
    ///
    /// Needs the payer's consent, and the payer must hold one instalment. On
    /// success the schedule is stored under the next identifier with one
    /// instalment counted and the next due two intervals after `now`, and the
    /// caller is told to move the first instalment.
    ///
    /// The due time that would follow the last instalment must be
    /// representable: `now + (iterations + 1) * interval` fits 64 bits.
    pub fn setup(
        &mut self,
        payer: Address,
        payee: Address,
        amount: i128,
        interval: u64,
        iterations: u32,
        token_address: Address,
        now: u64,
        payer_balance: i128,
        authorized: bool,
    ) -> (result: Result<(u32, Transfer), Error>)
        requires
            old(self).wf(),
            old(self)@.len() < u32::MAX,
            amount > 0,
            interval > 0,
            now + (iterations + 1) * interval <= u64::MAX,
        ensures
            final(self).wf(),
            match result {
                Ok((id, first)) => {
                    &&& setup_refusal(authorized, amount, iterations, payer_balance) is None
                    &&& id == old(self)@.len() + 1
                    &&& final(self)@ == old(self)@.push(
                        scheduled(
                            payer,
                            payee,
                            amount,
                            interval,
                            iterations,
                            token_address,
                            now,
                        ).after_payment(),
                    )
                    &&& first == scheduled(
                        payer,
                        payee,
                        amount,
                        interval,
                        iterations,
                        token_address,
                        now,
                    ).instalment()
                },
                Err(e) => {
                    &&& setup_refusal(authorized, amount, iterations, payer_balance) == Some(e)
                    &&& final(self)@ == old(self)@
                },
            },
    {
        if !authorized {
            return Err(Error::AuthorizationFailure);
        }
        if payer_balance < amount {
            return Err(Error::InsufficientFunds);
        }
        if iterations == 0 {
            return Err(Error::InvalidState);
        }
        assert(now + interval <= now + (iterations + 1) * interval) by (nonlinear_arith)
            requires
                iterations >= 1,
                interval > 0,
        ;
        let info = RecurringPayment {
            payer,
            payee,
            amount,
            interval,
            next_payment: now + interval,
            iterations,
            completed: 0,
            token_address,
        };
        assert(info.wf()) by (nonlinear_arith)
            requires
                info.amount > 0,
                info.interval == interval,
                info.interval > 0,
                info.completed == 0,
                info.iterations == iterations,
                info.next_payment == now + interval,
                now + (iterations + 1) * interval <= u64::MAX,
        ;
        let id = self.payments.allocate(info);
        let first = self.execute_payment(id);
        Ok((id, first))
    }

    /// Pays the next instalment of schedule `payment_id`, if it is due at
    /// time `now`.
    ///
    /// Anyone may ask for it. On success one more instalment is counted, the
    /// next is due one interval later, and the caller is told to move one
    /// instalment from the payer to the payee. Nothing advances where the
    /// payer holds less than one instalment.
    pub fn execute(&mut self, payment_id: u32, now: u64, payer_balance: i128) -> (result: Result<
        Transfer,
        Error,
    >)
        requires
            old(self).wf(),
        ensures
            final(self).wf(),
            match result {
                Ok(payment) => {
                    &&& execute_refusal(old(self)@, payment_id, now, payer_balance) is None
                    &&& final(self)@ == with_record(
                        old(self)@,
                        payment_id,
                        record_at(old(self)@, payment_id).after_payment(),
                    )
                    &&& payment == record_at(old(self)@, payment_id).instalment()
                },
                Err(e) => {
                    &&& execute_refusal(old(self)@, payment_id, now, payer_balance) == Some(e)
                    &&& final(self)@ == old(self)@
                },
            },
    {
        match self.payments.get(payment_id) {
            Some(info) => {
                if now < info.next_payment {
                    return Err(Error::TooEarly);
                }
                if info.completed >= info.iterations {
                    return Err(Error::InvalidState);
                }
                if payer_balance < info.amount {
                    return Err(Error::InsufficientFunds);
                }
            },
            None => {
                return Err(Error::NotFound);
            },
        }
        Ok(self.execute_payment(payment_id))
    }

    /// Counts one more instalment of schedule `payment_id`, moves its due
    /// time on by one interval, and returns the transfer that pays the
    /// instalment.
    fn execute_payment(&mut self, payment_id: u32) -> (payment: Transfer)
        requires
            old(self).wf(),
            has_id(old(self)@, payment_id),
            !record_at(old(self)@, payment_id).is_complete(),
        ensures
            final(self).wf(),
            final(self)@ == with_record(
                old(self)@,
                payment_id,
                record_at(old(self)@, payment_id).after_payment(),
            ),
            payment == record_at(old(self)@, payment_id).instalment(),
    {
        let mut info = self.payments.at(payment_id).clone();
        let ghost before = info;
        assert(before.next_payment + before.interval <= u64::MAX && (before.next_payment
            + before.interval) + (before.iterations - (before.completed + 1)) * before.interval
            == before.next_payment + (before.iterations - before.completed) * before.interval)
            by (nonlinear_arith)
            requires
                before.completed < before.iterations,
                before.interval > 0,
                before.next_payment + (before.iterations - before.completed) * before.interval
                    <= u64::MAX,
        ;
        let payment = Transfer {
            token: clone_address(&info.token_address),
            from: clone_address(&info.payer),
            to: clone_address(&info.payee),
            amount: info.amount,
        };
        info.completed = info.completed + 1;
        info.next_payment = info.next_payment + info.interval;
        self.payments.put(payment_id, info);
        payment
    }

    /// A copy of schedule `payment_id`.
    pub fn get_payment(&self, payment_id: u32) -> (result: Result<RecurringPayment, Error>)
        ensures
            match result {
                Ok(info) => has_id(self@, payment_id) && info == record_at(self@, payment_id),
                Err(e) => !has_id(self@, payment_id) && e == Error::NotFound,
            },
    {
        match self.payments.get(payment_id) {
            Some(found) => Ok(found.clone()),
            None => Err(Error::NotFound),
        }
    }
}

/// A schedule that was just set up is found under the identifier that
/// `setup` returned, with its first instalment counted and the next due two
/// intervals after the time of the call.
pub proof fn lemma_setup_counts_first_payment(
    payments: Seq<RecurringPayment>,
    payer: Address,
    payee: Address,
    amount: i128,
    interval: u64,
    iterations: u32,
    token_address: Address,
    now: u64,
)
    requires
        payments.len() < u32::MAX,
        amount > 0,
        interval > 0,
        iterations >= 1,
        now + (iterations + 1) * interval <= u64::MAX,
    ensures
        ({
            let id = (payments.len() + 1) as u32;
            let stored = scheduled(
                payer,
                payee,
                amount,
                interval,
                iterations,
                token_address,
                now,
            ).after_payment();
            &&& has_id(payments.push(stored), id)
            &&& record_at(payments.push(stored), id) == stored
            &&& stored.completed == 1
            &&& stored.next_payment == now + 2 * interval
            &&& stored.wf()
        }),
{
    assert(now + 2 * interval <= now + (iterations + 1) * interval && now + 2 * interval + (
    iterations - 1) * interval == now + (iterations + 1) * interval) by (nonlinear_arith)
        requires
            iterations >= 1,
            interval > 0,
    ;
}

/// Paying instalments never counts more than the schedule has: as long as
/// no more are paid than are left, each payment counts one instalment and
/// moves the due time on by one interval, and the schedule stays well
/// formed.
pub proof fn lemma_payments_stay_within_iterations(info: RecurringPayment, count: nat)
    requires
        info.wf(),
        info.completed + count <= info.iterations,
    ensures
        info.after_payments(count).wf(),
        info.after_payments(count).completed == info.completed + count,
        info.after_payments(count).completed <= info.iterations,
        info.after_payments(count).next_payment == info.next_payment + count * info.interval,
        info.after_payments(count).iterations == info.iterations,
        info.after_payments(count).interval == info.interval,
        info.after_payments(count).amount == info.amount,
    decreases count,
{
    if count > 0 {
        let before = info.after_payments((count - 1) as nat);
        lemma_payments_stay_within_iterations(info, (count - 1) as nat);
        assert(before.next_payment + before.interval <= u64::MAX && (before.next_payment
            + before.interval) + (before.iterations - (before.completed + 1)) * before.interval
            == before.next_payment + (before.iterations - before.completed) * before.interval
            && info.next_payment + (count - 1) * info.interval + info.interval
            == info.next_payment + count * info.interval) by (nonlinear_arith)
            requires
                before.completed < before.iterations,
                before.interval > 0,
                before.next_payment + (before.iterations - before.completed) * before.interval
                    <= u64::MAX,
        ;
    }
}

/// An accepted execution pays one instalment: the ledger carries the
/// transfer out, the payee then holds the amount more and the payer the
/// amount less, where the two are different accounts, and the schedule counts
/// one instalment more.
pub proof fn lemma_execution_pays_payee(
    ledger: Ledger,
    payments: Seq<RecurringPayment>,
    id: u32,
    now: u64,
    payer_balance: i128,
)
    requires
        payments_wf(payments),
        execute_refusal(payments, id, now, payer_balance) is None,
        payer_balance == ledger.balance(
            record_at(payments, id).token_address,
            record_at(payments, id).payer,
        ),
        record_at(payments, id).payer != record_at(payments, id).payee,
    ensures
        ({
            let info = record_at(payments, id);
            let after = with_record(payments, id, info.after_payment());
            let paid = ledger.after(info.instalment());
            &&& ledger.permits(info.instalment())
            &&& paid.balance(info.token_address, info.payee) == ledger.balance(
                info.token_address,
                info.payee,
            ) + info.amount
            &&& paid.balance(info.token_address, info.payer) == ledger.balance(
                info.token_address,
                info.payer,
            ) - info.amount
            &&& record_at(after, id).completed == info.completed + 1
            &&& record_at(after, id).completed <= info.iterations
            &&& record_at(after, id).next_payment == info.next_payment + info.interval
        }),
{
    let info = record_at(payments, id);
    assert(info.wf());
    assert(info.next_payment + info.interval <= u64::MAX) by (nonlinear_arith)
        requires
            info.completed < info.iterations,
            info.interval > 0,
            info.next_payment + (info.iterations - info.completed) * info.interval <= u64::MAX,
    ;
}

/// An execution before the next payment is due is refused as too early.
pub proof fn lemma_execute_before_due_is_too_early(
    payments: Seq<RecurringPayment>,
    id: u32,
    now: u64,
    payer_balance: i128,
)
    requires
        has_id(payments, id),
        now < record_at(payments, id).next_payment,
    ensures
        execute_refusal(payments, id, now, payer_balance) == Some(Error::TooEarly),
{
}

/// An execution of a schedule whose instalments are all paid is refused as
/// an invalid state, once the time that the schedule holds as next due has
/// come.
pub proof fn lemma_execute_after_completion_is_refused(
    payments: Seq<RecurringPayment>,
    id: u32,
    now: u64,
    payer_balance: i128,
)
    requires
        has_id(payments, id),
        record_at(payments, id).completed == record_at(payments, id).iterations,
        now >= record_at(payments, id).next_payment,
    ensures
        execute_refusal(payments, id, now, payer_balance) == Some(Error::InvalidState),
{
}

/// A schedule whose instalments are all paid never changes again: every
/// execution of it is refused, at any time and whatever the payer holds.
pub proof fn lemma_complete_schedule_is_final(
    payments: Seq<RecurringPayment>,
    id: u32,
    now: u64,
    payer_balance: i128,
)
    requires
        has_id(payments, id),
        record_at(payments, id).is_complete(),
    ensures
        execute_refusal(payments, id, now, payer_balance) is Some,
{
}

} // verus!
