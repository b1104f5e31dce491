//! The payment splitter: one amount divided among weighted recipients.
//!
//! A split names, for each recipient, a percentage of the total. The
//! percentages are whole, none is negative, and together they are exactly
//! one hundred. Creating a split moves nothing; distributing it pays each
//! recipient, straight from the payer, the share `total * percent / 100`
//! rounded down. What rounding leaves over, the dust, is less than one unit
//! per recipient and stays with the payer. A split is distributed at most
//! once, and only where the payer holds the sum of all shares, so that either
//! every recipient is paid or none is.

use crate::error::Error;
use crate::ledger::{
    lemma_transfer_keeps_balances_nonnegative, lemma_transfer_moves_amount,
    lemma_transfer_to_self_changes_nothing, Ledger, Transfer,
};
use crate::sdk::{clone_address, clone_recipients, read_recipients, recipient_entries};
use crate::store::{has_id, record_at, with_record, RecordStore};
use soroban_sdk::Address;
use vstd::prelude::*;

verus! {

/// The sum of the weights of `entries`.
pub open spec fn weight_sum(entries: Seq<(Address, i128)>) -> int
    decreases entries.len(),
{
    if entries.len() == 0 {
        0
    } else {
        weight_sum(entries.drop_last()) + entries.last().1
    }
}

/// No weight is negative.
pub open spec fn weights_nonnegative(entries: Seq<(Address, i128)>) -> bool {
    forall|i: int| 0 <= i < entries.len() ==> (#[trigger] entries[i]).1 >= 0
}

/// The weights are percentages of one whole: none is negative and they sum
/// to exactly one hundred.
pub open spec fn weights_valid(entries: Seq<(Address, i128)>) -> bool {
    weights_nonnegative(entries) && weight_sum(entries) == 100
}

/// The share of `total` that a weight of `percent` is paid: the hundredth
/// part of their product, rounded down.
pub open spec fn share(total: i128, percent: i128) -> int {
    total * percent / 100
}

/// The sum of the shares of `total` that `entries` are paid.
pub open spec fn shares_sum(total: i128, entries: Seq<(Address, i128)>) -> int
    decreases entries.len(),
{
    if entries.len() == 0 {
        0
    } else {
        shares_sum(total, entries.drop_last()) + share(total, entries.last().1)
    }
}

/// What rounding leaves of `total` once every recipient has its share.
pub open spec fn dust(total: i128, entries: Seq<(Address, i128)>) -> int {
    total - shares_sum(total, entries)
}

/// The transfers that distribute `total`: one for each recipient, in the
/// order of `entries`, of that recipient's share, from the payer.
pub open spec fn payouts(
    payer: Address,
    token: Address,
    total: i128,
    entries: Seq<(Address, i128)>,
) -> Seq<Transfer> {
    Seq::new(
        entries.len(),
        |i: int|
            Transfer {
                token,
                from: payer,
                to: entries[i].0,
                amount: share(total, entries[i].1) as i128,
            },
    )
}

/// The weights of the first `k` entries are no more than the weights of all,
/// where none is negative.
pub proof fn lemma_weight_sum_of_prefix(entries: Seq<(Address, i128)>, k: int)
    requires
        weights_nonnegative(entries),
        0 <= k <= entries.len(),
    ensures
        0 <= weight_sum(entries.take(k)) <= weight_sum(entries),
    decreases entries.len(),
{
    if k == entries.len() {
        assert(entries.take(k) =~= entries);
        if k > 0 {
            lemma_weight_sum_of_prefix(entries.drop_last(), k - 1);
        }
    } else {
        lemma_weight_sum_of_prefix(entries.drop_last(), k);
        assert(entries.drop_last().take(k) =~= entries.take(k));
    }
}

/// A share is the product's hundredth part with a remainder below one
/// hundred, it is not negative, and it is no more than the total where the
/// weight is no more than one hundred.
pub proof fn lemma_share_bounds(total: i128, percent: i128)
    requires
        total >= 0,
        percent >= 0,
    ensures
        0 <= total * percent - 100 * share(total, percent) < 100,
        0 <= share(total, percent),
        percent <= 100 ==> share(total, percent) <= total,
{
    assert(0 <= total * percent - 100 * (total * percent / 100) < 100 && 0 <= total * percent
        / 100 && (percent <= 100 ==> total * percent / 100 <= total)) by (nonlinear_arith)
        requires
            total >= 0,
            percent >= 0,
    ;
}

/// The shares together fall short of the weighted total by less than one
/// unit per recipient: one hundred times their sum is the total times the
/// weights, less a remainder below one hundred for each recipient.
pub proof fn lemma_shares_sum_bounds(total: i128, entries: Seq<(Address, i128)>)
    requires
        total >= 0,
        weights_nonnegative(entries),
    ensures
        0 <= total * weight_sum(entries) - 100 * shares_sum(total, entries) <= 99 * entries.len(),
        0 <= shares_sum(total, entries),
    decreases entries.len(),
{
    if entries.len() > 0 {
        let rest = entries.drop_last();
        let percent = entries.last().1;
        lemma_shares_sum_bounds(total, rest);
        lemma_share_bounds(total, percent);
        assert(total * weight_sum(entries) == total * weight_sum(rest) + total * percent)
            by (nonlinear_arith)
            requires
                weight_sum(entries) == weight_sum(rest) + percent,
        ;
    } else {
        assert(total * weight_sum(entries) == 0) by (nonlinear_arith)
            requires
                weight_sum(entries) == 0,
        ;
    }
}

/// The dust of a split with valid weights is not negative and is less than
/// the number of recipients; the shares and the dust together are the total.
pub proof fn lemma_dust_is_small(total: i128, entries: Seq<(Address, i128)>)
    requires
        total >= 0,
        weights_valid(entries),
    ensures
        entries.len() >= 1,
        0 <= dust(total, entries) < entries.len(),
        shares_sum(total, entries) + dust(total, entries) == total,
        0 <= shares_sum(total, entries) <= total,
{
    lemma_shares_sum_bounds(total, entries);
    assert(total * weight_sum(entries) == 100 * total) by (nonlinear_arith)
        requires
            weight_sum(entries) == 100,
    ;
}

/// Whether the weights of `entries` are valid percentages.
pub fn weights_are_valid(entries: &Vec<(Address, i128)>) -> (valid: bool)
    ensures
        valid == weights_valid(entries@),
{
    let mut sum: i128 = 0;
    let mut i: usize = 0;
    while i < entries.len()
        invariant
            0 <= i <= entries.len(),
            0 <= sum <= 100,
            sum == weight_sum(entries@.take(i as int)),
            weights_nonnegative(entries@.take(i as int)),
        decreases entries.len() - i,
    {
        let percent: i128 = entries[i].1;
        if percent < 0 {
            return false;
        }
        proof {
            assert(entries@.take(i + 1).drop_last() =~= entries@.take(i as int));
        }
        if percent > 100 - sum {
            proof {
                if weights_nonnegative(entries@) {
                    lemma_weight_sum_of_prefix(entries@, i + 1);
                }
            }
            return false;
        }
        sum = sum + percent;
        i = i + 1;
    }
    proof {
        assert(entries@.take(i as int) =~= entries@);
    }
    sum == 100
}

/// The share of `total` that a weight of `percent` is paid.
pub fn share_of(total: i128, percent: i128) -> (amount: i128)
    requires
        total >= 0,
        0 <= percent <= 100,
    ensures
        amount == share(total, percent),
        0 <= amount <= total,
{
    let whole: i128 = total / 100;
    let rest: i128 = total % 100;
    proof {
        lemma_share_bounds(total, percent);
        assert(0 <= whole * percent <= total && 0 <= rest * percent <= 9900 && total * percent
            / 100 == whole * percent + rest * percent / 100) by (nonlinear_arith)
            requires
                total >= 0,
                0 <= percent <= 100,
                whole == total / 100,
                rest == total % 100,
        ;
    }
    whole * percent + rest * percent / 100
}

/// The transfers that distribute `total` from `payer` among `entries`, with
/// the sum of their amounts.
pub fn payouts_for(payer: &Address, token: &Address, total: i128, entries: &Vec<(Address, i128)>) -> (result: (
    Vec<Transfer>,
    i128,
))
    requires
        total >= 0,
        weights_valid(entries@),
    ensures
        result.0@ == payouts(*payer, *token, total, entries@),
        result.1 == shares_sum(total, entries@),
{
    let mut transfers: Vec<Transfer> = Vec::new();
    let mut sum: i128 = 0;
    let mut i: usize = 0;
    while i < entries.len()
        invariant
            total >= 0,
            weights_valid(entries@),
            0 <= i <= entries.len(),
            transfers@ == payouts(*payer, *token, total, entries@.take(i as int)),
            sum == shares_sum(total, entries@.take(i as int)),
        decreases entries.len() - i,
    {
        let percent: i128 = entries[i].1;
        proof {
            let seen = entries@.take(i as int);
            let next = entries@.take(i + 1);
            assert(next.drop_last() =~= seen);
            lemma_weight_sum_of_prefix(entries@, i as int);
            lemma_weight_sum_of_prefix(entries@, i + 1);
            lemma_shares_sum_bounds(total, next);
            assert(100 * shares_sum(total, next) <= 100 * total) by (nonlinear_arith)
                requires
                    total >= 0,
                    weight_sum(next) <= 100,
                    100 * shares_sum(total, next) <= total * weight_sum(next),
            ;
        }
        let amount = share_of(total, percent);
        transfers.push(
            Transfer {
                token: clone_address(token),
                from: clone_address(payer),
                to: clone_address(&entries[i].0),
                amount,
            },
        );
        sum = sum + amount;
        i = i + 1;
    }
    proof {
        assert(entries@.take(i as int) =~= entries@);
    }
    (transfers, sum)
}

/// One split.
#[derive(Debug, PartialEq, Eq)]
pub struct PaymentSplit {
    pub payer: Address,
    /// For each recipient, its percentage of the total.
    pub recipients: soroban_sdk::Map<Address, i128>,
    pub total_amount: i128,
    pub distributed: bool,
    pub token_address: Address,
}

impl Clone for PaymentSplit {
    fn clone(&self) -> (copy: Self)
        ensures
            copy == *self,
    {
        PaymentSplit {
            payer: clone_address(&self.payer),
            recipients: clone_recipients(&self.recipients),
            total_amount: self.total_amount,
            distributed: self.distributed,
            token_address: clone_address(&self.token_address),
        }
    }
}

impl PaymentSplit {
    /// The recipients with their weights, in the order in which they are
    /// paid.
    pub open spec fn entries(self) -> Seq<(Address, i128)> {
        match recipient_entries(self.recipients) {
            Some(entries) => entries,
            None => Seq::empty(),
        }
    }

    /// The total is positive, and the recipient map holds addresses with
    /// weights that are valid percentages.
    pub open spec fn wf(self) -> bool {
        &&& self.total_amount > 0
        &&& recipient_entries(self.recipients) is Some
        &&& weights_valid(self.entries())
    }

    /// Whether this split is well formed.
    pub fn is_well_formed(&self) -> (ok: bool)
        ensures
            ok == self.wf(),
    {
        if self.total_amount <= 0 {
            return false;
        }
        match read_recipients(&self.recipients) {
            Some(entries) => weights_are_valid(&entries),
            None => false,
        }
    }

    /// This split, distributed.
    pub open spec fn as_distributed(self) -> PaymentSplit {
        PaymentSplit { distributed: true, ..self }
    }

    /// The transfers that distribute this split.
    pub open spec fn payouts(self) -> Seq<Transfer> {
        payouts(self.payer, self.token_address, self.total_amount, self.entries())
    }

    /// The sum of the shares of this split.
    pub open spec fn shares_sum(self) -> int {
        shares_sum(self.total_amount, self.entries())
    }
}

/// Every split of the family is well formed.
pub open spec fn splits_wf(splits: Seq<PaymentSplit>) -> bool {
    forall|i: int| 0 <= i < splits.len() ==> (#[trigger] splits[i]).wf()
}

/// Why creating a split is refused, if it is: the payer has not consented,
/// the recipients' weights are not valid percentages, or the payer holds
/// less than the total. `entries` is what the recipient map holds.
pub open spec fn create_split_refusal(
    authorized: bool,
    entries: Option<Seq<(Address, i128)>>,
    total_amount: i128,
    payer_balance: i128,
) -> Option<Error> {
    if !authorized {
        Some(Error::AuthorizationFailure)
    } else if !(entries matches Some(list) && weights_valid(list)) {
        Some(Error::InvariantViolation)
    } else if payer_balance < total_amount {
        Some(Error::InsufficientFunds)
    } else {
        None
    }
}

/// Why distributing split `id` is refused, if it is: there is no such split,
/// its payer has not consented, it is already distributed, or the payer holds
/// less than the sum of its shares.
pub open spec fn distribute_refusal(
    splits: Seq<PaymentSplit>,
    id: u32,
    authorized: bool,
    payer_balance: i128,
) -> Option<Error> {
    if !has_id(splits, id) {
        Some(Error::NotFound)
    } else if !authorized {
        Some(Error::AuthorizationFailure)
    } else if record_at(splits, id).distributed {
        Some(Error::InvalidState)
    } else if payer_balance < record_at(splits, id).shares_sum() {
        Some(Error::InsufficientFunds)
    } else {
        None
    }
}

/// The payment splitter with its family of splits.
pub struct PaymentSplitter {
    splits: RecordStore<PaymentSplit>,
}

impl View for PaymentSplitter {
    type V = Seq<PaymentSplit>;

    /// The splits in the order of their identifiers.
    closed spec fn view(&self) -> Seq<PaymentSplit> {
        self.splits@
    }
}

impl PaymentSplitter {
    /// The counter fits an identifier and every split is well formed.
    pub open spec fn wf(&self) -> bool {
        self@.len() <= u32::MAX && splits_wf(self@)
    }

    /// A splitter without splits.
    pub fn new() -> (splitter: Self)
        ensures
            splitter@ == Seq::<PaymentSplit>::empty(),
            splitter.wf(),
    {
        PaymentSplitter { splits: RecordStore::new() }
    }

    /// A manager over `records`, numbered from 1 in their order: the way back
    /// from splits that were stored elsewhere. `None` where one of them is
    /// not well formed or they are more than identifiers can number.
    pub fn from_records(records: Vec<PaymentSplit>) -> (restored: Option<Self>)
        ensures
            restored is Some <==> records@.len() <= u32::MAX && splits_wf(records@),
            restored matches Some(manager) ==> manager@ == records@ && manager.wf(),
    {
        let mut i: usize = 0;
        while i < records.len()
            invariant
                0 <= i <= records.len(),
                forall|j: int| 0 <= j < i ==> (#[trigger] records@[j]).wf(),
            decreases records.len() - i,
        {
            if !records[i].is_well_formed() {
                return None;
            }
            i = i + 1;
        }
        match RecordStore::from_records(records) {
            Some(splits) => Some(PaymentSplitter { splits }),
            None => None,
        }
    }

    /// The number of splits created so far, which is the identifier given
    /// out last.
    pub fn count(&self) -> (count: u32)
        requires
            self.wf(),
        ensures
            count == self@.len(),
    {
        self.splits.count()
    }

    /// Creates a split of `total_amount` among `recipients`.
    ///
    /// Needs the payer's consent, weights that are valid percentages, and a
    /// payer who holds the total. On success the split is stored under the
    /// next identifier, not distributed. No value moves.
    pub fn create_split(
        &mut self,
        payer: Address,
        recipients: soroban_sdk::Map<Address, i128>,
        total_amount: i128,
        token_address: Address,
        payer_balance: i128,
        authorized: bool,
    ) -> (result: Result<u32, Error>)
        requires
            old(self).wf(),
            old(self)@.len() < u32::MAX,
            total_amount > 0,
        ensures
            final(self).wf(),
            match result {
                Ok(id) => {
                    &&& create_split_refusal(
                        authorized,
                        recipient_entries(recipients),
                        total_amount,
                        payer_balance,
                    ) is None
                    &&& id == old(self)@.len() + 1
                    &&& final(self)@ == old(self)@.push(
                        (PaymentSplit {
                            payer,
                            recipients,
                            total_amount,
                            distributed: false,
                            token_address,
                        }),
                    )
                },
                Err(e) => {
                    &&& create_split_refusal(
                        authorized,
                        recipient_entries(recipients),
                        total_amount,
                        payer_balance,
                    ) == Some(e)
                    &&& final(self)@ == old(self)@
                },
            },
    {
        if !authorized {
            return Err(Error::AuthorizationFailure);
        }
        let valid = match read_recipients(&recipients) {
            Some(entries) => weights_are_valid(&entries),
            None => false,
        };
        if !valid {
            return Err(Error::InvariantViolation);
        }
        if payer_balance < total_amount {
            return Err(Error::InsufficientFunds);
        }
        let info = PaymentSplit {
            payer,
            recipients,
            total_amount,
            distributed: false,
            token_address,
        };
        Ok(self.splits.allocate(info))
    }

    /// Distributes split `split_id` among its recipients.
    ///
    /// Needs the consent of the split's payer, and the payer must hold the
    /// sum of the shares. On success the split is marked distributed and the
    /// caller is told to move each recipient's share from the payer to that
    /// recipient, in the order of the recipient map.
    pub fn distribute(&mut self, split_id: u32, payer_balance: i128, authorized: bool) -> (result:
        Result<Vec<Transfer>, Error>)
        requires
            old(self).wf(),
        ensures
            final(self).wf(),
            match result {
                Ok(transfers) => {
                    &&& distribute_refusal(old(self)@, split_id, authorized, payer_balance) is None
                    &&& final(self)@ == with_record(
                        old(self)@,
                        split_id,
                        record_at(old(self)@, split_id).as_distributed(),
                    )
                    &&& transfers@ == record_at(old(self)@, split_id).payouts()
                },
                Err(e) => {
                    &&& distribute_refusal(old(self)@, split_id, authorized, payer_balance)
                        == Some(e)
                    &&& final(self)@ == old(self)@
                },
            },
    {
        let mut info = match self.splits.get(split_id) {
            Some(found) => found.clone(),
            None => {
                return Err(Error::NotFound);
            },
        };
        if !authorized {
            return Err(Error::AuthorizationFailure);
        }
        if info.distributed {
            return Err(Error::InvalidState);
        }
        let entries = match read_recipients(&info.recipients) {
            Some(entries) => entries,
            None => {
                return Err(Error::InvariantViolation);
            },
        };
        let (transfers, sum) = payouts_for(
            &info.payer,
            &info.token_address,
            info.total_amount,
            &entries,
        );
        if payer_balance < sum {
            return Err(Error::InsufficientFunds);
        }
        info.distributed = true;
        self.splits.put(split_id, info);
        Ok(transfers)
    }

    /// A copy of split `split_id`.
    pub fn get_split(&self, split_id: u32) -> (result: Result<PaymentSplit, Error>)
        ensures
            match result {
                Ok(info) => has_id(self@, split_id) && info == record_at(self@, split_id),
                Err(e) => !has_id(self@, split_id) && e == Error::NotFound,
            },
    {
        match self.splits.get(split_id) {
            Some(found) => Ok(found.clone()),
            None => Err(Error::NotFound),
        }
    }
}

/// Creating a split is refused as an invariant violation unless the
/// recipients' weights sum to exactly one hundred, where the payer consents.
pub proof fn lemma_split_needs_hundred(
    entries: Option<Seq<(Address, i128)>>,
    total_amount: i128,
    payer_balance: i128,
)
    requires
        !(entries matches Some(list) && weight_sum(list) == 100),
    ensures
        create_split_refusal(true, entries, total_amount, payer_balance) == Some(
            Error::InvariantViolation,
        ),
{
}

/// Once a split is distributed, every further distribution that its payer
/// asks for is refused as an invalid state.
pub proof fn lemma_distributed_split_is_closed(
    splits: Seq<PaymentSplit>,
    id: u32,
    first_balance: i128,
    second_balance: i128,
)
    requires
        distribute_refusal(splits, id, true, first_balance) is None,
    ensures
        ({
            let after = with_record(splits, id, record_at(splits, id).as_distributed());
            &&& record_at(after, id).distributed
            &&& distribute_refusal(after, id, true, second_balance) == Some(Error::InvalidState)
        }),
{
}

/// The shares of the first `k` entries are together no more than the shares
/// of all, where no weight is negative.
pub proof fn lemma_shares_sum_of_prefix(total: i128, entries: Seq<(Address, i128)>, k: int)
    requires
        total >= 0,
        weights_nonnegative(entries),
        0 <= k <= entries.len(),
    ensures
        0 <= shares_sum(total, entries.take(k)) <= shares_sum(total, entries),
    decreases entries.len(),
{
    if k == entries.len() {
        assert(entries.take(k) =~= entries);
        lemma_shares_sum_bounds(total, entries);
    } else {
        lemma_shares_sum_of_prefix(total, entries.drop_last(), k);
        assert(entries.drop_last().take(k) =~= entries.take(k));
        lemma_share_bounds(total, entries.last().1);
    }
}

/// The first `k` payouts of a distribution are all carried out by a ledger
/// on which the payer holds the sum of all shares, and they take from the
/// payer no more than the shares paid so far.
proof fn lemma_payouts_of_prefix(
    ledger: Ledger,
    payer: Address,
    token: Address,
    total: i128,
    entries: Seq<(Address, i128)>,
    k: int,
)
    requires
        total >= 0,
        weights_valid(entries),
        ledger.balance(token, payer) >= shares_sum(total, entries),
        0 <= k <= entries.len(),
    ensures
        ledger.permits_all(payouts(payer, token, total, entries.take(k))),
        ledger.after_all(payouts(payer, token, total, entries.take(k))).balance(token, payer)
            >= ledger.balance(token, payer) - shares_sum(total, entries.take(k)),
        (forall|i: int| 0 <= i < k ==> (#[trigger] entries[i]).0 != payer) ==> ledger.after_all(
            payouts(payer, token, total, entries.take(k)),
        ).balance(token, payer) == ledger.balance(token, payer) - shares_sum(
            total,
            entries.take(k),
        ),
        ledger.wf() ==> ledger.after_all(payouts(payer, token, total, entries.take(k))).wf(),
    decreases k,
{
    if k > 0 {
        let seen = entries.take(k - 1);
        let next = entries.take(k);
        let percent = entries[k - 1].1;
        lemma_payouts_of_prefix(ledger, payer, token, total, entries, k - 1);
        assert(next.drop_last() =~= seen);
        assert(payouts(payer, token, total, next).drop_last() =~= payouts(
            payer,
            token,
            total,
            seen,
        ));
        lemma_weight_sum_of_prefix(entries, k - 1);
        lemma_weight_sum_of_prefix(entries, k);
        lemma_share_bounds(total, percent);
        lemma_shares_sum_of_prefix(total, entries, k);
        let last = payouts(payer, token, total, next).last();
        let before = ledger.after_all(payouts(payer, token, total, seen));
        if last.to == payer {
            lemma_transfer_to_self_changes_nothing(before, last);
        } else {
            lemma_transfer_moves_amount(before, last);
        }
        if ledger.wf() {
            lemma_transfer_keeps_balances_nonnegative(before, last);
        }
    }
}

/// A distribution is paid in full or not at all, and the dust stays with the
/// payer: a ledger on which the payer holds the sum of the shares carries
/// out every payout, one after the other, and the payer then still holds
/// what it held less the shares, which is what it held less the total plus
/// the dust. (Where the payer is itself a recipient, it holds its own share
/// on top.)
pub proof fn lemma_distribution_is_paid_in_full(
    ledger: Ledger,
    payer: Address,
    token: Address,
    total: i128,
    entries: Seq<(Address, i128)>,
)
    requires
        total >= 0,
        weights_valid(entries),
        ledger.balance(token, payer) >= shares_sum(total, entries),
    ensures
        ledger.permits_all(payouts(payer, token, total, entries)),
        ledger.after_all(payouts(payer, token, total, entries)).balance(token, payer)
            >= ledger.balance(token, payer) - total + dust(total, entries),
        (forall|i: int| 0 <= i < entries.len() ==> (#[trigger] entries[i]).0 != payer)
            ==> ledger.after_all(payouts(payer, token, total, entries)).balance(token, payer)
            == ledger.balance(token, payer) - total + dust(total, entries),
        ledger.wf() ==> ledger.after_all(payouts(payer, token, total, entries)).wf(),
{
    lemma_payouts_of_prefix(ledger, payer, token, total, entries, entries.len() as int);
    assert(entries.take(entries.len() as int) =~= entries);
}

} // verus!
