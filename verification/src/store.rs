//! The record store that the four managers share: one family of records,
//! numbered from 1 in the order in which they were allocated.
//!
//! Identifiers are never reused and never reset, and no record is ever
//! deleted, so the family is a sequence: the record with identifier `id`
//! stands at position `id - 1`, and the family's counter is its length.

use vstd::prelude::*;

verus! {

/// Whether `id` names a record of the family `records`.
pub open spec fn has_id<T>(records: Seq<T>, id: u32) -> bool {
    1 <= id <= records.len()
}

/// The record of `records` that `id` names.
pub open spec fn record_at<T>(records: Seq<T>, id: u32) -> T
    recommends
        has_id(records, id),
{
    records[id - 1]
}

/// The family `records` with the record that `id` names replaced by `record`.
pub open spec fn with_record<T>(records: Seq<T>, id: u32, record: T) -> Seq<T>
    recommends
        has_id(records, id),
{
    records.update(id - 1, record)
}

/// One family of records with its counter.
pub struct RecordStore<T> {
    records: Vec<T>,
}

impl<T> View for RecordStore<T> {
    type V = Seq<T>;

    /// The records in the order of their identifiers.
    closed spec fn view(&self) -> Seq<T> {
        self.records@
    }
}

impl<T> RecordStore<T> {
    /// The counter fits the 32 bits of an identifier.
    pub open spec fn wf(&self) -> bool {
        self@.len() <= u32::MAX
    }

    /// A family without records, whose counter is 0.
    pub fn new() -> (store: Self)
        ensures
            store@ == Seq::<T>::empty(),
            store.wf(),
    {
        RecordStore { records: Vec::new() }
    }

    /// A family that holds `records`, numbered from 1 in their order, or
    /// `None` where they are more than identifiers can number.
    pub fn from_records(records: Vec<T>) -> (store: Option<Self>)
        ensures
            store is Some <==> records@.len() <= u32::MAX,
            store matches Some(s) ==> s@ == records@ && s.wf(),
    {
        if records.len() <= u32::MAX as usize {
            Some(RecordStore { records })
        } else {
            None
        }
    }

    /// The family's counter: the identifier given out last, 0 before the
    /// first.
    pub fn count(&self) -> (count: u32)
        requires
            self.wf(),
        ensures
            count == self@.len(),
    {
        self.records.len() as u32
    }

    /// Stores `record` under the next identifier and returns that identifier.
    pub fn allocate(&mut self, record: T) -> (id: u32)
        requires
            old(self).wf(),
            old(self)@.len() < u32::MAX,
        ensures
            id == old(self)@.len() + 1,
            final(self)@ == old(self)@.push(record),
            final(self).wf(),
    {
        self.records.push(record);
        self.records.len() as u32
    }

    /// The record that `id` names, if there is one.
    pub fn get(&self, id: u32) -> (found: Option<&T>)
        ensures
            found is Some <==> has_id(self@, id),
            found matches Some(record) ==> *record == record_at(self@, id),
    {
        if id >= 1 && id as usize <= self.records.len() {
            Some(&self.records[id as usize - 1])
        } else {
            None
        }
    }

    /// The record that `id` names, where the caller knows that there is one.
    pub fn at(&self, id: u32) -> (record: &T)
        requires
            has_id(self@, id),
        ensures
            *record == record_at(self@, id),
    {
        &self.records[id as usize - 1]
    }

    /// Replaces the record that `id` names.
    pub fn put(&mut self, id: u32, record: T)
        requires
            has_id(old(self)@, id),
        ensures
            final(self)@ == with_record(old(self)@, id, record),
            final(self).wf() == old(self).wf(),
    {
        self.records[id as usize - 1] = record;
    }
}

/// Identifiers are never reused: allocating a record gives it the one
/// identifier after the counter, which named nothing before, and every record
/// that was there keeps its identifier.
pub proof fn lemma_allocation_keeps_identifiers<T>(records: Seq<T>, record: T, id: u32)
    requires
        records.len() < u32::MAX,
    ensures
        !has_id(records, (records.len() + 1) as u32),
        has_id(records.push(record), (records.len() + 1) as u32),
        record_at(records.push(record), (records.len() + 1) as u32) == record,
        has_id(records, id) ==> has_id(records.push(record), id) && record_at(
            records.push(record),
            id,
        ) == record_at(records, id),
{
}

/// Replacing a record changes that record alone: no identifier appears or
/// disappears, and every other record stays as it was.
pub proof fn lemma_replacement_keeps_others<T>(records: Seq<T>, id: u32, record: T, other: u32)
    requires
        has_id(records, id),
    ensures
        with_record(records, id, record).len() == records.len(),
        has_id(with_record(records, id, record), other) == has_id(records, other),
        record_at(with_record(records, id, record), id) == record,
        has_id(records, other) && other != id ==> record_at(
            with_record(records, id, record),
            other,
        ) == record_at(records, other),
{
}

} // verus!
