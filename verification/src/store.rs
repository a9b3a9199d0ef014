//! The record store: transaction details by identifier, in the order in
//! which the identifiers first arrived.

use crate::calendar::{on_day, CalendarDay};
use crate::signature::TransactionId;
use crate::transaction_details::{DetailsView, TransactionDetails};
use vstd::prelude::*;

verus! {

/// The mathematical value of one stored record.
pub struct RecordView {
    pub id: Seq<u8>,
    pub details: DetailsView,
}

/// No identifier occurs twice.
pub open spec fn distinct_ids(records: Seq<RecordView>) -> bool {
    forall|i: int, j: int|
        0 <= i < j < records.len() ==> (#[trigger] records[i]).id != (#[trigger] records[j]).id
}

/// Whether some record carries the identifier.
pub open spec fn holds_id(records: Seq<RecordView>, id: Seq<u8>) -> bool {
    exists|i: int| 0 <= i < records.len() && (#[trigger] records[i]).id == id
}

/// The place of the record that carries the identifier, where there is one.
pub open spec fn slot_of(records: Seq<RecordView>, id: Seq<u8>) -> int {
    choose|i: int| 0 <= i < records.len() && (#[trigger] records[i]).id == id
}

/// The details stored under an identifier.
pub open spec fn lookup(records: Seq<RecordView>, id: Seq<u8>) -> Option<DetailsView> {
    if holds_id(records, id) {
        Some(records[slot_of(records, id)].details)
    } else {
        None
    }
}

/// The identifiers that have a record.
pub open spec fn key_set(records: Seq<RecordView>) -> Set<Seq<u8>> {
    Set::new(|id: Seq<u8>| holds_id(records, id))
}

/// The records after one insertion: a known identifier keeps its place and
/// takes the new details, a new one goes to the end.
pub open spec fn with_record(records: Seq<RecordView>, id: Seq<u8>, details: DetailsView) -> Seq<
    RecordView,
> {
    if holds_id(records, id) {
        records.update(slot_of(records, id), RecordView { id, details })
    } else {
        records.push(RecordView { id, details })
    }
}

/// The details of the records whose timestamp falls on a day, in stored order.
pub open spec fn details_on_day(records: Seq<RecordView>, epoch_day: int) -> Seq<DetailsView>
    decreases records.len(),
{
    if records.len() == 0 {
        Seq::empty()
    } else {
        let earlier = details_on_day(records.drop_last(), epoch_day);
        if on_day(records.last().details.timestamp, epoch_day) {
            earlier.push(records.last().details)
        } else {
            earlier
        }
    }
}

/// The values of a sequence of borrowed details.
pub open spec fn views_of(found: Seq<&TransactionDetails>) -> Seq<DetailsView> {
    Seq::new(found.len(), |i: int| found[i]@)
}

/// With distinct identifiers, a record's place is the place of its identifier.
pub proof fn lemma_slot_is_unique(records: Seq<RecordView>, i: int)
    requires
        distinct_ids(records),
        0 <= i < records.len(),
    ensures
        holds_id(records, records[i].id),
        slot_of(records, records[i].id) == i,
        lookup(records, records[i].id) == Some(records[i].details),
{
    let j = slot_of(records, records[i].id);
    if j < i {
        assert(records[j].id != records[i].id);
    }
}

/// An insertion keeps the identifiers distinct, stores the details under the
/// identifier, adds the identifier to the key set and changes nothing else.
pub proof fn lemma_with_record(records: Seq<RecordView>, id: Seq<u8>, details: DetailsView)
    requires
        distinct_ids(records),
    ensures
        distinct_ids(with_record(records, id, details)),
        lookup(with_record(records, id, details), id) == Some(details),
        forall|other: Seq<u8>|
            other != id ==> #[trigger] lookup(with_record(records, id, details), other) == lookup(
                records,
                other,
            ),
        key_set(with_record(records, id, details)) == key_set(records).insert(id),
{
    let after = with_record(records, id, details);
    let at: int = if holds_id(records, id) {
        slot_of(records, id)
    } else {
        records.len() as int
    };
    assert(forall|k: int| 0 <= k < records.len() && k != at ==> records[k].id != id) by {
        if holds_id(records, id) {
            assert forall|k: int| 0 <= k < records.len() && k != at implies records[k].id
                != id by {
                lemma_slot_is_unique(records, k);
            }
        }
    }
    assert(distinct_ids(after));
    lemma_slot_is_unique(after, at);
    assert forall|other: Seq<u8>| other != id implies #[trigger] lookup(after, other) == lookup(
        records,
        other,
    ) by {
        if holds_id(records, other) {
            let k = slot_of(records, other);
            lemma_slot_is_unique(records, k);
            lemma_slot_is_unique(after, k);
        }
    }
    assert forall|key: Seq<u8>| key_set(after).contains(key) <==> key_set(records).insert(
        id,
    ).contains(key) by {
        if key != id {
            assert(lookup(after, key) == lookup(records, key));
        }
    }
}

/// Storing the same details under the same identifier a second time changes
/// nothing: the records, and so what a lookup of the identifier gives, stay
/// as the first insertion left them.
pub proof fn lemma_insert_is_idempotent(
    records: Seq<RecordView>,
    id: Seq<u8>,
    details: DetailsView,
)
    requires
        distinct_ids(records),
    ensures
        with_record(with_record(records, id, details), id, details) == with_record(
            records,
            id,
            details,
        ),
        lookup(with_record(with_record(records, id, details), id, details), id) == lookup(
            with_record(records, id, details),
            id,
        ),
        lookup(with_record(records, id, details), id) == Some(details),
{
    let once = with_record(records, id, details);
    lemma_with_record(records, id, details);
    let at = slot_of(once, id);
    lemma_slot_is_unique(once, at);
}

/// The records after a run of insertions, taken in order.
pub open spec fn with_records(records: Seq<RecordView>, writes: Seq<RecordView>) -> Seq<RecordView>
    decreases writes.len(),
{
    if writes.len() == 0 {
        records
    } else {
        with_record(
            with_records(records, writes.drop_last()),
            writes.last().id,
            writes.last().details,
        )
    }
}

/// A run of insertions keeps the identifiers distinct.
pub proof fn lemma_writes_keep_ids_distinct(records: Seq<RecordView>, writes: Seq<RecordView>)
    requires
        distinct_ids(records),
    ensures
        distinct_ids(with_records(records, writes)),
    decreases writes.len(),
{
    if writes.len() > 0 {
        lemma_writes_keep_ids_distinct(records, writes.drop_last());
        lemma_with_record(
            with_records(records, writes.drop_last()),
            writes.last().id,
            writes.last().details,
        );
    }
}

/// No write is lost: after any run of insertions, an identifier holds the
/// details of the last insertion made under it, whole.
pub proof fn lemma_no_write_is_lost(records: Seq<RecordView>, writes: Seq<RecordView>, k: int)
    requires
        distinct_ids(records),
        0 <= k < writes.len(),
        forall|j: int| k < j < writes.len() ==> (#[trigger] writes[j]).id != writes[k].id,
    ensures
        distinct_ids(with_records(records, writes)),
        lookup(with_records(records, writes), writes[k].id) == Some(writes[k].details),
    decreases writes.len(),
{
    let earlier = writes.drop_last();
    lemma_writes_keep_ids_distinct(records, earlier);
    lemma_with_record(with_records(records, earlier), writes.last().id, writes.last().details);
    if k < writes.len() - 1 {
        lemma_no_write_is_lost(records, earlier, k);
    }
}

/// Whether some record with these details has its timestamp on the day.
pub open spec fn stored_on_day(records: Seq<RecordView>, epoch_day: int, details: DetailsView) -> bool {
    exists|i: int|
        0 <= i < records.len() && (#[trigger] records[i]).details == details && on_day(
            details.timestamp,
            epoch_day,
        )
}

/// A scan by day gives exactly the stored details whose timestamp falls on
/// the day: each of them, nothing else, and so nothing at all on a day that
/// no record falls on.
pub proof fn lemma_day_scan_is_exact(records: Seq<RecordView>, epoch_day: int)
    ensures
        forall|details: DetailsView|
            #[trigger] details_on_day(records, epoch_day).contains(details) <==> stored_on_day(
                records,
                epoch_day,
                details,
            ),
        (forall|i: int|
            0 <= i < records.len() ==> !on_day(
                (#[trigger] records[i]).details.timestamp,
                epoch_day,
            )) ==> details_on_day(records, epoch_day).len() == 0,
    decreases records.len(),
{
    let found = details_on_day(records, epoch_day);
    if records.len() > 0 {
        let front = records.drop_last();
        let earlier = details_on_day(front, epoch_day);
        lemma_day_scan_is_exact(front, epoch_day);
        assert forall|details: DetailsView| #[trigger]
            found.contains(details) <==> stored_on_day(records, epoch_day, details) by {
            if found.contains(details) {
                let k = choose|k: int| 0 <= k < found.len() && found[k] == details;
                if k < earlier.len() {
                    assert(earlier.contains(details));
                    let i = choose|i: int|
                        0 <= i < front.len() && (#[trigger] front[i]).details == details && on_day(
                            details.timestamp,
                            epoch_day,
                        );
                    assert(records[i].details == details);
                }
            }
            if stored_on_day(records, epoch_day, details) {
                let i = choose|i: int|
                    0 <= i < records.len() && (#[trigger] records[i]).details == details && on_day(
                        details.timestamp,
                        epoch_day,
                    );
                if i < front.len() {
                    assert(front[i] == records[i]);
                    assert(earlier.contains(details));
                    let k = choose|k: int| 0 <= k < earlier.len() && earlier[k] == details;
                    assert(found[k] == details);
                } else {
                    assert(found[earlier.len() as int] == details);
                }
            }
        }
        if forall|i: int|
            0 <= i < records.len() ==> !on_day(
                (#[trigger] records[i]).details.timestamp,
                epoch_day,
            ) {
            assert forall|i: int| 0 <= i < front.len() implies !on_day(
                (#[trigger] front[i]).details.timestamp,
                epoch_day,
            ) by {
                assert(front[i] == records[i]);
            }
        }
    }
}

/// One stored record.
pub struct StoredRecord {
    pub id: TransactionId,
    pub details: TransactionDetails,
}

impl View for StoredRecord {
    type V = RecordView;

    open spec fn view(&self) -> RecordView {
        RecordView { id: self.id@, details: self.details@ }
    }
}

/// Transaction details by identifier. Each identifier has at most one
/// record; records stay in the order in which their identifiers first came.
pub struct RecordStore {
    records: Vec<StoredRecord>,
}

impl View for RecordStore {
    type V = Seq<RecordView>;

    closed spec fn view(&self) -> Seq<RecordView> {
        Seq::new(self.records@.len(), |i: int| self.records@[i]@)
    }
}

impl RecordStore {
    /// The store's invariant: identifiers are distinct.
    pub open spec fn wf(&self) -> bool {
        distinct_ids(self@)
    }

    /// An empty store.
    pub fn new() -> (store: RecordStore)
        ensures
            store.wf(),
            store@ == Seq::<RecordView>::empty(),
    {
        RecordStore { records: Vec::new() }
    }

    /// The number of records.
    pub fn len(&self) -> (count: usize)
        ensures
            count == self@.len(),
    {
        self.records.len()
    }

    /// The place of an identifier's record.
    fn find(&self, id: &TransactionId) -> (slot: Option<usize>)
        requires
            self.wf(),
        ensures
            slot matches Some(i) ==> i < self.records@.len() && holds_id(self@, id@) && slot_of(
                self@,
                id@,
            ) == i,
            slot is None ==> !holds_id(self@, id@),
    {
        let mut i: usize = 0;
        while i < self.records.len()
            invariant
                self.wf(),
                i <= self.records@.len(),
                forall|k: int| 0 <= k < i ==> (#[trigger] self@[k]).id != id@,
            decreases self.records@.len() - i,
        {
            if self.records[i].id.same(id) {
                proof {
                    lemma_slot_is_unique(self@, i as int);
                }
                return Some(i);
            }
            i += 1;
        }
        None
    }

    /// Stores the details under the identifier, in place of any that were
    /// there.
    pub fn insert(&mut self, id: TransactionId, details: TransactionDetails)
        requires
            old(self).wf(),
        ensures
            final(self).wf(),
            final(self)@ == with_record(old(self)@, id@, details@),
            lookup(final(self)@, id@) == Some(details@),
            forall|other: Seq<u8>|
                other != id@ ==> #[trigger] lookup(final(self)@, other) == lookup(
                    old(self)@,
                    other,
                ),
            key_set(final(self)@) == key_set(old(self)@).insert(id@),
    {
        let ghost before = self@;
        let ghost record = RecordView { id: id@, details: details@ };
        proof {
            lemma_with_record(before, id@, details@);
        }
        match self.find(&id) {
            Some(i) => {
                self.records.set(i, StoredRecord { id, details });
                assert(self@ =~= before.update(i as int, record));
            },
            None => {
                self.records.push(StoredRecord { id, details });
                assert(self@ =~= before.push(record));
            },
        }
    }

    /// The details stored under an identifier.
    pub fn get(&self, id: &TransactionId) -> (found: Option<&TransactionDetails>)
        requires
            self.wf(),
        ensures
            found matches Some(details) ==> lookup(self@, id@) == Some(details@),
            found is None <==> lookup(self@, id@) is None,
    {
        match self.find(id) {
            Some(i) => Some(&self.records[i].details),
            None => None,
        }
    }

    /// Whether an identifier has a record.
    pub fn contains(&self, id: &TransactionId) -> (present: bool)
        requires
            self.wf(),
        ensures
            present == key_set(self@).contains(id@),
    {
        self.find(id).is_some()
    }

    /// The details of every record whose timestamp falls on the day, in
    /// stored order.
    pub fn scan_by_day(&self, day: CalendarDay) -> (found: Vec<&TransactionDetails>)
        ensures
            views_of(found@) == details_on_day(self@, day.epoch_day as int),
    {
        let mut found: Vec<&TransactionDetails> = Vec::new();
        let mut i: usize = 0;
        while i < self.records.len()
            invariant
                i <= self.records@.len(),
                self@.len() == self.records@.len(),
                views_of(found@) =~= details_on_day(self@.take(i as int), day.epoch_day as int),
            decreases self.records@.len() - i,
        {
            let details = &self.records[i].details;
            proof {
                assert(self@.take(i + 1).drop_last() =~= self@.take(i as int));
            }
            if day.holds(details.timestamp) {
                found.push(details);
            }
            i += 1;
        }
        assert(self@.take(i as int) =~= self@);
        found
    }
}

} // verus!
