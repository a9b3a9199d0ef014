//! The ingestion loop as a state machine: it asks for a page of new
//! identifiers, drains the page one identifier at a time into the record
//! store, moves the cursor, rests, and starts over.

use crate::signature::{decoded_signature, TransactionId};
use crate::store::{with_record, RecordStore, RecordView};
use crate::transaction_details::{DetailsView, TransactionDetails};
use vstd::prelude::*;

verus! {

/// The most identifiers asked for in one page.
pub const PAGE_SIZE: usize = 1000;

/// The seconds of rest after each cycle.
pub const REST_SECONDS: u64 = 1;

/// Why the ledger gave no usable answer.
#[derive(Clone, Copy, Debug, PartialEq, Eq, Structural)]
pub enum AdapterError {
    /// The ledger no longer holds the transaction.
    NotFound,
    /// The transaction lacks the two participants or the instruction that a
    /// record is made of.
    Malformed,
    /// The request failed on the way.
    Transient,
}

/// The decoded message of a fetched transaction.
pub struct RawMessage {
    /// The participants' addresses, in the ledger's order.
    pub account_keys: Vec<String>,
    /// The payload of each instruction, in the ledger's order.
    pub instruction_data: Vec<String>,
}

/// A transaction as the ledger hands it out.
pub struct RawTransaction {
    /// The message, where the ledger gave it in decoded form.
    pub message: Option<RawMessage>,
    /// When the ledger recorded the transaction, if it says.
    pub block_time: Option<i64>,
}

/// The record that a fetched transaction yields: its first two participants
/// as sender and receiver, its first instruction's payload as data, and its
/// block time, or 0 where it has none. There is no record without a decoded
/// message, two participants and one instruction.
pub open spec fn record_of(raw: RawTransaction) -> Option<DetailsView> {
    match raw.message {
        Some(message) => if message.account_keys@.len() >= 2 && message.instruction_data@.len()
            >= 1 {
            Some(
                DetailsView {
                    sender: message.account_keys@[0]@,
                    receiver: message.account_keys@[1]@,
                    data: message.instruction_data@[0]@,
                    timestamp: match raw.block_time {
                        Some(seconds) => seconds as int,
                        None => 0,
                    },
                },
            )
        } else {
            None
        },
        None => None,
    }
}

/// Builds the record of a fetched transaction.
pub fn build_details(raw: &RawTransaction) -> (built: Result<TransactionDetails, AdapterError>)
    ensures
        built matches Ok(details) ==> record_of(*raw) == Some(details@),
        built matches Err(error) ==> error == AdapterError::Malformed,
        built is Err <==> record_of(*raw) is None,
{
    match &raw.message {
        Some(message) => {
            if message.account_keys.len() >= 2 && message.instruction_data.len() >= 1 {
                let timestamp: i64 = match raw.block_time {
                    Some(seconds) => seconds,
                    None => 0,
                };
                Ok(
                    TransactionDetails {
                        sender: message.account_keys[0].clone(),
                        receiver: message.account_keys[1].clone(),
                        data: message.instruction_data[0].clone(),
                        timestamp,
                    },
                )
            } else {
                Err(AdapterError::Malformed)
            }
        },
        None => Err(AdapterError::Malformed),
    }
}

/// The values of a sequence of identifiers.
pub open spec fn ids_of(ids: Seq<TransactionId>) -> Seq<Seq<u8>> {
    Seq::new(ids.len(), |i: int| ids[i]@)
}

/// The identifiers that a page of signature texts holds, in the page's
/// order; a text that is no signature is left out.
pub open spec fn page_ids(signatures: Seq<String>) -> Seq<Seq<u8>>
    decreases signatures.len(),
{
    if signatures.len() == 0 {
        Seq::empty()
    } else {
        let earlier = page_ids(signatures.drop_last());
        match decoded_signature(signatures.last()@) {
            Some(bytes) => earlier.push(bytes),
            None => earlier,
        }
    }
}

/// Reads the identifiers of a page, leaving out what is no signature.
pub fn identifiers_of(signatures: &Vec<String>) -> (ids: Vec<TransactionId>)
    ensures
        ids_of(ids@) == page_ids(signatures@),
        ids@.len() <= signatures@.len(),
{
    let mut ids: Vec<TransactionId> = Vec::new();
    let mut i: usize = 0;
    while i < signatures.len()
        invariant
            i <= signatures@.len(),
            ids@.len() <= i,
            ids_of(ids@) =~= page_ids(signatures@.take(i as int)),
        decreases signatures@.len() - i,
    {
        proof {
            assert(signatures@.take(i + 1).drop_last() =~= signatures@.take(i as int));
        }
        match TransactionId::parse(signatures[i].as_str()) {
            Some(id) => {
                ids.push(id);
            },
            None => {},
        }
        i += 1;
    }
    assert(signatures@.take(i as int) =~= signatures@);
    ids
}

/// Turns a page that lists the newest identifier first into one that lists
/// the oldest first.
pub fn oldest_first(newest_first: Vec<String>) -> (page: Vec<String>)
    ensures
        page@ == newest_first@.reverse(),
{
    let ghost given = newest_first@;
    let mut rest = newest_first;
    let mut page: Vec<String> = Vec::new();
    while rest.len() > 0
        invariant
            rest@.len() + page@.len() == given.len(),
            rest@ =~= given.take(rest@.len() as int),
            forall|k: int| 0 <= k < page@.len() ==> page@[k] == given[given.len() - 1 - k],
        decreases rest@.len(),
    {
        match rest.pop() {
            Some(signature) => {
                page.push(signature);
            },
            None => {},
        }
    }
    page
}

/// What the loop is doing.
#[derive(Clone, Copy, Debug, PartialEq, Eq, Structural)]
pub enum Stage {
    /// A page of identifiers has been asked for.
    Polling,
    /// The details of one identifier of the current page have been asked for.
    Draining,
    /// The cycle is over and the loop waits before the next one.
    Resting,
}

/// What the loop waits for.
pub enum Event {
    /// The answer to a request for a page: signature texts, oldest first.
    Page(Result<Vec<String>, AdapterError>),
    /// The answer to a request for one transaction.
    Detail(Result<RawTransaction, AdapterError>),
    /// The rest is over.
    Rested,
}

/// What the loop asks its driver to do next.
#[derive(Clone, Copy, Debug, PartialEq, Eq)]
pub enum Action {
    /// List the identifiers newer than the cursor, a page at most.
    ListNewIdentifiers { since: Option<TransactionId>, page_size: usize },
    /// Fetch the transaction of one identifier.
    FetchDetail { id: TransactionId },
    /// Wait.
    Rest { seconds: u64 },
}

/// What one event led to.
#[derive(Clone, Copy, Debug, PartialEq, Eq)]
pub struct Turn {
    /// What the driver is to do next.
    pub action: Action,
    /// What went wrong with the event, if anything did.
    pub failure: Option<AdapterError>,
}

/// The mathematical value of an [`Action`].
pub enum ActionView {
    ListNewIdentifiers { since: Option<Seq<u8>>, page_size: int },
    FetchDetail { id: Seq<u8> },
    Rest { seconds: int },
}

impl View for Action {
    type V = ActionView;

    open spec fn view(&self) -> ActionView {
        match *self {
            Action::ListNewIdentifiers { since, page_size } => ActionView::ListNewIdentifiers {
                since: cursor_view(since),
                page_size: page_size as int,
            },
            Action::FetchDetail { id } => ActionView::FetchDetail { id: id@ },
            Action::Rest { seconds } => ActionView::Rest { seconds: seconds as int },
        }
    }
}

/// The value of a cursor.
pub open spec fn cursor_view(cursor: Option<TransactionId>) -> Option<Seq<u8>> {
    match cursor {
        Some(id) => Some(id@),
        None => None,
    }
}

/// The mathematical value of a [`SolanaAggregator`].
pub struct AggregatorView {
    /// The newest identifier of the last page drained, if any was.
    pub cursor: Option<Seq<u8>>,
    pub stage: Stage,
    /// The identifiers of the page being drained, oldest first.
    pub page: Seq<Seq<u8>>,
    /// The place in the page of the identifier whose details are awaited.
    pub position: int,
}

impl AggregatorView {
    /// While draining, the position is inside the page; otherwise there is
    /// no page.
    pub open spec fn wf(self) -> bool {
        if self.stage == Stage::Draining {
            0 <= self.position < self.page.len()
        } else {
            self.page.len() == 0 && self.position == 0
        }
    }
}

/// The cursor after a page: its last identifier, the newest one, whether or
/// not its details could be stored; the old cursor after an empty page.
pub open spec fn cursor_after(cursor: Option<Seq<u8>>, page: Seq<Seq<u8>>) -> Option<Seq<u8>> {
    if page.len() == 0 {
        cursor
    } else {
        Some(page.last())
    }
}

/// The state once the loop rests after the given page.
pub open spec fn rested_after(state: AggregatorView, page: Seq<Seq<u8>>) -> AggregatorView {
    AggregatorView {
        cursor: cursor_after(state.cursor, page),
        stage: Stage::Resting,
        page: Seq::empty(),
        position: 0,
    }
}

/// The state after a page of identifiers arrived: draining from its first
/// identifier, or resting where it is empty. Outside polling nothing changes.
pub open spec fn after_page(state: AggregatorView, ids: Seq<Seq<u8>>) -> AggregatorView {
    if state.stage != Stage::Polling {
        state
    } else if ids.len() == 0 {
        rested_after(state, ids)
    } else {
        AggregatorView { cursor: state.cursor, stage: Stage::Draining, page: ids, position: 0 }
    }
}

/// The state after the awaited transaction was dealt with: on to the next
/// identifier of the page, or, after the last, to rest with the cursor on
/// it. Outside draining nothing changes.
pub open spec fn after_detail(state: AggregatorView) -> AggregatorView {
    if state.stage != Stage::Draining {
        state
    } else if state.position + 1 < state.page.len() {
        AggregatorView { position: state.position + 1, ..state }
    } else {
        rested_after(state, state.page)
    }
}

/// The state after an event. An event that the stage does not wait for
/// changes nothing.
pub open spec fn advance(state: AggregatorView, event: Event) -> AggregatorView {
    match event {
        Event::Page(Ok(signatures)) => after_page(state, page_ids(signatures@)),
        Event::Page(Err(_)) => if state.stage == Stage::Polling {
            rested_after(state, Seq::empty())
        } else {
            state
        },
        Event::Detail(_) => after_detail(state),
        Event::Rested => if state.stage == Stage::Resting {
            AggregatorView { stage: Stage::Polling, ..state }
        } else {
            state
        },
    }
}

/// The identifier that an event gets stored with its record: the awaited
/// one, when the loop is draining and a transaction arrives that yields a
/// record.
pub open spec fn accepted_by(state: AggregatorView, event: Event) -> Option<RecordView> {
    match event {
        Event::Detail(Ok(raw)) => if state.stage == Stage::Draining {
            match record_of(raw) {
                Some(details) => Some(RecordView { id: state.page[state.position], details }),
                None => None,
            }
        } else {
            None
        },
        _ => None,
    }
}

/// The records after an event.
pub open spec fn merged(state: AggregatorView, records: Seq<RecordView>, event: Event) -> Seq<
    RecordView,
> {
    match accepted_by(state, event) {
        Some(record) => with_record(records, record.id, record.details),
        None => records,
    }
}

/// The failure that an event brings to light, for the driver to report: a
/// poll that failed, a page with a text that is no signature, a fetch that
/// failed, or a transaction that yields no record. An event that is not
/// awaited brings none.
pub open spec fn failure_of(state: AggregatorView, event: Event) -> Option<AdapterError> {
    match event {
        Event::Page(outcome) => if state.stage == Stage::Polling {
            match outcome {
                Ok(signatures) => if page_ids(signatures@).len() < signatures@.len() {
                    Some(AdapterError::Malformed)
                } else {
                    None
                },
                Err(error) => Some(error),
            }
        } else {
            None
        },
        Event::Detail(outcome) => if state.stage == Stage::Draining {
            match outcome {
                Ok(raw) => if record_of(raw) is None {
                    Some(AdapterError::Malformed)
                } else {
                    None
                },
                Err(error) => Some(error),
            }
        } else {
            None
        },
        _ => None,
    }
}

/// What a state asks its driver to do.
pub open spec fn pending_action(state: AggregatorView) -> ActionView {
    match state.stage {
        Stage::Polling => ActionView::ListNewIdentifiers {
            since: state.cursor,
            page_size: PAGE_SIZE as int,
        },
        Stage::Draining => ActionView::FetchDetail { id: state.page[state.position] },
        Stage::Resting => ActionView::Rest { seconds: REST_SECONDS as int },
    }
}

/// The ingestion loop's state.
pub struct SolanaAggregator {
    cursor: Option<TransactionId>,
    stage: Stage,
    page: Vec<TransactionId>,
    position: usize,
}

impl View for SolanaAggregator {
    type V = AggregatorView;

    closed spec fn view(&self) -> AggregatorView {
        AggregatorView {
            cursor: cursor_view(self.cursor),
            stage: self.stage,
            page: ids_of(self.page@),
            position: self.position as int,
        }
    }
}

impl SolanaAggregator {
    /// The state's invariant.
    pub open spec fn wf(&self) -> bool {
        self@.wf()
    }

    /// A loop that has not seen the ledger yet and is about to ask for its
    /// newest page.
    pub fn new() -> (aggregator: SolanaAggregator)
        ensures
            aggregator.wf(),
            aggregator@ == (AggregatorView {
                cursor: None,
                stage: Stage::Polling,
                page: Seq::empty(),
                position: 0,
            }),
    {
        let aggregator = SolanaAggregator {
            cursor: None,
            stage: Stage::Polling,
            page: Vec::new(),
            position: 0,
        };
        assert(aggregator@.page =~= Seq::empty());
        aggregator
    }

    /// The cursor: the newest identifier of the last page drained.
    pub fn cursor(&self) -> (cursor: Option<TransactionId>)
        ensures
            cursor_view(cursor) == self@.cursor,
    {
        self.cursor
    }

    /// What the loop is doing.
    pub fn stage(&self) -> (stage: Stage)
        ensures
            stage == self@.stage,
    {
        self.stage
    }

    /// The request for the next page: the identifiers newer than the cursor.
    pub fn fetch_signatures(&self) -> (request: Action)
        ensures
            request@ == (ActionView::ListNewIdentifiers {
                since: self@.cursor,
                page_size: PAGE_SIZE as int,
            }),
    {
        Action::ListNewIdentifiers { since: self.cursor, page_size: PAGE_SIZE }
    }

    /// What the driver is to do for the loop now.
    pub fn pending(&self) -> (action: Action)
        requires
            self.wf(),
        ensures
            action@ == pending_action(self@),
    {
        match self.stage {
            Stage::Polling => self.fetch_signatures(),
            Stage::Draining => Action::FetchDetail { id: self.page[self.position] },
            Stage::Resting => Action::Rest { seconds: REST_SECONDS },
        }
    }

    /// Moves the cursor to the newest identifier of the current page.
    fn update_last_signature(&mut self)
        ensures
            final(self)@ == (AggregatorView {
                cursor: cursor_after(old(self)@.cursor, old(self)@.page),
                ..old(self)@
            }),
    {
        let count: usize = self.page.len();
        if count > 0 {
            self.cursor = Some(self.page[count - 1]);
        }
    }

    /// Ends the cycle: the cursor moves to the end of the page, the page is
    /// dropped and the loop rests.
    fn rest(&mut self)
        ensures
            final(self)@ == rested_after(old(self)@, old(self)@.page),
            final(self).wf(),
    {
        self.update_last_signature();
        self.page = Vec::new();
        self.position = 0;
        self.stage = Stage::Resting;
        assert(self@.page =~= Seq::empty());
    }

    /// Takes in a page of identifiers, oldest first.
    pub fn begin_page(&mut self, ids: Vec<TransactionId>)
        requires
            old(self).wf(),
        ensures
            final(self).wf(),
            final(self)@ == after_page(old(self)@, ids_of(ids@)),
    {
        match self.stage {
            Stage::Polling => {
                if ids.len() == 0 {
                    self.rest();
                } else {
                    self.page = ids;
                    self.position = 0;
                    self.stage = Stage::Draining;
                }
            },
            _ => {},
        }
    }

    /// Takes in a page of signature texts, oldest first, and says how many
    /// of them were left out as no signature.
    pub fn process_signatures(&mut self, signatures: &Vec<String>) -> (skipped: usize)
        requires
            old(self).wf(),
        ensures
            final(self).wf(),
            final(self)@ == after_page(old(self)@, page_ids(signatures@)),
            skipped == signatures@.len() - page_ids(signatures@).len(),
    {
        let ids = identifiers_of(signatures);
        let skipped: usize = signatures.len() - ids.len();
        self.begin_page(ids);
        skipped
    }

    /// Stores what a fetch of one identifier's transaction gave: the record,
    /// where the fetch succeeded and the transaction yields one.
    pub fn fetch_and_process_transaction(
        store: &mut RecordStore,
        id: TransactionId,
        outcome: &Result<RawTransaction, AdapterError>,
    ) -> (done: Result<(), AdapterError>)
        requires
            old(store).wf(),
        ensures
            final(store).wf(),
            match *outcome {
                Ok(raw) => match record_of(raw) {
                    Some(details) => {
                        &&& done is Ok
                        &&& final(store)@ == with_record(old(store)@, id@, details)
                    },
                    None => {
                        &&& done == Err::<(), AdapterError>(AdapterError::Malformed)
                        &&& final(store)@ == old(store)@
                    },
                },
                Err(error) => {
                    &&& done == Err::<(), AdapterError>(error)
                    &&& final(store)@ == old(store)@
                },
            },
    {
        match outcome {
            Ok(raw) => match build_details(raw) {
                Ok(details) => {
                    store.insert(id, details);
                    Ok(())
                },
                Err(error) => Err(error),
            },
            Err(error) => Err(*error),
        }
    }

    /// Moves past the identifier whose transaction was awaited.
    fn next_identifier(&mut self)
        requires
            old(self).wf(),
        ensures
            final(self).wf(),
            final(self)@ == after_detail(old(self)@),
    {
        match self.stage {
            Stage::Draining => {
                let count: usize = self.page.len();
                if self.position + 1 < count {
                    self.position = self.position + 1;
                } else {
                    self.rest();
                }
            },
            _ => {},
        }
    }

    /// Takes in one event and says what the driver is to do next. A record
    /// is stored when the awaited transaction arrives and yields one; the
    /// cursor moves when the last identifier of a page has been dealt with.
    /// No failure stops the loop: it is handed back for the driver to report.
    pub fn fetch_transactions(&mut self, store: &mut RecordStore, event: Event) -> (turn: Turn)
        requires
            old(self).wf(),
            old(store).wf(),
        ensures
            final(self).wf(),
            final(store).wf(),
            final(self)@ == advance(old(self)@, event),
            final(store)@ == merged(old(self)@, old(store)@, event),
            turn.action@ == pending_action(final(self)@),
            turn.failure == failure_of(old(self)@, event),
    {
        let mut failure: Option<AdapterError> = None;
        match &event {
            Event::Page(Ok(signatures)) => {
                let polling = match self.stage {
                    Stage::Polling => true,
                    _ => false,
                };
                let skipped: usize = self.process_signatures(signatures);
                if polling && skipped > 0 {
                    failure = Some(AdapterError::Malformed);
                }
            },
            Event::Page(Err(error)) => {
                match self.stage {
                    Stage::Polling => {
                        failure = Some(*error);
                        self.rest();
                    },
                    _ => {},
                }
            },
            Event::Detail(outcome) => {
                match self.stage {
                    Stage::Draining => {
                        let id = self.page[self.position];
                        match Self::fetch_and_process_transaction(store, id, outcome) {
                            Ok(_) => {},
                            Err(error) => {
                                failure = Some(error);
                            },
                        }
                    },
                    _ => {},
                }
                self.next_identifier();
            },
            Event::Rested => {
                match self.stage {
                    Stage::Resting => {
                        self.stage = Stage::Polling;
                    },
                    _ => {},
                }
            },
        }
        Turn { action: self.pending(), failure }
    }
}

} // verus!
