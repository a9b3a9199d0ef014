//! What holds of whole runs of the ingestion loop: which identifiers end
//! up in the store, where the cursor stands after a page, and that a ledger
//! which answers truthfully is never asked for the same identifier twice.

use crate::aggregator::{
    accepted_by, advance, cursor_after, merged, page_ids, rested_after, AggregatorView, Event,
    Stage,
};
use crate::store::{distinct_ids, key_set, lemma_with_record, RecordView};
use vstd::prelude::*;

verus! {

/// The state and the records after a run of events, taken in order.
pub open spec fn run(state: AggregatorView, records: Seq<RecordView>, events: Seq<Event>) -> (
    AggregatorView,
    Seq<RecordView>,
)
    decreases events.len(),
{
    if events.len() == 0 {
        (state, records)
    } else {
        run(advance(state, events[0]), merged(state, records, events[0]), events.skip(1))
    }
}

/// The identifiers whose transaction arrived during a run, while it was
/// awaited, and yielded a record.
pub open spec fn accepted_ids(state: AggregatorView, events: Seq<Event>) -> Set<Seq<u8>>
    decreases events.len(),
{
    if events.len() == 0 {
        Set::empty()
    } else {
        let later = accepted_ids(advance(state, events[0]), events.skip(1));
        match accepted_by(state, events[0]) {
            Some(record) => later.insert(record.id),
            None => later,
        }
    }
}

/// Whatever the ledger answers, a run adds to the store's keys exactly the
/// identifiers whose transaction was fetched and yielded a record. One whose
/// fetch failed, or whose transaction was malformed, is not added; a store
/// that starts empty ends with exactly the accepted identifiers as keys.
pub proof fn lemma_store_holds_what_was_accepted(
    state: AggregatorView,
    records: Seq<RecordView>,
    events: Seq<Event>,
)
    requires
        distinct_ids(records),
    ensures
        distinct_ids(run(state, records, events).1),
        key_set(run(state, records, events).1) == key_set(records).union(
            accepted_ids(state, events),
        ),
        records.len() == 0 ==> key_set(run(state, records, events).1) == accepted_ids(
            state,
            events,
        ),
    decreases events.len(),
{
    if events.len() == 0 {
        assert(key_set(records) =~= key_set(records).union(Set::empty()));
    } else {
        let next = advance(state, events[0]);
        let kept = merged(state, records, events[0]);
        match accepted_by(state, events[0]) {
            Some(record) => {
                lemma_with_record(records, record.id, record.details);
            },
            None => {},
        }
        lemma_store_holds_what_was_accepted(next, kept, events.skip(1));
        assert(key_set(kept).union(accepted_ids(next, events.skip(1))) =~= key_set(records).union(
            accepted_ids(state, events),
        ));
    }
    if records.len() == 0 {
        assert(key_set(records) =~= Set::empty());
        assert(key_set(records).union(accepted_ids(state, events)) =~= accepted_ids(
            state,
            events,
        ));
    }
}

/// The cursor moves only when the last identifier of a page has had its
/// outcome; until then the page may still fail without the cursor having
/// gone past it. Every event leaves the state well formed.
pub proof fn lemma_cursor_waits_for_the_page(state: AggregatorView, event: Event)
    requires
        state.wf(),
    ensures
        advance(state, event).wf(),
        advance(state, event).cursor != state.cursor ==> {
            &&& state.stage == Stage::Draining
            &&& state.position + 1 == state.page.len()
            &&& event is Detail
            &&& advance(state, event).cursor == Some(state.page.last())
        },
{
}

/// Whether every event of a run is the outcome of a fetch.
pub open spec fn all_details(events: Seq<Event>) -> bool {
    forall|k: int| 0 <= k < events.len() ==> (#[trigger] events[k]) is Detail
}

/// Once every identifier left in a page has had its outcome, whatever the
/// outcomes were, the loop rests with the cursor on the page's last
/// identifier.
pub proof fn lemma_drained_page_moves_cursor(
    state: AggregatorView,
    records: Seq<RecordView>,
    outcomes: Seq<Event>,
)
    requires
        state.wf(),
        state.stage == Stage::Draining,
        outcomes.len() == state.page.len() - state.position,
        all_details(outcomes),
    ensures
        run(state, records, outcomes).0 == rested_after(state, state.page),
        run(state, records, outcomes).0.cursor == Some(state.page.last()),
    decreases outcomes.len(),
{
    let next = advance(state, outcomes[0]);
    let kept = merged(state, records, outcomes[0]);
    assert(outcomes[0] is Detail);
    if state.position + 1 < state.page.len() {
        assert forall|k: int| 0 <= k < outcomes.skip(1).len() implies (#[trigger] outcomes.skip(
            1,
        )[k]) is Detail by {
            assert(outcomes.skip(1)[k] == outcomes[k + 1]);
        }
        lemma_drained_page_moves_cursor(next, kept, outcomes.skip(1));
    }
}

/// A whole cycle from polling, a page followed by one outcome for each
/// identifier read from it, ends at rest with the cursor moved as
/// `cursor_after` says: onto the page's last identifier, or not at all
/// where the page held none.
pub proof fn lemma_cycle_moves_cursor(
    state: AggregatorView,
    records: Seq<RecordView>,
    signatures: Vec<String>,
    outcomes: Seq<Event>,
)
    requires
        state.wf(),
        state.stage == Stage::Polling,
        outcomes.len() == page_ids(signatures@).len(),
        all_details(outcomes),
    ensures
        run(state, records, seq![Event::Page(Ok(signatures))] + outcomes).0 == rested_after(
            state,
            page_ids(signatures@),
        ),
        run(state, records, seq![Event::Page(Ok(signatures))] + outcomes).0.cursor
            == cursor_after(state.cursor, page_ids(signatures@)),
{
    let events = seq![Event::Page(Ok(signatures))] + outcomes;
    let ids = page_ids(signatures@);
    assert(events[0] == Event::Page(Ok(signatures)));
    assert(events.skip(1) =~= outcomes);
    let next = advance(state, events[0]);
    if ids.len() > 0 {
        lemma_drained_page_moves_cursor(next, records, outcomes);
    }
}

/// A run of two parts is the run of the second part from where the first
/// ended.
pub proof fn lemma_run_in_two_parts(
    state: AggregatorView,
    records: Seq<RecordView>,
    first: Seq<Event>,
    second: Seq<Event>,
)
    ensures
        run(state, records, first + second) == run(
            run(state, records, first).0,
            run(state, records, first).1,
            second,
        ),
    decreases first.len(),
{
    if first.len() == 0 {
        assert(first + second =~= second);
    } else {
        assert((first + second).skip(1) =~= first.skip(1) + second);
        lemma_run_in_two_parts(
            advance(state, first[0]),
            merged(state, records, first[0]),
            first.skip(1),
            second,
        );
    }
}

/// The state of a loop that is about to ask for the page after a cursor.
pub open spec fn polling_at(cursor: Option<Seq<u8>>) -> AggregatorView {
    AggregatorView { cursor, stage: Stage::Polling, page: Seq::empty(), position: 0 }
}

/// Whether a run of events is one full cycle over a page of identifiers:
/// the page, one outcome for each identifier, and the end of the rest.
pub open spec fn is_cycle(events: Seq<Event>, ids: Seq<Seq<u8>>) -> bool {
    &&& events.len() == ids.len() + 2
    &&& match events[0] {
        Event::Page(Ok(signatures)) => page_ids(signatures@) == ids,
        _ => false,
    }
    &&& all_details(events.subrange(1, events.len() - 1))
    &&& events.last() is Rested
}

/// A full cycle brings the loop back to polling, with the cursor moved as
/// `cursor_after` says.
pub proof fn lemma_cycle_returns_to_polling(
    cursor: Option<Seq<u8>>,
    records: Seq<RecordView>,
    events: Seq<Event>,
    ids: Seq<Seq<u8>>,
)
    requires
        is_cycle(events, ids),
    ensures
        run(polling_at(cursor), records, events).0 == polling_at(cursor_after(cursor, ids)),
{
    let state = polling_at(cursor);
    let outcomes = events.subrange(1, events.len() - 1);
    let tail = seq![events.last()];
    match events[0] {
        Event::Page(Ok(signatures)) => {
            let head = seq![Event::Page(Ok(signatures))] + outcomes;
            assert(head + tail =~= events);
            lemma_cycle_moves_cursor(state, records, signatures, outcomes);
            lemma_run_in_two_parts(state, records, head, tail);
            let rested = run(state, records, head);
            assert(tail.skip(1) =~= Seq::<Event>::empty());
            assert(run(rested.0, rested.1, tail).0 == advance(rested.0, tail[0])) by {
                assert(run(
                    advance(rested.0, tail[0]),
                    merged(rested.0, rested.1, tail[0]),
                    tail.skip(1),
                ).0 == advance(rested.0, tail[0]));
            }
        },
        _ => {},
    }
}

/// The events of a run of cycles, in order.
pub open spec fn events_of(cycles: Seq<Seq<Event>>) -> Seq<Event>
    decreases cycles.len(),
{
    if cycles.len() == 0 {
        Seq::empty()
    } else {
        events_of(cycles.drop_last()) + cycles.last()
    }
}

/// After any number of full cycles the loop polls with the cursor that the
/// pages of those cycles leave: the request of each cycle asks for what is
/// newer than the last identifier of the last page that held any.
pub proof fn lemma_cycles_follow_the_pages(
    start: Option<Seq<u8>>,
    records: Seq<RecordView>,
    cycles: Seq<Seq<Event>>,
    pages: Seq<Seq<Seq<u8>>>,
)
    requires
        cycles.len() == pages.len(),
        forall|k: int| 0 <= k < cycles.len() ==> is_cycle(#[trigger] cycles[k], pages[k]),
    ensures
        run(polling_at(start), records, events_of(cycles)).0 == polling_at(
            cursor_through(start, pages),
        ),
    decreases cycles.len(),
{
    if cycles.len() > 0 {
        let earlier = cycles.drop_last();
        assert forall|k: int| 0 <= k < earlier.len() implies is_cycle(
            #[trigger] earlier[k],
            pages.drop_last()[k],
        ) by {
            assert(earlier[k] == cycles[k]);
        }
        lemma_cycles_follow_the_pages(start, records, earlier, pages.drop_last());
        lemma_run_in_two_parts(polling_at(start), records, events_of(earlier), cycles.last());
        let reached = run(polling_at(start), records, events_of(earlier));
        assert(is_cycle(cycles[cycles.len() - 1], pages[cycles.len() - 1]));
        lemma_cycle_returns_to_polling(reached.0.cursor, reached.1, cycles.last(), pages.last());
    }
}

/// The place at which a ledger issued an identifier; the ledger lists its
/// identifiers in the order of issue.
pub open spec fn place_of(ledger: Seq<Seq<u8>>, id: Seq<u8>) -> int {
    choose|k: int| 0 <= k < ledger.len() && ledger[k] == id
}

/// Whether a page is a truthful answer to a request for what is newer than
/// a cursor: identifiers of the ledger, oldest first, each issued after the
/// cursor.
pub open spec fn healthy_page(
    ledger: Seq<Seq<u8>>,
    since: Option<Seq<u8>>,
    page: Seq<Seq<u8>>,
) -> bool {
    &&& forall|i: int| 0 <= i < page.len() ==> ledger.contains(#[trigger] page[i])
    &&& forall|i: int, j: int|
        0 <= i < j < page.len() ==> place_of(ledger, #[trigger] page[i]) < place_of(
            ledger,
            #[trigger] page[j],
        )
    &&& since matches Some(cursor) ==> forall|i: int|
        0 <= i < page.len() ==> place_of(ledger, cursor) < place_of(ledger, #[trigger] page[i])
}

/// The cursor after a run of pages, each drained in turn.
pub open spec fn cursor_through(start: Option<Seq<u8>>, pages: Seq<Seq<Seq<u8>>>) -> Option<
    Seq<u8>,
>
    decreases pages.len(),
{
    if pages.len() == 0 {
        start
    } else {
        cursor_after(cursor_through(start, pages.drop_last()), pages.last())
    }
}

/// Whether each page of a run truthfully answers the request made with the
/// cursor that the pages before it left.
pub open spec fn healthy_run(
    ledger: Seq<Seq<u8>>,
    start: Option<Seq<u8>>,
    pages: Seq<Seq<Seq<u8>>>,
) -> bool {
    forall|k: int|
        0 <= k < pages.len() ==> healthy_page(
            ledger,
            cursor_through(start, pages.take(k)),
            #[trigger] pages[k],
        )
}

/// After any later page, the cursor stands on an identifier issued no
/// earlier than each identifier of an earlier page.
proof fn lemma_cursor_is_past(
    ledger: Seq<Seq<u8>>,
    start: Option<Seq<u8>>,
    pages: Seq<Seq<Seq<u8>>>,
    a: int,
    i: int,
    k: int,
)
    requires
        healthy_run(ledger, start, pages),
        0 <= a < k <= pages.len(),
        0 <= i < pages[a].len(),
    ensures
        cursor_through(start, pages.take(k)) matches Some(cursor) && place_of(ledger, pages[a][i])
            <= place_of(ledger, cursor),
    decreases k,
{
    let before = cursor_through(start, pages.take(k - 1));
    let page = pages[k - 1];
    assert(pages.take(k).drop_last() =~= pages.take(k - 1));
    assert(pages.take(k).last() == page);
    assert(healthy_page(ledger, before, page));
    if k == a + 1 {
        if i < page.len() - 1 {
            assert(place_of(ledger, page[i]) < place_of(ledger, page[page.len() - 1]));
        }
    } else {
        lemma_cursor_is_past(ledger, start, pages, a, i, k - 1);
        if page.len() > 0 {
            assert(place_of(ledger, before->0) < place_of(ledger, page[page.len() - 1]));
        }
    }
}

/// No identifier is requested twice: while the ledger answers truthfully,
/// a page never lists an identifier that an earlier page listed, over any
/// number of cycles.
pub proof fn lemma_no_identifier_comes_twice(
    ledger: Seq<Seq<u8>>,
    start: Option<Seq<u8>>,
    pages: Seq<Seq<Seq<u8>>>,
    a: int,
    b: int,
    i: int,
    j: int,
)
    requires
        healthy_run(ledger, start, pages),
        0 <= a < b < pages.len(),
        0 <= i < pages[a].len(),
        0 <= j < pages[b].len(),
    ensures
        pages[a][i] != pages[b][j],
{
    lemma_cursor_is_past(ledger, start, pages, a, i, b);
    let cursor = cursor_through(start, pages.take(b))->0;
    assert(healthy_page(ledger, Some(cursor), pages[b]));
    assert(place_of(ledger, cursor) < place_of(ledger, pages[b][j]));
}

} // verus!
