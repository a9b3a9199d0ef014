use solana_aggregator::aggregator::{
    build_details, identifiers_of, oldest_first, Action, AdapterError, Event, RawMessage,
    RawTransaction, SolanaAggregator, Stage, Turn, PAGE_SIZE, REST_SECONDS,
};
use solana_aggregator::api::{respond, Reply};
use solana_aggregator::signature::TransactionId;
use solana_aggregator::store::RecordStore;
use solana_sdk::signature::Signature;

fn text_of(byte: u8) -> String {
    Signature::from([byte; 64]).to_string()
}

fn id_of(byte: u8) -> TransactionId {
    TransactionId { bytes: [byte; 64] }
}

fn raw(sender: &str, receiver: &str, data: &str, block_time: Option<i64>) -> RawTransaction {
    RawTransaction {
        message: Some(RawMessage {
            account_keys: vec![sender.to_string(), receiver.to_string()],
            instruction_data: vec![data.to_string()],
        }),
        block_time,
    }
}

#[test]
fn a_new_loop_asks_for_the_newest_page() {
    let aggregator = SolanaAggregator::new();
    assert_eq!(aggregator.stage(), Stage::Polling);
    assert_eq!(aggregator.cursor(), None);
    assert_eq!(
        aggregator.pending(),
        Action::ListNewIdentifiers { since: None, page_size: 1000 }
    );
    assert_eq!(aggregator.fetch_signatures(), aggregator.pending());
    assert_eq!(PAGE_SIZE, 1000);
    assert_eq!(REST_SECONDS, 1);
}

#[test]
fn end_to_end_one_page_with_a_malformed_record() {
    let mut aggregator = SolanaAggregator::new();
    let mut store = RecordStore::new();
    let sig_a = id_of(1);
    let sig_b = id_of(2);

    let action = aggregator.fetch_transactions(
        &mut store,
        Event::Page(Ok(vec![text_of(1), text_of(2)])),
    ).action;
    assert_eq!(action, Action::FetchDetail { id: sig_a });
    assert_eq!(aggregator.stage(), Stage::Draining);

    let action = aggregator.fetch_transactions(
        &mut store,
        Event::Detail(Ok(raw("S1", "R1", "D1", Some(1620000000)))),
    ).action;
    assert_eq!(action, Action::FetchDetail { id: sig_b });

    let action =
        aggregator.fetch_transactions(&mut store, Event::Detail(Err(AdapterError::Malformed))).action;
    assert_eq!(action, Action::Rest { seconds: 1 });
    assert_eq!(aggregator.stage(), Stage::Resting);

    let found = store.get(&sig_a).expect("the first record is stored");
    assert_eq!(found.sender, "S1");
    assert_eq!(found.receiver, "R1");
    assert_eq!(found.data, "D1");
    assert_eq!(found.timestamp, 1620000000);
    assert!(store.get(&sig_b).is_none());
    assert_eq!(store.len(), 1);

    match respond(&store, None, Some("03/05/2021")) {
        Ok(Reply::Records(found)) => {
            assert_eq!(found.len(), 1);
            assert_eq!(found[0].sender, "S1");
            assert_eq!(found[0].receiver, "R1");
            assert_eq!(found[0].data, "D1");
            assert_eq!(found[0].timestamp, 1620000000);
        }
        _ => panic!("a day query is answered with records"),
    }
    match respond(&store, Some(&text_of(2)), None) {
        Ok(Reply::Detail(found)) => assert!(found.is_none()),
        _ => panic!("an identifier query is answered with a detail"),
    }
}

#[test]
fn keys_after_draining_are_the_accepted_identifiers() {
    let mut aggregator = SolanaAggregator::new();
    let mut store = RecordStore::new();
    aggregator.fetch_transactions(
        &mut store,
        Event::Page(Ok(vec![text_of(1), text_of(2), text_of(3), text_of(4)])),
    );
    aggregator.fetch_transactions(&mut store, Event::Detail(Err(AdapterError::NotFound)));
    aggregator.fetch_transactions(&mut store, Event::Detail(Ok(raw("a", "b", "c", Some(5)))));
    aggregator.fetch_transactions(&mut store, Event::Detail(Err(AdapterError::Transient)));
    aggregator.fetch_transactions(
        &mut store,
        Event::Detail(Ok(RawTransaction { message: None, block_time: Some(7) })),
    );
    aggregator.fetch_transactions(&mut store, Event::Rested);
    aggregator.fetch_transactions(&mut store, Event::Page(Ok(vec![text_of(5)])));
    aggregator.fetch_transactions(&mut store, Event::Detail(Ok(raw("d", "e", "f", None))));

    assert!(!store.contains(&id_of(1)));
    assert!(store.contains(&id_of(2)));
    assert!(!store.contains(&id_of(3)));
    assert!(!store.contains(&id_of(4)));
    assert!(store.contains(&id_of(5)));
    assert_eq!(store.len(), 2);
    assert_eq!(store.get(&id_of(5)).unwrap().timestamp, 0);
}

#[test]
fn the_cursor_moves_to_the_last_identifier_even_when_it_failed() {
    let mut aggregator = SolanaAggregator::new();
    let mut store = RecordStore::new();
    aggregator.fetch_transactions(&mut store, Event::Page(Ok(vec![text_of(8), text_of(9)])));
    assert_eq!(aggregator.cursor(), None);
    aggregator.fetch_transactions(&mut store, Event::Detail(Ok(raw("a", "b", "c", Some(1)))));
    assert_eq!(aggregator.cursor(), None);
    let action =
        aggregator.fetch_transactions(&mut store, Event::Detail(Err(AdapterError::Transient))).action;
    assert_eq!(action, Action::Rest { seconds: 1 });
    assert_eq!(aggregator.cursor(), Some(id_of(9)));

    let action = aggregator.fetch_transactions(&mut store, Event::Rested).action;
    assert_eq!(
        action,
        Action::ListNewIdentifiers { since: Some(id_of(9)), page_size: 1000 }
    );
    assert_eq!(aggregator.stage(), Stage::Polling);
}

#[test]
fn an_empty_page_and_a_failed_poll_leave_the_cursor() {
    let mut aggregator = SolanaAggregator::new();
    let mut store = RecordStore::new();
    aggregator.fetch_transactions(&mut store, Event::Page(Ok(vec![text_of(3)])));
    aggregator.fetch_transactions(&mut store, Event::Detail(Err(AdapterError::NotFound)));
    aggregator.fetch_transactions(&mut store, Event::Rested);
    assert_eq!(aggregator.cursor(), Some(id_of(3)));

    let action = aggregator.fetch_transactions(&mut store, Event::Page(Ok(vec![]))).action;
    assert_eq!(action, Action::Rest { seconds: 1 });
    assert_eq!(aggregator.cursor(), Some(id_of(3)));

    aggregator.fetch_transactions(&mut store, Event::Rested);
    let action =
        aggregator.fetch_transactions(&mut store, Event::Page(Err(AdapterError::Transient))).action;
    assert_eq!(action, Action::Rest { seconds: 1 });
    assert_eq!(aggregator.stage(), Stage::Resting);
    assert_eq!(aggregator.cursor(), Some(id_of(3)));
    assert_eq!(store.len(), 0);
}

#[test]
fn an_event_that_is_not_awaited_changes_nothing() {
    let mut aggregator = SolanaAggregator::new();
    let mut store = RecordStore::new();
    let action =
        aggregator.fetch_transactions(&mut store, Event::Detail(Ok(raw("a", "b", "c", None)))).action;
    assert_eq!(action, Action::ListNewIdentifiers { since: None, page_size: 1000 });
    assert_eq!(store.len(), 0);
    let action = aggregator.fetch_transactions(&mut store, Event::Rested).action;
    assert_eq!(action, Action::ListNewIdentifiers { since: None, page_size: 1000 });

    aggregator.fetch_transactions(&mut store, Event::Page(Ok(vec![text_of(1), text_of(2)])));
    let action = aggregator.fetch_transactions(&mut store, Event::Page(Ok(vec![text_of(7)]))).action;
    assert_eq!(action, Action::FetchDetail { id: id_of(1) });
    let action =
        aggregator.fetch_transactions(&mut store, Event::Page(Err(AdapterError::Transient))).action;
    assert_eq!(action, Action::FetchDetail { id: id_of(1) });
    let action = aggregator.fetch_transactions(&mut store, Event::Rested).action;
    assert_eq!(action, Action::FetchDetail { id: id_of(1) });
}

#[test]
fn a_text_that_is_no_signature_is_left_out_of_the_page() {
    let page = vec![text_of(1), "not a signature".to_string(), text_of(2), String::new()];
    assert_eq!(identifiers_of(&page), vec![id_of(1), id_of(2)]);

    let mut aggregator = SolanaAggregator::new();
    assert_eq!(aggregator.process_signatures(&vec!["0OIl".to_string()]), 1);
    assert_eq!(aggregator.stage(), Stage::Resting);
    assert_eq!(aggregator.cursor(), None);
}

#[test]
fn begin_page_starts_at_the_oldest_identifier() {
    let mut aggregator = SolanaAggregator::new();
    aggregator.begin_page(vec![id_of(4), id_of(5)]);
    assert_eq!(aggregator.stage(), Stage::Draining);
    assert_eq!(aggregator.pending(), Action::FetchDetail { id: id_of(4) });
    assert_eq!(aggregator.cursor(), None);

    aggregator.begin_page(vec![id_of(6)]);
    assert_eq!(aggregator.pending(), Action::FetchDetail { id: id_of(4) });

    let mut idle = SolanaAggregator::new();
    idle.begin_page(Vec::new());
    assert_eq!(idle.stage(), Stage::Resting);
    assert_eq!(idle.pending(), Action::Rest { seconds: 1 });
}

#[test]
fn oldest_first_reverses_the_page() {
    let page = oldest_first(vec!["c".to_string(), "b".to_string(), "a".to_string()]);
    assert_eq!(page, vec!["a".to_string(), "b".to_string(), "c".to_string()]);
    assert_eq!(oldest_first(Vec::new()), Vec::<String>::new());
}

#[test]
fn a_record_takes_the_first_participants_and_the_first_payload() {
    let fetched = RawTransaction {
        message: Some(RawMessage {
            account_keys: vec!["k0".to_string(), "k1".to_string(), "k2".to_string()],
            instruction_data: vec!["i0".to_string(), "i1".to_string()],
        }),
        block_time: Some(-3),
    };
    let details = build_details(&fetched).unwrap();
    assert_eq!(details.sender, "k0");
    assert_eq!(details.receiver, "k1");
    assert_eq!(details.data, "i0");
    assert_eq!(details.timestamp, -3);
}

#[test]
fn a_record_without_time_has_timestamp_zero() {
    let details = build_details(&raw("s", "r", "d", None)).unwrap();
    assert_eq!(details.timestamp, 0);
}

#[test]
fn a_transaction_short_of_parts_is_malformed() {
    let one_key = RawTransaction {
        message: Some(RawMessage {
            account_keys: vec!["k0".to_string()],
            instruction_data: vec!["i0".to_string()],
        }),
        block_time: Some(1),
    };
    assert_eq!(build_details(&one_key).unwrap_err(), AdapterError::Malformed);
    let no_instruction = RawTransaction {
        message: Some(RawMessage {
            account_keys: vec!["k0".to_string(), "k1".to_string()],
            instruction_data: vec![],
        }),
        block_time: Some(1),
    };
    assert_eq!(build_details(&no_instruction).unwrap_err(), AdapterError::Malformed);
    let undecoded = RawTransaction { message: None, block_time: Some(1) };
    assert_eq!(build_details(&undecoded).unwrap_err(), AdapterError::Malformed);
}

#[test]
fn each_fetch_outcome_is_reported_and_only_a_record_is_stored() {
    let mut store = RecordStore::new();
    let id = id_of(6);
    assert_eq!(
        SolanaAggregator::fetch_and_process_transaction(
            &mut store,
            id,
            &Err(AdapterError::NotFound)
        ),
        Err(AdapterError::NotFound)
    );
    assert_eq!(
        SolanaAggregator::fetch_and_process_transaction(
            &mut store,
            id,
            &Err(AdapterError::Transient)
        ),
        Err(AdapterError::Transient)
    );
    assert_eq!(
        SolanaAggregator::fetch_and_process_transaction(
            &mut store,
            id,
            &Ok(RawTransaction { message: None, block_time: None })
        ),
        Err(AdapterError::Malformed)
    );
    assert_eq!(store.len(), 0);
    assert_eq!(
        SolanaAggregator::fetch_and_process_transaction(
            &mut store,
            id,
            &Ok(raw("s", "r", "d", Some(9)))
        ),
        Ok(())
    );
    assert_eq!(store.get(&id).unwrap().timestamp, 9);
}

#[test]
fn each_failure_is_handed_back_and_the_loop_goes_on() {
    let mut aggregator = SolanaAggregator::new();
    let mut store = RecordStore::new();
    let rest = Action::Rest { seconds: 1 };
    let poll = Action::ListNewIdentifiers { since: None, page_size: 1000 };

    let turn = aggregator.fetch_transactions(&mut store, Event::Page(Err(AdapterError::Transient)));
    assert_eq!(turn, Turn { action: rest, failure: Some(AdapterError::Transient) });
    let turn = aggregator.fetch_transactions(&mut store, Event::Page(Err(AdapterError::Transient)));
    assert_eq!(turn, Turn { action: rest, failure: None });
    let turn = aggregator.fetch_transactions(&mut store, Event::Rested);
    assert_eq!(turn, Turn { action: poll, failure: None });

    let turn = aggregator.fetch_transactions(
        &mut store,
        Event::Page(Ok(vec![text_of(1), text_of(2), text_of(3), text_of(4)])),
    );
    assert_eq!(turn, Turn { action: Action::FetchDetail { id: id_of(1) }, failure: None });
    let turn = aggregator.fetch_transactions(&mut store, Event::Detail(Err(AdapterError::NotFound)));
    assert_eq!(
        turn,
        Turn { action: Action::FetchDetail { id: id_of(2) }, failure: Some(AdapterError::NotFound) }
    );
    let turn = aggregator.fetch_transactions(
        &mut store,
        Event::Detail(Ok(RawTransaction { message: None, block_time: None })),
    );
    assert_eq!(
        turn,
        Turn { action: Action::FetchDetail { id: id_of(3) }, failure: Some(AdapterError::Malformed) }
    );
    let turn = aggregator.fetch_transactions(&mut store, Event::Detail(Ok(raw("s", "r", "d", None))));
    assert_eq!(turn, Turn { action: Action::FetchDetail { id: id_of(4) }, failure: None });
    let turn =
        aggregator.fetch_transactions(&mut store, Event::Detail(Err(AdapterError::Transient)));
    assert_eq!(turn, Turn { action: rest, failure: Some(AdapterError::Transient) });
    assert_eq!(store.len(), 1);
    assert!(store.contains(&id_of(3)));
}

#[test]
fn a_page_with_a_text_that_is_no_signature_is_reported() {
    let mut aggregator = SolanaAggregator::new();
    let mut store = RecordStore::new();
    let turn = aggregator.fetch_transactions(
        &mut store,
        Event::Page(Ok(vec![text_of(1), "no signature".to_string()])),
    );
    assert_eq!(
        turn,
        Turn { action: Action::FetchDetail { id: id_of(1) }, failure: Some(AdapterError::Malformed) }
    );
    let turn = aggregator.fetch_transactions(&mut store, Event::Detail(Ok(raw("s", "r", "d", None))));
    assert_eq!(turn, Turn { action: Action::Rest { seconds: 1 }, failure: None });
    assert_eq!(aggregator.cursor(), Some(id_of(1)));
}

fn newer_than(ledger: &[u8], since: Option<TransactionId>) -> Vec<String> {
    let from = match since {
        Some(id) => ledger.iter().position(|byte| id_of(*byte) == id).unwrap() + 1,
        None => 0,
    };
    ledger[from..].iter().map(|byte| text_of(*byte)).collect()
}

#[test]
fn a_truthful_ledger_is_never_asked_twice_for_an_identifier() {
    let arrivals: Vec<Vec<u8>> = vec![vec![1, 2, 3], vec![4, 5], vec![], vec![6, 7], vec![]];
    let mut ledger: Vec<u8> = Vec::new();
    let mut aggregator = SolanaAggregator::new();
    let mut store = RecordStore::new();
    let mut fetched: Vec<TransactionId> = Vec::new();
    let mut action = aggregator.pending();

    for arrived in arrivals {
        ledger.extend(arrived);
        loop {
            let event = match action {
                Action::ListNewIdentifiers { since, page_size } => {
                    assert_eq!(page_size, 1000);
                    Event::Page(Ok(newer_than(&ledger, since)))
                }
                Action::FetchDetail { id } => {
                    assert!(!fetched.contains(&id));
                    fetched.push(id);
                    if id.bytes[0] % 2 == 0 {
                        Event::Detail(Err(AdapterError::Transient))
                    } else {
                        Event::Detail(Ok(raw("s", "r", "d", Some(id.bytes[0] as i64))))
                    }
                }
                Action::Rest { .. } => Event::Rested,
            };
            let rested = matches!(event, Event::Rested);
            action = aggregator.fetch_transactions(&mut store, event).action;
            if rested {
                break;
            }
        }
    }

    assert_eq!(fetched, (1..=7).map(id_of).collect::<Vec<TransactionId>>());
    assert_eq!(aggregator.cursor(), Some(id_of(7)));
    assert_eq!(store.len(), 4);
    for byte in 1..=7u8 {
        assert_eq!(store.contains(&id_of(byte)), byte % 2 == 1);
    }
}
