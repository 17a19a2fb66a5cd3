use yellowstone_ingest::client::YellowstoneClient;
use yellowstone_ingest::errors::{ConnectError, StreamError};
use yellowstone_ingest::log::{LogEvent, LogSink};
use yellowstone_ingest::update::{
    AccountInfo, AccountUpdate, SlotUpdate, TransactionInfo, TransactionUpdate, Update,
};

fn account_update(pubkey: &[u8], lamports: u64, slot: u64) -> Update {
    Update::Account(AccountUpdate {
        account: Some(AccountInfo {
            pubkey: pubkey.to_vec(),
            lamports,
            owner: vec![7u8; 4],
            write_version: 1,
        }),
        slot,
        is_startup: false,
    })
}

fn transaction_update(signature: &[u8], is_vote: bool, slot: u64) -> Update {
    Update::Transaction(TransactionUpdate {
        transaction: Some(TransactionInfo {
            signature: signature.to_vec(),
            is_vote,
            index: 0,
        }),
        slot,
    })
}

fn slot_update(slot: u64) -> Update {
    Update::Slot(SlotUpdate {
        slot,
        parent: Some(slot.wrapping_sub(1)),
        status: 0,
    })
}

#[test]
fn dispatch_invokes_matching_handler_once() {
    let mut sink = LogSink::new();

    let r = YellowstoneClient::process_update(account_update(&[1, 2, 3], 500, 10), &mut sink);
    assert!(r.is_ok());
    let r = YellowstoneClient::process_update(transaction_update(&[9, 9], true, 11), &mut sink);
    assert!(r.is_ok());
    let r = YellowstoneClient::process_update(slot_update(12), &mut sink);
    assert!(r.is_ok());
    let r = YellowstoneClient::process_update(Update::Unknown, &mut sink);
    assert!(r.is_ok());

    assert_eq!(sink.events.len(), 3);
    assert_eq!(
        sink.events[0],
        LogEvent::AccountSeen { pubkey: vec![1, 2, 3], lamports: 500 }
    );
    assert_eq!(
        sink.events[1],
        LogEvent::TransactionSeen { signature: vec![9, 9], is_vote: true }
    );
    assert_eq!(sink.events[2], LogEvent::SlotSeen { slot: 12 });
}

#[test]
fn dispatch_ignores_unknown_tags() {
    let mut sink = LogSink::new();
    let r = YellowstoneClient::process_update(Update::Unknown, &mut sink);
    assert!(r.is_ok());
    assert!(sink.events.is_empty());
}

#[test]
fn dispatch_skips_absent_account_payload() {
    let mut sink = LogSink::new();
    let u = Update::Account(AccountUpdate { account: None, slot: 5, is_startup: true });
    let r = YellowstoneClient::process_update(u, &mut sink);
    assert!(r.is_ok());
    assert!(sink.events.is_empty());
}

#[test]
fn dispatch_skips_absent_transaction_payload() {
    let mut sink = LogSink::new();
    let u = Update::Transaction(TransactionUpdate { transaction: None, slot: 5 });
    let r = YellowstoneClient::process_update(u, &mut sink);
    assert!(r.is_ok());
    assert!(sink.events.is_empty());
}

#[test]
fn stream_error_does_not_terminate_consumption() {
    let mut sink = LogSink::new();
    let items: Vec<Result<Update, StreamError>> = vec![
        Ok(slot_update(1)),
        Err(StreamError { code: 14, message: String::from("transport unavailable") }),
        Ok(slot_update(2)),
    ];
    let r = YellowstoneClient::handle_stream(items, &mut sink);
    assert!(r.is_ok());
    assert_eq!(sink.events.len(), 3);
    assert_eq!(sink.events[0], LogEvent::SlotSeen { slot: 1 });
    assert_eq!(
        sink.events[1],
        LogEvent::StreamFailure { code: 14, message: String::from("transport unavailable") }
    );
    assert_eq!(sink.events[2], LogEvent::SlotSeen { slot: 2 });
}

#[test]
fn each_error_logged_once() {
    let mut sink = LogSink::new();
    let items: Vec<Result<Update, StreamError>> = vec![
        Err(StreamError { code: 4, message: String::from("deadline exceeded") }),
        Ok(Update::Unknown),
        Err(StreamError { code: 13, message: String::from("internal") }),
        Ok(slot_update(9)),
    ];
    let r = YellowstoneClient::handle_stream(items, &mut sink);
    assert!(r.is_ok());
    let failures = sink
        .events
        .iter()
        .filter(|e| matches!(e, LogEvent::StreamFailure { .. }))
        .count();
    assert_eq!(failures, 2);
    assert_eq!(sink.events.len(), 3);
}

#[test]
fn dispatch_effects_are_ordered() {
    let mut sink = LogSink::new();
    let a = account_update(&[5], 1, 1);
    let b = slot_update(2);
    YellowstoneClient::handle_stream_item(Ok(a), &mut sink);
    YellowstoneClient::handle_stream_item(Ok(b), &mut sink);
    assert_eq!(sink.events.len(), 2);
    assert!(matches!(sink.events[0], LogEvent::AccountSeen { .. }));
    assert!(matches!(sink.events[1], LogEvent::SlotSeen { .. }));
}

#[test]
fn empty_endpoint_is_rejected_before_any_handshake() {
    let r = YellowstoneClient::create_yellowstone_client("", Some(String::from("token-value")));
    assert!(matches!(r, Err(ConnectError::MalformedEndpoint)));
}

#[test]
fn valid_endpoint_yields_plan() {
    let r = YellowstoneClient::create_yellowstone_client(
        "https://example.invalid:443",
        Some(String::from("token-value")),
    );
    let plan = r.expect("non-empty endpoint must be accepted");
    assert_eq!(plan.endpoint, "https://example.invalid:443");
    assert_eq!(plan.token, Some(String::from("token-value")));
}

#[test]
fn missing_token_is_preserved_as_unauthenticated() {
    let plan =
        YellowstoneClient::create_yellowstone_client("http://localhost:10000", None).unwrap();
    assert_eq!(plan.token, None);
}

#[test]
fn drained_stream_completes_cleanly() {
    let mut sink = LogSink::new();
    let items: Vec<Result<Update, StreamError>> = vec![
        Ok(account_update(&[1], 10, 1)),
        Ok(transaction_update(&[2], false, 1)),
        Ok(slot_update(1)),
    ];
    let r = YellowstoneClient::handle_stream(items, &mut sink);
    assert!(r.is_ok());
    assert_eq!(sink.events.len(), 3);
}

#[test]
fn empty_stream_completes_cleanly() {
    let mut sink = LogSink::new();
    let r = YellowstoneClient::handle_stream(Vec::new(), &mut sink);
    assert!(r.is_ok());
    assert!(sink.events.is_empty());
}
