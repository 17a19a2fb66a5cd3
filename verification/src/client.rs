//! The connect -> subscribe -> consume -> dispatch pipeline.
//!
//! `YellowstoneClient` carries the verified half of the pipeline: endpoint
//! validation producing a `ConnectPlan`, the dispatcher that classifies one
//! update and runs the matching handler, and the consumption policy that
//! drives a sequence of stream items through the dispatcher while skipping
//! per-message failures. The network itself (handshake, channel
//! negotiation, the pull of each item) is the surrounding application's
//! job: it hands every received item to `handle_stream_item`.

use vstd::prelude::*;

use crate::errors::{ConnectError, FatalError, HandlerError, StreamError};
use crate::log::{LogEvent, LogEventView, LogSink};
use crate::update::{
    payload_absent, recognized_category, AccountInfo, SlotUpdate, TransactionInfo, Update,
    UpdateCategory,
};

verus! {

/// A validated connection configuration: everything the transport needs to
/// attempt the handshake. Producing a plan never touches the network.
pub struct ConnectPlan {
    /// The remote endpoint; never empty.
    pub endpoint: String,
    /// Optional bearer token attached as a per-call credential. Absence
    /// means unauthenticated connection attempts.
    pub token: Option<String>,
}

impl ConnectPlan {
    /// A plan is well formed when its endpoint is non-empty.
    pub open spec fn wf(self) -> bool {
        self.endpoint@.len() > 0
    }
}

/// The events one dispatched update contributes to the log: one handler
/// observation for a recognized item, nothing for an unknown tag or an
/// absent inner payload.
pub open spec fn events_of_update(u: Update) -> Seq<LogEventView> {
    match u {
        Update::Account(a) => match a.account {
            Option::Some(info) => seq![
                LogEventView::AccountSeen { pubkey: info.pubkey@, lamports: info.lamports },
            ],
            Option::None => Seq::empty(),
        },
        Update::Transaction(t) => match t.transaction {
            Option::Some(info) => seq![
                LogEventView::TransactionSeen {
                    signature: info.signature@,
                    is_vote: info.is_vote,
                },
            ],
            Option::None => Seq::empty(),
        },
        Update::Slot(s) => seq![LogEventView::SlotSeen { slot: s.slot }],
        Update::Unknown => Seq::empty(),
    }
}

/// The events one stream item contributes to the log: the dispatched
/// update's events for a delivered item, one failure record for a
/// per-message stream error.
pub open spec fn events_of_item(item: Result<Update, StreamError>) -> Seq<LogEventView> {
    match item {
        Result::Ok(u) => events_of_update(u),
        Result::Err(e) => seq![
            LogEventView::StreamFailure { code: e.code, message: e.message@ },
        ],
    }
}

/// The events a whole item sequence contributes, in stream order.
pub open spec fn events_of_stream(items: Seq<Result<Update, StreamError>>) -> Seq<LogEventView>
    decreases items.len(),
{
    if items.len() == 0 {
        Seq::empty()
    } else {
        events_of_item(items[0]) + events_of_stream(items.skip(1))
    }
}

/// The handler a recorded event witnesses, if any.
pub open spec fn handler_of_event(e: LogEventView) -> Option<UpdateCategory> {
    match e {
        LogEventView::AccountSeen { .. } => Option::Some(UpdateCategory::Account),
        LogEventView::TransactionSeen { .. } => Option::Some(UpdateCategory::Transaction),
        LogEventView::SlotSeen { .. } => Option::Some(UpdateCategory::Slot),
        LogEventView::StreamFailure { .. } => Option::None,
    }
}

/// Copies a byte vector.
fn clone_bytes(v: &Vec<u8>) -> (r: Vec<u8>)
    ensures
        r@ == v@,
{
    let r = v.clone();
    proof {
        assert(r@ =~= v@);
    }
    r
}

/// The verified core of the ingestion client.
pub struct YellowstoneClient;

impl YellowstoneClient {
    /// Validates the endpoint configuration and produces the connection
    /// plan for the transport. An empty endpoint is rejected here, before
    /// any handshake could be attempted; every non-empty endpoint yields a
    /// well-formed plan carrying the endpoint and the optional token
    /// unchanged.
    pub fn create_yellowstone_client(endpoint: &str, token: Option<String>) -> (r: Result<
        ConnectPlan,
        ConnectError,
    >)
        ensures
            r is Ok <==> endpoint@.len() > 0,
            r matches Ok(plan) ==> plan.endpoint@ == endpoint@ && plan.token == token
                && plan.wf(),
            r matches Err(e) ==> e is MalformedEndpoint,
    {
        if endpoint.is_empty() {
            Err(ConnectError::MalformedEndpoint)
        } else {
            Ok(ConnectPlan { endpoint: endpoint.to_owned(), token })
        }
    }

    /// Dispatcher: classifies one update by its tag and runs the matching
    /// handler exactly once. Unknown tags and envelopes whose inner
    /// payload is absent are skipped silently; dispatch itself never
    /// fails.
    pub fn process_update(update: Update, sink: &mut LogSink) -> (r: Result<(), HandlerError>)
        ensures
            r is Ok,
            final(sink)@ == old(sink)@ + events_of_update(update),
    {
        let ghost pre = old(sink)@;
        let ghost evs = events_of_update(update);
        let r = match update {
            Update::Account(a) => match a.account {
                Option::Some(info) => Self::handle_account_update(&info, sink),
                Option::None => Ok(()),
            },
            Update::Transaction(t) => match t.transaction {
                Option::Some(info) => Self::handle_transaction_update(&info, sink),
                Option::None => Ok(()),
            },
            Update::Slot(s) => Self::handle_slot_update(&s, sink),
            Update::Unknown => Ok(()),
        };
        proof {
            assert(sink@ =~= pre + evs);
        }
        r
    }

    /// Handler for account snapshots: observes the payload and succeeds.
    /// This is the extension point for real account processing.
    pub fn handle_account_update(account: &AccountInfo, sink: &mut LogSink) -> (r: Result<
        (),
        HandlerError,
    >)
        ensures
            r is Ok,
            final(sink)@ == old(sink)@.push(
                LogEventView::AccountSeen { pubkey: account.pubkey@, lamports: account.lamports },
            ),
    {
        let pubkey = clone_bytes(&account.pubkey);
        sink.record(LogEvent::AccountSeen { pubkey, lamports: account.lamports });
        Ok(())
    }

    /// Handler for transaction records: observes the payload and succeeds.
    /// This is the extension point for real transaction processing.
    pub fn handle_transaction_update(transaction: &TransactionInfo, sink: &mut LogSink) -> (r:
        Result<(), HandlerError>)
        ensures
            r is Ok,
            final(sink)@ == old(sink)@.push(
                LogEventView::TransactionSeen {
                    signature: transaction.signature@,
                    is_vote: transaction.is_vote,
                },
            ),
    {
        let signature = clone_bytes(&transaction.signature);
        sink.record(LogEvent::TransactionSeen { signature, is_vote: transaction.is_vote });
        Ok(())
    }

    /// Handler for slot progressions: observes the slot and succeeds.
    /// This is the extension point for real slot processing.
    pub fn handle_slot_update(slot_update: &SlotUpdate, sink: &mut LogSink) -> (r: Result<
        (),
        HandlerError,
    >)
        ensures
            r is Ok,
            final(sink)@ == old(sink)@.push(LogEventView::SlotSeen { slot: slot_update.slot }),
    {
        sink.record(LogEvent::SlotSeen { slot: slot_update.slot });
        Ok(())
    }

    /// One step of the consumption loop, for the task that owns the update
    /// source: a delivered update is dispatched, a per-message stream
    /// error is logged and skipped. Either way the feed goes on; a
    /// handler's failure, like a stream error, is never fatal.
    pub fn handle_stream_item(item: Result<Update, StreamError>, sink: &mut LogSink)
        ensures
            final(sink)@ == old(sink)@ + events_of_item(item),
    {
        let ghost pre = old(sink)@;
        let ghost evs = events_of_item(item);
        match item {
            Ok(update) => {
                let _dispatched = Self::process_update(update, sink);
            },
            Err(e) => {
                sink.record(LogEvent::StreamFailure { code: e.code, message: e.message });
            },
        }
        proof {
            assert(sink@ =~= pre + evs);
        }
    }

    /// Stream consumer over a drained item sequence: feeds every item, in
    /// order, through `handle_stream_item`. Exhaustion of the sequence is
    /// a clean completion; neither a stream error nor a handler outcome
    /// ends consumption early, so the result is always `Ok` and the log
    /// gains exactly the events of the whole sequence.
    pub fn handle_stream(items: Vec<Result<Update, StreamError>>, sink: &mut LogSink) -> (r: Result<
        (),
        FatalError,
    >)
        ensures
            r is Ok,
            final(sink)@ == old(sink)@ + events_of_stream(items@),
    {
        let ghost pre = old(sink)@;
        let ghost items_view = items@;
        let mut rest = items;
        while rest.len() > 0
            invariant
                pre + events_of_stream(items_view) == sink@ + events_of_stream(rest@),
            decreases rest.len(),
        {
            let ghost rest_pre = rest@;
            let ghost sink_pre = sink@;
            let item = rest.remove(0);
            proof {
                assert(rest@ =~= rest_pre.skip(1));
            }
            Self::handle_stream_item(item, sink);
            proof {
                assert(sink_pre + (events_of_item(item) + events_of_stream(rest@)) =~= (sink_pre
                    + events_of_item(item)) + events_of_stream(rest@));
            }
        }
        proof {
            assert(events_of_stream(rest@) =~= Seq::empty());
            assert(sink@ + Seq::<LogEventView>::empty() =~= sink@);
            assert(sink@ =~= pre + events_of_stream(items_view));
        }
        Ok(())
    }
}

/// For every update, the dispatcher runs exactly one handler when the item
/// is recognized — the handler of the item's own category — and no handler
/// at all for unknown tags or absent payloads.
pub proof fn lemma_dispatch_one_handler(u: Update)
    ensures
        recognized_category(u) matches Some(c) ==> events_of_update(u).len() == 1
            && handler_of_event(events_of_update(u)[0]) == Some(c),
        recognized_category(u) is None ==> events_of_update(u) == Seq::<LogEventView>::empty(),
{
    if recognized_category(u) is None {
        assert(events_of_update(u) =~= Seq::<LogEventView>::empty());
    }
}

/// An update whose tag indicates a category but whose inner payload is
/// absent is skipped: it contributes no event, and dispatch reports no
/// error (`process_update` always returns `Ok`).
pub proof fn lemma_absent_payload_skipped(u: Update)
    requires
        payload_absent(u),
    ensures
        events_of_update(u) == Seq::<LogEventView>::empty(),
{
    assert(events_of_update(u) =~= Seq::<LogEventView>::empty());
}

/// Consumption is serialized in stream order: for a stream that splits
/// into a part `a` followed by a part `b`, the log records every effect of
/// `a` strictly before every effect of `b`.
pub proof fn lemma_stream_events_ordered(
    a: Seq<Result<Update, StreamError>>,
    b: Seq<Result<Update, StreamError>>,
)
    ensures
        events_of_stream(a + b) == events_of_stream(a) + events_of_stream(b),
    decreases a.len(),
{
    if a.len() == 0 {
        assert(a + b =~= b);
        assert(events_of_stream(a) + events_of_stream(b) =~= events_of_stream(b));
    } else {
        assert((a + b).skip(1) =~= a.skip(1) + b);
        lemma_stream_events_ordered(a.skip(1), b);
        assert((a + b)[0] == a[0]);
        assert(events_of_item(a[0]) + (events_of_stream(a.skip(1)) + events_of_stream(b)) =~= (
        events_of_item(a[0]) + events_of_stream(a.skip(1))) + events_of_stream(b));
    }
}

/// Number of per-message errors in an item sequence.
pub open spec fn count_stream_errors(items: Seq<Result<Update, StreamError>>) -> nat
    decreases items.len(),
{
    if items.len() == 0 {
        0
    } else {
        (if items[0] is Err {
            1nat
        } else {
            0nat
        }) + count_stream_errors(items.skip(1))
    }
}

/// Number of failure records in a log segment.
pub open spec fn count_failure_events(evs: Seq<LogEventView>) -> nat
    decreases evs.len(),
{
    if evs.len() == 0 {
        0
    } else {
        (if evs[0] is StreamFailure {
            1nat
        } else {
            0nat
        }) + count_failure_events(evs.skip(1))
    }
}

/// Dispatching an update never records a failure.
pub proof fn lemma_update_events_no_failures(u: Update)
    ensures
        count_failure_events(events_of_update(u)) == 0,
{
    let evs = events_of_update(u);
    assert(count_failure_events(Seq::<LogEventView>::empty()) == 0);
    if evs.len() > 0 {
        assert(evs.skip(1) =~= Seq::<LogEventView>::empty());
        assert(count_failure_events(evs.skip(1)) == 0);
        assert(!(evs[0] is StreamFailure));
        assert(count_failure_events(evs) == 0);
    } else {
        assert(evs =~= Seq::<LogEventView>::empty());
    }
}

/// Failure records add up over a split of the log.
pub proof fn lemma_count_failures_concat(a: Seq<LogEventView>, b: Seq<LogEventView>)
    ensures
        count_failure_events(a + b) == count_failure_events(a) + count_failure_events(b),
    decreases a.len(),
{
    if a.len() == 0 {
        assert(a + b =~= b);
    } else {
        assert((a + b).skip(1) =~= a.skip(1) + b);
        assert((a + b)[0] == a[0]);
        lemma_count_failures_concat(a.skip(1), b);
    }
}

/// Number of recognized items in a stream: delivered updates whose tag
/// and payload select a handler.
pub open spec fn count_recognized_items(items: Seq<Result<Update, StreamError>>) -> nat
    decreases items.len(),
{
    if items.len() == 0 {
        0
    } else {
        (match items[0] {
            Result::Ok(u) => if recognized_category(u) is Some {
                1nat
            } else {
                0nat
            },
            Result::Err(_) => 0nat,
        }) + count_recognized_items(items.skip(1))
    }
}

/// Number of handler observations in a log segment.
pub open spec fn count_handler_events(evs: Seq<LogEventView>) -> nat
    decreases evs.len(),
{
    if evs.len() == 0 {
        0
    } else {
        (if handler_of_event(evs[0]) is Some {
            1nat
        } else {
            0nat
        }) + count_handler_events(evs.skip(1))
    }
}

/// Handler observations add up over a split of the log.
pub proof fn lemma_count_handlers_concat(a: Seq<LogEventView>, b: Seq<LogEventView>)
    ensures
        count_handler_events(a + b) == count_handler_events(a) + count_handler_events(b),
    decreases a.len(),
{
    if a.len() == 0 {
        assert(a + b =~= b);
    } else {
        assert((a + b).skip(1) =~= a.skip(1) + b);
        assert((a + b)[0] == a[0]);
        lemma_count_handlers_concat(a.skip(1), b);
    }
}

/// Over any update sequence, the consumer invokes exactly one handler per
/// recognized item and none for unknown tags, absent payloads or stream
/// errors: the log holds as many handler observations as the stream had
/// recognized items.
pub proof fn lemma_one_handler_per_recognized_item(items: Seq<Result<Update, StreamError>>)
    ensures
        count_handler_events(events_of_stream(items)) == count_recognized_items(items),
    decreases items.len(),
{
    if items.len() > 0 {
        lemma_one_handler_per_recognized_item(items.skip(1));
        lemma_count_handlers_concat(events_of_item(items[0]), events_of_stream(items.skip(1)));
        match items[0] {
            Result::Ok(u) => {
                lemma_dispatch_one_handler(u);
                let evs = events_of_update(u);
                if evs.len() > 0 {
                    assert(evs.skip(1) =~= Seq::<LogEventView>::empty());
                    assert(count_handler_events(evs.skip(1)) == 0);
                } else {
                    assert(evs =~= Seq::<LogEventView>::empty());
                }
            },
            Result::Err(e) => {
                let ev = seq![LogEventView::StreamFailure { code: e.code, message: e.message@ }];
                assert(ev.skip(1) =~= Seq::<LogEventView>::empty());
                assert(count_handler_events(ev.skip(1)) == 0);
                assert(count_handler_events(ev) == 0);
            },
        }
    }
}

/// Every per-message error is logged exactly once: the consumer's log
/// holds as many failure records as the stream had errors.
pub proof fn lemma_each_error_logged_once(items: Seq<Result<Update, StreamError>>)
    ensures
        count_failure_events(events_of_stream(items)) == count_stream_errors(items),
    decreases items.len(),
{
    if items.len() > 0 {
        lemma_each_error_logged_once(items.skip(1));
        lemma_count_failures_concat(events_of_item(items[0]), events_of_stream(items.skip(1)));
        match items[0] {
            Result::Ok(u) => {
                lemma_update_events_no_failures(u);
            },
            Result::Err(e) => {
                let ev = seq![LogEventView::StreamFailure { code: e.code, message: e.message@ }];
                assert(ev.skip(1) =~= Seq::<LogEventView>::empty());
                assert(count_failure_events(ev.skip(1)) == 0);
                assert(count_failure_events(ev) == 1);
            },
        }
    }
}

/// A stream error interleaved between two parts of the stream does not
/// terminate consumption: the items before it and after it are both
/// processed in full, and the error itself is logged exactly once, in
/// order.
pub proof fn lemma_stream_error_does_not_terminate(
    before: Seq<Result<Update, StreamError>>,
    e: StreamError,
    after: Seq<Result<Update, StreamError>>,
)
    ensures
        events_of_stream(before + seq![Result::<Update, StreamError>::Err(e)] + after)
            == events_of_stream(before) + seq![
            LogEventView::StreamFailure { code: e.code, message: e.message@ },
        ] + events_of_stream(after),
{
    let err_item = seq![Result::<Update, StreamError>::Err(e)];
    lemma_stream_events_ordered(before + err_item, after);
    lemma_stream_events_ordered(before, err_item);
    assert(err_item[0] == Result::<Update, StreamError>::Err(e));
    assert(err_item.skip(1) =~= Seq::<Result<Update, StreamError>>::empty());
    assert(events_of_stream(err_item.skip(1)) == Seq::<LogEventView>::empty());
    assert(events_of_item(err_item[0]) == seq![
        LogEventView::StreamFailure { code: e.code, message: e.message@ },
    ]);
    assert(events_of_stream(err_item) =~= seq![
        LogEventView::StreamFailure { code: e.code, message: e.message@ },
    ]);
}

} // verus!
