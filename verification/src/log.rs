//! Structured observability sink.
//!
//! Instead of printing to a console, the consumer and the handlers record
//! their observations in a structured event log injected as a capability.
//! The sink's view is the sequence of recorded events, which is what the
//! dispatch and consumption contracts speak about.

use vstd::prelude::*;

verus! {

/// One structured observation recorded by a handler or by the consumer.
#[derive(Debug, PartialEq, Eq)]
pub enum LogEvent {
    /// An account snapshot was handled.
    AccountSeen { pubkey: Vec<u8>, lamports: u64 },
    /// A transaction record was handled.
    TransactionSeen { signature: Vec<u8>, is_vote: bool },
    /// A slot progression was handled.
    SlotSeen { slot: u64 },
    /// A per-message stream failure was observed and skipped.
    StreamFailure { code: u32, message: String },
}

/// Mathematical form of one recorded event.
pub enum LogEventView {
    AccountSeen { pubkey: Seq<u8>, lamports: u64 },
    TransactionSeen { signature: Seq<u8>, is_vote: bool },
    SlotSeen { slot: u64 },
    StreamFailure { code: u32, message: Seq<char> },
}

impl View for LogEvent {
    type V = LogEventView;

    open spec fn view(&self) -> LogEventView {
        match self {
            LogEvent::AccountSeen { pubkey, lamports } => LogEventView::AccountSeen {
                pubkey: pubkey@,
                lamports: *lamports,
            },
            LogEvent::TransactionSeen { signature, is_vote } => LogEventView::TransactionSeen {
                signature: signature@,
                is_vote: *is_vote,
            },
            LogEvent::SlotSeen { slot } => LogEventView::SlotSeen { slot: *slot },
            LogEvent::StreamFailure { code, message } => LogEventView::StreamFailure {
                code: *code,
                message: message@,
            },
        }
    }
}

/// An append-only event log. Its view is the sequence of event views, in
/// the order they were recorded.
pub struct LogSink {
    pub events: Vec<LogEvent>,
}

impl View for LogSink {
    type V = Seq<LogEventView>;

    open spec fn view(&self) -> Seq<LogEventView> {
        Seq::new(self.events@.len(), |i: int| self.events@[i]@)
    }
}

impl LogSink {
    /// A sink that has recorded nothing yet.
    pub fn new() -> (r: LogSink)
        ensures
            r@ == Seq::<LogEventView>::empty(),
    {
        let r = LogSink { events: Vec::new() };
        proof {
            assert(r@ =~= Seq::<LogEventView>::empty());
        }
        r
    }

    /// Appends one event to the log.
    pub fn record(&mut self, e: LogEvent)
        ensures
            final(self)@ == old(self)@.push(e@),
    {
        let ghost e_view = e@;
        self.events.push(e);
        proof {
            assert(self@ =~= old(self)@.push(e_view));
        }
    }

    /// How many events have been recorded.
    pub fn len(&self) -> (r: usize)
        ensures
            r == self@.len(),
    {
        self.events.len()
    }
}

} // verus!
