//! Counters shared by the router, the plugin actors and the handlers.
use vstd::prelude::*;

use std::sync::atomic::AtomicUsize;
use std::sync::atomic::Ordering;

use crate::text::{decimal, decimal_usize, owned, push_str};

verus! {

/// Lock-free counters of what the runtime did.
#[derive(Debug)]
pub struct Telemetry {
    pub messages_received: AtomicUsize,
    pub exact_route_hits: AtomicUsize,
    pub prefix_route_hits: AtomicUsize,
    pub keyword_route_hits: AtomicUsize,
    pub fallback_dispatches: AtomicUsize,
    pub handler_dispatches: AtomicUsize,
    pub reply_failures: AtomicUsize,
    pub unmatched_messages: AtomicUsize,
    pub handler_started: AtomicUsize,
    pub handler_succeeded: AtomicUsize,
    pub handler_failed: AtomicUsize,
    pub handler_timed_out: AtomicUsize,
    pub drop_newest_drops: AtomicUsize,
    pub drop_oldest_enqueues: AtomicUsize,
    pub drop_oldest_oldest_discards: AtomicUsize,
    pub queued_handler_succeeded: AtomicUsize,
    pub queued_handler_failed: AtomicUsize,
    pub queued_handler_timed_out: AtomicUsize,
}

/// The counters read at one moment.
#[derive(Debug, Clone)]
pub struct TelemetrySnapshot {
    pub messages_received: usize,
    pub exact_route_hits: usize,
    pub prefix_route_hits: usize,
    pub keyword_route_hits: usize,
    pub fallback_dispatches: usize,
    pub handler_dispatches: usize,
    pub reply_failures: usize,
    pub unmatched_messages: usize,
    pub handler_started: usize,
    pub handler_succeeded: usize,
    pub handler_failed: usize,
    pub handler_timed_out: usize,
    pub drop_newest_drops: usize,
    pub drop_oldest_enqueues: usize,
    pub drop_oldest_oldest_discards: usize,
    pub queued_handler_succeeded: usize,
    pub queued_handler_failed: usize,
    pub queued_handler_timed_out: usize,
}

impl TelemetrySnapshot {
    /// Every counter, in order.
    pub open spec fn counters(&self) -> Seq<usize> {
        seq![
            self.messages_received,
            self.exact_route_hits,
            self.prefix_route_hits,
            self.keyword_route_hits,
            self.fallback_dispatches,
            self.handler_dispatches,
            self.reply_failures,
            self.unmatched_messages,
            self.handler_started,
            self.handler_succeeded,
            self.handler_failed,
            self.handler_timed_out,
            self.drop_newest_drops,
            self.drop_oldest_enqueues,
            self.drop_oldest_oldest_discards,
            self.queued_handler_succeeded,
            self.queued_handler_failed,
            self.queued_handler_timed_out,
        ]
    }
}

impl Default for TelemetrySnapshot {
    fn default() -> (r: TelemetrySnapshot)
        ensures
            forall|i: int| 0 <= i < 18 ==> #[trigger] r.counters()[i] == 0,
    {
        TelemetrySnapshot {
            messages_received: 0,
            exact_route_hits: 0,
            prefix_route_hits: 0,
            keyword_route_hits: 0,
            fallback_dispatches: 0,
            handler_dispatches: 0,
            reply_failures: 0,
            unmatched_messages: 0,
            handler_started: 0,
            handler_succeeded: 0,
            handler_failed: 0,
            handler_timed_out: 0,
            drop_newest_drops: 0,
            drop_oldest_enqueues: 0,
            drop_oldest_oldest_discards: 0,
            queued_handler_succeeded: 0,
            queued_handler_failed: 0,
            queued_handler_timed_out: 0,
        }
    }
}

/// `name=value` pieces of the summary line, in order.
pub open spec fn summary_labels() -> Seq<Seq<char>> {
    seq![
        "msg_rcv"@, "exact"@, "prefix"@, "keyword"@, "fallback"@, "dispatch"@, "unmatched"@,
        "reply_err"@, "started"@, "ok"@, "err"@, "timeout"@, "drop_newest"@, "enqueue"@,
        "drop_oldest"@, "q_ok"@, "q_err"@, "q_timeout"@,
    ]
}

/// The counters in the order that the summary line lists them (unmatched before reply errors).
pub open spec fn summary_values(s: TelemetrySnapshot) -> Seq<usize> {
    seq![
        s.messages_received, s.exact_route_hits, s.prefix_route_hits, s.keyword_route_hits,
        s.fallback_dispatches, s.handler_dispatches, s.unmatched_messages, s.reply_failures,
        s.handler_started, s.handler_succeeded, s.handler_failed, s.handler_timed_out,
        s.drop_newest_drops, s.drop_oldest_enqueues, s.drop_oldest_oldest_discards,
        s.queued_handler_succeeded, s.queued_handler_failed, s.queued_handler_timed_out,
    ]
}

/// The summary line of the first `n` pieces.
pub open spec fn summary_prefix(labels: Seq<Seq<char>>, values: Seq<usize>, n: nat) -> Seq<char>
    decreases n,
{
    if n == 0 {
        "Telemetry:"@
    } else {
        summary_prefix(labels, values, (n - 1) as nat) + " "@ + labels[n - 1] + "="@ + decimal(
            values[n - 1] as nat,
        )
    }
}

/// The summary line: `Telemetry:` followed by ` name=value` for each counter.
pub open spec fn summary_spec(s: TelemetrySnapshot) -> Seq<char> {
    summary_prefix(summary_labels(), summary_values(s), 18)
}

fn summary_label(i: usize) -> (r: &'static str)
    requires
        i < 18,
    ensures
        r@ == summary_labels()[i as int],
{
    if i == 0 { "msg_rcv" }
    else if i == 1 { "exact" }
    else if i == 2 { "prefix" }
    else if i == 3 { "keyword" }
    else if i == 4 { "fallback" }
    else if i == 5 { "dispatch" }
    else if i == 6 { "unmatched" }
    else if i == 7 { "reply_err" }
    else if i == 8 { "started" }
    else if i == 9 { "ok" }
    else if i == 10 { "err" }
    else if i == 11 { "timeout" }
    else if i == 12 { "drop_newest" }
    else if i == 13 { "enqueue" }
    else if i == 14 { "drop_oldest" }
    else if i == 15 { "q_ok" }
    else if i == 16 { "q_err" }
    else { "q_timeout" }
}

impl TelemetrySnapshot {
    fn summary_value(&self, i: usize) -> (r: usize)
        requires
            i < 18,
        ensures
            r == summary_values(*self)[i as int],
    {
        if i == 0 { self.messages_received }
        else if i == 1 { self.exact_route_hits }
        else if i == 2 { self.prefix_route_hits }
        else if i == 3 { self.keyword_route_hits }
        else if i == 4 { self.fallback_dispatches }
        else if i == 5 { self.handler_dispatches }
        else if i == 6 { self.unmatched_messages }
        else if i == 7 { self.reply_failures }
        else if i == 8 { self.handler_started }
        else if i == 9 { self.handler_succeeded }
        else if i == 10 { self.handler_failed }
        else if i == 11 { self.handler_timed_out }
        else if i == 12 { self.drop_newest_drops }
        else if i == 13 { self.drop_oldest_enqueues }
        else if i == 14 { self.drop_oldest_oldest_discards }
        else if i == 15 { self.queued_handler_succeeded }
        else if i == 16 { self.queued_handler_failed }
        else { self.queued_handler_timed_out }
    }

    /// The one-line summary of the counters.
    pub fn summary_line(&self) -> (r: String)
        ensures
            r@ == summary_spec(*self),
    {
        let mut out = owned("Telemetry:");
        let mut i: usize = 0;
        while i < 18
            invariant
                i <= 18,
                out@ == summary_prefix(summary_labels(), summary_values(*self), i as nat),
            decreases 18 - i,
        {
            push_str(&mut out, " ");
            push_str(&mut out, summary_label(i));
            push_str(&mut out, "=");
            let v = decimal_usize(self.summary_value(i));
            push_str(&mut out, v.as_str());
            i += 1;
        }
        out
    }
}

/// Which counter of the telemetry.
#[derive(Debug, Clone, Copy, PartialEq, Eq, Structural)]
pub enum Counter {
    MessagesReceived,
    ExactRouteHits,
    PrefixRouteHits,
    KeywordRouteHits,
    FallbackDispatches,
    HandlerDispatches,
    ReplyFailures,
    UnmatchedMessages,
    HandlerStarted,
    HandlerSucceeded,
    HandlerFailed,
    HandlerTimedOut,
    DropNewestDrops,
    DropOldestEnqueues,
    DropOldestOldestDiscards,
    QueuedHandlerSucceeded,
    QueuedHandlerFailed,
    QueuedHandlerTimedOut,
}

fn counter() -> AtomicUsize {
    AtomicUsize::new(0)
}

fn read(c: &AtomicUsize) -> usize {
    c.load(Ordering::Relaxed)
}

impl Telemetry {
    /// Counters that all start at zero.
    pub fn new() -> Telemetry {
        Telemetry {
            messages_received: counter(),
            exact_route_hits: counter(),
            prefix_route_hits: counter(),
            keyword_route_hits: counter(),
            fallback_dispatches: counter(),
            handler_dispatches: counter(),
            reply_failures: counter(),
            unmatched_messages: counter(),
            handler_started: counter(),
            handler_succeeded: counter(),
            handler_failed: counter(),
            handler_timed_out: counter(),
            drop_newest_drops: counter(),
            drop_oldest_enqueues: counter(),
            drop_oldest_oldest_discards: counter(),
            queued_handler_succeeded: counter(),
            queued_handler_failed: counter(),
            queued_handler_timed_out: counter(),
        }
    }

    /// Reads every counter.
    pub fn snapshot(&self) -> TelemetrySnapshot {
        TelemetrySnapshot {
            messages_received: read(&self.messages_received),
            exact_route_hits: read(&self.exact_route_hits),
            prefix_route_hits: read(&self.prefix_route_hits),
            keyword_route_hits: read(&self.keyword_route_hits),
            fallback_dispatches: read(&self.fallback_dispatches),
            handler_dispatches: read(&self.handler_dispatches),
            reply_failures: read(&self.reply_failures),
            unmatched_messages: read(&self.unmatched_messages),
            handler_started: read(&self.handler_started),
            handler_succeeded: read(&self.handler_succeeded),
            handler_failed: read(&self.handler_failed),
            handler_timed_out: read(&self.handler_timed_out),
            drop_newest_drops: read(&self.drop_newest_drops),
            drop_oldest_enqueues: read(&self.drop_oldest_enqueues),
            drop_oldest_oldest_discards: read(&self.drop_oldest_oldest_discards),
            queued_handler_succeeded: read(&self.queued_handler_succeeded),
            queued_handler_failed: read(&self.queued_handler_failed),
            queued_handler_timed_out: read(&self.queued_handler_timed_out),
        }
    }

    /// The summary line of the counters as they read now (the line that is logged).
    pub fn log_summary(&self) -> (r: String)
        ensures
            exists|s: TelemetrySnapshot| r@ == summary_spec(s),
    {
        let s = self.snapshot();
        s.summary_line()
    }

    /// Adds `n` to a counter.
    pub fn add(c: &AtomicUsize, n: usize) {
        c.fetch_add(n, Ordering::Relaxed);
    }

    /// The counter of a kind.
    pub fn counter_of(&self, which: Counter) -> (r: &AtomicUsize)
        ensures
            *r == match which {
                Counter::MessagesReceived => self.messages_received,
                Counter::ExactRouteHits => self.exact_route_hits,
                Counter::PrefixRouteHits => self.prefix_route_hits,
                Counter::KeywordRouteHits => self.keyword_route_hits,
                Counter::FallbackDispatches => self.fallback_dispatches,
                Counter::HandlerDispatches => self.handler_dispatches,
                Counter::ReplyFailures => self.reply_failures,
                Counter::UnmatchedMessages => self.unmatched_messages,
                Counter::HandlerStarted => self.handler_started,
                Counter::HandlerSucceeded => self.handler_succeeded,
                Counter::HandlerFailed => self.handler_failed,
                Counter::HandlerTimedOut => self.handler_timed_out,
                Counter::DropNewestDrops => self.drop_newest_drops,
                Counter::DropOldestEnqueues => self.drop_oldest_enqueues,
                Counter::DropOldestOldestDiscards => self.drop_oldest_oldest_discards,
                Counter::QueuedHandlerSucceeded => self.queued_handler_succeeded,
                Counter::QueuedHandlerFailed => self.queued_handler_failed,
                Counter::QueuedHandlerTimedOut => self.queued_handler_timed_out,
            },
    {
        match which {
            Counter::MessagesReceived => &self.messages_received,
            Counter::ExactRouteHits => &self.exact_route_hits,
            Counter::PrefixRouteHits => &self.prefix_route_hits,
            Counter::KeywordRouteHits => &self.keyword_route_hits,
            Counter::FallbackDispatches => &self.fallback_dispatches,
            Counter::HandlerDispatches => &self.handler_dispatches,
            Counter::ReplyFailures => &self.reply_failures,
            Counter::UnmatchedMessages => &self.unmatched_messages,
            Counter::HandlerStarted => &self.handler_started,
            Counter::HandlerSucceeded => &self.handler_succeeded,
            Counter::HandlerFailed => &self.handler_failed,
            Counter::HandlerTimedOut => &self.handler_timed_out,
            Counter::DropNewestDrops => &self.drop_newest_drops,
            Counter::DropOldestEnqueues => &self.drop_oldest_enqueues,
            Counter::DropOldestOldestDiscards => &self.drop_oldest_oldest_discards,
            Counter::QueuedHandlerSucceeded => &self.queued_handler_succeeded,
            Counter::QueuedHandlerFailed => &self.queued_handler_failed,
            Counter::QueuedHandlerTimedOut => &self.queued_handler_timed_out,
        }
    }

    /// Adds each amount to its counter, in order.
    pub fn record(&self, bumps: &[(Counter, usize)]) {
        let mut i: usize = 0;
        while i < bumps.len()
            invariant
                i <= bumps.len(),
            decreases bumps.len() - i,
        {
            let (which, n) = bumps[i];
            Telemetry::add(self.counter_of(which), n);
            i += 1;
        }
    }
}

impl Default for Telemetry {
    fn default() -> Telemetry {
        Telemetry::new()
    }
}

} // verus!
