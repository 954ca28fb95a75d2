//! What a plugin actor runs, queues or drops, and which of its handlers an event reaches.
use vstd::prelude::*;

use std::collections::VecDeque;

use crate::routing::{EventHandlerSpec, HandlerSpec, RouteView};
use crate::rule::rule_holds;
use crate::telemetry::{Counter, Telemetry};
use crate::text::str_eq;

verus! {

broadcast use vstd::std_specs::vecdeque::group_vec_dequeue_axioms;

/// What a plugin does with a handler run when all its permits are taken.
#[derive(Debug, Clone, Copy, PartialEq, Eq, Structural)]
pub enum QueueStrategy {
    /// Drop the new run.
    DropNewest,
    /// Keep a queue of at most this many runs, dropping the oldest when it is full.
    DropOldest(usize),
}

impl Default for QueueStrategy {
    fn default() -> (r: QueueStrategy)
        ensures
            r == QueueStrategy::DropNewest,
    {
        QueueStrategy::DropNewest
    }
}

/// How a plugin's handlers run: at most `concurrency` at once, each within `timeout_ms`
/// milliseconds, and what happens beyond that.
#[derive(Debug, Clone, Copy)]
pub struct RuntimeConfig {
    pub concurrency: usize,
    pub timeout_ms: u64,
    pub queue_strategy: QueueStrategy,
}

impl Default for RuntimeConfig {
    fn default() -> (r: RuntimeConfig)
        ensures
            r.concurrency == 64,
            r.timeout_ms == 5000,
            r.queue_strategy == QueueStrategy::DropNewest,
    {
        RuntimeConfig { concurrency: 64, timeout_ms: 5000, queue_strategy: QueueStrategy::DropNewest }
    }
}

/// The runs waiting for a permit, oldest first.
pub struct PendingQueue<T> {
    items: VecDeque<T>,
}

impl<T> View for PendingQueue<T> {
    type V = Seq<T>;

    closed spec fn view(&self) -> Seq<T> {
        self.items@
    }
}

/// The queue after adding `item` to a queue bounded by `max`: the oldest run leaves first
/// where the queue already holds `max` or more.
pub open spec fn push_bounded_spec<T>(q: Seq<T>, item: T, max: nat) -> Seq<T> {
    if q.len() >= max && q.len() > 0 {
        q.drop_first().push(item)
    } else {
        q.push(item)
    }
}

impl<T> PendingQueue<T> {
    pub fn new() -> (r: PendingQueue<T>)
        ensures
            r@ == Seq::<T>::empty(),
    {
        PendingQueue { items: VecDeque::new() }
    }

    pub fn len(&self) -> (r: usize)
        ensures
            r == self@.len(),
    {
        self.items.len()
    }

    /// Takes the oldest run.
    pub fn pop_front(&mut self) -> (r: Option<T>)
        ensures
            match r {
                Some(x) => old(self)@.len() > 0 && x == old(self)@[0] && final(self)@ == old(self)@.drop_first(),
                None => old(self)@.len() == 0 && final(self)@ == old(self)@,
            },
    {
        self.items.pop_front()
    }

    /// Adds a run to a queue bounded by `max`, dropping the oldest run where the queue already
    /// holds `max` or more; the dropped run is returned.
    pub fn push_bounded(&mut self, item: T, max: usize) -> (discarded: Option<T>)
        ensures
            final(self)@ == push_bounded_spec(old(self)@, item, max as nat),
            discarded == if old(self)@.len() >= max && old(self)@.len() > 0 {
                Some(old(self)@[0])
            } else {
                None::<T>
            },
    {
        let mut discarded: Option<T> = None;
        if self.items.len() >= max {
            discarded = self.items.pop_front();
        }
        self.items.push_back(item);
        proof {
            if old(self)@.len() >= max && old(self)@.len() > 0 {
                assert(old(self)@.subrange(1, old(self)@.len() as int) =~= old(self)@.drop_first());
            }
        }
        discarded
    }
}

/// A bounded queue never grows beyond its bound (a bound of at least one), and keeps the new
/// run last.
pub proof fn lemma_queue_bounded<T>(q: Seq<T>, item: T, max: nat)
    requires
        max >= 1,
        q.len() <= max,
    ensures
        push_bounded_spec(q, item, max).len() <= max,
        push_bounded_spec(q, item, max).last() == item,
        push_bounded_spec(q, item, max).drop_last() == if q.len() == max {
            q.drop_first()
        } else {
            q
        },
{
    assert(push_bounded_spec(q, item, max).drop_last() =~= if q.len() == max {
        q.drop_first()
    } else {
        q
    });
}

/// What became of a handler run.
pub enum Dispatch<T> {
    /// A permit was free: run it now.
    Run(T),
    /// No permit and the strategy drops new runs.
    Dropped(T),
    /// No permit: queued, with the oldest run that the full queue dropped.
    Queued(Option<T>),
}

/// A dispatcher's strategy, with the queue that `DropOldest` keeps.
enum Mode<T> {
    DropNewest,
    DropOldest(usize, PendingQueue<T>),
}

/// The dispatch state of one plugin: its strategy and, for `DropOldest`, its queue.
pub struct Dispatcher<T> {
    mode: Mode<T>,
}

impl<T> Dispatcher<T> {
    /// The queued runs (none where the strategy keeps no queue).
    pub closed spec fn queued(&self) -> Seq<T> {
        match self.mode {
            Mode::DropOldest(_, q) => q@,
            Mode::DropNewest => Seq::empty(),
        }
    }

    pub closed spec fn strat(&self) -> QueueStrategy {
        match self.mode {
            Mode::DropOldest(max, _) => QueueStrategy::DropOldest(max),
            Mode::DropNewest => QueueStrategy::DropNewest,
        }
    }

    /// The strategy.
    pub fn strategy(&self) -> (r: QueueStrategy)
        ensures
            r == self.strat(),
    {
        match &self.mode {
            Mode::DropOldest(max, _) => QueueStrategy::DropOldest(*max),
            Mode::DropNewest => QueueStrategy::DropNewest,
        }
    }

    /// The dispatch state for a configuration: empty, with a queue only for `DropOldest`.
    pub fn new(config: &RuntimeConfig) -> (r: Dispatcher<T>)
        ensures
            r.strat() == config.queue_strategy,
            r.queued() == Seq::<T>::empty(),
    {
        match config.queue_strategy {
            QueueStrategy::DropNewest => Dispatcher { mode: Mode::DropNewest },
            QueueStrategy::DropOldest(max) => Dispatcher { mode: Mode::DropOldest(max, PendingQueue::new()) },
        }
    }

    /// Takes the oldest queued run.
    pub fn next_queued(&mut self) -> (r: Option<T>)
        ensures
            final(self).strat() == old(self).strat(),
            match r {
                Some(x) => old(self).queued().len() > 0 && x == old(self).queued()[0]
                    && final(self).queued() == old(self).queued().drop_first(),
                None => old(self).queued().len() == 0 && final(self).queued() == old(self).queued(),
            },
    {
        match &mut self.mode {
            Mode::DropOldest(_, q) => q.pop_front(),
            Mode::DropNewest => None,
        }
    }

    /// Decides a handler run: run it where a permit was free; else drop it (`DropNewest`) or
    /// queue it, dropping the oldest queued run when the queue is full (`DropOldest`). The
    /// counters record the start and what happened; the counts added are returned.
    pub fn dispatch(&mut self, telemetry: &Telemetry, got_permit: bool, task: T) -> (r: (Dispatch<T>, Vec<(Counter, usize)>))
        ensures
            final(self).strat() == old(self).strat(),
            r.1@ == dispatch_bumps(got_permit, old(self).strat(), old(self).queued().len()),
            got_permit ==> r.0 == Dispatch::Run(task) && final(self).queued() == old(self).queued(),
            !got_permit && old(self).strat() is DropNewest ==> r.0 == Dispatch::Dropped(task)
                && final(self).queued() == old(self).queued(),
            !got_permit && old(self).strat() is DropOldest ==> {
                let max = old(self).strat()->DropOldest_0 as nat;
                &&& final(self).queued() == push_bounded_spec(old(self).queued(), task, max)
                &&& r.0 == Dispatch::Queued(
                    if old(self).queued().len() >= max && old(self).queued().len() > 0 {
                        Some(old(self).queued()[0])
                    } else {
                        None::<T>
                    },
                )
            },
    {
        let mut bumps: Vec<(Counter, usize)> = Vec::new();
        bumps.push((Counter::HandlerStarted, 1));
        let decision = if got_permit {
            Dispatch::Run(task)
        } else {
            match &mut self.mode {
                Mode::DropNewest => {
                    bumps.push((Counter::DropNewestDrops, 1));
                    Dispatch::Dropped(task)
                },
                Mode::DropOldest(max, q) => {
                    bumps.push((Counter::DropOldestEnqueues, 1));
                    if q.len() >= *max {
                        bumps.push((Counter::DropOldestOldestDiscards, 1));
                    }
                    let discarded = q.push_bounded(task, *max);
                    Dispatch::Queued(discarded)
                },
            }
        };
        telemetry.record(bumps.as_slice());
        proof {
            let want = dispatch_bumps(got_permit, old(self).strat(), old(self).queued().len());
            assert(bumps@ =~= want);
        }
        (decision, bumps)
    }
}

/// The counts that a dispatch adds: one started run; then, without a permit, one drop for
/// `DropNewest`, or one enqueue for `DropOldest(max)` and one discard where the queue already
/// held `max` or more runs.
pub open spec fn dispatch_bumps(got_permit: bool, strat: QueueStrategy, queued: nat) -> Seq<(Counter, usize)> {
    seq![(Counter::HandlerStarted, 1usize)] + if got_permit {
        Seq::empty()
    } else {
        match strat {
            QueueStrategy::DropNewest => seq![(Counter::DropNewestDrops, 1usize)],
            QueueStrategy::DropOldest(max) => seq![(Counter::DropOldestEnqueues, 1usize)] + if queued >= max {
                seq![(Counter::DropOldestOldestDiscards, 1usize)]
            } else {
                Seq::empty()
            },
        }
    }
}

/// How a handler run ended.
#[derive(Debug, Clone, Copy, PartialEq, Eq, Structural)]
pub enum HandlerOutcome {
    Succeeded,
    Failed,
    TimedOut,
}

/// The counter that a finished handler run adds one to: the queued runs' counter of its
/// outcome where it ran from the queue, else the direct runs' counter.
pub open spec fn outcome_counter(outcome: HandlerOutcome, queued: bool) -> Counter {
    match (outcome, queued) {
        (HandlerOutcome::Succeeded, false) => Counter::HandlerSucceeded,
        (HandlerOutcome::Failed, false) => Counter::HandlerFailed,
        (HandlerOutcome::TimedOut, false) => Counter::HandlerTimedOut,
        (HandlerOutcome::Succeeded, true) => Counter::QueuedHandlerSucceeded,
        (HandlerOutcome::Failed, true) => Counter::QueuedHandlerFailed,
        (HandlerOutcome::TimedOut, true) => Counter::QueuedHandlerTimedOut,
    }
}

/// Adds one finished handler run to the counters; the counter it added to is returned.
pub fn record_outcome(telemetry: &Telemetry, outcome: HandlerOutcome, queued: bool) -> (c: Counter)
    ensures
        c == outcome_counter(outcome, queued),
{
    let c = match (outcome, queued) {
        (HandlerOutcome::Succeeded, false) => Counter::HandlerSucceeded,
        (HandlerOutcome::Failed, false) => Counter::HandlerFailed,
        (HandlerOutcome::TimedOut, false) => Counter::HandlerTimedOut,
        (HandlerOutcome::Succeeded, true) => Counter::QueuedHandlerSucceeded,
        (HandlerOutcome::Failed, true) => Counter::QueuedHandlerFailed,
        (HandlerOutcome::TimedOut, true) => Counter::QueuedHandlerTimedOut,
    };
    Telemetry::add(telemetry.counter_of(c), 1);
    c
}

/// The last handler with the given id (a later handler shadows an earlier one of the same id).
pub open spec fn last_index(hs: Seq<HandlerSpec>, id: Seq<char>) -> Option<int>
    decreases hs.len(),
{
    if hs.len() == 0 {
        None
    } else if hs.last().id@ == id {
        Some(hs.len() - 1)
    } else {
        last_index(hs.drop_last(), id)
    }
}

/// Whether a handler's own rule accepts a text (a handler without a rule accepts all).
pub open spec fn accepts(h: HandlerSpec, text: Seq<char>) -> bool {
    match h.rule {
        Some(r) => rule_holds(r, text),
        None => true,
    }
}

/// Whether the router already filtered messages for a handler by its patterns.
pub open spec fn prefiltered(h: HandlerSpec) -> bool {
    match h.route@ {
        RouteView::Exact(_) | RouteView::Prefix(_) | RouteView::Keyword(_) => true,
        _ => false,
    }
}

/// The positions of the handlers whose rule accepts a text, in order.
pub open spec fn accepting(hs: Seq<HandlerSpec>, text: Seq<char>) -> Seq<usize>
    decreases hs.len(),
{
    if hs.len() == 0 {
        Seq::empty()
    } else {
        accepting(hs.drop_last(), text) + if accepts(hs.last(), text) {
            seq![(hs.len() - 1) as usize]
        } else {
            Seq::empty()
        }
    }
}

/// The handlers a message with this plain text runs: for a routed message, the named handler
/// where it exists and either was pre-filtered or its rule accepts the text; otherwise every
/// handler whose rule accepts the text.
pub open spec fn message_handlers_spec(hs: Seq<HandlerSpec>, handler_id: Option<Seq<char>>, text: Seq<char>) -> Seq<usize> {
    match handler_id {
        Some(id) => match last_index(hs, id) {
            Some(j) => if prefiltered(hs[j]) || accepts(hs[j], text) {
                seq![j as usize]
            } else {
                Seq::empty()
            },
            None => Seq::empty(),
        },
        None => accepting(hs, text),
    }
}

/// The position of the last handler with the given id.
pub fn handler_index_of(hs: &[HandlerSpec], id: &str) -> (r: Option<usize>)
    ensures
        match r {
            Some(j) => last_index(hs@, id@) == Some(j as int) && j < hs@.len(),
            None => last_index(hs@, id@) is None,
        },
{
    let mut i: usize = hs.len();
    assert(hs@.take(hs.len() as int) =~= hs@);
    while i > 0
        invariant
            i <= hs.len(),
            last_index(hs@, id@) == last_index(hs@.take(i as int), id@),
        decreases i,
    {
        assert(hs@.take(i as int).drop_last() =~= hs@.take(i - 1));
        assert(hs@.take(i as int).last() == hs@[i - 1]);
        if str_eq(hs[i - 1].id.as_str(), id) {
            return Some(i - 1);
        }
        i -= 1;
    }
    None
}

fn accepts_text(h: &HandlerSpec, text: &str) -> (r: bool)
    ensures
        r == accepts(*h, text@),
{
    match &h.rule {
        Some(rule) => rule.check_text(text),
        None => true,
    }
}

/// The handlers of a plugin that a message runs, by position; `handler_id` names the handler
/// that the router chose, `None` where the message was sent to the plugin as a whole.
pub fn select_message_handlers(hs: &[HandlerSpec], handler_id: Option<&str>, text: &str) -> (r: Vec<usize>)
    ensures
        r@ == message_handlers_spec(
            hs@,
            match handler_id {
                Some(s) => Some(s@),
                None => None,
            },
            text@,
        ),
{
    match handler_id {
        Some(id) => {
            let mut out: Vec<usize> = Vec::new();
            match handler_index_of(hs, id) {
                Some(j) => {
                    let h = &hs[j];
                    let pre = match &h.route {
                        crate::routing::RouteHint::Exact(_) | crate::routing::RouteHint::Prefix(_)
                        | crate::routing::RouteHint::Keyword(_) => true,
                        _ => false,
                    };
                    if pre || accepts_text(h, text) {
                        out.push(j);
                        assert(out@ =~= seq![j]);
                    } else {
                        assert(out@ =~= Seq::<usize>::empty());
                    }
                },
                None => {
                    assert(out@ =~= Seq::<usize>::empty());
                },
            }
            out
        },
        None => {
            let mut out: Vec<usize> = Vec::new();
            let mut i: usize = 0;
            assert(hs@.take(0) =~= Seq::<HandlerSpec>::empty());
            while i < hs.len()
                invariant
                    i <= hs.len(),
                    out@ == accepting(hs@.take(i as int), text@),
                decreases hs.len() - i,
            {
                assert(hs@.take(i + 1).drop_last() =~= hs@.take(i as int));
                assert(hs@.take(i + 1).last() == hs@[i as int]);
                if accepts_text(&hs[i], text) {
                    out.push(i);
                }
                i += 1;
            }
            assert(hs@.take(hs.len() as int) =~= hs@);
            out
        },
    }
}

/// The positions of the event handlers with the given id (mode 0) or event type (mode 1).
pub open spec fn event_handlers_matching(hs: Seq<EventHandlerSpec>, key: Seq<char>, by_type: bool) -> Seq<usize>
    decreases hs.len(),
{
    if hs.len() == 0 {
        Seq::empty()
    } else {
        let h = hs.last();
        event_handlers_matching(hs.drop_last(), key, by_type) + if (if by_type {
            h.event_type@
        } else {
            h.id@
        }) == key {
            seq![(hs.len() - 1) as usize]
        } else {
            Seq::empty()
        }
    }
}

/// The event handlers of a plugin that a system event runs: those with the routed id, or
/// (sent to the plugin as a whole) those of the event's type.
pub fn select_event_handlers(hs: &[EventHandlerSpec], handler_id: Option<&str>, event_type: &str) -> (r: Vec<usize>)
    ensures
        r@ == match handler_id {
            Some(id) => event_handlers_matching(hs@, id@, false),
            None => event_handlers_matching(hs@, event_type@, true),
        },
{
    let by_type = handler_id.is_none();
    let key = match handler_id {
        Some(id) => id,
        None => event_type,
    };
    let mut out: Vec<usize> = Vec::new();
    let mut i: usize = 0;
    assert(hs@.take(0) =~= Seq::<EventHandlerSpec>::empty());
    while i < hs.len()
        invariant
            i <= hs.len(),
            out@ == event_handlers_matching(hs@.take(i as int), key@, by_type),
        decreases hs.len() - i,
    {
        assert(hs@.take(i + 1).drop_last() =~= hs@.take(i as int));
        assert(hs@.take(i + 1).last() == hs@[i as int]);
        let field = if by_type {
            hs[i].event_type.as_str()
        } else {
            hs[i].id.as_str()
        };
        if str_eq(field, key) {
            out.push(i);
        }
        i += 1;
    }
    assert(hs@.take(hs.len() as int) =~= hs@);
    out
}

} // verus!
