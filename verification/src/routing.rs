//! The routing table that sends each message and system event to the plugin handlers that
//! may want it.
use vstd::prelude::*;

use crate::rule::{rule_holds, MatchList, Rule};
use crate::telemetry::{Counter, Telemetry};
use crate::text::{contains, contains_seq, owned, starts_with, starts_with_seq, str_eq, trim, trim_seq};

verus! {

/// How the router pre-filters messages for a handler.
#[derive(Debug)]
pub enum RouteHint {
    /// The trimmed text equals one of the patterns.
    Exact(Vec<String>),
    /// The text starts with one of the patterns.
    Prefix(Vec<String>),
    /// The text contains one of the patterns.
    Keyword(Vec<String>),
    /// Always dispatched; the handler's rule decides.
    Regex,
    /// Always dispatched; the handler's rule decides.
    Fallback,
}

pub enum RouteView {
    Exact(Seq<Seq<char>>),
    Prefix(Seq<Seq<char>>),
    Keyword(Seq<Seq<char>>),
    Regex,
    Fallback,
}

pub open spec fn strings_view(v: Seq<String>) -> Seq<Seq<char>> {
    v.map_values(|s: String| s@)
}

impl View for RouteHint {
    type V = RouteView;

    open spec fn view(&self) -> RouteView {
        match self {
            RouteHint::Exact(ps) => RouteView::Exact(strings_view(ps@)),
            RouteHint::Prefix(ps) => RouteView::Prefix(strings_view(ps@)),
            RouteHint::Keyword(ps) => RouteView::Keyword(strings_view(ps@)),
            RouteHint::Regex => RouteView::Regex,
            RouteHint::Fallback => RouteView::Fallback,
        }
    }
}

/// A message handler as the runtime routes it: its id, its route, its rule and its time
/// limit. (What it runs is kept beside it, by the same position.)
#[derive(Debug)]
pub struct HandlerSpec {
    pub id: String,
    pub route: RouteHint,
    pub rule: Option<Rule>,
    pub timeout_ms: u64,
}

/// A system-event handler: the event type it takes, its id and its rule (none when built).
#[derive(Debug)]
pub struct EventHandlerSpec {
    pub event_type: String,
    pub id: String,
    pub rule: Option<Rule>,
}

fn copy_strings(v: &Vec<String>) -> (r: Vec<String>)
    ensures
        r@ == v@,
{
    let mut out: Vec<String> = Vec::new();
    let mut i: usize = 0;
    while i < v.len()
        invariant
            i <= v.len(),
            out@ == v@.take(i as int),
        decreases v.len() - i,
    {
        let s = v[i].clone();
        assert(s == v@[i as int]);
        out.push(s);
        assert(out@ =~= v@.take(i + 1));
        i += 1;
    }
    assert(v@.take(v.len() as int) =~= v@);
    out
}

impl HandlerSpec {
    /// A handler with the given route and rule, and the default time limit of 5 seconds.
    pub fn new(id: &str, route: RouteHint, rule: Option<Rule>) -> (r: HandlerSpec)
        ensures
            r.id@ == id@,
            r.route == route,
            r.rule == rule,
            r.timeout_ms == 5000,
    {
        HandlerSpec { id: owned(id), route, rule, timeout_ms: 5000 }
    }

    /// A handler for messages whose trimmed text is one of the patterns.
    pub fn exact(id: &str, patterns: MatchList) -> (r: HandlerSpec)
        ensures
            r.id@ == id@,
            r.route@ == RouteView::Exact(strings_view(patterns.0@)),
            r.rule == Some(Rule::FullMatch(patterns.0)),
            r.timeout_ms == 5000,
    {
        let ps = copy_strings(&patterns.0);
        HandlerSpec {
            id: owned(id),
            route: RouteHint::Exact(ps),
            rule: Some(Rule::FullMatch(patterns.0)),
            timeout_ms: 5000,
        }
    }

    /// A handler for messages that start with one of the prefixes.
    pub fn prefix(id: &str, prefixes: MatchList) -> (r: HandlerSpec)
        ensures
            r.id@ == id@,
            r.route@ == RouteView::Prefix(strings_view(prefixes.0@)),
            r.rule == Some(Rule::StartsWith(prefixes.0)),
            r.timeout_ms == 5000,
    {
        let ps = copy_strings(&prefixes.0);
        HandlerSpec {
            id: owned(id),
            route: RouteHint::Prefix(ps),
            rule: Some(Rule::StartsWith(prefixes.0)),
            timeout_ms: 5000,
        }
    }

    /// A handler for messages that contain one of the keywords.
    pub fn keyword(id: &str, keywords: MatchList) -> (r: HandlerSpec)
        ensures
            r.id@ == id@,
            r.route@ == RouteView::Keyword(strings_view(keywords.0@)),
            r.rule == Some(Rule::Keywords(keywords.0)),
            r.timeout_ms == 5000,
    {
        let ps = copy_strings(&keywords.0);
        HandlerSpec {
            id: owned(id),
            route: RouteHint::Keyword(ps),
            rule: Some(Rule::Keywords(keywords.0)),
            timeout_ms: 5000,
        }
    }

    /// A handler for messages that the regular expression matches.
    pub fn regex(id: &str, pattern: &str) -> (r: HandlerSpec)
        ensures
            r.id@ == id@,
            r.route == RouteHint::Regex,
            r.rule matches Some(Rule::Regex(p)) && p@ == pattern@,
            r.timeout_ms == 5000,
    {
        HandlerSpec {
            id: owned(id),
            route: RouteHint::Regex,
            rule: Some(Rule::Regex(owned(pattern))),
            timeout_ms: 5000,
        }
    }

    /// A handler for every message.
    pub fn fallback(id: &str) -> (r: HandlerSpec)
        ensures
            r.id@ == id@,
            r.route == RouteHint::Fallback,
            r.rule is None,
            r.timeout_ms == 5000,
    {
        HandlerSpec { id: owned(id), route: RouteHint::Fallback, rule: None, timeout_ms: 5000 }
    }
}

impl EventHandlerSpec {
    pub fn new(event_type: &str, id: &str) -> (r: EventHandlerSpec)
        ensures
            r.event_type@ == event_type@,
            r.id@ == id@,
            r.rule is None,
    {
        EventHandlerSpec { event_type: owned(event_type), id: owned(id), rule: None }
    }
}

/// The handlers of one plugin, as the router sees them.
#[derive(Debug)]
pub struct PluginRoutes {
    pub handlers: Vec<HandlerSpec>,
    pub event_handlers: Vec<EventHandlerSpec>,
}

/// A handler of a plugin: the plugin's position and the handler's id.
#[derive(Debug)]
pub struct RouteTarget {
    pub plugin: usize,
    pub handler_id: String,
}

pub open spec fn target_view(t: RouteTarget) -> (nat, Seq<char>) {
    (t.plugin as nat, t.handler_id@)
}

pub open spec fn targets_view(ts: Seq<RouteTarget>) -> Seq<(nat, Seq<char>)> {
    ts.map_values(|t: RouteTarget| target_view(t))
}

pub open spec fn keyed_view(es: Seq<(String, RouteTarget)>) -> Seq<(Seq<char>, (nat, Seq<char>))> {
    es.map_values(|e: (String, RouteTarget)| (e.0@, target_view(e.1)))
}

/// The routes of a handler of the given kind (0 exact, 1 prefix, 2 keyword).
pub open spec fn hint_entries(kind: nat, plugin: nat, h: HandlerSpec) -> Seq<(Seq<char>, (nat, Seq<char>))> {
    let pats = match h.route@ {
        RouteView::Exact(ps) => if kind == 0 {
            ps
        } else {
            Seq::empty()
        },
        RouteView::Prefix(ps) => if kind == 1 {
            ps
        } else {
            Seq::empty()
        },
        RouteView::Keyword(ps) => if kind == 2 {
            ps
        } else {
            Seq::empty()
        },
        _ => Seq::empty(),
    };
    pats.map_values(|p: Seq<char>| (p, (plugin, h.id@)))
}

/// The always-dispatched route of a regex or fallback handler.
pub open spec fn fallback_entry(plugin: nat, h: HandlerSpec) -> Seq<(nat, Seq<char>)> {
    match h.route@ {
        RouteView::Regex | RouteView::Fallback => seq![(plugin, h.id@)],
        _ => Seq::empty(),
    }
}

pub open spec fn handlers_entries(kind: nat, plugin: nat, hs: Seq<HandlerSpec>) -> Seq<
    (Seq<char>, (nat, Seq<char>)),
>
    decreases hs.len(),
{
    if hs.len() == 0 {
        Seq::empty()
    } else {
        handlers_entries(kind, plugin, hs.drop_last()) + hint_entries(kind, plugin, hs.last())
    }
}

pub open spec fn handlers_fallbacks(plugin: nat, hs: Seq<HandlerSpec>) -> Seq<(nat, Seq<char>)>
    decreases hs.len(),
{
    if hs.len() == 0 {
        Seq::empty()
    } else {
        handlers_fallbacks(plugin, hs.drop_last()) + fallback_entry(plugin, hs.last())
    }
}

pub open spec fn event_entries(plugin: nat, es: Seq<EventHandlerSpec>) -> Seq<(Seq<char>, (nat, Seq<char>))> {
    es.map_values(|e: EventHandlerSpec| (e.event_type@, (plugin, e.id@)))
}

/// The routes of all plugins of the given kind (3 for system events), plugin by plugin.
pub open spec fn plugins_entries(kind: nat, ps: Seq<PluginRoutes>) -> Seq<(Seq<char>, (nat, Seq<char>))>
    decreases ps.len(),
{
    if ps.len() == 0 {
        Seq::empty()
    } else {
        let i = (ps.len() - 1) as nat;
        plugins_entries(kind, ps.drop_last()) + if kind == 3 {
            event_entries(i, ps.last().event_handlers@)
        } else {
            handlers_entries(kind, i, ps.last().handlers@)
        }
    }
}

pub open spec fn plugins_fallbacks(ps: Seq<PluginRoutes>) -> Seq<(nat, Seq<char>)>
    decreases ps.len(),
{
    if ps.len() == 0 {
        Seq::empty()
    } else {
        plugins_fallbacks(ps.drop_last()) + handlers_fallbacks((ps.len() - 1) as nat, ps.last().handlers@)
    }
}

/// The patterns that a handler routes on for a kind (0 exact, 1 prefix, 2 keyword).
pub open spec fn kind_patterns(kind: nat, h: HandlerSpec) -> Seq<Seq<char>> {
    match h.route@ {
        RouteView::Exact(ps) => if kind == 0 {
            ps
        } else {
            Seq::empty()
        },
        RouteView::Prefix(ps) => if kind == 1 {
            ps
        } else {
            Seq::empty()
        },
        RouteView::Keyword(ps) => if kind == 2 {
            ps
        } else {
            Seq::empty()
        },
        _ => Seq::empty(),
    }
}

/// The handler has id `id` and routes on `key` for the kind.
pub open spec fn routes_on(kind: nat, h: HandlerSpec, key: Seq<char>, id: Seq<char>) -> bool {
    h.id@ == id && kind_patterns(kind, h).contains(key)
}

/// The handler has id `id` and is dispatched for every message.
pub open spec fn always_routed(h: HandlerSpec, id: Seq<char>) -> bool {
    h.id@ == id && (h.route@ is Regex || h.route@ is Fallback)
}

/// The event handler has id `id` and takes events of type `t`.
pub open spec fn takes_event(e: EventHandlerSpec, t: Seq<char>, id: Seq<char>) -> bool {
    e.event_type@ == t && e.id@ == id
}

proof fn lemma_contains_concat<A>(a: Seq<A>, b: Seq<A>, x: A)
    ensures
        (a + b).contains(x) <==> a.contains(x) || b.contains(x),
{
    if (a + b).contains(x) {
        let i = choose|i: int| 0 <= i < (a + b).len() && (a + b)[i] == x;
        if i < a.len() {
            assert(a[i] == x);
        } else {
            assert(b[i - a.len()] == x);
        }
    }
    if a.contains(x) {
        let i = choose|i: int| 0 <= i < a.len() && a[i] == x;
        assert((a + b)[i] == x);
    }
    if b.contains(x) {
        let i = choose|i: int| 0 <= i < b.len() && b[i] == x;
        assert((a + b)[a.len() + i] == x);
    }
}

proof fn lemma_hint_member(kind: nat, plugin: nat, h: HandlerSpec, key: Seq<char>, pl: nat, id: Seq<char>)
    ensures
        hint_entries(kind, plugin, h).contains((key, (pl, id))) <==> pl == plugin && routes_on(
            kind,
            h,
            key,
            id,
        ),
{
    let ps = kind_patterns(kind, h);
    let es = hint_entries(kind, plugin, h);
    assert(es == ps.map_values(|p: Seq<char>| (p, (plugin, h.id@))));
    if es.contains((key, (pl, id))) {
        let i = choose|i: int| 0 <= i < es.len() && es[i] == (key, (pl, id));
        assert(ps[i] == key);
    }
    if pl == plugin && routes_on(kind, h, key, id) {
        let i = choose|i: int| 0 <= i < ps.len() && ps[i] == key;
        assert(es[i] == (key, (pl, id)));
    }
}

proof fn lemma_handlers_member(kind: nat, plugin: nat, hs: Seq<HandlerSpec>, key: Seq<char>, pl: nat, id: Seq<char>)
    ensures
        handlers_entries(kind, plugin, hs).contains((key, (pl, id))) <==> pl == plugin && exists|h: int|
            0 <= h < hs.len() && #[trigger] routes_on(kind, hs[h], key, id),
    decreases hs.len(),
{
    let x = (key, (pl, id));
    if hs.len() == 0 {
        assert(!handlers_entries(kind, plugin, hs).contains(x));
    } else {
        let init = hs.drop_last();
        lemma_handlers_member(kind, plugin, init, key, pl, id);
        lemma_hint_member(kind, plugin, hs.last(), key, pl, id);
        lemma_contains_concat(handlers_entries(kind, plugin, init), hint_entries(kind, plugin, hs.last()), x);
        if exists|h: int| 0 <= h < init.len() && #[trigger] routes_on(kind, init[h], key, id) {
            let h = choose|h: int| 0 <= h < init.len() && #[trigger] routes_on(kind, init[h], key, id);
            assert(init[h] == hs[h]);
            assert(routes_on(kind, hs[h], key, id));
        }
        if routes_on(kind, hs.last(), key, id) {
            assert(routes_on(kind, hs[hs.len() - 1], key, id));
        }
        if exists|h: int| 0 <= h < hs.len() && #[trigger] routes_on(kind, hs[h], key, id) {
            let h = choose|h: int| 0 <= h < hs.len() && #[trigger] routes_on(kind, hs[h], key, id);
            if h < init.len() {
                assert(init[h] == hs[h]);
                assert(routes_on(kind, init[h], key, id));
            }
        }
    }
}

proof fn lemma_handlers_fallback_member(plugin: nat, hs: Seq<HandlerSpec>, pl: nat, id: Seq<char>)
    ensures
        handlers_fallbacks(plugin, hs).contains((pl, id)) <==> pl == plugin && exists|h: int|
            0 <= h < hs.len() && #[trigger] always_routed(hs[h], id),
    decreases hs.len(),
{
    let x = (pl, id);
    if hs.len() == 0 {
        assert(!handlers_fallbacks(plugin, hs).contains(x));
    } else {
        let init = hs.drop_last();
        let last = fallback_entry(plugin, hs.last());
        lemma_handlers_fallback_member(plugin, init, pl, id);
        lemma_contains_concat(handlers_fallbacks(plugin, init), last, x);
        if last.contains(x) {
            assert(last[0] == x);
        }
        if pl == plugin && always_routed(hs.last(), id) {
            assert(last[0] == x);
        }
        if exists|h: int| 0 <= h < init.len() && #[trigger] always_routed(init[h], id) {
            let h = choose|h: int| 0 <= h < init.len() && #[trigger] always_routed(init[h], id);
            assert(init[h] == hs[h]);
            assert(always_routed(hs[h], id));
        }
        if always_routed(hs.last(), id) {
            assert(always_routed(hs[hs.len() - 1], id));
        }
        if exists|h: int| 0 <= h < hs.len() && #[trigger] always_routed(hs[h], id) {
            let h = choose|h: int| 0 <= h < hs.len() && #[trigger] always_routed(hs[h], id);
            if h < init.len() {
                assert(init[h] == hs[h]);
                assert(always_routed(init[h], id));
            }
        }
    }
}

proof fn lemma_events_member(plugin: nat, es: Seq<EventHandlerSpec>, t: Seq<char>, pl: nat, id: Seq<char>)
    ensures
        event_entries(plugin, es).contains((t, (pl, id))) <==> pl == plugin && exists|e: int|
            0 <= e < es.len() && #[trigger] takes_event(es[e], t, id),
{
    let s = event_entries(plugin, es);
    if s.contains((t, (pl, id))) {
        let i = choose|i: int| 0 <= i < s.len() && s[i] == (t, (pl, id));
        assert(takes_event(es[i], t, id));
    }
    if pl == plugin && exists|e: int| 0 <= e < es.len() && #[trigger] takes_event(es[e], t, id) {
        let e = choose|e: int| 0 <= e < es.len() && #[trigger] takes_event(es[e], t, id);
        assert(s[e] == (t, (pl, id)));
    }
}

/// What the routing table compiled from the plugins `ps` holds, and nothing more: a message
/// route of a kind (0 exact, 1 prefix, 2 keyword) for pattern `key` to handler `id` of plugin
/// `pl` exactly when that plugin has such a handler whose route of that kind lists `key`; an
/// always-dispatched route exactly when the plugin has a regex or fallback handler `id`; a
/// system route for event type `key` exactly when the plugin has an event handler `id` for it.
pub proof fn lemma_routing_table_members(ps: Seq<PluginRoutes>, kind: nat, key: Seq<char>, pl: nat, id: Seq<char>)
    requires
        kind < 3,
    ensures
        plugins_entries(kind, ps).contains((key, (pl, id))) <==> pl < ps.len() && exists|h: int|
            0 <= h < ps[pl as int].handlers@.len() && #[trigger] routes_on(
                kind,
                ps[pl as int].handlers@[h],
                key,
                id,
            ),
        plugins_fallbacks(ps).contains((pl, id)) <==> pl < ps.len() && exists|h: int|
            0 <= h < ps[pl as int].handlers@.len() && #[trigger] always_routed(
                ps[pl as int].handlers@[h],
                id,
            ),
        plugins_entries(3, ps).contains((key, (pl, id))) <==> pl < ps.len() && exists|e: int|
            0 <= e < ps[pl as int].event_handlers@.len() && #[trigger] takes_event(
                ps[pl as int].event_handlers@[e],
                key,
                id,
            ),
    decreases ps.len(),
{
    if ps.len() == 0 {
        assert(!plugins_entries(kind, ps).contains((key, (pl, id))));
        assert(!plugins_fallbacks(ps).contains((pl, id)));
        assert(!plugins_entries(3, ps).contains((key, (pl, id))));
    } else {
        let init = ps.drop_last();
        let n1 = (ps.len() - 1) as nat;
        let last = ps.last();
        lemma_routing_table_members(init, kind, key, pl, id);
        lemma_handlers_member(kind, n1, last.handlers@, key, pl, id);
        lemma_handlers_fallback_member(n1, last.handlers@, pl, id);
        lemma_events_member(n1, last.event_handlers@, key, pl, id);
        lemma_contains_concat(plugins_entries(kind, init), handlers_entries(kind, n1, last.handlers@), (key, (pl, id)));
        lemma_contains_concat(plugins_fallbacks(init), handlers_fallbacks(n1, last.handlers@), (pl, id));
        lemma_contains_concat(plugins_entries(3, init), event_entries(n1, last.event_handlers@), (key, (pl, id)));
        if pl < init.len() {
            assert(init[pl as int] == ps[pl as int]);
        }
        if pl == n1 {
            assert(last == ps[pl as int]);
        }
    }
}

/// The targets of the entries that a text selects: equal keys (mode 0), keys the text starts
/// with (mode 1), keys the text contains (mode 2); in table order.
pub open spec fn select(es: Seq<(Seq<char>, (nat, Seq<char>))>, text: Seq<char>, mode: nat) -> Seq<
    (nat, Seq<char>),
>
    decreases es.len(),
{
    if es.len() == 0 {
        Seq::empty()
    } else {
        let e = es.last();
        let hit = if mode == 0 {
            e.0 == text
        } else if mode == 1 {
            starts_with_seq(text, e.0)
        } else {
            contains_seq(text, e.0)
        };
        select(es.drop_last(), text, mode) + if hit {
            seq![e.1]
        } else {
            Seq::empty()
        }
    }
}

/// Whether a route key selects a text: equal (mode 0), a prefix of it (mode 1), contained in
/// it (mode 2).
pub open spec fn key_hit(k: Seq<char>, text: Seq<char>, mode: nat) -> bool {
    if mode == 0 {
        k == text
    } else if mode == 1 {
        starts_with_seq(text, k)
    } else {
        contains_seq(text, k)
    }
}

pub open spec fn keyed_to(ps: Seq<Seq<char>>, t: (nat, Seq<char>)) -> Seq<(Seq<char>, (nat, Seq<char>))> {
    ps.map_values(|p: Seq<char>| (p, t))
}

proof fn lemma_select_keyed(ps: Seq<Seq<char>>, t: (nat, Seq<char>), text: Seq<char>, mode: nat)
    ensures
        (select(keyed_to(ps, t), text, mode).len() > 0) == (exists|i: int|
            0 <= i < ps.len() && key_hit(#[trigger] ps[i], text, mode)),
    decreases ps.len(),
{
    if ps.len() > 0 {
        let es = keyed_to(ps, t);
        let rest = ps.drop_last();
        assert(es.drop_last() =~= keyed_to(rest, t));
        assert(es.last() == (ps.last(), t));
        lemma_select_keyed(rest, t, text, mode);
        if exists|i: int| 0 <= i < ps.len() && key_hit(#[trigger] ps[i], text, mode) {
            let i = choose|i: int| 0 <= i < ps.len() && key_hit(#[trigger] ps[i], text, mode);
            if i < ps.len() - 1 {
                assert(rest[i] == ps[i]);
            }
        }
        if exists|i: int| 0 <= i < rest.len() && key_hit(#[trigger] rest[i], text, mode) {
            let i = choose|i: int| 0 <= i < rest.len() && key_hit(#[trigger] rest[i], text, mode);
            assert(ps[i] == rest[i]);
        }
    }
}

/// The route and the rule of a handler come from the same patterns, as in the handlers that
/// `exact`, `prefix` and `keyword` build.
pub open spec fn route_rule_agree(h: HandlerSpec) -> bool {
    match (h.route@, h.rule) {
        (RouteView::Exact(ps), Some(Rule::FullMatch(cs))) => strings_view(cs@) == ps,
        (RouteView::Prefix(ps), Some(Rule::StartsWith(cs))) => strings_view(cs@) == ps,
        (RouteView::Keyword(ps), Some(Rule::Keywords(cs))) => strings_view(cs@) == ps,
        _ => false,
    }
}

/// Whether the router's pre-filter lets a message with this plain text through to the handler:
/// one of the handler's own routes selects it.
pub open spec fn prefilter_passes(h: HandlerSpec, plugin: nat, text: Seq<char>) -> bool {
    match h.route@ {
        RouteView::Exact(_) => select(hint_entries(0, plugin, h), trim_seq(text), 0).len() > 0,
        RouteView::Prefix(_) => select(hint_entries(1, plugin, h), text, 1).len() > 0,
        RouteView::Keyword(_) => select(hint_entries(2, plugin, h), text, 2).len() > 0,
        _ => true,
    }
}

/// The pre-filter is exact: for a handler whose route and rule come from the same patterns,
/// the router lets a message through to it exactly when the handler's rule accepts the
/// message.
pub proof fn lemma_prefilter_matches_rule(h: HandlerSpec, plugin: nat, text: Seq<char>)
    requires
        route_rule_agree(h),
    ensures
        prefilter_passes(h, plugin, text) == rule_holds(h.rule->Some_0, text),
{
    let t = (plugin, h.id@);
    match (h.route@, h.rule) {
        (RouteView::Exact(ps), Some(Rule::FullMatch(cs))) => {
            assert(hint_entries(0, plugin, h) == keyed_to(ps, t));
            lemma_select_keyed(ps, t, trim_seq(text), 0);
            assert forall|i: int| 0 <= i < ps.len() implies #[trigger] ps[i] == cs@[i]@ by {}
            if rule_holds(h.rule->Some_0, text) {
                let i = choose|i: int| 0 <= i < cs@.len() && trim_seq(text) == (#[trigger] cs@[i])@;
                assert(key_hit(ps[i], trim_seq(text), 0));
            }
            if prefilter_passes(h, plugin, text) {
                let i = choose|i: int| 0 <= i < ps.len() && key_hit(#[trigger] ps[i], trim_seq(text), 0);
                assert(trim_seq(text) == cs@[i]@);
            }
        },
        (RouteView::Prefix(ps), Some(Rule::StartsWith(cs))) => {
            assert(hint_entries(1, plugin, h) == keyed_to(ps, t));
            lemma_select_keyed(ps, t, text, 1);
            assert forall|i: int| 0 <= i < ps.len() implies #[trigger] ps[i] == cs@[i]@ by {}
            if rule_holds(h.rule->Some_0, text) {
                let i = choose|i: int| 0 <= i < cs@.len() && starts_with_seq(text, #[trigger] cs@[i]@);
                assert(key_hit(ps[i], text, 1));
            }
            if prefilter_passes(h, plugin, text) {
                let i = choose|i: int| 0 <= i < ps.len() && key_hit(#[trigger] ps[i], text, 1);
                assert(starts_with_seq(text, cs@[i]@));
            }
        },
        (RouteView::Keyword(ps), Some(Rule::Keywords(cs))) => {
            assert(hint_entries(2, plugin, h) == keyed_to(ps, t));
            lemma_select_keyed(ps, t, text, 2);
            assert forall|i: int| 0 <= i < ps.len() implies #[trigger] ps[i] == cs@[i]@ by {}
            if rule_holds(h.rule->Some_0, text) {
                let i = choose|i: int| 0 <= i < cs@.len() && contains_seq(text, #[trigger] cs@[i]@);
                assert(key_hit(ps[i], text, 2));
            }
            if prefilter_passes(h, plugin, text) {
                let i = choose|i: int| 0 <= i < ps.len() && key_hit(#[trigger] ps[i], text, 2);
                assert(contains_seq(text, cs@[i]@));
            }
        },
        _ => {},
    }
}

/// The routing table, compiled once from the plugins' handlers.
#[derive(Debug)]
pub struct RoutingTable {
    exact: Vec<(String, RouteTarget)>,
    prefix: Vec<(String, RouteTarget)>,
    keyword: Vec<(String, RouteTarget)>,
    fallback: Vec<RouteTarget>,
    events: Vec<(String, RouteTarget)>,
}

/// Where a message goes, and the counts the router records for it.
#[derive(Debug)]
pub struct RouteOutcome {
    pub targets: Vec<RouteTarget>,
    pub exact_hits: usize,
    pub prefix_hits: usize,
    pub keyword_hits: usize,
    pub fallback_hits: usize,
}

fn target(plugin: usize, id: &String) -> (r: RouteTarget)
    ensures
        target_view(r) == (plugin as nat, id@),
{
    RouteTarget { plugin, handler_id: id.clone() }
}

fn copy_target(t: &RouteTarget) -> (r: RouteTarget)
    ensures
        target_view(r) == target_view(*t),
{
    RouteTarget { plugin: t.plugin, handler_id: t.handler_id.clone() }
}

impl RoutingTable {
    /// The exact routes: (pattern, target), in build order.
    pub closed spec fn exact_view(&self) -> Seq<(Seq<char>, (nat, Seq<char>))> {
        keyed_view(self.exact@)
    }

    pub closed spec fn prefix_view(&self) -> Seq<(Seq<char>, (nat, Seq<char>))> {
        keyed_view(self.prefix@)
    }

    pub closed spec fn keyword_view(&self) -> Seq<(Seq<char>, (nat, Seq<char>))> {
        keyed_view(self.keyword@)
    }

    pub closed spec fn fallback_view(&self) -> Seq<(nat, Seq<char>)> {
        targets_view(self.fallback@)
    }

    pub closed spec fn events_view(&self) -> Seq<(Seq<char>, (nat, Seq<char>))> {
        keyed_view(self.events@)
    }

    fn push_patterns(list: &mut Vec<(String, RouteTarget)>, pats: &Vec<String>, plugin: usize, id: &String)
        ensures
            keyed_view(final(list)@) == keyed_view(old(list)@) + strings_view(pats@).map_values(
                |p: Seq<char>| (p, (plugin as nat, id@)),
            ),
    {
        let ghost start = keyed_view(list@);
        let ghost all = strings_view(pats@).map_values(|p: Seq<char>| (p, (plugin as nat, id@)));
        let mut k: usize = 0;
        while k < pats.len()
            invariant
                k <= pats.len(),
                all == strings_view(pats@).map_values(|p: Seq<char>| (p, (plugin as nat, id@))),
                keyed_view(list@) == start + all.take(k as int),
            decreases pats.len() - k,
        {
            let ghost before = list@;
            list.push((pats[k].clone(), target(plugin, id)));
            assert(keyed_view(list@) =~= keyed_view(before).push(all[k as int]));
            assert(all.take(k + 1) =~= all.take(k as int).push(all[k as int]));
            k += 1;
        }
        assert(all.take(pats.len() as int) =~= all);
    }

    fn add_handler(&mut self, plugin: usize, h: &HandlerSpec)
        ensures
            final(self).exact_view() == old(self).exact_view() + hint_entries(0, plugin as nat, *h),
            final(self).prefix_view() == old(self).prefix_view() + hint_entries(1, plugin as nat, *h),
            final(self).keyword_view() == old(self).keyword_view() + hint_entries(2, plugin as nat, *h),
            final(self).fallback_view() == old(self).fallback_view() + fallback_entry(plugin as nat, *h),
            final(self).events_view() == old(self).events_view(),
    {
        let ghost none = Seq::<Seq<char>>::empty().map_values(|p: Seq<char>| (p, (plugin as nat, h.id@)));
        assert(none =~= Seq::empty());
        match &h.route {
            RouteHint::Exact(ps) => {
                Self::push_patterns(&mut self.exact, ps, plugin, &h.id);
            },
            RouteHint::Prefix(ps) => {
                Self::push_patterns(&mut self.prefix, ps, plugin, &h.id);
            },
            RouteHint::Keyword(ps) => {
                Self::push_patterns(&mut self.keyword, ps, plugin, &h.id);
            },
            RouteHint::Regex | RouteHint::Fallback => {
                let ghost before = self.fallback@;
                self.fallback.push(target(plugin, &h.id));
                assert(targets_view(self.fallback@) =~= targets_view(before) + fallback_entry(
                    plugin as nat,
                    *h,
                ));
            },
        }
        assert(self.exact_view() =~= old(self).exact_view() + hint_entries(0, plugin as nat, *h));
        assert(self.prefix_view() =~= old(self).prefix_view() + hint_entries(1, plugin as nat, *h));
        assert(self.keyword_view() =~= old(self).keyword_view() + hint_entries(2, plugin as nat, *h));
        assert(self.fallback_view() =~= old(self).fallback_view() + fallback_entry(plugin as nat, *h));
    }

    fn add_plugin(&mut self, plugin: usize, p: &PluginRoutes)
        ensures
            final(self).exact_view() == old(self).exact_view() + handlers_entries(0, plugin as nat, p.handlers@),
            final(self).prefix_view() == old(self).prefix_view() + handlers_entries(1, plugin as nat, p.handlers@),
            final(self).keyword_view() == old(self).keyword_view() + handlers_entries(2, plugin as nat, p.handlers@),
            final(self).fallback_view() == old(self).fallback_view() + handlers_fallbacks(plugin as nat, p.handlers@),
            final(self).events_view() == old(self).events_view() + event_entries(plugin as nat, p.event_handlers@),
    {
        let ghost hs = p.handlers@;
        let mut j: usize = 0;
        while j < p.handlers.len()
            invariant
                j <= p.handlers.len(),
                hs == p.handlers@,
                self.exact_view() == old(self).exact_view() + handlers_entries(0, plugin as nat, hs.take(j as int)),
                self.prefix_view() == old(self).prefix_view() + handlers_entries(1, plugin as nat, hs.take(j as int)),
                self.keyword_view() == old(self).keyword_view() + handlers_entries(2, plugin as nat, hs.take(j as int)),
                self.fallback_view() == old(self).fallback_view() + handlers_fallbacks(plugin as nat, hs.take(j as int)),
                self.events_view() == old(self).events_view(),
            decreases p.handlers.len() - j,
        {
            assert(hs.take(j + 1).drop_last() =~= hs.take(j as int));
            self.add_handler(plugin, &p.handlers[j]);
            assert(self.exact_view() =~= old(self).exact_view() + handlers_entries(0, plugin as nat, hs.take(j + 1)));
            assert(self.prefix_view() =~= old(self).prefix_view() + handlers_entries(1, plugin as nat, hs.take(j + 1)));
            assert(self.keyword_view() =~= old(self).keyword_view() + handlers_entries(2, plugin as nat, hs.take(j + 1)));
            assert(self.fallback_view() =~= old(self).fallback_view() + handlers_fallbacks(plugin as nat, hs.take(j + 1)));
            j += 1;
        }
        assert(hs.take(hs.len() as int) =~= hs);
        let ghost es = p.event_handlers@;
        let ghost all = event_entries(plugin as nat, es);
        let ghost start = self.events_view();
        let mut k: usize = 0;
        while k < p.event_handlers.len()
            invariant
                k <= p.event_handlers.len(),
                es == p.event_handlers@,
                all == event_entries(plugin as nat, es),
                self.events_view() == start + all.take(k as int),
                self.exact_view() == old(self).exact_view() + handlers_entries(0, plugin as nat, hs),
                self.prefix_view() == old(self).prefix_view() + handlers_entries(1, plugin as nat, hs),
                self.keyword_view() == old(self).keyword_view() + handlers_entries(2, plugin as nat, hs),
                self.fallback_view() == old(self).fallback_view() + handlers_fallbacks(plugin as nat, hs),
            decreases p.event_handlers.len() - k,
        {
            let ghost before = self.events@;
            let e = &p.event_handlers[k];
            self.events.push((e.event_type.clone(), target(plugin, &e.id)));
            assert(keyed_view(self.events@) =~= keyed_view(before).push(all[k as int]));
            assert(all.take(k + 1) =~= all.take(k as int).push(all[k as int]));
            k += 1;
        }
        assert(all.take(es.len() as int) =~= all);
    }

    /// Compiles the routes of all plugins, plugin by plugin and handler by handler: exact,
    /// prefix and keyword routes per pattern, regex and fallback handlers always, and system
    /// handlers by event type.
    pub fn new(plugins: &[PluginRoutes]) -> (r: RoutingTable)
        ensures
            r.exact_view() == plugins_entries(0, plugins@),
            r.prefix_view() == plugins_entries(1, plugins@),
            r.keyword_view() == plugins_entries(2, plugins@),
            r.fallback_view() == plugins_fallbacks(plugins@),
            r.events_view() == plugins_entries(3, plugins@),
    {
        let mut t = RoutingTable {
            exact: Vec::new(),
            prefix: Vec::new(),
            keyword: Vec::new(),
            fallback: Vec::new(),
            events: Vec::new(),
        };
        assert(t.exact_view() =~= Seq::empty());
        assert(t.prefix_view() =~= Seq::empty());
        assert(t.keyword_view() =~= Seq::empty());
        assert(t.fallback_view() =~= Seq::empty());
        assert(t.events_view() =~= Seq::empty());
        let ghost ps = plugins@;
        let mut i: usize = 0;
        while i < plugins.len()
            invariant
                i <= plugins.len(),
                ps == plugins@,
                t.exact_view() == plugins_entries(0, ps.take(i as int)),
                t.prefix_view() == plugins_entries(1, ps.take(i as int)),
                t.keyword_view() == plugins_entries(2, ps.take(i as int)),
                t.fallback_view() == plugins_fallbacks(ps.take(i as int)),
                t.events_view() == plugins_entries(3, ps.take(i as int)),
            decreases plugins.len() - i,
        {
            assert(ps.take(i + 1).drop_last() =~= ps.take(i as int));
            t.add_plugin(i, &plugins[i]);
            i += 1;
        }
        assert(ps.take(ps.len() as int) =~= ps);
        t
    }

    fn select_into(
        es: &Vec<(String, RouteTarget)>,
        text: &str,
        mode: u8,
        out: &mut Vec<RouteTarget>,
    ) -> (hits: usize)
        requires
            mode <= 2,
        ensures
            targets_view(final(out)@) == targets_view(old(out)@) + select(keyed_view(es@), text@, mode as nat),
            hits == select(keyed_view(es@), text@, mode as nat).len(),
    {
        let ghost start = targets_view(out@);
        let ghost ks = keyed_view(es@);
        let mut hits: usize = 0;
        let mut i: usize = 0;
        while i < es.len()
            invariant
                i <= es.len(),
                mode <= 2,
                ks == keyed_view(es@),
                targets_view(out@) == start + select(ks.take(i as int), text@, mode as nat),
                hits == select(ks.take(i as int), text@, mode as nat).len(),
                hits <= i,
            decreases es.len() - i,
        {
            assert(ks.take(i + 1).drop_last() =~= ks.take(i as int));
            assert(ks.take(i + 1).last() == (es@[i as int].0@, target_view(es@[i as int].1)));
            let key = es[i].0.as_str();
            let hit = if mode == 0 {
                str_eq(key, text)
            } else if mode == 1 {
                starts_with(text, key)
            } else {
                contains(text, key)
            };
            if hit {
                let ghost before = out@;
                out.push(copy_target(&es[i].1));
                assert(targets_view(out@) =~= targets_view(before).push(target_view(es@[i as int].1)));
                hits = hits + 1;
            } else {
                assert(select(ks.take(i + 1), text@, mode as nat) =~= select(ks.take(i as int), text@, mode as nat));
            }
            i += 1;
        }
        assert(ks.take(es.len() as int) =~= ks);
        hits
    }

    /// Where a message with this plain text goes: exact routes of its trimmed text, then prefix
    /// routes it starts with, then keyword routes it contains, then every regex and fallback
    /// handler; with the number of hits of each kind.
    pub fn route_message(&self, text: &str) -> (r: RouteOutcome)
        ensures
            targets_view(r.targets@) == route_spec(*self, text@),
            r.exact_hits == select(self.exact_view(), trim_seq(text@), 0).len(),
            r.prefix_hits == select(self.prefix_view(), text@, 1).len(),
            r.keyword_hits == select(self.keyword_view(), text@, 2).len(),
            r.fallback_hits == self.fallback_view().len(),
    {
        let trimmed = trim(text);
        let mut targets: Vec<RouteTarget> = Vec::new();
        assert(targets_view(targets@) =~= Seq::empty());
        let exact_hits = Self::select_into(&self.exact, trimmed.as_str(), 0, &mut targets);
        let prefix_hits = Self::select_into(&self.prefix, text, 1, &mut targets);
        let keyword_hits = Self::select_into(&self.keyword, text, 2, &mut targets);
        let ghost before = targets_view(targets@);
        let mut i: usize = 0;
        while i < self.fallback.len()
            invariant
                i <= self.fallback.len(),
                targets_view(targets@) == before + targets_view(self.fallback@).take(i as int),
            decreases self.fallback.len() - i,
        {
            let ghost prev = targets@;
            targets.push(copy_target(&self.fallback[i]));
            assert(targets_view(targets@) =~= targets_view(prev).push(target_view(self.fallback@[i as int])));
            assert(targets_view(self.fallback@).take(i + 1) =~= targets_view(self.fallback@).take(i as int).push(
                target_view(self.fallback@[i as int]),
            ));
            i += 1;
        }
        assert(targets_view(self.fallback@).take(self.fallback.len() as int) =~= targets_view(self.fallback@));
        RouteOutcome {
            targets,
            exact_hits,
            prefix_hits,
            keyword_hits,
            fallback_hits: self.fallback.len(),
        }
    }

    /// The handlers of a system event type, in table order.
    pub fn route_system(&self, event_type: &str) -> (r: Vec<RouteTarget>)
        ensures
            targets_view(r@) == select(self.events_view(), event_type@, 0),
    {
        let mut out: Vec<RouteTarget> = Vec::new();
        assert(targets_view(out@) =~= Seq::empty());
        Self::select_into(&self.events, event_type, 0, &mut out);
        out
    }
}

/// The targets of a message with this plain text.
pub open spec fn route_spec(t: RoutingTable, text: Seq<char>) -> Seq<(nat, Seq<char>)> {
    select(t.exact_view(), trim_seq(text), 0) + select(t.prefix_view(), text, 1) + select(
        t.keyword_view(),
        text,
        2,
    ) + t.fallback_view()
}

/// The counts that a routed message adds: one received, the hits of each kind, one unmatched
/// where nothing was hit, one dispatch per target.
pub open spec fn route_bumps(o: RouteOutcome) -> Seq<(Counter, usize)> {
    seq![
        (Counter::MessagesReceived, 1usize),
        (Counter::ExactRouteHits, o.exact_hits),
        (Counter::PrefixRouteHits, o.prefix_hits),
        (Counter::KeywordRouteHits, o.keyword_hits),
        (Counter::FallbackDispatches, o.fallback_hits),
    ] + if o.targets@.len() == 0 {
        seq![(Counter::UnmatchedMessages, 1usize)]
    } else {
        Seq::empty()
    } + seq![(Counter::HandlerDispatches, o.targets@.len() as usize)]
}

/// Adds a routed message to the counters; the counts added are returned.
pub fn record_route(t: &Telemetry, o: &RouteOutcome) -> (bumps: Vec<(Counter, usize)>)
    ensures
        bumps@ == route_bumps(*o),
{
    let mut bumps: Vec<(Counter, usize)> = Vec::new();
    bumps.push((Counter::MessagesReceived, 1));
    bumps.push((Counter::ExactRouteHits, o.exact_hits));
    bumps.push((Counter::PrefixRouteHits, o.prefix_hits));
    bumps.push((Counter::KeywordRouteHits, o.keyword_hits));
    bumps.push((Counter::FallbackDispatches, o.fallback_hits));
    if o.targets.len() == 0 {
        bumps.push((Counter::UnmatchedMessages, 1));
    }
    bumps.push((Counter::HandlerDispatches, o.targets.len()));
    t.record(bumps.as_slice());
    assert(bumps@ =~= route_bumps(*o));
    bumps
}

} // verus!
