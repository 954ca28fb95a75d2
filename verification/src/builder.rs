//! Plugins built from an actor: their names, their handlers and the bus topics that carry
//! each handler's messages.
use vstd::prelude::*;

use crate::dispatch::{QueueStrategy, RuntimeConfig};
use crate::plugin::PluginMetadata;
use crate::routing::{EventHandlerSpec, HandlerSpec, RouteHint, RouteView};
use crate::rule::{MatchList, Rule};
use crate::text::{chars_of, occurs_at, owned, push_str, string_of_range};

verus! {

pub open spec fn ascii_upper(c: char) -> bool {
    'A' <= c && c <= 'Z'
}

pub open spec fn ascii_lower(c: char) -> bool {
    'a' <= c && c <= 'z'
}

pub open spec fn ascii_digit(c: char) -> bool {
    '0' <= c && c <= '9'
}

pub open spec fn ascii_alnum(c: char) -> bool {
    ascii_upper(c) || ascii_lower(c) || ascii_digit(c)
}

/// The lower-case letter of an upper-case ASCII letter.
pub open spec fn lower_of(c: char) -> char {
    (((c as u32) + 32) as u8) as char
}

pub open spec fn ends_with_underscore(s: Seq<char>) -> bool {
    s.len() > 0 && s.last() == '_'
}

/// One character of the snake-case scan; the flag says whether the last character kept was a
/// lower-case letter or a digit.
pub open spec fn snake_step(st: (Seq<char>, bool), ch: char) -> (Seq<char>, bool) {
    let out = st.0;
    if ascii_alnum(ch) {
        if ascii_upper(ch) {
            let o = if st.1 && !ends_with_underscore(out) {
                out.push('_')
            } else {
                out
            };
            (o.push(lower_of(ch)), false)
        } else {
            (out.push(ch), true)
        }
    } else if !ends_with_underscore(out) && out.len() > 0 {
        (out.push('_'), false)
    } else {
        st
    }
}

pub open spec fn snake_scan(s: Seq<char>) -> (Seq<char>, bool)
    decreases s.len(),
{
    if s.len() == 0 {
        (Seq::empty(), false)
    } else {
        snake_step(snake_scan(s.drop_last()), s.last())
    }
}

/// `s` without leading underscores.
pub open spec fn strip_leading(s: Seq<char>) -> Seq<char>
    decreases s.len(),
{
    if s.len() > 0 && s[0] == '_' {
        strip_leading(s.drop_first())
    } else {
        s
    }
}

/// `s` without trailing underscores.
pub open spec fn strip_trailing(s: Seq<char>) -> Seq<char>
    decreases s.len(),
{
    if s.len() > 0 && s.last() == '_' {
        strip_trailing(s.drop_last())
    } else {
        s
    }
}

/// The snake-case form of a name: ASCII letters and digits kept (upper-case letters lowered,
/// with `_` before one that follows a lower-case letter or digit), every run of other
/// characters one `_`, no `_` at either end.
pub open spec fn snake_spec(s: Seq<char>) -> Seq<char> {
    strip_trailing(strip_leading(snake_scan(s).0))
}

proof fn lemma_strip_leading(s: Seq<char>, i: int)
    requires
        0 <= i <= s.len(),
        forall|j: int| 0 <= j < i ==> s[j] == '_',
        i == s.len() || s[i] != '_',
    ensures
        strip_leading(s) == s.subrange(i, s.len() as int),
    decreases i,
{
    if i > 0 {
        assert(s.drop_first().len() == s.len() - 1);
        assert forall|j: int| 0 <= j < i - 1 implies s.drop_first()[j] == '_' by {
            assert(s.drop_first()[j] == s[j + 1]);
        }
        if i < s.len() {
            assert(s.drop_first()[i - 1] == s[i]);
        }
        lemma_strip_leading(s.drop_first(), i - 1);
        assert(s.drop_first().subrange(i - 1, s.drop_first().len() as int) =~= s.subrange(
            i,
            s.len() as int,
        ));
    } else {
        assert(s.subrange(0, s.len() as int) =~= s);
    }
}

proof fn lemma_strip_trailing(s: Seq<char>, k: int)
    requires
        0 <= k <= s.len(),
        forall|j: int| k <= j < s.len() ==> s[j] == '_',
        k == 0 || s[k - 1] != '_',
    ensures
        strip_trailing(s) == s.subrange(0, k),
    decreases s.len() - k,
{
    if k < s.len() {
        lemma_strip_trailing(s.drop_last(), k);
        assert(s.drop_last().subrange(0, k) =~= s.subrange(0, k));
    } else {
        assert(s.subrange(0, k) =~= s);
    }
}

/// A character that snake case keeps: a lower-case ASCII letter, an ASCII digit, or `_`.
pub open spec fn snake_char(c: char) -> bool {
    ascii_lower(c) || ascii_digit(c) || c == '_'
}

/// Only snake-case characters, and no `_` right after another.
pub open spec fn snake_body(t: Seq<char>) -> bool {
    &&& forall|i: int| 0 <= i < t.len() ==> snake_char(#[trigger] t[i])
    &&& forall|i: int| 0 <= i < t.len() - 1 ==> !(#[trigger] t[i] == '_' && t[i + 1] == '_')
}

/// A snake-case name: only lower-case ASCII letters, digits and `_`, no `__`, and no `_` at
/// either end.
pub open spec fn snake_shaped(t: Seq<char>) -> bool {
    &&& snake_body(t)
    &&& t.len() > 0 ==> t[0] != '_' && t.last() != '_'
}

proof fn lemma_scan_body(s: Seq<char>)
    ensures
        snake_body(snake_scan(s).0),
    decreases s.len(),
{
    if s.len() > 0 {
        lemma_scan_body(s.drop_last());
        let st = snake_scan(s.drop_last());
        let out = st.0;
        let ch = s.last();
        let r = snake_step(st, ch).0;
        if ascii_alnum(ch) && ascii_upper(ch) {
            let c2 = lower_of(ch);
            assert(ascii_lower(c2)) by {
                assert(65 <= ch as u32 <= 90);
            }
            let o = if st.1 && !ends_with_underscore(out) {
                out.push('_')
            } else {
                out
            };
            assert(snake_body(o)) by {
                if st.1 && !ends_with_underscore(out) {
                    assert forall|i: int| 0 <= i < o.len() - 1 implies !(#[trigger] o[i] == '_' && o[i + 1] == '_') by {
                        if i < out.len() - 1 {
                            assert(o[i] == out[i] && o[i + 1] == out[i + 1]);
                        }
                    }
                    assert forall|i: int| 0 <= i < o.len() implies snake_char(#[trigger] o[i]) by {
                        if i < out.len() {
                            assert(o[i] == out[i]);
                        }
                    }
                }
            }
            assert(r == o.push(c2));
            assert forall|i: int| 0 <= i < r.len() - 1 implies !(#[trigger] r[i] == '_' && r[i + 1] == '_') by {
                if i < o.len() - 1 {
                    assert(r[i] == o[i] && r[i + 1] == o[i + 1]);
                }
            }
            assert forall|i: int| 0 <= i < r.len() implies snake_char(#[trigger] r[i]) by {
                if i < o.len() {
                    assert(r[i] == o[i]);
                }
            }
        } else if r != out {
            assert(r == out.push(if ascii_alnum(ch) { ch } else { '_' }));
            assert forall|i: int| 0 <= i < r.len() - 1 implies !(#[trigger] r[i] == '_' && r[i + 1] == '_') by {
                if i < out.len() - 1 {
                    assert(r[i] == out[i] && r[i + 1] == out[i + 1]);
                }
            }
            assert forall|i: int| 0 <= i < r.len() implies snake_char(#[trigger] r[i]) by {
                if i < out.len() {
                    assert(r[i] == out[i]);
                }
            }
        }
    }
}

proof fn lemma_strip_leading_at(s: Seq<char>) -> (k: int)
    ensures
        0 <= k <= s.len(),
        strip_leading(s) == s.subrange(k, s.len() as int),
        k < s.len() ==> s[k] != '_',
    decreases s.len(),
{
    if s.len() > 0 && s[0] == '_' {
        let k1 = lemma_strip_leading_at(s.drop_first());
        assert(s.drop_first().subrange(k1, s.drop_first().len() as int) =~= s.subrange(k1 + 1, s.len() as int));
        if k1 < s.drop_first().len() {
            assert(s.drop_first()[k1] == s[k1 + 1]);
        }
        k1 + 1
    } else {
        assert(s.subrange(0, s.len() as int) =~= s);
        0
    }
}

proof fn lemma_strip_trailing_at(s: Seq<char>) -> (k: int)
    ensures
        0 <= k <= s.len(),
        strip_trailing(s) == s.subrange(0, k),
        k > 0 ==> s[k - 1] != '_',
    decreases s.len(),
{
    if s.len() > 0 && s.last() == '_' {
        let k1 = lemma_strip_trailing_at(s.drop_last());
        assert(s.drop_last().subrange(0, k1) =~= s.subrange(0, k1));
        if k1 > 0 {
            assert(s.drop_last()[k1 - 1] == s[k1 - 1]);
        }
        k1
    } else {
        assert(s.subrange(0, s.len() as int) =~= s);
        s.len() as int
    }
}

proof fn lemma_body_subrange(t: Seq<char>, a: int, b: int)
    requires
        snake_body(t),
        0 <= a <= b <= t.len(),
    ensures
        snake_body(t.subrange(a, b)),
{
    let u = t.subrange(a, b);
    assert forall|i: int| 0 <= i < u.len() implies snake_char(#[trigger] u[i]) by {
        assert(u[i] == t[a + i]);
    }
    assert forall|i: int| 0 <= i < u.len() - 1 implies !(#[trigger] u[i] == '_' && u[i + 1] == '_') by {
        assert(u[i] == t[a + i] && u[i + 1] == t[a + i + 1]);
    }
}

/// Scanning a name that is already snake case, without a leading `_`, gives it back.
proof fn lemma_scan_keeps(t: Seq<char>)
    requires
        snake_body(t),
        t.len() > 0 ==> t[0] != '_',
    ensures
        snake_scan(t).0 == t,
    decreases t.len(),
{
    if t.len() > 0 {
        let rest = t.drop_last();
        lemma_body_subrange(t, 0, t.len() - 1);
        assert(rest =~= t.subrange(0, t.len() - 1));
        if rest.len() > 0 {
            assert(rest[0] == t[0]);
        }
        lemma_scan_keeps(rest);
        let c = t.last();
        assert(snake_char(c));
        if c == '_' {
            assert(t.len() > 1);
            assert(rest.last() == t[t.len() - 2]);
            assert(!(t[t.len() - 2] == '_' && t[t.len() - 1] == '_'));
        }
        assert(rest.push(c) =~= t);
    }
}

/// Snake case gives only lower-case ASCII letters, digits and `_`, never `__`, and no `_` at
/// either end; and a name already in snake case stays as it is.
pub proof fn lemma_snake_case_shape(s: Seq<char>)
    ensures
        snake_shaped(snake_spec(s)),
        snake_spec(snake_spec(s)) == snake_spec(s),
{
    let scanned = snake_scan(s).0;
    lemma_scan_body(s);
    let a = lemma_strip_leading_at(scanned);
    let lead = strip_leading(scanned);
    lemma_body_subrange(scanned, a, scanned.len() as int);
    let b = lemma_strip_trailing_at(lead);
    let r = snake_spec(s);
    assert(r == lead.subrange(0, b));
    lemma_body_subrange(lead, 0, b);
    if r.len() > 0 {
        assert(r[0] == lead[0]);
        assert(lead[0] == scanned[a]);
        assert(r.last() == lead[b - 1]);
    }
    lemma_scan_keeps(r);
    assert(strip_leading(r) == r);
    assert(strip_trailing(r) == r);
}

/// The snake-case form of a name, as plugin and handler ids are derived from type names.
pub fn to_snake_case(input: &str) -> (r: String)
    ensures
        r@ == snake_spec(input@),
{
    let cs = chars_of(input);
    let mut out: Vec<char> = Vec::new();
    let mut prev = false;
    let mut i: usize = 0;
    while i < cs.len()
        invariant
            i <= cs.len(),
            cs@ == input@,
            (out@, prev) == snake_scan(cs@.take(i as int)),
        decreases cs.len() - i,
    {
        assert(cs@.take(i + 1).drop_last() =~= cs@.take(i as int));
        assert(cs@.take(i + 1).last() == cs@[i as int]);
        let ch = cs[i];
        let under = out.len() > 0 && out[out.len() - 1] == '_';
        if ('A' <= ch && ch <= 'Z') || ('a' <= ch && ch <= 'z') || ('0' <= ch && ch <= '9') {
            if 'A' <= ch && ch <= 'Z' {
                if prev && !under {
                    out.push('_');
                }
                let low = (((ch as u32) + 32) as u8) as char;
                out.push(low);
                prev = false;
            } else {
                out.push(ch);
                prev = true;
            }
        } else if !under && out.len() > 0 {
            out.push('_');
            prev = false;
        }
        i += 1;
    }
    assert(cs@.take(cs.len() as int) =~= cs@);
    let n = out.len();
    let mut a: usize = 0;
    while a < n && out[a] == '_'
        invariant
            a <= n == out.len(),
            forall|j: int| 0 <= j < a ==> out@[j] == '_',
        decreases n - a,
    {
        a += 1;
    }
    let mut b: usize = n;
    while b > a && out[b - 1] == '_'
        invariant
            a <= b <= n == out.len(),
            forall|j: int| b <= j < n ==> out@[j] == '_',
        decreases b,
    {
        b -= 1;
    }
    proof {
        lemma_strip_leading(out@, a as int);
        let rest = out@.subrange(a as int, n as int);
        assert forall|j: int| b - a <= j < rest.len() implies rest[j] == '_' by {
            assert(rest[j] == out@[j + a]);
        }
        if b > a {
            assert(rest[b - a - 1] == out@[b - 1]);
        }
        lemma_strip_trailing(rest, b - a);
        assert(rest.subrange(0, b - a) =~= out@.subrange(a as int, b as int));
    }
    string_of_range(&out, a, b)
}

/// The last start of `p` in `s` at or before `i`.
pub open spec fn last_occurrence(s: Seq<char>, p: Seq<char>, i: int) -> Option<int>
    decreases i + 1,
{
    if i < 0 {
        None
    } else if occurs_at(s, p, i) {
        Some(i)
    } else {
        last_occurrence(s, p, i - 1)
    }
}

/// The last segment of a type path: the text after its last `::` (all of it without one).
pub open spec fn type_label_spec(name: Seq<char>) -> Seq<char> {
    match last_occurrence(name, "::"@, name.len() - 2) {
        Some(i) => name.subrange(i + 2, name.len() as int),
        None => name,
    }
}

/// The last segment of a type path such as `std::any` reports for a type.
pub fn type_label(type_path: &str) -> (r: String)
    ensures
        r@ == type_label_spec(type_path@),
{
    proof {
        reveal_strlit("::");
        assert("::"@ =~= seq![':', ':']);
    }
    let cs = chars_of(type_path);
    let n = cs.len();
    if n < 2 {
        assert(last_occurrence(cs@, "::"@, n - 2) is None);
        return owned(type_path);
    }
    let mut i: usize = n - 1;
    while i > 0
        invariant
            i <= n - 1,
            n == cs.len(),
            n >= 2,
            cs@ == type_path@,
            "::"@ == seq![':', ':'],
            last_occurrence(cs@, "::"@, n - 2) == last_occurrence(cs@, "::"@, i - 1),
        decreases i,
    {
        let j = i - 1;
        if cs[j] == ':' && cs[j + 1] == ':' {
            assert(cs@.subrange(j as int, j + 2) =~= "::"@);
            assert(occurs_at(cs@, "::"@, j as int));
            return string_of_range(&cs, j + 2, n);
        }
        assert(!occurs_at(cs@, "::"@, j as int)) by {
            if occurs_at(cs@, "::"@, j as int) {
                assert(cs@.subrange(j as int, j + 2)[0] == cs@[j as int]);
                assert(cs@.subrange(j as int, j + 2)[1] == cs@[j + 1]);
            }
        }
        i = j;
    }
    owned(type_path)
}

/// The handler id derived from a message type's name: its last segment in snake case.
pub fn derived_handler_id(type_path: &str) -> (r: String)
    ensures
        r@ == snake_spec(type_label_spec(type_path@)),
{
    let label = type_label(type_path);
    to_snake_case(label.as_str())
}

/// The bus topic of a plugin's message handler: `plugin:{plugin}:message:{handler}`.
pub fn message_topic(plugin_id: &str, handler_id: &str) -> (r: String)
    ensures
        r@ == "plugin:"@ + plugin_id@ + ":message:"@ + handler_id@,
{
    let mut out = owned("plugin:");
    push_str(&mut out, plugin_id);
    push_str(&mut out, ":message:");
    push_str(&mut out, handler_id);
    out
}

/// The bus topic of a plugin's event handler: `plugin:{plugin}:event:{handler}`.
pub fn event_topic(plugin_id: &str, handler_id: &str) -> (r: String)
    ensures
        r@ == "plugin:"@ + plugin_id@ + ":event:"@ + handler_id@,
{
    let mut out = owned("plugin:");
    push_str(&mut out, plugin_id);
    push_str(&mut out, ":event:");
    push_str(&mut out, handler_id);
    out
}

/// The mailbox of a plugin's actor.
#[derive(Debug, Clone, Copy, PartialEq, Eq, Structural)]
pub enum MailboxConfig {
    Bounded(usize),
    Unbounded,
}

impl Default for MailboxConfig {
    fn default() -> (r: MailboxConfig)
        ensures
            r == MailboxConfig::Bounded(64),
    {
        MailboxConfig::Bounded(64)
    }
}

/// How a message handler of an actor plugin is routed.
#[derive(Debug)]
pub enum MessageRouteSpec {
    Exact(String),
    Prefix(String),
    Keyword(String),
    Regex(String),
    Fallback,
}

fn one(s: &String) -> (r: MatchList)
    ensures
        r.0@.len() == 1,
        r.0@[0]@ == s@,
{
    let mut v: Vec<String> = Vec::new();
    v.push(s.clone());
    MatchList(v)
}

/// The route and rule of a handler with the given route spec (one pattern each).
pub open spec fn route_spec_handler(r: MessageRouteSpec) -> (RouteView, Option<Seq<char>>) {
    match r {
        MessageRouteSpec::Exact(p) => (RouteView::Exact(seq![p@]), None),
        MessageRouteSpec::Prefix(p) => (RouteView::Prefix(seq![p@]), None),
        MessageRouteSpec::Keyword(p) => (RouteView::Keyword(seq![p@]), None),
        MessageRouteSpec::Regex(p) => (RouteView::Regex, Some(p@)),
        MessageRouteSpec::Fallback => (RouteView::Fallback, None),
    }
}

/// `rule` is the matching rule of the route's kind over its one pattern (none for a
/// fallback).
pub open spec fn rule_of_route(rule: Option<Rule>, r: MessageRouteSpec) -> bool {
    match r {
        MessageRouteSpec::Exact(p) => rule matches Some(Rule::FullMatch(ps)) && ps@.len() == 1 && ps@[0]@ == p@,
        MessageRouteSpec::Prefix(p) => rule matches Some(Rule::StartsWith(ps)) && ps@.len() == 1 && ps@[0]@ == p@,
        MessageRouteSpec::Keyword(p) => rule matches Some(Rule::Keywords(ps)) && ps@.len() == 1 && ps@[0]@ == p@,
        MessageRouteSpec::Regex(p) => rule matches Some(Rule::Regex(q)) && q@ == p@,
        MessageRouteSpec::Fallback => rule is None,
    }
}

impl MessageRouteSpec {
    /// The handler for this route: the matching rule of its kind over its one pattern, and
    /// the given time limit.
    pub fn into_handler(&self, handler_id: &str, timeout_ms: u64) -> (r: HandlerSpec)
        ensures
            r.id@ == handler_id@,
            r.timeout_ms == timeout_ms,
            r.route@ == route_spec_handler(*self).0,
            rule_of_route(r.rule, *self),
    {
        let mut h = match self {
            MessageRouteSpec::Exact(p) => {
                let ml = one(p);
                assert(crate::routing::strings_view(ml.0@) =~= seq![p@]);
                HandlerSpec::exact(handler_id, ml)
            },
            MessageRouteSpec::Prefix(p) => {
                let ml = one(p);
                assert(crate::routing::strings_view(ml.0@) =~= seq![p@]);
                HandlerSpec::prefix(handler_id, ml)
            },
            MessageRouteSpec::Keyword(p) => {
                let ml = one(p);
                assert(crate::routing::strings_view(ml.0@) =~= seq![p@]);
                HandlerSpec::keyword(handler_id, ml)
            },
            MessageRouteSpec::Regex(p) => HandlerSpec::regex(handler_id, p.as_str()),
            MessageRouteSpec::Fallback => HandlerSpec::fallback(handler_id),
        };
        h.timeout_ms = timeout_ms;
        h
    }
}

/// A plugin built around an actor: its metadata and runtime configuration, its mailbox, and
/// its handlers as (handler id, route) and (event type, handler id), in registration order.
#[derive(Debug)]
pub struct ActorPluginBuilder {
    pub metadata: PluginMetadata,
    pub runtime: RuntimeConfig,
    pub mailbox: MailboxConfig,
    pub message_routes: Vec<(String, MessageRouteSpec)>,
    pub event_routes: Vec<(String, String)>,
}

impl ActorPluginBuilder {
    /// A plugin for the actor type with this name: named by the type's last segment, with
    /// that segment in snake case as its id, the default runtime and a mailbox of 64.
    pub fn new(actor_type: &str) -> (r: ActorPluginBuilder)
        ensures
            r.metadata.name@ == type_label_spec(actor_type@),
            r.metadata.id@ == snake_spec(type_label_spec(actor_type@)),
            r.metadata.description@ == Seq::<char>::empty(),
            r.metadata.version@ == "1.0.0"@,
            r.metadata.author@ == "Unknown"@,
            r.runtime.concurrency == 64,
            r.runtime.timeout_ms == 5000,
            r.runtime.queue_strategy == QueueStrategy::DropNewest,
            r.mailbox == MailboxConfig::Bounded(64),
            r.message_routes@.len() == 0,
            r.event_routes@.len() == 0,
    {
        let name = type_label(actor_type);
        let id = to_snake_case(name.as_str());
        ActorPluginBuilder {
            metadata: PluginMetadata {
                id,
                name,
                description: String::new(),
                version: owned("1.0.0"),
                author: owned("Unknown"),
            },
            runtime: RuntimeConfig {
                concurrency: 64,
                timeout_ms: 5000,
                queue_strategy: QueueStrategy::DropNewest,
            },
            mailbox: MailboxConfig::Bounded(64),
            message_routes: Vec::new(),
            event_routes: Vec::new(),
        }
    }

    pub fn id(self, id: &str) -> (r: ActorPluginBuilder)
        ensures
            r.metadata.id@ == id@,
            r.metadata.name == self.metadata.name,
            r.runtime == self.runtime,
            r.mailbox == self.mailbox,
            r.message_routes == self.message_routes,
            r.event_routes == self.event_routes,
    {
        let mut s = self;
        s.metadata.id = owned(id);
        s
    }

    pub fn name(self, name: &str) -> (r: ActorPluginBuilder)
        ensures
            r.metadata.name@ == name@,
            r.metadata.id == self.metadata.id,
            r.runtime == self.runtime,
            r.mailbox == self.mailbox,
            r.message_routes == self.message_routes,
            r.event_routes == self.event_routes,
    {
        let mut s = self;
        s.metadata.name = owned(name);
        s
    }

    pub fn timeout_ms(self, timeout_ms: u64) -> (r: ActorPluginBuilder)
        ensures
            r.runtime.timeout_ms == timeout_ms,
            r.runtime.concurrency == self.runtime.concurrency,
            r.runtime.queue_strategy == self.runtime.queue_strategy,
            r.metadata == self.metadata,
            r.mailbox == self.mailbox,
            r.message_routes == self.message_routes,
            r.event_routes == self.event_routes,
    {
        let mut s = self;
        s.runtime.timeout_ms = timeout_ms;
        s
    }

    pub fn concurrency(self, concurrency: usize) -> (r: ActorPluginBuilder)
        ensures
            r.runtime.concurrency == concurrency,
            r.runtime.timeout_ms == self.runtime.timeout_ms,
            r.runtime.queue_strategy == self.runtime.queue_strategy,
            r.metadata == self.metadata,
            r.mailbox == self.mailbox,
            r.message_routes == self.message_routes,
            r.event_routes == self.event_routes,
    {
        let mut s = self;
        s.runtime.concurrency = concurrency;
        s
    }

    pub fn queue_strategy(self, strategy: QueueStrategy) -> (r: ActorPluginBuilder)
        ensures
            r.runtime.queue_strategy == strategy,
            r.runtime.timeout_ms == self.runtime.timeout_ms,
            r.runtime.concurrency == self.runtime.concurrency,
            r.metadata == self.metadata,
            r.mailbox == self.mailbox,
            r.message_routes == self.message_routes,
            r.event_routes == self.event_routes,
    {
        let mut s = self;
        s.runtime.queue_strategy = strategy;
        s
    }

    pub fn bounded_mailbox(self, capacity: usize) -> (r: ActorPluginBuilder)
        ensures
            r.mailbox == MailboxConfig::Bounded(capacity),
            r.metadata == self.metadata,
            r.runtime == self.runtime,
            r.message_routes == self.message_routes,
            r.event_routes == self.event_routes,
    {
        let mut s = self;
        s.mailbox = MailboxConfig::Bounded(capacity);
        s
    }

    pub fn unbounded_mailbox(self) -> (r: ActorPluginBuilder)
        ensures
            r.mailbox == MailboxConfig::Unbounded,
            r.metadata == self.metadata,
            r.runtime == self.runtime,
            r.message_routes == self.message_routes,
            r.event_routes == self.event_routes,
    {
        let mut s = self;
        s.mailbox = MailboxConfig::Unbounded;
        s
    }

    /// Registers a message handler for the message type with this name on the given route;
    /// its id is derived from the type name.
    pub fn register_message_handler(self, route: MessageRouteSpec, message_type: &str) -> (r: ActorPluginBuilder)
        ensures
            r.message_routes@.len() == self.message_routes@.len() + 1,
            r.message_routes@.drop_last() == self.message_routes@,
            r.message_routes@.last().0@ == snake_spec(type_label_spec(message_type@)),
            r.message_routes@.last().1 == route,
            r.metadata == self.metadata,
            r.runtime == self.runtime,
            r.mailbox == self.mailbox,
            r.event_routes == self.event_routes,
    {
        let mut s = self;
        let id = derived_handler_id(message_type);
        s.message_routes.push((id, route));
        proof {
            assert(s.message_routes@.drop_last() =~= self.message_routes@);
        }
        s
    }

    /// A handler for messages whose trimmed text is `pattern`.
    pub fn on_message(self, pattern: &str, message_type: &str) -> (r: ActorPluginBuilder)
        ensures
            r.message_routes@.len() == self.message_routes@.len() + 1,
            r.message_routes@.drop_last() == self.message_routes@,
            r.message_routes@.last().0@ == snake_spec(type_label_spec(message_type@)),
            r.message_routes@.last().1 matches MessageRouteSpec::Exact(p) && p@ == pattern@,
    {
        self.register_message_handler(MessageRouteSpec::Exact(owned(pattern)), message_type)
    }

    /// A handler for messages that start with `prefix`.
    pub fn on_prefix(self, prefix: &str, message_type: &str) -> (r: ActorPluginBuilder)
        ensures
            r.message_routes@.len() == self.message_routes@.len() + 1,
            r.message_routes@.drop_last() == self.message_routes@,
            r.message_routes@.last().0@ == snake_spec(type_label_spec(message_type@)),
            r.message_routes@.last().1 matches MessageRouteSpec::Prefix(p) && p@ == prefix@,
    {
        self.register_message_handler(MessageRouteSpec::Prefix(owned(prefix)), message_type)
    }

    /// A handler for messages that contain `keyword`.
    pub fn on_keyword(self, keyword: &str, message_type: &str) -> (r: ActorPluginBuilder)
        ensures
            r.message_routes@.len() == self.message_routes@.len() + 1,
            r.message_routes@.drop_last() == self.message_routes@,
            r.message_routes@.last().0@ == snake_spec(type_label_spec(message_type@)),
            r.message_routes@.last().1 matches MessageRouteSpec::Keyword(p) && p@ == keyword@,
    {
        self.register_message_handler(MessageRouteSpec::Keyword(owned(keyword)), message_type)
    }

    /// A handler for messages that the regular expression matches.
    pub fn on_regex(self, pattern: &str, message_type: &str) -> (r: ActorPluginBuilder)
        ensures
            r.message_routes@.len() == self.message_routes@.len() + 1,
            r.message_routes@.drop_last() == self.message_routes@,
            r.message_routes@.last().0@ == snake_spec(type_label_spec(message_type@)),
            r.message_routes@.last().1 matches MessageRouteSpec::Regex(p) && p@ == pattern@,
    {
        self.register_message_handler(MessageRouteSpec::Regex(owned(pattern)), message_type)
    }

    /// A handler for every message.
    pub fn on_fallback(self, message_type: &str) -> (r: ActorPluginBuilder)
        ensures
            r.message_routes@.len() == self.message_routes@.len() + 1,
            r.message_routes@.drop_last() == self.message_routes@,
            r.message_routes@.last().0@ == snake_spec(type_label_spec(message_type@)),
            r.message_routes@.last().1 is Fallback,
    {
        self.register_message_handler(MessageRouteSpec::Fallback, message_type)
    }

    /// A handler for system events of `event_type`.
    pub fn on_event(self, event_type: &str, message_type: &str) -> (r: ActorPluginBuilder)
        ensures
            r.event_routes@.len() == self.event_routes@.len() + 1,
            r.event_routes@.drop_last() == self.event_routes@,
            r.event_routes@.last().0@ == event_type@,
            r.event_routes@.last().1@ == snake_spec(type_label_spec(message_type@)),
            r.metadata == self.metadata,
            r.runtime == self.runtime,
            r.mailbox == self.mailbox,
            r.message_routes == self.message_routes,
    {
        let mut s = self;
        let id = derived_handler_id(message_type);
        s.event_routes.push((owned(event_type), id));
        proof {
            assert(s.event_routes@.drop_last() =~= self.event_routes@);
        }
        s
    }

    /// The message handlers, in registration order, each with the plugin's time limit.
    pub fn message_handlers(&self) -> (r: Vec<HandlerSpec>)
        ensures
            r@.len() == self.message_routes@.len(),
            forall|i: int|
                0 <= i < r@.len() ==> (#[trigger] r@[i]).id@ == self.message_routes@[i].0@
                    && r@[i].timeout_ms == self.runtime.timeout_ms && r@[i].route@
                    == route_spec_handler(self.message_routes@[i].1).0
                    && rule_of_route(r@[i].rule, self.message_routes@[i].1),
    {
        let mut out: Vec<HandlerSpec> = Vec::new();
        let mut i: usize = 0;
        while i < self.message_routes.len()
            invariant
                i <= self.message_routes.len(),
                out@.len() == i,
                forall|j: int|
                    0 <= j < i ==> (#[trigger] out@[j]).id@ == self.message_routes@[j].0@
                        && out@[j].timeout_ms == self.runtime.timeout_ms && out@[j].route@
                        == route_spec_handler(self.message_routes@[j].1).0
                        && rule_of_route(out@[j].rule, self.message_routes@[j].1),
            decreases self.message_routes.len() - i,
        {
            let (id, route) = (&self.message_routes[i].0, &self.message_routes[i].1);
            out.push(route.into_handler(id.as_str(), self.runtime.timeout_ms));
            i += 1;
        }
        out
    }

    /// The event handlers, in registration order.
    pub fn event_handlers(&self) -> (r: Vec<EventHandlerSpec>)
        ensures
            r@.len() == self.event_routes@.len(),
            forall|i: int|
                0 <= i < r@.len() ==> (#[trigger] r@[i]).event_type@ == self.event_routes@[i].0@
                    && r@[i].id@ == self.event_routes@[i].1@,
    {
        let mut out: Vec<EventHandlerSpec> = Vec::new();
        let mut i: usize = 0;
        while i < self.event_routes.len()
            invariant
                i <= self.event_routes.len(),
                out@.len() == i,
                forall|j: int|
                    0 <= j < i ==> (#[trigger] out@[j]).event_type@ == self.event_routes@[j].0@
                        && out@[j].id@ == self.event_routes@[j].1@,
            decreases self.event_routes.len() - i,
        {
            out.push(EventHandlerSpec::new(self.event_routes[i].0.as_str(), self.event_routes[i].1.as_str()));
            i += 1;
        }
        out
    }
}

} // verus!
