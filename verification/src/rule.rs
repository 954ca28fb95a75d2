//! Rules: predicates over the text of a message event.
use vstd::prelude::*;

use crate::codec::{regex_compiles, regex_is_match, regex_match};
use crate::event::MessageEvent;
use crate::message::plain_text_spec;
use crate::text::occurs_at;
use crate::text::{
    contains, contains_seq, owned, starts_with, starts_with_seq, str_eq, trim, trim_seq,
};

verus! {

/// The patterns a rule constructor takes: one string or several.
#[derive(Debug)]
pub struct MatchList(pub Vec<String>);

pub open spec fn string_views(v: Seq<String>) -> Seq<Seq<char>> {
    v.map_values(|s: String| s@)
}

impl MatchList {
    /// A list of one pattern.
    pub fn one(s: &str) -> (r: MatchList)
        ensures
            string_views(r.0@) == seq![s@],
    {
        let mut v = Vec::new();
        v.push(owned(s));
        let r = MatchList(v);
        assert(string_views(r.0@) =~= seq![s@]);
        r
    }

    /// A list of the given patterns, in order.
    pub fn many(items: &[&str]) -> (r: MatchList)
        ensures
            string_views(r.0@) == items@.map_values(|s: &str| s@),
    {
        let mut v: Vec<String> = Vec::new();
        let mut i: usize = 0;
        while i < items.len()
            invariant
                i <= items.len(),
                string_views(v@) == items@.take(i as int).map_values(|s: &str| s@),
            decreases items.len() - i,
        {
            let ghost prev = v@;
            v.push(owned(items[i]));
            assert(string_views(v@) =~= string_views(prev).push(items@[i as int]@));
            assert(items@.take(i + 1).map_values(|s: &str| s@) =~= items@.take(i as int).map_values(
                |s: &str| s@,
            ).push(items@[i as int]@));
            i += 1;
        }
        assert(items@.take(items@.len() as int) =~= items@);
        MatchList(v)
    }
}

impl From<&str> for MatchList {
    fn from(s: &str) -> MatchList {
        MatchList::one(s)
    }
}

impl vstd::std_specs::convert::FromSpecImpl<&str> for MatchList {
    open spec fn obeys_from_spec() -> bool {
        false
    }

    open spec fn from_spec(v: &str) -> MatchList {
        arbitrary()
    }
}

impl From<String> for MatchList {
    fn from(s: String) -> MatchList {
        let mut v = Vec::new();
        v.push(s);
        MatchList(v)
    }
}

impl vstd::std_specs::convert::FromSpecImpl<String> for MatchList {
    open spec fn obeys_from_spec() -> bool {
        false
    }

    open spec fn from_spec(v: String) -> MatchList {
        arbitrary()
    }
}

impl From<Vec<&str>> for MatchList {
    fn from(v: Vec<&str>) -> MatchList {
        MatchList::many(v.as_slice())
    }
}

impl vstd::std_specs::convert::FromSpecImpl<Vec<&str>> for MatchList {
    open spec fn obeys_from_spec() -> bool {
        false
    }

    open spec fn from_spec(v: Vec<&str>) -> MatchList {
        arbitrary()
    }
}

/// A composable predicate over a message event's text.
#[derive(Debug)]
pub enum Rule {
    /// The text starts with one of the prefixes.
    StartsWith(Vec<String>),
    /// The trimmed text equals one of the candidates.
    FullMatch(Vec<String>),
    /// The text contains one of the keywords.
    Keywords(Vec<String>),
    /// The text matches the regular expression (never, if it does not compile).
    Regex(String),
    /// Both rules hold.
    And(Box<Rule>, Box<Rule>),
    /// Either rule holds.
    Or(Box<Rule>, Box<Rule>),
}

/// Whether rule `r` holds of a message whose plain text is `text`.
pub open spec fn rule_holds(r: Rule, text: Seq<char>) -> bool
    decreases r,
{
    match r {
        Rule::StartsWith(ps) => exists|i: int|
            0 <= i < ps@.len() && starts_with_seq(text, #[trigger] ps@[i]@),
        Rule::FullMatch(cs) => exists|i: int|
            0 <= i < cs@.len() && trim_seq(text) == (#[trigger] cs@[i])@,
        Rule::Keywords(ks) => exists|i: int|
            0 <= i < ks@.len() && contains_seq(text, #[trigger] ks@[i]@),
        Rule::Regex(p) => regex_compiles(p@) && regex_is_match(p@, text),
        Rule::And(a, b) => rule_holds(*a, text) && rule_holds(*b, text),
        Rule::Or(a, b) => rule_holds(*a, text) || rule_holds(*b, text),
    }
}

proof fn lemma_starts_with_rule(ps: Vec<String>, text: Seq<char>)
    ensures
        rule_holds(Rule::StartsWith(ps), text) <==> exists|i: int|
            0 <= i < ps@.len() && (#[trigger] ps@[i])@.len() <= text.len() && text.subrange(
                0,
                ps@[i]@.len() as int,
            ) == ps@[i]@,
{
    let r = Rule::StartsWith(ps);
    assert(r->StartsWith_0 == ps);
    assert(rule_holds(r, text) == (exists|i: int|
        0 <= i < ps@.len() && starts_with_seq(text, #[trigger] ps@[i]@)));
    if rule_holds(Rule::StartsWith(ps), text) {
        let i = choose|i: int| 0 <= i < ps@.len() && starts_with_seq(text, #[trigger] ps@[i]@);
        assert(ps@[i]@.len() <= text.len() && text.subrange(0, ps@[i]@.len() as int) == ps@[i]@);
    }
    if exists|i: int|
        0 <= i < ps@.len() && (#[trigger] ps@[i])@.len() <= text.len() && text.subrange(
            0,
            ps@[i]@.len() as int,
        ) == ps@[i]@ {
        let i = choose|i: int|
            0 <= i < ps@.len() && (#[trigger] ps@[i])@.len() <= text.len() && text.subrange(
                0,
                ps@[i]@.len() as int,
            ) == ps@[i]@;
        assert(starts_with_seq(text, ps@[i]@));
    }
}

proof fn lemma_full_match_rule(ps: Vec<String>, text: Seq<char>)
    ensures
        rule_holds(Rule::FullMatch(ps), text) <==> exists|i: int|
            0 <= i < ps@.len() && trim_seq(text) == (#[trigger] ps@[i])@,
{
    let r = Rule::FullMatch(ps);
    assert(r->FullMatch_0 == ps);
    assert(rule_holds(r, text) == (exists|i: int|
        0 <= i < ps@.len() && trim_seq(text) == (#[trigger] ps@[i])@));
    if rule_holds(Rule::FullMatch(ps), text) {
        let i = choose|i: int| 0 <= i < ps@.len() && trim_seq(text) == (#[trigger] ps@[i])@;
        assert(trim_seq(text) == ps@[i]@);
    }
}

proof fn lemma_keywords_rule(ps: Vec<String>, text: Seq<char>)
    ensures
        rule_holds(Rule::Keywords(ps), text) <==> exists|i: int, j: int|
            0 <= i < ps@.len() && 0 <= j && j + (#[trigger] ps@[i])@.len() <= text.len()
                && #[trigger] text.subrange(j, j + ps@[i]@.len()) == ps@[i]@,
{
    let r = Rule::Keywords(ps);
    assert(r->Keywords_0 == ps);
    assert(rule_holds(r, text) == (exists|i: int|
        0 <= i < ps@.len() && contains_seq(text, #[trigger] ps@[i]@)));
    if rule_holds(Rule::Keywords(ps), text) {
        let i = choose|i: int| 0 <= i < ps@.len() && contains_seq(text, #[trigger] ps@[i]@);
        let j = choose|j: int| occurs_at(text, ps@[i]@, j);
        assert(text.subrange(j, j + ps@[i]@.len()) == ps@[i]@);
    }
    if exists|i: int, j: int|
        0 <= i < ps@.len() && 0 <= j && j + (#[trigger] ps@[i])@.len() <= text.len()
            && #[trigger] text.subrange(j, j + ps@[i]@.len()) == ps@[i]@ {
        let (i, j) = choose|i: int, j: int|
            0 <= i < ps@.len() && 0 <= j && j + (#[trigger] ps@[i])@.len() <= text.len()
                && #[trigger] text.subrange(j, j + ps@[i]@.len()) == ps@[i]@;
        assert(occurs_at(text, ps@[i]@, j));
        assert(contains_seq(text, ps@[i]@));
    }
}

/// A starts-with rule holds exactly when one of its prefixes begins the text; a full-match rule
/// exactly when the trimmed text is one of its candidates; a keywords rule exactly when one of
/// its keywords occurs somewhere in the text; a regex rule exactly when the pattern compiles and
/// matches the text.
pub proof fn lemma_rule_leaves(ps: Vec<String>, pattern: String, text: Seq<char>)
    ensures
        rule_holds(Rule::StartsWith(ps), text) <==> exists|i: int|
            0 <= i < ps@.len() && (#[trigger] ps@[i])@.len() <= text.len() && text.subrange(
                0,
                ps@[i]@.len() as int,
            ) == ps@[i]@,
        rule_holds(Rule::FullMatch(ps), text) <==> exists|i: int|
            0 <= i < ps@.len() && trim_seq(text) == (#[trigger] ps@[i])@,
        rule_holds(Rule::Keywords(ps), text) <==> exists|i: int, j: int|
            0 <= i < ps@.len() && 0 <= j && j + (#[trigger] ps@[i])@.len() <= text.len()
                && #[trigger] text.subrange(j, j + ps@[i]@.len()) == ps@[i]@,
        rule_holds(Rule::Regex(pattern), text) <==> regex_compiles(pattern@) && regex_is_match(
            pattern@,
            text,
        ),
{
    lemma_starts_with_rule(ps, text);
    lemma_full_match_rule(ps, text);
    lemma_keywords_rule(ps, text);
}

/// An `Or` rule holds of a text exactly when at least one of its two rules does, and an `And`
/// rule exactly when both do.
pub proof fn lemma_rule_combinators(a: Rule, b: Rule, text: Seq<char>)
    ensures
        rule_holds(Rule::Or(Box::new(a), Box::new(b)), text) == (rule_holds(a, text) || rule_holds(b, text)),
        rule_holds(Rule::And(Box::new(a), Box::new(b)), text) == (rule_holds(a, text) && rule_holds(b, text)),
        rule_holds(Rule::Or(Box::new(a), Box::new(b)), text) == rule_holds(Rule::Or(Box::new(b), Box::new(a)), text),
        !rule_holds(Rule::Or(Box::new(a), Box::new(b)), text) ==> !rule_holds(a, text) && !rule_holds(b, text),
        rule_holds(a, text) ==> rule_holds(Rule::Or(Box::new(a), Box::new(b)), text),
{
}

impl Rule {
    /// Whether the rule holds of a message whose plain text is `text`.
    pub fn check_text(&self, text: &str) -> (r: bool)
        ensures
            r == rule_holds(*self, text@),
        decreases self,
    {
        match self {
            Rule::StartsWith(ps) => {
                assert(rule_holds(*self, text@) == (exists|k: int|
                    0 <= k < ps@.len() && starts_with_seq(text@, #[trigger] ps@[k]@)));
                let mut i: usize = 0;
                while i < ps.len()
                    invariant
                        i <= ps.len(),
                        forall|j: int| 0 <= j < i ==> !starts_with_seq(text@, #[trigger] ps@[j]@),
                        rule_holds(*self, text@) == (exists|k: int|
                            0 <= k < ps@.len() && starts_with_seq(text@, #[trigger] ps@[k]@)),
                    decreases ps.len() - i,
                {
                    if starts_with(text, ps[i].as_str()) {
                        assert(starts_with_seq(text@, ps@[i as int]@));
                        return true;
                    }
                    i += 1;
                }
                false
            },
            Rule::FullMatch(cs) => {
                assert(rule_holds(*self, text@) == (exists|k: int|
                    0 <= k < cs@.len() && trim_seq(text@) == (#[trigger] cs@[k])@));
                let t = trim(text);
                let mut i: usize = 0;
                while i < cs.len()
                    invariant
                        i <= cs.len(),
                        t@ == trim_seq(text@),
                        forall|j: int| 0 <= j < i ==> trim_seq(text@) != (#[trigger] cs@[j])@,
                        rule_holds(*self, text@) == (exists|k: int|
                            0 <= k < cs@.len() && trim_seq(text@) == (#[trigger] cs@[k])@),
                    decreases cs.len() - i,
                {
                    if str_eq(t.as_str(), cs[i].as_str()) {
                        assert(trim_seq(text@) == cs@[i as int]@);
                        return true;
                    }
                    i += 1;
                }
                false
            },
            Rule::Keywords(ks) => {
                assert(rule_holds(*self, text@) == (exists|k: int|
                    0 <= k < ks@.len() && contains_seq(text@, #[trigger] ks@[k]@)));
                let mut i: usize = 0;
                while i < ks.len()
                    invariant
                        i <= ks.len(),
                        forall|j: int| 0 <= j < i ==> !contains_seq(text@, #[trigger] ks@[j]@),
                        rule_holds(*self, text@) == (exists|k: int|
                            0 <= k < ks@.len() && contains_seq(text@, #[trigger] ks@[k]@)),
                    decreases ks.len() - i,
                {
                    if contains(text, ks[i].as_str()) {
                        assert(contains_seq(text@, ks@[i as int]@));
                        return true;
                    }
                    i += 1;
                }
                false
            },
            Rule::Regex(p) => match regex_match(p.as_str(), text) {
                Some(b) => b,
                None => false,
            },
            Rule::And(a, b) => a.check_text(text) && b.check_text(text),
            Rule::Or(a, b) => a.check_text(text) || b.check_text(text),
        }
    }

    /// Whether the rule holds of the event's plain text.
    pub fn check(&self, event: &MessageEvent) -> (r: bool)
        ensures
            r == rule_holds(*self, plain_text_spec(event.messages@)),
    {
        let text = event.plain_text();
        self.check_text(text.as_str())
    }

    /// Both rules: `self && other`.
    pub fn and(self, other: Rule) -> (r: Rule)
        ensures
            r == Rule::And(Box::new(self), Box::new(other)),
    {
        Rule::And(Box::new(self), Box::new(other))
    }

    /// Either rule: `self || other`.
    pub fn or(self, other: Rule) -> (r: Rule)
        ensures
            r == Rule::Or(Box::new(self), Box::new(other)),
    {
        Rule::Or(Box::new(self), Box::new(other))
    }
}

/// Holds of messages that start with one of the patterns.
pub fn is_startswith(msg: MatchList) -> (r: Rule)
    ensures
        r == Rule::StartsWith(msg.0),
{
    Rule::StartsWith(msg.0)
}

/// Holds of messages whose trimmed text equals one of the patterns.
pub fn is_fullmatch(msg: MatchList) -> (r: Rule)
    ensures
        r == Rule::FullMatch(msg.0),
{
    Rule::FullMatch(msg.0)
}

/// Holds of messages that contain one of the keywords.
pub fn is_keywords(keyword: MatchList) -> (r: Rule)
    ensures
        r == Rule::Keywords(keyword.0),
{
    Rule::Keywords(keyword.0)
}

/// Holds of messages that the regular expression matches; never, if `pattern` does not compile.
pub fn is_regex(pattern: &str) -> (r: Rule)
    ensures
        r matches Rule::Regex(p) && p@ == pattern@,
{
    Rule::Regex(owned(pattern))
}

} // verus!
