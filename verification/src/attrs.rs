//! The attribute language of `#[plugin]` plugins: the arguments of `#[plugin(..)]`,
//! `#[command(..)]`, `#[message(..)]` and `#[event(..)]`, and the handlers they declare.
use vstd::prelude::*;

use crate::builder::{snake_spec, to_snake_case};
use crate::plugin::PluginMetadata;
use crate::routing::{HandlerSpec, RouteView};
use crate::rule::Rule;
use crate::rule::MatchList;
use crate::cookies::{key_index, keys_unique, lemma_upsert, pairs_view, upsert, upsert_entry, value_of};
use crate::text::{owned, push_str, str_eq};

verus! {

/// A token of an attribute's arguments.
#[derive(Debug)]
pub enum AttrToken {
    /// An identifier; in an item's tokens, a keyword too.
    Ident(String),
    /// A string literal, by its value.
    Str(String),
    /// `=`
    Eq,
    /// `,`
    Comma,
    /// Any other token.
    Other,
}

pub enum TokenView {
    Ident(Seq<char>),
    Str(Seq<char>),
    Eq,
    Comma,
    Other,
}

impl View for AttrToken {
    type V = TokenView;

    open spec fn view(&self) -> TokenView {
        match self {
            AttrToken::Ident(s) => TokenView::Ident(s@),
            AttrToken::Str(s) => TokenView::Str(s@),
            AttrToken::Eq => TokenView::Eq,
            AttrToken::Comma => TokenView::Comma,
            AttrToken::Other => TokenView::Other,
        }
    }
}

pub open spec fn tokens_view(ts: Seq<AttrToken>) -> Seq<TokenView> {
    ts.map_values(|t: AttrToken| t@)
}

/// What a message-handler attribute declares: its pattern and its kind (`None` for
/// `#[message]`, which is a keyword handler).
#[derive(Debug)]
pub struct MessageHandlerData {
    pub pattern_value: String,
    pub kind: Option<String>,
}

pub open spec fn is_str(ts: Seq<TokenView>, i: int) -> bool {
    0 <= i < ts.len() && ts[i] is Str
}

pub open spec fn is_eq(ts: Seq<TokenView>, i: int) -> bool {
    0 <= i < ts.len() && ts[i] is Eq
}

pub open spec fn is_comma(ts: Seq<TokenView>, i: int) -> bool {
    0 <= i < ts.len() && ts[i] is Comma
}

/// Where the next `key = "value"` pair starts: after an optional comma.
pub open spec fn after_pair(ts: Seq<TokenView>, i: int) -> int {
    if is_comma(ts, i + 3) {
        i + 4
    } else {
        i + 3
    }
}

/// The `kind = "..."` pairs after `#[command("pattern", ...`: the last kind given.
pub open spec fn command_kinds(ts: Seq<TokenView>, i: int, kind: Seq<char>) -> Result<Seq<char>, Seq<char>>
    decreases ts.len() - i,
{
    if i < 0 || i >= ts.len() {
        Ok(kind)
    } else {
        match ts[i] {
            TokenView::Ident(k) => if !is_eq(ts, i + 1) {
                Err("expected `=`"@)
            } else if !is_str(ts, i + 2) {
                Err("expected string literal"@)
            } else if k == "kind"@ {
                command_kinds(ts, after_pair(ts, i), ts[i + 2]->Str_0)
            } else {
                Err("unknown command key"@)
            },
            _ => Err("expected identifier"@),
        }
    }
}

/// The pairs of `#[command(pattern = "...", kind = "...")]`, or `fallback` as the last word.
pub open spec fn command_keys(ts: Seq<TokenView>, i: int, pattern: Seq<char>, kind: Seq<char>) -> Result<
    (Seq<char>, Seq<char>),
    Seq<char>,
>
    decreases ts.len() - i,
{
    if i < 0 || i >= ts.len() {
        Ok((pattern, kind))
    } else {
        match ts[i] {
            TokenView::Ident(k) => if k == "fallback"@ {
                if i + 1 == ts.len() {
                    Ok((Seq::empty(), "fallback"@))
                } else {
                    Err("unexpected token"@)
                }
            } else if !is_eq(ts, i + 1) {
                Err("expected `=`"@)
            } else if !is_str(ts, i + 2) {
                Err("expected string literal"@)
            } else if k == "pattern"@ {
                command_keys(ts, after_pair(ts, i), ts[i + 2]->Str_0, kind)
            } else if k == "kind"@ {
                command_keys(ts, after_pair(ts, i), pattern, ts[i + 2]->Str_0)
            } else {
                Err("unknown command key"@)
            },
            _ => Err("expected identifier"@),
        }
    }
}

/// The arguments of `#[command(..)]`: `"pattern"` with optional `kind = "..."` pairs after a
/// comma, or `pattern = "..."`/`kind = "..."` pairs, or `fallback`; the kind is `exact` unless
/// given.
pub open spec fn command_spec(ts: Seq<TokenView>) -> Result<(Seq<char>, Seq<char>), Seq<char>> {
    if ts.len() > 0 && ts[0] is Str {
        let pattern = ts[0]->Str_0;
        if ts.len() == 1 {
            Ok((pattern, "exact"@))
        } else if ts[1] is Comma {
            match command_kinds(ts, 2, "exact"@) {
                Ok(kind) => Ok((pattern, kind)),
                Err(e) => Err(e),
            }
        } else {
            Err("unexpected token"@)
        }
    } else if !(ts.len() > 0 && ts[0] is Ident) {
        Err("expected pattern string or `fallback`"@)
    } else {
        command_keys(ts, 0, Seq::empty(), "exact"@)
    }
}

fn tok_is_eq(ts: &[AttrToken], i: usize) -> (r: bool)
    ensures
        r == is_eq(tokens_view(ts@), i as int),
{
    i < ts.len() && match &ts[i] {
        AttrToken::Eq => true,
        _ => false,
    }
}

fn tok_is_comma(ts: &[AttrToken], i: usize) -> (r: bool)
    ensures
        r == is_comma(tokens_view(ts@), i as int),
{
    i < ts.len() && match &ts[i] {
        AttrToken::Comma => true,
        _ => false,
    }
}

fn tok_str(ts: &[AttrToken], i: usize) -> (r: Option<&String>)
    ensures
        match r {
            Some(s) => is_str(tokens_view(ts@), i as int) && tokens_view(ts@)[i as int]->Str_0 == s@,
            None => !is_str(tokens_view(ts@), i as int),
        },
{
    if i < ts.len() {
        match &ts[i] {
            AttrToken::Str(s) => Some(s),
            _ => None,
        }
    } else {
        None
    }
}

fn next_pair(ts: &[AttrToken], i: usize) -> (r: usize)
    requires
        i + 3 <= ts.len(),
    ensures
        r == after_pair(tokens_view(ts@), i as int),
        r <= ts.len(),
{
    if tok_is_comma(ts, i + 3) {
        i + 4
    } else {
        i + 3
    }
}

fn err(msg: &str) -> (r: Result<(String, String), String>)
    ensures
        r matches Err(e) && e@ == msg@,
{
    Err(owned(msg))
}

fn parse_command_kinds(ts: &[AttrToken], i: usize, kind: String) -> (r: Result<String, String>)
    requires
        i <= ts.len(),
    ensures
        match r {
            Ok(k) => command_kinds(tokens_view(ts@), i as int, kind@) == Ok::<Seq<char>, Seq<char>>(k@),
            Err(e) => command_kinds(tokens_view(ts@), i as int, kind@) == Err::<Seq<char>, Seq<char>>(e@),
        },
    decreases ts.len() - i,
{
    if i >= ts.len() {
        return Ok(kind);
    }
    match &ts[i] {
        AttrToken::Ident(k) => {
            if !tok_is_eq(ts, i + 1) {
                return Err(owned("expected `=`"));
            }
            match tok_str(ts, i + 2) {
                None => Err(owned("expected string literal")),
                Some(v) => {
                    if str_eq(k.as_str(), "kind") {
                        let j = next_pair(ts, i);
                        parse_command_kinds(ts, j, v.clone())
                    } else {
                        Err(owned("unknown command key"))
                    }
                },
            }
        },
        _ => Err(owned("expected identifier")),
    }
}

fn parse_command_keys(ts: &[AttrToken], i: usize, pattern: String, kind: String) -> (r: Result<(String, String), String>)
    requires
        i <= ts.len(),
    ensures
        match r {
            Ok((p, k)) => command_keys(tokens_view(ts@), i as int, pattern@, kind@) == Ok::<(Seq<char>, Seq<char>), Seq<char>>((p@, k@)),
            Err(e) => command_keys(tokens_view(ts@), i as int, pattern@, kind@) == Err::<(Seq<char>, Seq<char>), Seq<char>>(e@),
        },
    decreases ts.len() - i,
{
    if i >= ts.len() {
        return Ok((pattern, kind));
    }
    match &ts[i] {
        AttrToken::Ident(k) => {
            if str_eq(k.as_str(), "fallback") {
                if i + 1 == ts.len() {
                    return Ok((String::new(), owned("fallback")));
                } else {
                    return err("unexpected token");
                }
            }
            if !tok_is_eq(ts, i + 1) {
                return err("expected `=`");
            }
            match tok_str(ts, i + 2) {
                None => err("expected string literal"),
                Some(v) => {
                    let j = next_pair(ts, i);
                    if str_eq(k.as_str(), "pattern") {
                        parse_command_keys(ts, j, v.clone(), kind)
                    } else if str_eq(k.as_str(), "kind") {
                        parse_command_keys(ts, j, pattern, v.clone())
                    } else {
                        err("unknown command key")
                    }
                },
            }
        },
        _ => err("expected identifier"),
    }
}

/// Reads the arguments of `#[command(..)]`.
pub fn parse_command_attr(ts: &[AttrToken]) -> (r: Result<MessageHandlerData, String>)
    ensures
        match r {
            Ok(d) => d.kind matches Some(k) && command_spec(tokens_view(ts@)) == Ok::<(Seq<char>, Seq<char>), Seq<char>>((d.pattern_value@, k@)),
            Err(e) => command_spec(tokens_view(ts@)) == Err::<(Seq<char>, Seq<char>), Seq<char>>(e@),
        },
{
    let first_str = tok_str(ts, 0);
    if let Some(p) = first_str {
        if ts.len() == 1 {
            return Ok(MessageHandlerData { pattern_value: p.clone(), kind: Some(owned("exact")) });
        }
        if !tok_is_comma(ts, 1) {
            return Err(owned("unexpected token"));
        }
        return match parse_command_kinds(ts, 2, owned("exact")) {
            Ok(kind) => Ok(MessageHandlerData { pattern_value: p.clone(), kind: Some(kind) }),
            Err(e) => Err(e),
        };
    }
    let first_ident = ts.len() > 0 && match &ts[0] {
        AttrToken::Ident(_) => true,
        _ => false,
    };
    if !first_ident {
        return Err(owned("expected pattern string or `fallback`"));
    }
    match parse_command_keys(ts, 0, String::new(), owned("exact")) {
        Ok((p, k)) => Ok(MessageHandlerData { pattern_value: p, kind: Some(k) }),
        Err(e) => Err(e),
    }
}

/// The `keyword = "..."` pairs of `#[message(..)]`: the last keyword given.
pub open spec fn message_keys(ts: Seq<TokenView>, i: int, keyword: Seq<char>) -> Result<Seq<char>, Seq<char>>
    decreases ts.len() - i,
{
    if i < 0 || i >= ts.len() {
        Ok(keyword)
    } else {
        match ts[i] {
            TokenView::Ident(k) => if !is_eq(ts, i + 1) {
                Err("expected `=`"@)
            } else if !is_str(ts, i + 2) {
                Err("expected string literal"@)
            } else if k == "keyword"@ {
                message_keys(ts, after_pair(ts, i), ts[i + 2]->Str_0)
            } else {
                Err("unknown message key"@)
            },
            _ => Err("expected identifier"@),
        }
    }
}

/// The arguments of `#[message(..)]`, as (pattern, kind): a bare `"pattern"` is an exact
/// handler of that text; `keyword = "..."` pairs declare a keyword handler (kind `None`), and a
/// non-empty keyword is required.
pub open spec fn message_spec(ts: Seq<TokenView>) -> Result<(Seq<char>, Option<Seq<char>>), Seq<char>> {
    if ts.len() == 1 && ts[0] is Str {
        Ok((ts[0]->Str_0, Some("exact"@)))
    } else {
        match message_keys(ts, 0, Seq::empty()) {
            Ok(k) => if k.len() == 0 {
                Err("#[message(...)] requires `keyword`"@)
            } else {
                Ok((k, None))
            },
            Err(e) => Err(e),
        }
    }
}

fn parse_message_keys(ts: &[AttrToken], i: usize, keyword: String) -> (r: Result<String, String>)
    requires
        i <= ts.len(),
    ensures
        match r {
            Ok(k) => message_keys(tokens_view(ts@), i as int, keyword@) == Ok::<Seq<char>, Seq<char>>(k@),
            Err(e) => message_keys(tokens_view(ts@), i as int, keyword@) == Err::<Seq<char>, Seq<char>>(e@),
        },
    decreases ts.len() - i,
{
    if i >= ts.len() {
        return Ok(keyword);
    }
    match &ts[i] {
        AttrToken::Ident(k) => {
            if !tok_is_eq(ts, i + 1) {
                return Err(owned("expected `=`"));
            }
            match tok_str(ts, i + 2) {
                None => Err(owned("expected string literal")),
                Some(v) => {
                    if str_eq(k.as_str(), "keyword") {
                        let j = next_pair(ts, i);
                        parse_message_keys(ts, j, v.clone())
                    } else {
                        Err(owned("unknown message key"))
                    }
                },
            }
        },
        _ => Err(owned("expected identifier")),
    }
}

/// Reads the arguments of `#[message(..)]`.
pub fn parse_message_attr(ts: &[AttrToken]) -> (r: Result<MessageHandlerData, String>)
    ensures
        match r {
            Ok(d) => message_spec(tokens_view(ts@)) == Ok::<(Seq<char>, Option<Seq<char>>), Seq<char>>(
                (d.pattern_value@, opt_view(d.kind)),
            ),
            Err(e) => message_spec(tokens_view(ts@)) == Err::<(Seq<char>, Option<Seq<char>>), Seq<char>>(e@),
        },
{
    if ts.len() == 1 {
        if let Some(p) = tok_str(ts, 0) {
            proof {
                reveal_strlit("exact");
            }
            return Ok(MessageHandlerData { pattern_value: p.clone(), kind: Some(owned("exact")) });
        }
    }
    match parse_message_keys(ts, 0, String::new()) {
        Ok(k) => {
            if k.as_str().unicode_len() == 0 {
                Err(owned("#[message(...)] requires `keyword`"))
            } else {
                Ok(MessageHandlerData { pattern_value: k, kind: None })
            }
        },
        Err(e) => Err(e),
    }
}

/// The argument of `#[event("type")]`: exactly one string literal.
pub open spec fn event_spec(ts: Seq<TokenView>) -> Option<Seq<char>> {
    if ts.len() == 1 && ts[0] is Str {
        Some(ts[0]->Str_0)
    } else {
        None
    }
}

/// Reads the argument of `#[event(..)]`.
pub fn parse_event_attr(ts: &[AttrToken]) -> (r: Option<String>)
    ensures
        match r {
            Some(t) => event_spec(tokens_view(ts@)) == Some(t@),
            None => event_spec(tokens_view(ts@)) is None,
        },
{
    if ts.len() == 1 {
        match tok_str(ts, 0) {
            Some(s) => Some(s.clone()),
            None => None,
        }
    } else {
        None
    }
}

/// The metadata that `#[plugin(..)]` declares, with an optional `init` expression's text.
#[derive(Debug)]
pub struct PluginMeta {
    pub id: String,
    pub name: String,
    pub version: String,
    pub description: String,
    pub author: String,
    pub init: Option<String>,
}

/// The fields of a plugin declaration, by value: id, name, version, description, author, init.
pub type MetaView = (Seq<char>, Seq<char>, Seq<char>, Seq<char>, Seq<char>, Option<Seq<char>>);

pub open spec fn set_meta(m: MetaView, k: Seq<char>, v: Seq<char>) -> Option<MetaView> {
    if k == "id"@ {
        Some((v, m.1, m.2, m.3, m.4, m.5))
    } else if k == "name"@ {
        Some((m.0, v, m.2, m.3, m.4, m.5))
    } else if k == "version"@ {
        Some((m.0, m.1, v, m.3, m.4, m.5))
    } else if k == "description"@ {
        Some((m.0, m.1, m.2, v, m.4, m.5))
    } else if k == "author"@ {
        Some((m.0, m.1, m.2, m.3, v, m.5))
    } else if k == "init"@ {
        Some((m.0, m.1, m.2, m.3, m.4, Some(v)))
    } else {
        None
    }
}

/// The `key = "value"` pairs of `#[plugin(..)]`, comma-separated.
pub open spec fn meta_pairs(ts: Seq<TokenView>, i: int, m: MetaView) -> Result<MetaView, Seq<char>>
    decreases ts.len() - i,
{
    if i < 0 || i >= ts.len() {
        Ok(m)
    } else {
        match ts[i] {
            TokenView::Ident(k) => if !is_eq(ts, i + 1) {
                Err("expected `=`"@)
            } else if !is_str(ts, i + 2) {
                Err("expected string literal"@)
            } else {
                match set_meta(m, k, ts[i + 2]->Str_0) {
                    None => Err("unknown plugin metadata key: "@ + k),
                    Some(m2) => if i + 3 >= ts.len() {
                        Ok(m2)
                    } else if ts[i + 3] is Comma {
                        meta_pairs(ts, i + 4, m2)
                    } else {
                        Err("expected `,`"@)
                    },
                }
            },
            _ => Err("expected identifier"@),
        }
    }
}

/// The arguments of `#[plugin(..)]`: an id and a name are required.
pub open spec fn plugin_meta_spec(ts: Seq<TokenView>) -> Result<MetaView, Seq<char>> {
    match meta_pairs(ts, 0, (Seq::empty(), Seq::empty(), Seq::empty(), Seq::empty(), Seq::empty(), None)) {
        Ok(m) => if m.0.len() == 0 {
            Err("plugin id is required"@)
        } else if m.1.len() == 0 {
            Err("plugin name is required"@)
        } else {
            Ok(m)
        },
        Err(e) => Err(e),
    }
}

pub open spec fn meta_view(m: PluginMeta) -> MetaView {
    (m.id@, m.name@, m.version@, m.description@, m.author@, match m.init {
        Some(s) => Some(s@),
        None => None,
    })
}

fn parse_meta_pairs(ts: &[AttrToken], i: usize, m: PluginMeta) -> (r: Result<PluginMeta, String>)
    requires
        i <= ts.len(),
    ensures
        match r {
            Ok(m2) => meta_pairs(tokens_view(ts@), i as int, meta_view(m)) == Ok::<MetaView, Seq<char>>(meta_view(m2)),
            Err(e) => meta_pairs(tokens_view(ts@), i as int, meta_view(m)) == Err::<MetaView, Seq<char>>(e@),
        },
    decreases ts.len() - i,
{
    if i >= ts.len() {
        return Ok(m);
    }
    match &ts[i] {
        AttrToken::Ident(k) => {
            if !tok_is_eq(ts, i + 1) {
                return Err(owned("expected `=`"));
            }
            let v = match tok_str(ts, i + 2) {
                None => {
                    return Err(owned("expected string literal"));
                },
                Some(v) => v.clone(),
            };
            let mut m2 = m;
            if str_eq(k.as_str(), "id") {
                m2.id = v;
            } else if str_eq(k.as_str(), "name") {
                m2.name = v;
            } else if str_eq(k.as_str(), "version") {
                m2.version = v;
            } else if str_eq(k.as_str(), "description") {
                m2.description = v;
            } else if str_eq(k.as_str(), "author") {
                m2.author = v;
            } else if str_eq(k.as_str(), "init") {
                m2.init = Some(v);
            } else {
                let mut e = owned("unknown plugin metadata key: ");
                push_str(&mut e, k.as_str());
                return Err(e);
            }
            if i + 3 >= ts.len() {
                Ok(m2)
            } else if tok_is_comma(ts, i + 3) {
                parse_meta_pairs(ts, i + 4, m2)
            } else {
                Err(owned("expected `,`"))
            }
        },
        _ => Err(owned("expected identifier")),
    }
}

impl PluginMeta {
    /// Reads the arguments of `#[plugin(..)]` (see `lemma_plugin_meta_pairs` for what a list of
    /// `key = "value"` pairs gives).
    pub fn parse(ts: &[AttrToken]) -> (r: Result<PluginMeta, String>)
        ensures
            match r {
                Ok(m) => plugin_meta_spec(tokens_view(ts@)) == Ok::<MetaView, Seq<char>>(meta_view(m)),
                Err(e) => plugin_meta_spec(tokens_view(ts@)) == Err::<MetaView, Seq<char>>(e@),
            },
    {
        let empty = PluginMeta {
            id: String::new(),
            name: String::new(),
            version: String::new(),
            description: String::new(),
            author: String::new(),
            init: None,
        };
        assert(meta_view(empty) == (Seq::<char>::empty(), Seq::<char>::empty(), Seq::<char>::empty(), Seq::<char>::empty(), Seq::<char>::empty(), None::<Seq<char>>));
        match parse_meta_pairs(ts, 0, empty) {
            Ok(m) => {
                if m.id.as_str().unicode_len() == 0 {
                    Err(owned("plugin id is required"))
                } else if m.name.as_str().unicode_len() == 0 {
                    Err(owned("plugin name is required"))
                } else {
                    Ok(m)
                }
            },
            Err(e) => Err(e),
        }
    }
}

/// The tokens of `k1 = "v1", k2 = "v2", ..`.
pub open spec fn pair_tokens(ks: Seq<Seq<char>>, vs: Seq<Seq<char>>) -> Seq<TokenView>
    decreases ks.len(),
{
    if ks.len() == 0 || vs.len() == 0 {
        Seq::empty()
    } else if ks.len() == 1 || vs.len() == 1 {
        seq![TokenView::Ident(ks[0]), TokenView::Eq, TokenView::Str(vs[0])]
    } else {
        seq![TokenView::Ident(ks[0]), TokenView::Eq, TokenView::Str(vs[0]), TokenView::Comma]
            + pair_tokens(ks.drop_first(), vs.drop_first())
    }
}

/// The keys that `#[plugin(..)]` knows.
pub open spec fn known_meta_key(k: Seq<char>) -> bool {
    k == "id"@ || k == "name"@ || k == "version"@ || k == "description"@ || k == "author"@ || k
        == "init"@
}

/// The value of the last pair whose key is `key`, if there is one.
pub open spec fn last_of(ks: Seq<Seq<char>>, vs: Seq<Seq<char>>, key: Seq<char>) -> Option<Seq<char>>
    decreases ks.len(),
{
    if ks.len() == 0 || vs.len() == 0 {
        None
    } else if ks.last() == key {
        Some(vs.last())
    } else {
        last_of(ks.drop_last(), vs.drop_last(), key)
    }
}

pub open spec fn or_text(o: Option<Seq<char>>, d: Seq<char>) -> Seq<char> {
    match o {
        Some(v) => v,
        None => d,
    }
}

/// The pairs applied one after another, from the first.
spec fn fold_meta(ks: Seq<Seq<char>>, vs: Seq<Seq<char>>, m: MetaView) -> Result<MetaView, Seq<char>>
    decreases ks.len(),
{
    if ks.len() == 0 || vs.len() == 0 {
        Ok(m)
    } else {
        match set_meta(m, ks[0], vs[0]) {
            None => Err("unknown plugin metadata key: "@ + ks[0]),
            Some(m2) => fold_meta(ks.drop_first(), vs.drop_first(), m2),
        }
    }
}

/// Each field set by its last pair, else left as in `m`.
spec fn meta_after(ks: Seq<Seq<char>>, vs: Seq<Seq<char>>, m: MetaView) -> MetaView {
    (
        or_text(last_of(ks, vs, "id"@), m.0),
        or_text(last_of(ks, vs, "name"@), m.1),
        or_text(last_of(ks, vs, "version"@), m.2),
        or_text(last_of(ks, vs, "description"@), m.3),
        or_text(last_of(ks, vs, "author"@), m.4),
        match last_of(ks, vs, "init"@) {
            Some(v) => Some(v),
            None => m.5,
        },
    )
}

proof fn lemma_meta_pairs_shift(a: Seq<TokenView>, b: Seq<TokenView>, j: int, m: MetaView)
    requires
        0 <= j,
    ensures
        meta_pairs(a + b, a.len() + j, m) == meta_pairs(b, j, m),
    decreases b.len() - j,
{
    let t = a + b;
    let i = a.len() + j;
    if j < b.len() {
        assert(t[i] == b[j]);
        if j + 1 < b.len() {
            assert(t[i + 1] == b[j + 1]);
        }
        if j + 2 < b.len() {
            assert(t[i + 2] == b[j + 2]);
        }
        if j + 3 < b.len() {
            assert(t[i + 3] == b[j + 3]);
        }
        match b[j] {
            TokenView::Ident(k) => {
                if is_str(b, j + 2) {
                    match set_meta(m, k, b[j + 2]->Str_0) {
                        Some(m2) => {
                            if j + 3 < b.len() {
                                lemma_meta_pairs_shift(a, b, j + 4, m2);
                            }
                        },
                        None => {},
                    }
                }
            },
            _ => {},
        }
    }
}

proof fn lemma_pair_tokens_fold(ks: Seq<Seq<char>>, vs: Seq<Seq<char>>, m: MetaView)
    requires
        ks.len() == vs.len(),
    ensures
        meta_pairs(pair_tokens(ks, vs), 0, m) == fold_meta(ks, vs, m),
    decreases ks.len(),
{
    let ts = pair_tokens(ks, vs);
    if ks.len() >= 1 {
        let head = seq![TokenView::Ident(ks[0]), TokenView::Eq, TokenView::Str(vs[0]), TokenView::Comma];
        let rest = pair_tokens(ks.drop_first(), vs.drop_first());
        if ks.len() == 1 {
            assert(ts.len() == 3);
        } else {
            assert(ts == head + rest);
            assert(rest.len() >= 3) by {
                reveal_with_fuel(pair_tokens, 2);
            }
        }
        assert(ts[0] == TokenView::Ident(ks[0]));
        assert(is_eq(ts, 1));
        assert(is_str(ts, 2));
        assert(ts[2]->Str_0 == vs[0]);
        match set_meta(m, ks[0], vs[0]) {
            Some(m2) => {
                lemma_pair_tokens_fold(ks.drop_first(), vs.drop_first(), m2);
                if ks.len() == 1 {
                    assert(meta_pairs(ts, 0, m) == Ok::<MetaView, Seq<char>>(m2));
                    assert(fold_meta(ks.drop_first(), vs.drop_first(), m2) == Ok::<MetaView, Seq<char>>(m2));
                } else {
                    assert(ts[3] is Comma);
                    assert(meta_pairs(ts, 0, m) == meta_pairs(ts, 4, m2));
                    lemma_meta_pairs_shift(head, rest, 0, m2);
                    assert(head.len() == 4);
                }
            },
            None => {},
        }
    }
}

proof fn lemma_last_of_front(ks: Seq<Seq<char>>, vs: Seq<Seq<char>>, key: Seq<char>)
    requires
        ks.len() == vs.len(),
        ks.len() >= 1,
    ensures
        last_of(ks, vs, key) == match last_of(ks.drop_first(), vs.drop_first(), key) {
            Some(v) => Some(v),
            None => if ks[0] == key {
                Some(vs[0])
            } else {
                None
            },
        },
    decreases ks.len(),
{
    let tk = ks.drop_first();
    let tv = vs.drop_first();
    if ks.len() == 1 {
        assert(tk.len() == 0);
        assert(last_of(tk, tv, key) == None::<Seq<char>>);
        assert(ks.drop_last().len() == 0);
        assert(last_of(ks.drop_last(), vs.drop_last(), key) == None::<Seq<char>>);
    } else {
        let ik = ks.drop_last();
        let iv = vs.drop_last();
        assert(tk.last() == ks.last());
        assert(tv.last() == vs.last());
        if ks.last() == key {
            assert(last_of(ks, vs, key) == Some(vs.last()));
            assert(last_of(tk, tv, key) == Some(vs.last()));
        } else {
            lemma_last_of_front(ik, iv, key);
            assert(ik.drop_first() =~= tk.drop_last());
            assert(iv.drop_first() =~= tv.drop_last());
            assert(ik[0] == ks[0]);
            assert(iv[0] == vs[0]);
            assert(last_of(ks, vs, key) == last_of(ik, iv, key));
            assert(last_of(tk, tv, key) == last_of(tk.drop_last(), tv.drop_last(), key));
        }
    }
}

proof fn lemma_fold_known(ks: Seq<Seq<char>>, vs: Seq<Seq<char>>, m: MetaView)
    requires
        ks.len() == vs.len(),
        forall|i: int| 0 <= i < ks.len() ==> known_meta_key(#[trigger] ks[i]),
    ensures
        fold_meta(ks, vs, m) == Ok::<MetaView, Seq<char>>(meta_after(ks, vs, m)),
    decreases ks.len(),
{
    if ks.len() > 0 {
        assert(known_meta_key(ks[0]));
        let m2 = set_meta(m, ks[0], vs[0])->Some_0;
        let tk = ks.drop_first();
        let tv = vs.drop_first();
        assert forall|i: int| 0 <= i < tk.len() implies known_meta_key(#[trigger] tk[i]) by {
            assert(tk[i] == ks[i + 1]);
        }
        lemma_fold_known(tk, tv, m2);
        lemma_last_of_front(ks, vs, "id"@);
        lemma_last_of_front(ks, vs, "name"@);
        lemma_last_of_front(ks, vs, "version"@);
        lemma_last_of_front(ks, vs, "description"@);
        lemma_last_of_front(ks, vs, "author"@);
        lemma_last_of_front(ks, vs, "init"@);
        reveal_strlit("id");
        reveal_strlit("name");
        reveal_strlit("version");
        reveal_strlit("description");
        reveal_strlit("author");
        reveal_strlit("init");
        assert("name"@ != "init"@) by {
            assert("name"@[0] != "init"@[0]);
        }
        assert("description"@.len() != "id"@.len());
        assert("description"@.len() != "name"@.len());
        assert("description"@.len() != "version"@.len());
        assert("description"@.len() != "author"@.len());
        assert("description"@.len() != "init"@.len());
        assert(meta_after(tk, tv, m2) == meta_after(ks, vs, m));
    } else {
        assert(meta_after(ks, vs, m) == m);
    }
}

proof fn lemma_fold_unknown(ks: Seq<Seq<char>>, vs: Seq<Seq<char>>, m: MetaView, j: int)
    requires
        ks.len() == vs.len(),
        0 <= j < ks.len(),
        !known_meta_key(ks[j]),
        forall|i: int| 0 <= i < j ==> known_meta_key(#[trigger] ks[i]),
    ensures
        fold_meta(ks, vs, m) == Err::<MetaView, Seq<char>>("unknown plugin metadata key: "@ + ks[j]),
    decreases j,
{
    if j > 0 {
        assert(known_meta_key(ks[0]));
        let m2 = set_meta(m, ks[0], vs[0])->Some_0;
        let tk = ks.drop_first();
        assert(tk[j - 1] == ks[j]);
        assert forall|i: int| 0 <= i < j - 1 implies known_meta_key(#[trigger] tk[i]) by {
            assert(tk[i] == ks[i + 1]);
        }
        lemma_fold_unknown(tk, vs.drop_first(), m2, j - 1);
    }
}

/// `#[plugin(k1 = "v1", k2 = "v2", ..)]`: where every key is one of `id`, `name`, `version`,
/// `description`, `author` and `init`, each field takes the value of its last pair (absent
/// text fields are empty, an absent `init` is none), and the declaration is refused only for
/// an empty id or, after that, an empty name; where a key is unknown, the first such key is
/// named in the error.
pub proof fn lemma_plugin_meta_pairs(ks: Seq<Seq<char>>, vs: Seq<Seq<char>>)
    requires
        ks.len() == vs.len(),
    ensures
        (forall|i: int| 0 <= i < ks.len() ==> known_meta_key(#[trigger] ks[i])) ==> plugin_meta_spec(
            pair_tokens(ks, vs),
        ) == {
            let id = or_text(last_of(ks, vs, "id"@), Seq::empty());
            let name = or_text(last_of(ks, vs, "name"@), Seq::empty());
            if id.len() == 0 {
                Err::<MetaView, Seq<char>>("plugin id is required"@)
            } else if name.len() == 0 {
                Err("plugin name is required"@)
            } else {
                Ok(
                    (
                        id,
                        name,
                        or_text(last_of(ks, vs, "version"@), Seq::empty()),
                        or_text(last_of(ks, vs, "description"@), Seq::empty()),
                        or_text(last_of(ks, vs, "author"@), Seq::empty()),
                        last_of(ks, vs, "init"@),
                    ),
                )
            }
        },
        forall|j: int|
            #![trigger ks[j]]
            0 <= j < ks.len() && !known_meta_key(ks[j]) && (forall|i: int|
                0 <= i < j ==> known_meta_key(#[trigger] ks[i])) ==> plugin_meta_spec(
                pair_tokens(ks, vs),
            ) == Err::<MetaView, Seq<char>>("unknown plugin metadata key: "@ + ks[j]),
{
    let empty: MetaView = (Seq::empty(), Seq::empty(), Seq::empty(), Seq::empty(), Seq::empty(), None);
    lemma_pair_tokens_fold(ks, vs, empty);
    if forall|i: int| 0 <= i < ks.len() ==> known_meta_key(#[trigger] ks[i]) {
        lemma_fold_known(ks, vs, empty);
    }
    assert forall|j: int|
        #![trigger ks[j]]
        0 <= j < ks.len() && !known_meta_key(ks[j]) && (forall|i: int|
            0 <= i < j ==> known_meta_key(#[trigger] ks[i])) implies plugin_meta_spec(
        pair_tokens(ks, vs),
    ) == Err::<MetaView, Seq<char>>("unknown plugin metadata key: "@ + ks[j]) by {
        lemma_fold_unknown(ks, vs, empty, j);
    }
}

/// The arguments of `#[plugin(..)]` on a plugin's impl block, for the struct `ident` (`raw` is
/// the arguments' text). With no arguments the plugin is named by the struct: its id is the
/// struct's name in snake case and its name is the struct's name. `key = "value"` pairs set the
/// metadata as on a plugin struct, the id and name falling back to the struct's. Any other
/// arguments are an expression that makes the plugin's initial state.
pub open spec fn plugin_impl_spec(ts: Seq<TokenView>, raw: Seq<char>, ident: Seq<char>) -> Result<MetaView, Seq<char>> {
    let derived_id = snake_spec(ident);
    if ts.len() == 0 {
        Ok((derived_id, ident, Seq::empty(), Seq::empty(), Seq::empty(), None))
    } else if ts[0] is Ident && is_eq(ts, 1) {
        match meta_pairs(ts, 0, (Seq::empty(), Seq::empty(), Seq::empty(), Seq::empty(), Seq::empty(), None)) {
            Ok(m) => Ok(
                (
                    if m.0.len() == 0 {
                        derived_id
                    } else {
                        m.0
                    },
                    if m.1.len() == 0 {
                        ident
                    } else {
                        m.1
                    },
                    m.2,
                    m.3,
                    m.4,
                    m.5,
                ),
            ),
            Err(e) => Err(e),
        }
    } else {
        Ok((derived_id, ident, Seq::empty(), Seq::empty(), Seq::empty(), Some(raw)))
    }
}

/// Reads the arguments of `#[plugin(..)]` on the impl block of the struct `struct_ident`.
pub fn parse_plugin_impl_attr(ts: &[AttrToken], raw: &str, struct_ident: &str) -> (r: Result<PluginMeta, String>)
    ensures
        match r {
            Ok(m) => plugin_impl_spec(tokens_view(ts@), raw@, struct_ident@) == Ok::<MetaView, Seq<char>>(meta_view(m)),
            Err(e) => plugin_impl_spec(tokens_view(ts@), raw@, struct_ident@) == Err::<MetaView, Seq<char>>(e@),
        },
{
    let empty = PluginMeta {
        id: String::new(),
        name: String::new(),
        version: String::new(),
        description: String::new(),
        author: String::new(),
        init: None,
    };
    let ghost empty_view: MetaView = (Seq::empty(), Seq::empty(), Seq::empty(), Seq::empty(), Seq::empty(), None);
    assert(meta_view(empty) == empty_view);
    let first_ident = ts.len() > 0 && match &ts[0] {
        AttrToken::Ident(_) => true,
        _ => false,
    };
    if ts.len() > 0 && !(first_ident && tok_is_eq(ts, 1)) {
        let mut m = empty;
        m.id = to_snake_case(struct_ident);
        m.name = owned(struct_ident);
        m.init = Some(owned(raw));
        return Ok(m);
    }
    if ts.len() == 0 {
        let mut m = empty;
        m.id = to_snake_case(struct_ident);
        m.name = owned(struct_ident);
        return Ok(m);
    }
    match parse_meta_pairs(ts, 0, empty) {
        Ok(m) => {
            let mut m = m;
            if m.id.as_str().unicode_len() == 0 {
                m.id = to_snake_case(struct_ident);
            }
            if m.name.as_str().unicode_len() == 0 {
                m.name = owned(struct_ident);
            }
            Ok(m)
        },
        Err(e) => Err(e),
    }
}

impl PluginMeta {
    /// The text of the expression that makes the plugin's initial state: the declared `init`
    /// expression, else the struct's `default()`.
    pub fn init_expr(&self, struct_ident: &str) -> (r: String)
        ensures
            r@ == match self.init {
                Some(e) => e@,
                None => struct_ident@ + "::default()"@,
            },
    {
        match &self.init {
            Some(e) => e.clone(),
            None => {
                let mut r = owned(struct_ident);
                push_str(&mut r, "::default()");
                r
            },
        }
    }

    /// The plugin metadata that the declaration stands for.
    pub fn metadata(&self) -> (r: PluginMetadata)
        ensures
            r.id@ == self.id@,
            r.name@ == self.name@,
            r.description@ == self.description@,
            r.version@ == self.version@,
            r.author@ == self.author@,
    {
        PluginMetadata {
            id: self.id.clone(),
            name: self.name.clone(),
            description: self.description.clone(),
            version: self.version.clone(),
            author: self.author.clone(),
        }
    }
}

/// The route kind of a declared message handler: the declared kind (`exact` when none)
/// decides; an `#[message]` handler of any other kind is a keyword handler.
pub open spec fn route_kind_spec(kind: Option<Seq<char>>, is_keyword: bool) -> Seq<char> {
    let k = match kind {
        Some(k) => k,
        None => "exact"@,
    };
    if k == "prefix"@ || k == "regex"@ || k == "fallback"@ {
        k
    } else if is_keyword {
        "keyword"@
    } else {
        "exact"@
    }
}

proof fn lemma_route_kinds_distinct()
    ensures
        "prefix"@ != "regex"@,
        "prefix"@ != "fallback"@,
        "prefix"@ != "keyword"@,
        "prefix"@ != "exact"@,
        "regex"@ != "fallback"@,
        "regex"@ != "keyword"@,
        "regex"@ != "exact"@,
        "fallback"@ != "keyword"@,
        "fallback"@ != "exact"@,
        "keyword"@ != "exact"@,
{
    reveal_strlit("prefix");
    reveal_strlit("regex");
    reveal_strlit("fallback");
    reveal_strlit("keyword");
    reveal_strlit("exact");
    assert("prefix"@.len() == 6);
    assert("regex"@.len() == 5);
    assert("fallback"@.len() == 8);
    assert("keyword"@.len() == 7);
    assert("exact"@.len() == 5);
    assert("regex"@[0] != "exact"@[0]);
}

fn one_pattern(p: &String) -> (r: MatchList)
    ensures
        r.0@.len() == 1,
        r.0@[0]@ == p@,
{
    let mut v: Vec<String> = Vec::new();
    v.push(p.clone());
    MatchList(v)
}

/// `h` is the handler declared for the method `id` with route kind `kind` and pattern
/// `pattern`: the route of that kind and the matching rule of that kind over the one pattern
/// (none for a fallback).
pub open spec fn declared_handler(h: HandlerSpec, id: Seq<char>, kind: Seq<char>, pattern: Seq<char>) -> bool {
    &&& h.id@ == id
    &&& h.timeout_ms == 5000
    &&& kind == "prefix"@ ==> h.route@ == RouteView::Prefix(seq![pattern]) && (h.rule matches Some(
        Rule::StartsWith(ps),
    ) && ps@.len() == 1 && ps@[0]@ == pattern)
    &&& kind == "regex"@ ==> h.route@ == RouteView::Regex && (h.rule matches Some(Rule::Regex(p)) && p@ == pattern)
    &&& kind == "fallback"@ ==> h.route@ == RouteView::Fallback && h.rule is None
    &&& kind == "keyword"@ ==> h.route@ == RouteView::Keyword(seq![pattern]) && (h.rule matches Some(
        Rule::Keywords(ps),
    ) && ps@.len() == 1 && ps@[0]@ == pattern)
    &&& kind == "exact"@ ==> h.route@ == RouteView::Exact(seq![pattern]) && (h.rule matches Some(
        Rule::FullMatch(ps),
    ) && ps@.len() == 1 && ps@[0]@ == pattern)
}

pub open spec fn opt_view(o: Option<String>) -> Option<Seq<char>> {
    match o {
        Some(s) => Some(s@),
        None => None,
    }
}

/// The handler that a declaration generates for the method `handler_id`.
pub fn gen_message_handler(handler_id: &str, cmd: &MessageHandlerData, is_keyword: bool) -> (r: HandlerSpec)
    ensures
        declared_handler(r, handler_id@, route_kind_spec(opt_view(cmd.kind), is_keyword), cmd.pattern_value@),
{
    proof {
        lemma_route_kinds_distinct();
    }
    let kind: &str = match &cmd.kind {
        Some(k) => k.as_str(),
        None => "exact",
    };
    let p = &cmd.pattern_value;
    if str_eq(kind, "prefix") {
        let ml = one_pattern(p);
        assert(crate::routing::strings_view(ml.0@) =~= seq![p@]);
        HandlerSpec::prefix(handler_id, ml)
    } else if str_eq(kind, "regex") {
        HandlerSpec::regex(handler_id, p.as_str())
    } else if str_eq(kind, "fallback") {
        HandlerSpec::fallback(handler_id)
    } else if is_keyword {
        let ml = one_pattern(p);
        assert(crate::routing::strings_view(ml.0@) =~= seq![p@]);
        HandlerSpec::keyword(handler_id, ml)
    } else {
        let ml = one_pattern(p);
        assert(crate::routing::strings_view(ml.0@) =~= seq![p@]);
        HandlerSpec::exact(handler_id, ml)
    }
}


/// The kind of a method's attribute, by its path.
#[derive(Clone, Copy, Debug)]
pub enum AttrName {
    Command,
    Message,
    Event,
    Other,
}

/// An attribute of a method in a `#[plugin_handlers]` block.
#[derive(Debug)]
pub struct MethodAttr {
    pub name: AttrName,
    pub args: Vec<AttrToken>,
}

/// An item of a `#[plugin_handlers]` impl block: a method, by its name and attributes, or
/// anything else.
#[derive(Debug)]
pub enum ImplEntry {
    Method { ident: String, attrs: Vec<MethodAttr> },
    Other,
}

pub type AttrView = (AttrName, Seq<TokenView>);

pub enum EntryView {
    Method(Seq<char>, Seq<AttrView>),
    Other,
}

pub open spec fn attr_view(a: MethodAttr) -> AttrView {
    (a.name, tokens_view(a.args@))
}

pub open spec fn attrs_view(v: Seq<MethodAttr>) -> Seq<AttrView> {
    v.map_values(|a: MethodAttr| attr_view(a))
}

pub open spec fn entry_view(e: ImplEntry) -> EntryView {
    match e {
        ImplEntry::Method { ident, attrs } => EntryView::Method(ident@, attrs_view(attrs@)),
        ImplEntry::Other => EntryView::Other,
    }
}

pub open spec fn entries_view(v: Seq<ImplEntry>) -> Seq<EntryView> {
    v.map_values(|e: ImplEntry| entry_view(e))
}

pub open spec fn is_handler_attr(n: AttrName) -> bool {
    !(n is Other)
}

/// How many of the attributes declare a handler.
pub open spec fn handler_attr_count(attrs: Seq<AttrView>) -> nat
    decreases attrs.len(),
{
    if attrs.len() == 0 {
        0
    } else {
        handler_attr_count(attrs.drop_last()) + if is_handler_attr(attrs.last().0) {
            1nat
        } else {
            0nat
        }
    }
}

/// The first attribute that declares a handler.
pub open spec fn first_handler_attr(attrs: Seq<AttrView>) -> Option<int>
    decreases attrs.len(),
{
    if attrs.len() == 0 {
        None
    } else {
        match first_handler_attr(attrs.drop_last()) {
            Some(i) => Some(i),
            None => if is_handler_attr(attrs.last().0) {
                Some(attrs.len() - 1)
            } else {
                None
            },
        }
    }
}

/// What a `#[plugin_handlers]` block declares: the message handlers in order, each as
/// (method, route kind, pattern); the event handler of each event type, as
/// (event type, method), the last declared winning; and the indexes of the items that
/// stay in the block.
pub type Declared = (Seq<(Seq<char>, Seq<char>, Seq<char>)>, Seq<(Seq<char>, Seq<char>)>, Seq<int>);

/// One item's share of the declarations, given those of the items before it (`index` is its
/// position).
pub open spec fn declare_entry(acc: Declared, e: EntryView, index: int) -> Result<Declared, Seq<char>> {
    match e {
        EntryView::Other => Ok((acc.0, acc.1, acc.2.push(index))),
        EntryView::Method(name, attrs) => {
            let n = handler_attr_count(attrs);
            if n == 0 {
                Ok((acc.0, acc.1, acc.2.push(index)))
            } else if n > 1 {
                Ok(acc)
            } else {
                let a = attrs[first_handler_attr(attrs)->Some_0];
                match a.0 {
                    AttrName::Command => match command_spec(a.1) {
                        Ok((p, k)) => Ok(
                            (acc.0.push((name, route_kind_spec(Some(k), false), p)), acc.1, acc.2.push(index)),
                        ),
                        Err(e) => Err("invalid #[command(...)]: "@ + e),
                    },
                    AttrName::Message => match message_spec(a.1) {
                        Ok((p, k)) => Ok(
                            (acc.0.push((name, route_kind_spec(k, k is None), p)), acc.1, acc.2.push(index)),
                        ),
                        Err(e) => Err("invalid #[message(...)]: "@ + e),
                    },
                    _ => match event_spec(a.1) {
                        Some(t) => Ok((acc.0, upsert(acc.1, t, name), acc.2.push(index))),
                        None => Err("invalid #[event(...)]"@),
                    },
                }
            }
        },
    }
}

/// The declarations of the first `n` items; the first item in error decides the error.
pub open spec fn declared_upto(es: Seq<EntryView>, n: int) -> Result<Declared, Seq<char>>
    decreases n,
{
    if n <= 0 {
        Ok((Seq::empty(), Seq::empty(), Seq::empty()))
    } else {
        match declared_upto(es, n - 1) {
            Ok(acc) => declare_entry(acc, es[n - 1], n - 1),
            Err(e) => Err(e),
        }
    }
}

/// The handler attribute of an item: for a method with exactly one, that attribute.
pub open spec fn single_handler_attr(e: EntryView) -> Option<AttrView> {
    match e {
        EntryView::Method(_, attrs) => if handler_attr_count(attrs) == 1 {
            Some(attrs[first_handler_attr(attrs)->Some_0])
        } else {
            None
        },
        EntryView::Other => None,
    }
}

pub open spec fn method_name(e: EntryView) -> Seq<char> {
    match e {
        EntryView::Method(name, _) => name,
        EntryView::Other => Seq::empty(),
    }
}

/// The methods among the first `n` items that declare a command or message handler, in order.
pub open spec fn message_methods(es: Seq<EntryView>, n: int) -> Seq<Seq<char>>
    decreases n,
{
    if n <= 0 {
        Seq::empty()
    } else {
        message_methods(es, n - 1) + match single_handler_attr(es[n - 1]) {
            Some(a) => if a.0 is Command || a.0 is Message {
                seq![method_name(es[n - 1])]
            } else {
                Seq::empty()
            },
            None => Seq::empty(),
        }
    }
}

/// The last method among the first `n` items that declares the event handler of type `t`.
pub open spec fn last_event_method(es: Seq<EntryView>, n: int, t: Seq<char>) -> Option<Seq<char>>
    decreases n,
{
    if n <= 0 {
        None
    } else {
        match single_handler_attr(es[n - 1]) {
            Some(a) => if a.0 is Event && event_spec(a.1) == Some(t) {
                Some(method_name(es[n - 1]))
            } else {
                last_event_method(es, n - 1, t)
            },
            None => last_event_method(es, n - 1, t),
        }
    }
}

/// An item stays in the block unless it is a method with two or more handler attributes.
pub open spec fn item_stays(e: EntryView) -> bool {
    match e {
        EntryView::Method(_, attrs) => handler_attr_count(attrs) <= 1,
        EntryView::Other => true,
    }
}

/// A `#[plugin_handlers]` block that reads without error declares one message handler per
/// method with exactly one `#[command]` or `#[message]` attribute, named by the method, in
/// source order; for each event type, the last method with exactly one `#[event]` attribute of
/// that type; and keeps, in source order, every item but the methods with two or more handler
/// attributes.
pub proof fn lemma_plugin_handlers_declare(es: Seq<EntryView>, n: int)
    requires
        0 <= n <= es.len(),
        declared_upto(es, n) is Ok,
    ensures
        declared_upto(es, n)->Ok_0.0.map_values(|x: (Seq<char>, Seq<char>, Seq<char>)| x.0)
            == message_methods(es, n),
        forall|t: Seq<char>| #[trigger] value_of(declared_upto(es, n)->Ok_0.1, t) == last_event_method(es, n, t),
        keys_unique(declared_upto(es, n)->Ok_0.1),
        forall|i: int| 0 <= i < n ==> (declared_upto(es, n)->Ok_0.2.contains(i) <==> item_stays(#[trigger] es[i])),
        forall|a: int, b: int|
            0 <= a < b < declared_upto(es, n)->Ok_0.2.len() ==> #[trigger] declared_upto(es, n)->Ok_0.2[a]
                < #[trigger] declared_upto(es, n)->Ok_0.2[b],
        forall|a: int|
            0 <= a < declared_upto(es, n)->Ok_0.2.len() ==> 0 <= #[trigger] declared_upto(es, n)->Ok_0.2[a]
                < n,
    decreases n,
{
    let d = declared_upto(es, n)->Ok_0;
    if n == 0 {
        assert(d.0.map_values(|x: (Seq<char>, Seq<char>, Seq<char>)| x.0) =~= Seq::<Seq<char>>::empty());
        assert forall|t: Seq<char>| #[trigger] value_of(d.1, t) == last_event_method(es, n, t) by {
            assert(key_index(d.1, t) is None);
        }
    } else {
        let p = declared_upto(es, n - 1)->Ok_0;
        assert(declared_upto(es, n - 1) is Ok);
        lemma_plugin_handlers_declare(es, n - 1);
        let e = es[n - 1];
        assert(d == declare_entry(p, e, n - 1)->Ok_0);
        if let EntryView::Method(_, attrs) = e {
            lemma_first_handler_bound(attrs);
        }
        let f = |x: (Seq<char>, Seq<char>, Seq<char>)| x.0;
        // the message handlers
        if d.0 == p.0 {
            assert(d.0.map_values(f) == p.0.map_values(f));
            assert(message_methods(es, n) =~= message_methods(es, n - 1));
        } else {
            let x = d.0.last();
            assert(d.0 == p.0.push(x));
            assert(d.0.map_values(f) =~= p.0.map_values(f).push(x.0));
            assert(x.0 == method_name(e));
            assert(message_methods(es, n) =~= message_methods(es, n - 1).push(method_name(e)));
        }
        // the event handlers
        if single_handler_attr(e) matches Some(a) && a.0 is Event {
            let a = single_handler_attr(e)->Some_0;
            let t0 = event_spec(a.1)->Some_0;
            assert(d.1 == upsert(p.1, t0, method_name(e)));
            lemma_upsert(p.1, t0, method_name(e));
            assert forall|t: Seq<char>| #[trigger] value_of(d.1, t) == last_event_method(es, n, t) by {
                assert(value_of(p.1, t) == last_event_method(es, n - 1, t));
            }
        } else {
            assert(d.1 == p.1);
            assert forall|t: Seq<char>| #[trigger] value_of(d.1, t) == last_event_method(es, n, t) by {
                assert(value_of(p.1, t) == last_event_method(es, n - 1, t));
            }
        }
        // the items that stay
        assert forall|i: int| 0 <= i < n implies (d.2.contains(i) <==> item_stays(#[trigger] es[i])) by {
            if d.2 == p.2 {
                if i < n - 1 {
                    assert(p.2.contains(i) <==> item_stays(es[i]));
                } else {
                    if p.2.contains(i) {
                        let k = choose|k: int| 0 <= k < p.2.len() && p.2[k] == i;
                        assert(p.2[k] < n - 1);
                    }
                }
            } else {
                assert(d.2 == p.2.push(n - 1));
                if i < n - 1 {
                    assert(p.2.contains(i) <==> item_stays(es[i]));
                    if d.2.contains(i) {
                        let k = choose|k: int| 0 <= k < d.2.len() && d.2[k] == i;
                        assert(k < p.2.len());
                        assert(p.2[k] == i);
                    }
                    if p.2.contains(i) {
                        let k = choose|k: int| 0 <= k < p.2.len() && p.2[k] == i;
                        assert(d.2[k] == i);
                    }
                } else {
                    assert(d.2[p.2.len() as int] == i);
                }
            }
        }
    }
}

/// The handlers that a `#[plugin_handlers]` block generates.
#[derive(Debug)]
pub struct PluginHandlers {
    pub message_handlers: Vec<HandlerSpec>,
    /// (event type, method) for each event type.
    pub event_handlers: Vec<(String, String)>,
    /// The indexes of the items that stay in the block, their handler attributes removed.
    pub kept: Vec<usize>,
}

/// The handlers are those of the declarations `d`.
pub open spec fn handlers_match(r: PluginHandlers, d: Declared) -> bool {
    &&& r.message_handlers@.len() == d.0.len()
    &&& forall|i: int|
        0 <= i < d.0.len() ==> declared_handler(
            #[trigger] r.message_handlers@[i],
            d.0[i].0,
            d.0[i].1,
            d.0[i].2,
        )
    &&& pairs_view(r.event_handlers@) == d.1
    &&& r.kept@.len() == d.2.len()
    &&& forall|i: int| 0 <= i < d.2.len() ==> #[trigger] r.kept@[i] as int == d.2[i]
}

fn count_handler_attrs(attrs: &Vec<MethodAttr>) -> (r: (usize, Option<usize>))
    ensures
        r.0 == handler_attr_count(attrs_view(attrs@)),
        match r.1 {
            Some(i) => first_handler_attr(attrs_view(attrs@)) == Some(i as int),
            None => first_handler_attr(attrs_view(attrs@)) is None,
        },
{
    let ghost av = attrs_view(attrs@);
    let mut count: usize = 0;
    let mut first: Option<usize> = None;
    let mut i: usize = 0;
    while i < attrs.len()
        invariant
            i <= attrs.len(),
            av == attrs_view(attrs@),
            av.len() == attrs@.len(),
            count == handler_attr_count(av.take(i as int)),
            count <= i,
            match first {
                Some(f) => first_handler_attr(av.take(i as int)) == Some(f as int),
                None => first_handler_attr(av.take(i as int)) is None,
            },
        decreases attrs.len() - i,
    {
        let ghost pre = av.take(i as int);
        let ghost next = av.take(i + 1);
        assert(next.drop_last() =~= pre);
        assert(next.last() == av[i as int]);
        let handler = match attrs[i].name {
            AttrName::Other => false,
            _ => true,
        };
        if handler {
            count = count + 1;
            if first.is_none() {
                first = Some(i);
            }
        }
        i = i + 1;
    }
    assert(av.take(attrs.len() as int) =~= av);
    (count, first)
}

fn invalid(prefix: &str, e: &str) -> (r: String)
    ensures
        r@ == prefix@ + e@,
{
    let mut m = owned(prefix);
    push_str(&mut m, e);
    m
}

/// Reads a `#[plugin_handlers]` block: the handlers its methods declare, and the items that
/// stay. A method with one handler attribute declares that handler; one with several is
/// dropped; an attribute that does not parse is an error.
pub fn plugin_handlers(entries: &Vec<ImplEntry>) -> (r: Result<PluginHandlers, String>)
    ensures
        match r {
            Ok(h) => declared_upto(entries_view(entries@), entries@.len() as int) matches Ok(d)
                && handlers_match(h, d),
            Err(e) => declared_upto(entries_view(entries@), entries@.len() as int) == Err::<Declared, Seq<char>>(e@),
        },
{
    let ghost ev = entries_view(entries@);
    let mut out = PluginHandlers { message_handlers: Vec::new(), event_handlers: Vec::new(), kept: Vec::new() };
    let mut i: usize = 0;
    assert(handlers_match(out, (Seq::empty(), Seq::empty(), Seq::empty()))) by {
        assert(pairs_view(out.event_handlers@) =~= Seq::empty());
    }
    while i < entries.len()
        invariant
            i <= entries.len(),
            ev == entries_view(entries@),
            ev.len() == entries@.len(),
            declared_upto(ev, i as int) matches Ok(d) && handlers_match(out, d),
        decreases entries.len() - i,
    {
        let ghost d = declared_upto(ev, i as int)->Ok_0;
        assert(ev[i as int] == entry_view(entries@[i as int]));
        match &entries[i] {
            ImplEntry::Other => {
                out.kept.push(i);
                proof {
                    assert(out.kept@.last() == i);
                }
            },
            ImplEntry::Method { ident, attrs } => {
                let (n, first) = count_handler_attrs(attrs);
                if n == 0 {
                    out.kept.push(i);
                } else if n == 1 {
                    proof {
                        lemma_first_handler_bound(attrs_view(attrs@));
                    }
                    let f = first.unwrap();
                    let a = &attrs[f];
                    assert(attrs_view(attrs@)[f as int] == attr_view(attrs@[f as int]));
                    match a.name {
                        AttrName::Command => {
                            match parse_command_attr(a.args.as_slice()) {
                                Ok(data) => {
                                    let h = gen_message_handler(ident.as_str(), &data, false);
                                    out.message_handlers.push(h);
                                },
                                Err(e) => {
                                    proof {
                                        lemma_declared_error_stays(ev, i + 1, entries@.len() as int);
                                    }
                                    return Err(invalid("invalid #[command(...)]: ", e.as_str()));
                                },
                            }
                        },
                        AttrName::Message => {
                            match parse_message_attr(a.args.as_slice()) {
                                Ok(data) => {
                                    let h = gen_message_handler(ident.as_str(), &data, data.kind.is_none());
                                    out.message_handlers.push(h);
                                },
                                Err(e) => {
                                    proof {
                                        lemma_declared_error_stays(ev, i + 1, entries@.len() as int);
                                    }
                                    return Err(invalid("invalid #[message(...)]: ", e.as_str()));
                                },
                            }
                        },
                        _ => {
                            match parse_event_attr(a.args.as_slice()) {
                                Some(t) => {
                                    upsert_entry(&mut out.event_handlers, t, ident.clone());
                                },
                                None => {
                                    proof {
                                        lemma_declared_error_stays(ev, i + 1, entries@.len() as int);
                                    }
                                    return Err(owned("invalid #[event(...)]"));
                                },
                            }
                        },
                    }
                    out.kept.push(i);
                }
            },
        }
        i = i + 1;
    }
    Ok(out)
}

proof fn lemma_declared_error_stays(es: Seq<EntryView>, k: int, n: int)
    requires
        0 <= k <= n,
        declared_upto(es, k) is Err,
    ensures
        declared_upto(es, n) == declared_upto(es, k),
    decreases n - k,
{
    if k < n {
        lemma_declared_error_stays(es, k, n - 1);
    }
}

proof fn lemma_first_handler_bound(attrs: Seq<AttrView>)
    ensures
        first_handler_attr(attrs) matches Some(i) ==> 0 <= i < attrs.len() && is_handler_attr(attrs[i].0),
        (handler_attr_count(attrs) > 0) == (first_handler_attr(attrs) is Some),
    decreases attrs.len(),
{
    if attrs.len() > 0 {
        lemma_first_handler_bound(attrs.drop_last());
    }
}

/// How a handler method takes its plugin: not at all, by value, by `&` or by `&mut`.
#[derive(Clone, Copy, Debug, PartialEq, Eq)]
pub enum ReceiverKind {
    /// No `self`: the method is called on the type.
    Unbound,
    Owned,
    Ref,
    MutRef,
}

/// The first parameter of a method: `self` in some form, or a typed parameter.
#[derive(Clone, Copy, Debug)]
pub enum FirstInput {
    Receiver { reference: bool, mutability: bool },
    Typed,
}

/// How the method with first parameter `first` takes its plugin.
pub fn detect_receiver(first: Option<FirstInput>) -> (r: ReceiverKind)
    ensures
        r == match first {
            None => ReceiverKind::Unbound,
            Some(FirstInput::Typed) => ReceiverKind::Unbound,
            Some(FirstInput::Receiver { reference, mutability }) => if !reference {
                ReceiverKind::Owned
            } else if mutability {
                ReceiverKind::MutRef
            } else {
                ReceiverKind::Ref
            },
        },
{
    match first {
        None => ReceiverKind::Unbound,
        Some(FirstInput::Typed) => ReceiverKind::Unbound,
        Some(FirstInput::Receiver { reference, mutability }) => {
            if reference {
                if mutability {
                    ReceiverKind::MutRef
                } else {
                    ReceiverKind::Ref
                }
            } else {
                ReceiverKind::Owned
            }
        },
    }
}


/// The name after the first `struct` keyword that is followed by a name, from `i` on.
pub open spec fn struct_ident_from(ts: Seq<TokenView>, i: int) -> Option<Seq<char>>
    decreases ts.len() + 1 - i,
{
    if i < 0 || i >= ts.len() {
        None
    } else if ts[i] == TokenView::Ident("struct"@) {
        if i + 1 < ts.len() && ts[i + 1] is Ident {
            Some(ts[i + 1]->Ident_0)
        } else {
            struct_ident_from(ts, i + 2)
        }
    } else {
        struct_ident_from(ts, i + 1)
    }
}

/// The name of the struct that the tokens of a `#[plugin]` item define.
pub fn extract_struct_ident(ts: &[AttrToken]) -> (r: Option<String>)
    ensures
        opt_view(r) == struct_ident_from(tokens_view(ts@), 0),
{
    let ghost tv = tokens_view(ts@);
    let mut i: usize = 0;
    while i < ts.len()
        invariant
            tv == tokens_view(ts@),
            tv.len() == ts@.len(),
            struct_ident_from(tv, 0) == struct_ident_from(tv, i as int),
        decreases ts.len() - i,
    {
        assert(tv[i as int] == ts@[i as int]@);
        let is_struct = match &ts[i] {
            AttrToken::Ident(k) => str_eq(k.as_str(), "struct"),
            _ => false,
        };
        if is_struct {
            if i + 1 < ts.len() {
                assert(tv[i + 1] == ts@[i + 1]@);
                if let AttrToken::Ident(n) = &ts[i + 1] {
                    return Some(n.clone());
                }
            }
            if i + 1 >= ts.len() - 1 {
                assert(struct_ident_from(tv, i + 2) is None);
                return None;
            }
            i = i + 2;
        } else {
            i = i + 1;
        }
    }
    None
}

/// Where the runtime crate was found for the crate being compiled: the crate itself, a
/// dependency under some name, or nowhere.
#[derive(Debug)]
pub enum FoundRuntime {
    Itself,
    Name(String),
    NotFound,
}

/// The path that generated code names the runtime by: `crate` inside it, `::name` under the
/// name it was found, `::fish_runtime` where it was not found.
pub fn runtime_path(found: &FoundRuntime) -> (r: String)
    ensures
        r@ == match found {
            FoundRuntime::Itself => "crate"@,
            FoundRuntime::Name(n) => "::"@ + n@,
            FoundRuntime::NotFound => "::fish_runtime"@,
        },
{
    match found {
        FoundRuntime::Itself => owned("crate"),
        FoundRuntime::Name(n) => {
            let mut p = owned("::");
            push_str(&mut p, n.as_str());
            p
        },
        FoundRuntime::NotFound => owned("::fish_runtime"),
    }
}

} // verus!
