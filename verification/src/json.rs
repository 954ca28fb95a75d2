use vstd::prelude::*;
use vstd::utf8::encode_utf8;

use crate::codec::{json_decoding, json_encoding, json_from_bytes, json_to_text};
use crate::error::AppError;
use crate::text::owned;

verus! {

/// A JSON document as this library holds it.
///
/// Numbers keep serde_json's three kinds: non-negative integers, negative
/// integers, and all other numbers (kept by their decimal text).
/// An object keeps its entries in order.
#[derive(Debug)]
pub enum Json {
    Null,
    Bool(bool),
    PosInt(u64),
    NegInt(i64),
    Float(String),
    Str(String),
    Array(Vec<Json>),
    Object(Vec<(String, Json)>),
}

/// The mathematical value of a `Json`.
pub enum JsonView {
    Null,
    Bool(bool),
    PosInt(nat),
    NegInt(int),
    Float(Seq<char>),
    Str(Seq<char>),
    Array(Seq<JsonView>),
    Object(Seq<(Seq<char>, JsonView)>),
}

pub open spec fn view_of(j: Json) -> JsonView
    decreases j,
{
    match j {
        Json::Null => JsonView::Null,
        Json::Bool(b) => JsonView::Bool(b),
        Json::PosInt(u) => JsonView::PosInt(u as nat),
        Json::NegInt(i) => JsonView::NegInt(i as int),
        Json::Float(s) => JsonView::Float(s@),
        Json::Str(s) => JsonView::Str(s@),
        Json::Array(v) => JsonView::Array(list_view(v@)),
        Json::Object(v) => JsonView::Object(entries_view(v@)),
    }
}

pub open spec fn list_view(s: Seq<Json>) -> Seq<JsonView>
    decreases s,
{
    if s.len() == 0 {
        Seq::empty()
    } else {
        list_view(s.drop_last()).push(view_of(s.last()))
    }
}

pub open spec fn entries_view(s: Seq<(String, Json)>) -> Seq<(Seq<char>, JsonView)>
    decreases s,
{
    if s.len() == 0 {
        Seq::empty()
    } else {
        entries_view(s.drop_last()).push((s.last().0@, view_of(s.last().1)))
    }
}

impl View for Json {
    type V = JsonView;

    open spec fn view(&self) -> JsonView {
        view_of(*self)
    }
}

/// The value stored under `key` in the entries `es` (the first such entry).
pub open spec fn lookup(es: Seq<(Seq<char>, JsonView)>, key: Seq<char>) -> Option<JsonView>
    decreases es.len(),
{
    if es.len() == 0 {
        None
    } else if es[0].0 == key {
        Some(es[0].1)
    } else {
        lookup(es.drop_first(), key)
    }
}

impl JsonView {
    /// `v.get(key)`: the member `key` of an object, `None` for anything else.
    pub open spec fn get(self, key: Seq<char>) -> Option<JsonView> {
        match self {
            JsonView::Object(es) => lookup(es, key),
            _ => None,
        }
    }

    /// `v[key]`: the member `key`, or `Null` where there is none.
    pub open spec fn field(self, key: Seq<char>) -> JsonView {
        match self.get(key) {
            Some(v) => v,
            None => JsonView::Null,
        }
    }

    /// `v.get(i)` on an array index.
    pub open spec fn get_index(self, i: int) -> Option<JsonView> {
        match self {
            JsonView::Array(items) => if 0 <= i < items.len() {
                Some(items[i])
            } else {
                None
            },
            _ => None,
        }
    }

    /// `v[i]`: the element `i` of an array, or `Null`.
    pub open spec fn item(self, i: int) -> JsonView {
        match self.get_index(i) {
            Some(v) => v,
            None => JsonView::Null,
        }
    }

    pub open spec fn as_str(self) -> Option<Seq<char>> {
        match self {
            JsonView::Str(s) => Some(s),
            _ => None,
        }
    }

    /// `v.as_str().unwrap_or("")`.
    pub open spec fn str_or_empty(self) -> Seq<char> {
        match self {
            JsonView::Str(s) => s,
            _ => Seq::empty(),
        }
    }

    pub open spec fn as_i64(self) -> Option<int> {
        match self {
            JsonView::PosInt(u) => if u <= i64::MAX {
                Some(u as int)
            } else {
                None
            },
            JsonView::NegInt(i) => Some(i),
            _ => None,
        }
    }

    pub open spec fn as_u64(self) -> Option<nat> {
        match self {
            JsonView::PosInt(u) => Some(u),
            _ => None,
        }
    }

    pub open spec fn as_bool(self) -> Option<bool> {
        match self {
            JsonView::Bool(b) => Some(b),
            _ => None,
        }
    }

    pub open spec fn as_array(self) -> Option<Seq<JsonView>> {
        match self {
            JsonView::Array(items) => Some(items),
            _ => None,
        }
    }

    pub open spec fn as_object(self) -> Option<Seq<(Seq<char>, JsonView)>> {
        match self {
            JsonView::Object(es) => Some(es),
            _ => None,
        }
    }

    pub open spec fn is_object(self) -> bool {
        self is Object
    }
}

pub open spec fn opt_view(o: Option<&Json>) -> Option<JsonView> {
    match o {
        Some(j) => Some(j@),
        None => None,
    }
}

pub open spec fn opt_json_view(o: Option<Json>) -> Option<JsonView> {
    match o {
        Some(j) => Some(j@),
        None => None,
    }
}

pub open spec fn opt_str_view(o: Option<&str>) -> Option<Seq<char>> {
    match o {
        Some(s) => Some(s@),
        None => None,
    }
}

pub proof fn lemma_list_view(s: Seq<Json>)
    ensures
        list_view(s).len() == s.len(),
        forall|i: int| 0 <= i < s.len() ==> #[trigger] list_view(s)[i] == view_of(s[i]),
    decreases s.len(),
{
    if s.len() > 0 {
        lemma_list_view(s.drop_last());
    }
}

pub proof fn lemma_entries_view(s: Seq<(String, Json)>)
    ensures
        entries_view(s).len() == s.len(),
        forall|i: int|
            0 <= i < s.len() ==> #[trigger] entries_view(s)[i] == (s[i].0@, view_of(s[i].1)),
    decreases s.len(),
{
    if s.len() > 0 {
        lemma_entries_view(s.drop_last());
    }
}

/// The member found under `key` is the first entry with that key.
pub proof fn lemma_lookup_at(es: Seq<(Seq<char>, JsonView)>, key: Seq<char>, i: int)
    requires
        0 <= i < es.len(),
        es[i].0 == key,
        forall|j: int| 0 <= j < i ==> (#[trigger] es[j]).0 != key,
    ensures
        lookup(es, key) == Some(es[i].1),
{
    lemma_lookup_skip(es, key, i);
    assert(es.subrange(i, es.len() as int)[0] == es[i]);
}

proof fn lemma_lookup_skip(es: Seq<(Seq<char>, JsonView)>, key: Seq<char>, i: int)
    requires
        0 <= i <= es.len(),
        forall|j: int| 0 <= j < i ==> (#[trigger] es[j]).0 != key,
    ensures
        lookup(es, key) == lookup(es.subrange(i, es.len() as int), key),
    decreases i,
{
    if i > 0 {
        lemma_lookup_skip(es.drop_first(), key, i - 1);
        assert(es.drop_first().subrange(i - 1, es.drop_first().len() as int) =~= es.subrange(
            i,
            es.len() as int,
        ));
    } else {
        assert(es.subrange(0, es.len() as int) =~= es);
    }
}

impl Json {
    /// A string value.
    pub fn string(s: &str) -> (r: Json)
        ensures
            r@ == JsonView::Str(s@),
    {
        Json::Str(owned(s))
    }

    /// `v.get(key)`: the member `key` of an object.
    pub fn get(&self, key: &str) -> (r: Option<&Json>)
        ensures
            opt_view(r) == self@.get(key@),
    {
        match self {
            Json::Object(es) => {
                proof {
                    lemma_entries_view(es@);
                }
                let ghost ev = entries_view(es@);
                let mut i: usize = 0;
                while i < es.len()
                    invariant
                        i <= es.len(),
                        ev == entries_view(es@),
                        ev.len() == es@.len(),
                        forall|j: int| 0 <= j < es@.len() ==> #[trigger] ev[j] == (es@[j].0@, view_of(es@[j].1)),
                        forall|j: int| 0 <= j < i ==> (#[trigger] ev[j]).0 != key@,
                        self@.get(key@) == lookup(ev, key@),
                    decreases es.len() - i,
                {
                    if crate::text::str_eq(es[i].0.as_str(), key) {
                        proof {
                            lemma_lookup_skip(ev, key@, i as int);
                            assert(ev.subrange(i as int, ev.len() as int)[0] == ev[i as int]);
                        }
                        return Some(&es[i].1);
                    }
                    i += 1;
                }
                proof {
                    lemma_lookup_skip(ev, key@, i as int);
                }
                None
            },
            _ => None,
        }
    }

    /// `v.get(i)` on an array.
    pub fn get_index(&self, i: usize) -> (r: Option<&Json>)
        ensures
            opt_view(r) == self@.get_index(i as int),
    {
        match self {
            Json::Array(items) => {
                proof {
                    lemma_list_view(items@);
                }
                if i < items.len() {
                    Some(&items[i])
                } else {
                    None
                }
            },
            _ => None,
        }
    }

    pub fn as_str(&self) -> (r: Option<&str>)
        ensures
            opt_str_view(r) == self@.as_str(),
    {
        match self {
            Json::Str(s) => Some(s.as_str()),
            _ => None,
        }
    }

    pub fn as_i64(&self) -> (r: Option<i64>)
        ensures
            match r {
                Some(i) => self@.as_i64() == Some(i as int),
                None => self@.as_i64() is None,
            },
    {
        match self {
            Json::PosInt(u) => if *u <= 9223372036854775807u64 {
                Some(*u as i64)
            } else {
                None
            },
            Json::NegInt(i) => Some(*i),
            _ => None,
        }
    }

    pub fn as_u64(&self) -> (r: Option<u64>)
        ensures
            match r {
                Some(u) => self@.as_u64() == Some(u as nat),
                None => self@.as_u64() is None,
            },
    {
        match self {
            Json::PosInt(u) => Some(*u),
            _ => None,
        }
    }

    pub fn as_bool(&self) -> (r: Option<bool>)
        ensures
            r == self@.as_bool(),
    {
        match self {
            Json::Bool(b) => Some(*b),
            _ => None,
        }
    }

    pub fn as_array(&self) -> (r: Option<&Vec<Json>>)
        ensures
            match r {
                Some(v) => self@.as_array() == Some(list_view(v@)),
                None => self@.as_array() is None,
            },
    {
        match self {
            Json::Array(v) => Some(v),
            _ => None,
        }
    }

    pub fn as_object(&self) -> (r: Option<&Vec<(String, Json)>>)
        ensures
            match r {
                Some(v) => self@.as_object() == Some(entries_view(v@)),
                None => self@.as_object() is None,
            },
    {
        match self {
            Json::Object(v) => Some(v),
            _ => None,
        }
    }

    pub fn is_null(&self) -> (r: bool)
        ensures
            r == (self@ is Null),
    {
        match self {
            Json::Null => true,
            _ => false,
        }
    }

    /// The string under `key`, if the member is a string.
    pub fn get_str(&self, key: &str) -> (r: Option<&str>)
        ensures
            opt_str_view(r) == match self@.get(key@) {
                Some(v) => v.as_str(),
                None => None,
            },
    {
        match self.get(key) {
            Some(v) => v.as_str(),
            None => None,
        }
    }

    /// A deep copy with the same value.
    pub fn duplicate(&self) -> (r: Json)
        ensures
            r@ == self@,
        decreases self,
    {
        match self {
            Json::Null => Json::Null,
            Json::Bool(b) => Json::Bool(*b),
            Json::PosInt(u) => Json::PosInt(*u),
            Json::NegInt(i) => Json::NegInt(*i),
            Json::Float(s) => Json::Float(s.clone()),
            Json::Str(s) => Json::Str(s.clone()),
            Json::Array(items) => {
                let mut out: Vec<Json> = Vec::new();
                let mut i: usize = 0;
                proof {
                    lemma_list_view(items@);
                }
                while i < items.len()
                    invariant
                        i <= items.len(),
                        out@.len() == i,
                        list_view(items@).len() == items@.len(),
                        forall|j: int| 0 <= j < items@.len() ==> #[trigger] list_view(items@)[j] == view_of(items@[j]),
                        forall|j: int| 0 <= j < i ==> view_of(#[trigger] out@[j]) == view_of(items@[j]),
                        *self == Json::Array(*items),
                    decreases items.len() - i,
                {
                    proof {
                        assert(decreases_to!(*self => (*self)->Array_0));
                        assert(decreases_to!(*items => items@));
                        assert(decreases_to!(items@ => items@[i as int]));
                        assert(decreases_to!(*self => items@[i as int]));
                    }
                    let c = items[i].duplicate();
                    out.push(c);
                    i += 1;
                }
                proof {
                    lemma_list_view(out@);
                    assert(list_view(out@) =~= list_view(items@));
                }
                Json::Array(out)
            },
            Json::Object(es) => {
                let mut out: Vec<(String, Json)> = Vec::new();
                let mut i: usize = 0;
                proof {
                    lemma_entries_view(es@);
                }
                while i < es.len()
                    invariant
                        i <= es.len(),
                        out@.len() == i,
                        entries_view(es@).len() == es@.len(),
                        forall|j: int| 0 <= j < es@.len() ==> #[trigger] entries_view(es@)[j] == (es@[j].0@, view_of(es@[j].1)),
                        forall|j: int| 0 <= j < i ==> (#[trigger] out@[j]).0@ == es@[j].0@ && view_of(out@[j].1) == view_of(es@[j].1),
                        *self == Json::Object(*es),
                    decreases es.len() - i,
                {
                    let k = es[i].0.clone();
                    proof {
                        assert(decreases_to!(*self => (*self)->Object_0));
                        assert(decreases_to!(*es => es@));
                        assert(decreases_to!(es@ => es@[i as int]));
                        assert(decreases_to!(es@[i as int] => es@[i as int].1));
                        assert(decreases_to!(*self => es@[i as int].1));
                    }
                    let v = es[i].1.duplicate();
                    out.push((k, v));
                    i += 1;
                }
                proof {
                    lemma_entries_view(out@);
                    assert(entries_view(out@) =~= entries_view(es@));
                }
                Json::Object(out)
            },
        }
    }
}

/// Builds an object from its entries, kept in the given order.
pub fn object(entries: Vec<(String, Json)>) -> (r: Json)
    ensures
        r@ == JsonView::Object(entries_view(entries@)),
{
    Json::Object(entries)
}

/// An entry of an object: the key given by `k` and the value `v`.
pub fn entry(k: &str, v: Json) -> (r: (String, Json))
    ensures
        r.0@ == k@,
        r.1 == v,
{
    (owned(k), v)
}

} // verus!

verus! {

/// `None` read as JSON `null`, as `v["missing"]` reads.
pub open spec fn opt_or_null(o: Option<&Json>) -> JsonView {
    match o {
        Some(j) => j@,
        None => JsonView::Null,
    }
}

/// `o[key]` on a value that may be missing.
pub fn fld<'a>(o: Option<&'a Json>, key: &str) -> (r: Option<&'a Json>)
    ensures
        opt_or_null(r) == opt_or_null(o).field(key@),
{
    match o {
        Some(j) => j.get(key),
        None => None,
    }
}

/// `o[i]` on a value that may be missing.
pub fn idx<'a>(o: Option<&'a Json>, i: usize) -> (r: Option<&'a Json>)
    ensures
        opt_or_null(r) == opt_or_null(o).item(i as int),
{
    match o {
        Some(j) => j.get_index(i),
        None => None,
    }
}

/// `o.as_str().unwrap_or("")`.
pub fn str_or_empty<'a>(o: Option<&'a Json>) -> (r: &'a str)
    ensures
        r@ == opt_or_null(o).str_or_empty(),
{
    proof {
        reveal_strlit("");
    }
    match o {
        Some(j) => match j.as_str() {
            Some(s) => s,
            None => "",
        },
        None => "",
    }
}

/// `o.as_u64().unwrap_or(0)`.
pub fn u64_or_zero(o: Option<&Json>) -> (r: u64)
    ensures
        r as nat == u64_or0(opt_or_null(o)),
{
    match o {
        Some(j) => match j.as_u64() {
            Some(u) => u,
            None => 0,
        },
        None => 0,
    }
}

/// `o.as_i64().unwrap_or(0)`.
pub fn i64_or_zero(o: Option<&Json>) -> (r: i64)
    ensures
        r as int == i64_or0(opt_or_null(o)),
{
    match o {
        Some(j) => match j.as_i64() {
            Some(i) => i,
            None => 0,
        },
        None => 0,
    }
}

pub open spec fn u64_or0(v: JsonView) -> nat {
    match v.as_u64() {
        Some(u) => u,
        None => 0,
    }
}

pub open spec fn i64_or0(v: JsonView) -> int {
    match v.as_i64() {
        Some(i) => i,
        None => 0,
    }
}

/// Appends an entry to an object's entries.
pub fn push_entry(es: &mut Vec<(String, Json)>, k: &str, v: Json)
    ensures
        entries_view(final(es)@) == entries_view(old(es)@).push((k@, v@)),
{
    let ghost before = es@;
    es.push((owned(k), v));
    assert(es@.drop_last() =~= before);
}

/// `o.and_then(|v| v.get(key))`.
pub open spec fn opt_get(o: Option<JsonView>, key: Seq<char>) -> Option<JsonView> {
    match o {
        Some(v) => v.get(key),
        None => None,
    }
}

/// `o.and_then(|v| v.as_str())`.
pub open spec fn opt_str(o: Option<JsonView>) -> Option<Seq<char>> {
    match o {
        Some(v) => v.as_str(),
        None => None,
    }
}

/// `a.or(b)`: the first of the two that is present.
pub open spec fn first_of(a: Option<JsonView>, b: Option<JsonView>) -> Option<JsonView> {
    match a {
        Some(_) => a,
        None => b,
    }
}

/// `o.and_then(|v| v.get(key))` on a value that may be missing.
pub fn get_in<'a>(o: Option<&'a Json>, key: &str) -> (r: Option<&'a Json>)
    ensures
        opt_view(r) == opt_get(opt_view(o), key@),
{
    match o {
        Some(j) => j.get(key),
        None => None,
    }
}

/// `o.and_then(|v| v.as_str())`.
pub fn str_in<'a>(o: Option<&'a Json>) -> (r: Option<&'a str>)
    ensures
        opt_str_view(r) == opt_str(opt_view(o)),
{
    match o {
        Some(j) => j.as_str(),
        None => None,
    }
}

/// `a.or(b)`.
pub fn first_in<'a>(a: Option<&'a Json>, b: Option<&'a Json>) -> (r: Option<&'a Json>)
    ensures
        opt_view(r) == first_of(opt_view(a), opt_view(b)),
{
    match a {
        Some(_) => a,
        None => b,
    }
}

impl Json {
    /// The value of a JSON text; a text that is not JSON is a `Json` error.
    pub fn parse(text: &str) -> (r: Result<Json, AppError>)
        ensures
            match r {
                Ok(j) => json_decoding(encode_utf8(text@)) == Some(j@),
                Err(e) => json_decoding(encode_utf8(text@)) is None && e is Json,
            },
    {
        match json_from_bytes(text.as_bytes()) {
            Ok(j) => Ok(j),
            Err(source) => Err(AppError::Json { source }),
        }
    }

    /// The JSON text of the value; a value without one is a `Json` error.
    pub fn to_text(&self) -> (r: Result<String, AppError>)
        ensures
            match r {
                Ok(t) => json_encoding(self@) == Some(t@),
                Err(e) => json_encoding(self@) is None && e is Json,
            },
    {
        match json_to_text(self) {
            Ok(t) => Ok(t),
            Err(source) => Err(AppError::Json { source }),
        }
    }
}

} // verus!
