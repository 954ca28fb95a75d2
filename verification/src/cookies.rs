//! The session cookies of the fish account: a map from name to value.
use vstd::prelude::*;

use crate::codec::{json_decoding, json_encoding, json_from_bytes};
use crate::error::AppError;
use crate::json::{entries_view, lemma_entries_view, object, Json, JsonView};
use crate::text::{before_char, chars_of, owned, push_str, str_eq, string_of_range, trim, trim_seq};

verus! {

/// The index of the first entry named `key`.
pub open spec fn key_index(es: Seq<(Seq<char>, Seq<char>)>, key: Seq<char>) -> Option<int>
    decreases es.len(),
{
    if es.len() == 0 {
        None
    } else if es[0].0 == key {
        Some(0)
    } else {
        match key_index(es.drop_first(), key) {
            Some(i) => Some(i + 1),
            None => None,
        }
    }
}

/// No name occurs twice.
pub open spec fn keys_unique(es: Seq<(Seq<char>, Seq<char>)>) -> bool {
    forall|i: int, j: int| 0 <= i < j < es.len() ==> (#[trigger] es[i]).0 != (#[trigger] es[j]).0
}

/// The value stored under `key`.
pub open spec fn value_of(es: Seq<(Seq<char>, Seq<char>)>, key: Seq<char>) -> Option<Seq<char>> {
    match key_index(es, key) {
        Some(i) => Some(es[i].1),
        None => None,
    }
}

/// The entries after setting `key` to `value`: the entry replaced in place, or appended.
pub open spec fn upsert(es: Seq<(Seq<char>, Seq<char>)>, key: Seq<char>, value: Seq<char>) -> Seq<
    (Seq<char>, Seq<char>),
> {
    match key_index(es, key) {
        Some(i) => es.update(i, (key, value)),
        None => es.push((key, value)),
    }
}

pub proof fn lemma_key_index(es: Seq<(Seq<char>, Seq<char>)>, key: Seq<char>)
    ensures
        key_index(es, key) matches Some(i) ==> 0 <= i < es.len() && es[i].0 == key && forall|j: int|
            0 <= j < i ==> (#[trigger] es[j]).0 != key,
        key_index(es, key) is None ==> forall|j: int| 0 <= j < es.len() ==> (#[trigger] es[j]).0 != key,
    decreases es.len(),
{
    if es.len() > 0 && es[0].0 != key {
        let rest = es.drop_first();
        lemma_key_index(rest, key);
        assert forall|j: int| 1 <= j < es.len() implies es[j] == rest[j - 1] by {}
        if key_index(rest, key) is None {
            assert forall|j: int| 0 <= j < es.len() implies (#[trigger] es[j]).0 != key by {
                if j > 0 {
                    assert(es[j] == rest[j - 1]);
                }
            }
        } else {
            let i = key_index(rest, key)->Some_0;
            assert forall|j: int| 0 <= j < i + 1 implies (#[trigger] es[j]).0 != key by {
                if j > 0 {
                    assert(es[j] == rest[j - 1]);
                }
            }
        }
    }
}

pub proof fn lemma_key_index_at(es: Seq<(Seq<char>, Seq<char>)>, key: Seq<char>, i: int)
    requires
        0 <= i < es.len(),
        es[i].0 == key,
        forall|j: int| 0 <= j < i ==> (#[trigger] es[j]).0 != key,
    ensures
        key_index(es, key) == Some(i),
    decreases i,
{
    if i > 0 {
        let rest = es.drop_first();
        assert(es[0].0 != key);
        assert forall|j: int| 0 <= j < i - 1 implies (#[trigger] rest[j]).0 != key by {
            assert(rest[j] == es[j + 1]);
        }
        lemma_key_index_at(rest, key, i - 1);
    }
}

pub proof fn lemma_upsert(es: Seq<(Seq<char>, Seq<char>)>, key: Seq<char>, value: Seq<char>)
    requires
        keys_unique(es),
    ensures
        keys_unique(upsert(es, key, value)),
        value_of(upsert(es, key, value), key) == Some(value),
        forall|k: Seq<char>| k != key ==> value_of(upsert(es, key, value), k) == value_of(es, k),
{
    lemma_key_index(es, key);
    let u = upsert(es, key, value);
    assert forall|k: Seq<char>| k != key implies value_of(u, k) == value_of(es, k) by {
        lemma_key_index(es, k);
        lemma_key_index(u, k);
        match key_index(es, k) {
            Some(i) => {
                lemma_key_index_at(u, k, i);
            },
            None => {
                assert(forall|j: int| 0 <= j < u.len() ==> (#[trigger] u[j]).0 != k);
            },
        }
    }
    lemma_key_index(u, key);
    match key_index(es, key) {
        Some(i) => {
            lemma_key_index_at(u, key, i);
        },
        None => {
            lemma_key_index_at(u, key, es.len() as int);
        },
    }
}

/// The session cookies, by name.
#[derive(Debug)]
pub struct CookieJar {
    entries: Vec<(String, String)>,
}

pub open spec fn pairs_view(v: Seq<(String, String)>) -> Seq<(Seq<char>, Seq<char>)> {
    v.map_values(|p: (String, String)| (p.0@, p.1@))
}

impl View for CookieJar {
    type V = Seq<(Seq<char>, Seq<char>)>;

    closed spec fn view(&self) -> Seq<(Seq<char>, Seq<char>)> {
        pairs_view(self.entries@)
    }
}

/// The entries after setting each pair in turn.
pub open spec fn upsert_all(es: Seq<(Seq<char>, Seq<char>)>, ps: Seq<(Seq<char>, Seq<char>)>) -> Seq<
    (Seq<char>, Seq<char>),
>
    decreases ps.len(),
{
    if ps.len() == 0 {
        es
    } else {
        let before = upsert_all(es, ps.drop_last());
        upsert(before, ps.last().0, ps.last().1)
    }
}

/// `name=value` for each entry, joined with `; `.
pub open spec fn header_text(es: Seq<(Seq<char>, Seq<char>)>) -> Seq<char>
    decreases es.len(),
{
    if es.len() == 0 {
        Seq::empty()
    } else if es.len() == 1 {
        es[0].0 + "="@ + es[0].1
    } else {
        header_text(es.drop_last()) + "; "@ + es.last().0 + "="@ + es.last().1
    }
}

/// The index of the first `c` in `s`.
pub open spec fn char_index(s: Seq<char>, c: char) -> Option<int> {
    if before_char(s, c).len() < s.len() {
        Some(before_char(s, c).len() as int)
    } else {
        None
    }
}

/// The name and value that a `Set-Cookie` line sets: the part before the first `;`, trimmed,
/// split at its first `=`, both sides trimmed; `None` where it has no `=`.
pub open spec fn set_cookie_pair(line: Seq<char>) -> Option<(Seq<char>, Seq<char>)> {
    let pure = trim_seq(before_char(line, ';'));
    match char_index(pure, '=') {
        Some(eq) => Some(
            (trim_seq(pure.subrange(0, eq)), trim_seq(pure.subrange(eq + 1, pure.len() as int))),
        ),
        None => None,
    }
}

/// The cookies after applying the `Set-Cookie` lines in order.
pub open spec fn apply_set_cookies(es: Seq<(Seq<char>, Seq<char>)>, lines: Seq<Seq<char>>) -> Seq<
    (Seq<char>, Seq<char>),
>
    decreases lines.len(),
{
    if lines.len() == 0 {
        es
    } else {
        let before = apply_set_cookies(es, lines.drop_last());
        match set_cookie_pair(lines.last()) {
            Some((k, v)) => if value_of(before, k) == Some(v) {
                before
            } else {
                upsert(before, k, v)
            },
            None => before,
        }
    }
}

/// Whether applying the lines changes some value.
pub open spec fn set_cookies_change(es: Seq<(Seq<char>, Seq<char>)>, lines: Seq<Seq<char>>) -> bool
    decreases lines.len(),
{
    if lines.len() == 0 {
        false
    } else {
        let before = apply_set_cookies(es, lines.drop_last());
        set_cookies_change(es, lines.drop_last()) || match set_cookie_pair(lines.last()) {
            Some((k, v)) => value_of(before, k) != Some(v),
            None => false,
        }
    }
}

proof fn lemma_upsert_sets(es: Seq<(Seq<char>, Seq<char>)>, key: Seq<char>, value: Seq<char>)
    ensures
        value_of(upsert(es, key, value), key) == Some(value),
{
    lemma_key_index(es, key);
    let u = upsert(es, key, value);
    match key_index(es, key) {
        Some(i) => {
            assert forall|j: int| 0 <= j < i implies (#[trigger] u[j]).0 != key by {
                assert(u[j] == es[j]);
            }
            lemma_key_index_at(u, key, i);
        },
        None => {
            assert forall|j: int| 0 <= j < es.len() implies (#[trigger] u[j]).0 != key by {
                assert(u[j] == es[j]);
            }
            lemma_key_index_at(u, key, es.len() as int);
        },
    }
}

/// Merging `Set-Cookie` lines reports a change exactly when some line changes the jar (the
/// jar after it differs from the jar before it); where none does, the jar is as it was.
pub proof fn lemma_merge_reports_change(es: Seq<(Seq<char>, Seq<char>)>, lines: Seq<Seq<char>>)
    ensures
        set_cookies_change(es, lines) <==> exists|k: int|
            0 <= k < lines.len() && #[trigger] apply_set_cookies(es, lines.take(k + 1))
                != apply_set_cookies(es, lines.take(k)),
        !set_cookies_change(es, lines) ==> apply_set_cookies(es, lines) == es,
    decreases lines.len(),
{
    if lines.len() > 0 {
        let init = lines.drop_last();
        let n = lines.len() - 1;
        lemma_merge_reports_change(es, init);
        let before = apply_set_cookies(es, init);
        assert(lines.take(n + 1) =~= lines);
        assert(lines.take(n) =~= init);
        // the last line changes the jar exactly when it sets a value the jar did not hold
        let last_changes = match set_cookie_pair(lines.last()) {
            Some((k, v)) => value_of(before, k) != Some(v),
            None => false,
        };
        if let Some((k, v)) = set_cookie_pair(lines.last()) {
            if value_of(before, k) != Some(v) {
                lemma_upsert_sets(before, k, v);
            }
        }
        assert(last_changes <==> apply_set_cookies(es, lines) != before);
        if set_cookies_change(es, lines) {
            if set_cookies_change(es, init) {
                let k = choose|k: int|
                    0 <= k < init.len() && #[trigger] apply_set_cookies(es, init.take(k + 1))
                        != apply_set_cookies(es, init.take(k));
                assert(lines.take(k + 1) =~= init.take(k + 1));
                assert(lines.take(k) =~= init.take(k));
                assert(apply_set_cookies(es, lines.take(k + 1)) != apply_set_cookies(es, lines.take(k)));
            } else {
                assert(apply_set_cookies(es, lines.take(n + 1)) != apply_set_cookies(es, lines.take(n)));
            }
        }
        if exists|k: int|
            0 <= k < lines.len() && #[trigger] apply_set_cookies(es, lines.take(k + 1))
                != apply_set_cookies(es, lines.take(k)) {
            let k = choose|k: int|
                0 <= k < lines.len() && #[trigger] apply_set_cookies(es, lines.take(k + 1))
                    != apply_set_cookies(es, lines.take(k));
            if k < n {
                assert(lines.take(k + 1) =~= init.take(k + 1));
                assert(lines.take(k) =~= init.take(k));
                assert(apply_set_cookies(es, init.take(k + 1)) != apply_set_cookies(es, init.take(k)));
            }
        }
    } else {
        assert(lines.take(0) =~= lines);
    }
}

proof fn lemma_before_char_index(s: Seq<char>, c: char)
    ensures
        before_char(s, c).len() <= s.len(),
        before_char(s, c) =~= s.subrange(0, before_char(s, c).len() as int),
        forall|j: int| 0 <= j < before_char(s, c).len() ==> s[j] != c,
        before_char(s, c).len() < s.len() ==> s[before_char(s, c).len() as int] == c,
    decreases s.len(),
{
    if s.len() > 0 && s[0] != c {
        lemma_before_char_index(s.drop_first(), c);
        assert forall|j: int| 0 <= j < before_char(s, c).len() implies s[j] != c by {
            if j > 0 {
                assert(s[j] == s.drop_first()[j - 1]);
            }
        }
    }
}

pub proof fn lemma_char_index_bound(s: Seq<char>, c: char)
    ensures
        char_index(s, c) matches Some(i) ==> 0 <= i < s.len() && s[i] == c,
{
    lemma_before_char_index(s, c);
}

/// The index of the first `c` among the characters.
pub fn find_char(cs: &Vec<char>, c: char) -> (r: Option<usize>)
    ensures
        match r {
            Some(i) => char_index(cs@, c) == Some(i as int),
            None => char_index(cs@, c) is None,
        },
{
    proof {
        lemma_before_char_index(cs@, c);
    }
    let mut i: usize = 0;
    while i < cs.len()
        invariant
            i <= cs.len(),
            forall|j: int| 0 <= j < i ==> cs@[j] != c,
            before_char(cs@, c).len() <= cs@.len(),
            before_char(cs@, c) =~= cs@.subrange(0, before_char(cs@, c).len() as int),
            forall|j: int| 0 <= j < before_char(cs@, c).len() ==> cs@[j] != c,
            before_char(cs@, c).len() < cs@.len() ==> cs@[before_char(cs@, c).len() as int] == c,
        decreases cs.len() - i,
    {
        if cs[i] == c {
            return Some(i);
        }
        i += 1;
    }
    None
}

/// The name and value that one `Set-Cookie` line sets.
pub fn parse_set_cookie(line: &str) -> (r: Option<(String, String)>)
    ensures
        match r {
            Some((k, v)) => set_cookie_pair(line@) == Some((k@, v@)),
            None => set_cookie_pair(line@) is None,
        },
{
    let head = crate::text::split_first(line, ';');
    let pure = trim(head.as_str());
    let cs = chars_of(pure.as_str());
    match find_char(&cs, '=') {
        Some(eq) => {
            let k = string_of_range(&cs, 0, eq);
            let v = string_of_range(&cs, eq + 1, cs.len());
            Some((trim(k.as_str()), trim(v.as_str())))
        },
        None => None,
    }
}

/// The JSON object that the auth file holds for cookies: each name with its value as a string.
pub open spec fn jar_json(es: Seq<(Seq<char>, Seq<char>)>) -> JsonView {
    JsonView::Object(es.map_values(|p: (Seq<char>, Seq<char>)| (p.0, JsonView::Str(p.1))))
}

/// Every member of the object is a string.
pub open spec fn all_strings(es: Seq<(Seq<char>, JsonView)>) -> bool {
    forall|i: int| 0 <= i < es.len() ==> #[trigger] es[i].1 is Str
}

/// The cookies that an auth file's bytes hold: a JSON object whose members are all strings,
/// a later member replacing an earlier one of the same name; `None` for anything else.
pub open spec fn jar_of_json(bytes: Seq<u8>) -> Option<Seq<(Seq<char>, Seq<char>)>> {
    match json_decoding(bytes) {
        Some(JsonView::Object(es)) => if all_strings(es) {
            Some(upsert_all(Seq::empty(), es.map_values(|e: (Seq<char>, JsonView)| (e.0, e.1->Str_0))))
        } else {
            None
        },
        _ => None,
    }
}

/// The cookies of a browser's `Cookie` header, `name=value` pieces separated by `;`: each
/// piece split at its first `=` with both sides trimmed, in order; pieces without `=` or with
/// an empty name are left out.
pub open spec fn header_pairs(s: Seq<char>) -> Seq<(Seq<char>, Seq<char>)>
    decreases s.len(),
{
    let seg = before_char(s, ';');
    let here = match set_cookie_pair(seg) {
        Some(p) => if p.0.len() > 0 {
            seq![p]
        } else {
            Seq::empty()
        },
        None => Seq::empty(),
    };
    if seg.len() < s.len() {
        here + header_pairs(s.subrange(seg.len() as int + 1, s.len() as int))
    } else {
        here
    }
}

/// Reads a browser's `Cookie` header into its `name=value` pairs.
pub fn cookie_header_pairs(header: &str) -> (r: Vec<(String, String)>)
    ensures
        pairs_view(r@) == header_pairs(header@),
    decreases header@.len(),
{
    let cs = chars_of(header);
    proof {
        lemma_char_index_bound(header@, ';');
        lemma_before_char_index(header@, ';');
    }
    let (seg, rest) = match find_char(&cs, ';') {
        Some(i) => (string_of_range(&cs, 0, i), Some(string_of_range(&cs, i + 1, cs.len()))),
        None => (owned(header), None),
    };
    proof {
        if rest is None {
            assert(before_char(header@, ';') =~= header@);
        }
        assert(seg@ =~= before_char(header@, ';'));
        lemma_before_char_index(seg@, ';');
        if before_char(seg@, ';').len() < seg@.len() {
            assert(seg@[before_char(seg@, ';').len() as int] == header@[before_char(seg@, ';').len() as int]);
        }
        assert(before_char(seg@, ';') =~= seg@);
    }
    let mut out: Vec<(String, String)> = Vec::new();
    match parse_set_cookie(seg.as_str()) {
        Some((k, v)) => {
            if k.as_str().unicode_len() > 0 {
                out.push((k, v));
            }
        },
        None => {},
    }
    let ghost here = pairs_view(out@);
    match rest {
        Some(r) => {
            let mut more = cookie_header_pairs(r.as_str());
            out.append(&mut more);
            assert(pairs_view(out@) =~= here + header_pairs(r@));
        },
        None => {
            assert(pairs_view(out@) =~= here);
        },
    }
    out
}

/// The index of the first entry named `key`.
pub fn entry_index(es: &Vec<(String, String)>, key: &str) -> (r: Option<usize>)
    ensures
        match r {
            Some(i) => key_index(pairs_view(es@), key@) == Some(i as int),
            None => key_index(pairs_view(es@), key@) is None,
        },
{
    let ghost ps = pairs_view(es@);
    proof {
        lemma_key_index(ps, key@);
    }
    let mut i: usize = 0;
    while i < es.len()
        invariant
            i <= es.len(),
            ps == pairs_view(es@),
            ps.len() == es@.len(),
            forall|j: int| 0 <= j < i ==> (#[trigger] ps[j]).0 != key@,
        decreases es.len() - i,
    {
        assert(ps[i as int] == (es@[i as int].0@, es@[i as int].1@));
        if str_eq(es[i].0.as_str(), key) {
            proof {
                lemma_key_index_at(ps, key@, i as int);
            }
            return Some(i);
        }
        i += 1;
    }
    None
}

/// Sets `key` to `value` in the entries: in place where the name exists, else appended.
pub fn upsert_entry(es: &mut Vec<(String, String)>, key: String, value: String)
    ensures
        pairs_view(final(es)@) == upsert(pairs_view(old(es)@), key@, value@),
{
    let ghost target = upsert(pairs_view(es@), key@, value@);
    proof {
        lemma_key_index(pairs_view(es@), key@);
    }
    match entry_index(es, key.as_str()) {
        Some(i) => {
            es.set(i, (key, value));
            assert(pairs_view(es@) =~= target);
        },
        None => {
            es.push((key, value));
            assert(pairs_view(es@) =~= target);
        },
    }
}

impl CookieJar {
    #[verifier::type_invariant]
    closed spec fn wf(self) -> bool {
        keys_unique(pairs_view(self.entries@))
    }

    /// An empty jar.
    pub fn new() -> (r: CookieJar)
        ensures
            r@ == Seq::<(Seq<char>, Seq<char>)>::empty(),
    {
        let r = CookieJar { entries: Vec::new() };
        assert(r@ =~= Seq::<(Seq<char>, Seq<char>)>::empty());
        r
    }

    /// Every entry, in order; no name occurs twice.
    pub fn entries(&self) -> (r: &[(String, String)])
        ensures
            pairs_view(r@) == self@,
            keys_unique(self@),
    {
        proof {
            use_type_invariant(self);
        }
        self.entries.as_slice()
    }

    /// The number of cookies.
    pub fn len(&self) -> (r: usize)
        ensures
            r == self@.len(),
    {
        self.entries.len()
    }

    pub fn is_empty(&self) -> (r: bool)
        ensures
            r == (self@.len() == 0),
    {
        self.entries.len() == 0
    }

    fn index_of(&self, key: &str) -> (r: Option<usize>)
        ensures
            match r {
                Some(i) => key_index(self@, key@) == Some(i as int),
                None => key_index(self@, key@) is None,
            },
    {
        let ghost es = self@;
        proof {
            lemma_key_index(es, key@);
        }
        let mut i: usize = 0;
        while i < self.entries.len()
            invariant
                i <= self.entries.len(),
                es == pairs_view(self.entries@),
                es.len() == self.entries@.len(),
                forall|j: int| 0 <= j < i ==> (#[trigger] es[j]).0 != key@,
            decreases self.entries.len() - i,
        {
            assert(es[i as int] == (self.entries@[i as int].0@, self.entries@[i as int].1@));
            if str_eq(self.entries[i].0.as_str(), key) {
                proof {
                    lemma_key_index_at(es, key@, i as int);
                }
                return Some(i);
            }
            i += 1;
        }
        None
    }

    /// The value of the cookie `key`.
    pub fn get(&self, key: &str) -> (r: Option<&str>)
        ensures
            match r {
                Some(v) => value_of(self@, key@) == Some(v@),
                None => value_of(self@, key@) is None,
            },
    {
        proof {
            lemma_key_index(self@, key@);
        }
        assert(self@.len() == self.entries@.len());
        match self.index_of(key) {
            Some(i) => {
                assert(self@[i as int] == (self.entries@[i as int].0@, self.entries@[i as int].1@));
                Some(self.entries[i].1.as_str())
            },
            None => None,
        }
    }

    pub fn contains_key(&self, key: &str) -> (r: bool)
        ensures
            r == (value_of(self@, key@) is Some),
    {
        self.index_of(key).is_some()
    }

    /// Sets the cookie `key` to `value`, in place where it exists.
    pub fn insert(&mut self, key: String, value: String)
        ensures
            final(self)@ == upsert(old(self)@, key@, value@),
    {
        proof {
            use_type_invariant(&*self);
            lemma_upsert(self@, key@, value@);
        }
        let ghost target = upsert(self@, key@, value@);
        proof {
            lemma_key_index(self@, key@);
        }
        assert(self@.len() == self.entries@.len());
        match self.index_of(key.as_str()) {
            Some(i) => {
                let mut es: Vec<(String, String)> = Vec::new();
                std::mem::swap(&mut es, &mut self.entries);
                es.set(i, (key, value));
                assert(pairs_view(es@) =~= target);
                self.entries = es;
            },
            None => {
                let mut es: Vec<(String, String)> = Vec::new();
                std::mem::swap(&mut es, &mut self.entries);
                es.push((key, value));
                assert(pairs_view(es@) =~= target);
                self.entries = es;
            },
        }
    }

    /// Removes every cookie.
    pub fn clear(&mut self)
        ensures
            final(self)@ == Seq::<(Seq<char>, Seq<char>)>::empty(),
    {
        self.entries = Vec::new();
        assert(self@ =~= Seq::<(Seq<char>, Seq<char>)>::empty());
    }

    /// A jar of the given pairs, a later pair replacing an earlier one of the same name.
    pub fn from_pairs(pairs: Vec<(String, String)>) -> (r: CookieJar)
        ensures
            r@ == upsert_all(Seq::empty(), pairs_view(pairs@)),
    {
        let mut jar = CookieJar::new();
        let ghost all = pairs_view(pairs@);
        for p in it: pairs
            invariant
                all == pairs_view(it.seq()),
                jar@ == upsert_all(Seq::empty(), all.take(it.index() as int)),
        {
            proof {
                assert(all.take(it.index() + 1).drop_last() =~= all.take(it.index() as int));
                assert(all[it.index() as int] == (p.0@, p.1@));
            }
            jar.insert(p.0, p.1);
        }
        assert(all.take(all.len() as int) =~= all);
        jar
    }

    /// Sets the cookies of a browser's `Cookie` header, in order; how many it read.
    pub fn import_header(&mut self, header: &str) -> (n: usize)
        ensures
            final(self)@ == upsert_all(old(self)@, header_pairs(header@)),
            n == header_pairs(header@).len(),
    {
        let pairs = cookie_header_pairs(header);
        let n = pairs.len();
        let ghost start = self@;
        let ghost all = pairs_view(pairs@);
        for p in it: pairs
            invariant
                all == pairs_view(it.seq()),
                self@ == upsert_all(start, all.take(it.index() as int)),
        {
            proof {
                assert(all.take(it.index() + 1).drop_last() =~= all.take(it.index() as int));
                assert(all[it.index() as int] == (p.0@, p.1@));
            }
            self.insert(p.0, p.1);
        }
        assert(all.take(all.len() as int) =~= all);
        n
    }

    /// The JSON text of the auth file for these cookies (a `Json` error where serde_json
    /// cannot render it).
    pub fn to_json_text(&self) -> (r: Result<String, AppError>)
        ensures
            match r {
                Ok(t) => json_encoding(jar_json(self@)) == Some(t@),
                Err(e) => json_encoding(jar_json(self@)) is None && e is Json,
            },
    {
        let mut es: Vec<(String, Json)> = Vec::new();
        let ghost want = jar_json(self@)->Object_0;
        let mut i: usize = 0;
        while i < self.entries.len()
            invariant
                i <= self.entries.len(),
                self@ == pairs_view(self.entries@),
                want == jar_json(self@)->Object_0,
                entries_view(es@) == want.take(i as int),
            decreases self.entries.len() - i,
        {
            let ghost before = es@;
            es.push((self.entries[i].0.clone(), Json::Str(self.entries[i].1.clone())));
            proof {
                assert(es@.drop_last() == before);
                assert(self@[i as int] == (self.entries@[i as int].0@, self.entries@[i as int].1@));
                assert(want[i as int] == (self.entries@[i as int].0@, JsonView::Str(self.entries@[i as int].1@)));
                assert(crate::json::view_of(es@.last().1) == JsonView::Str(self.entries@[i as int].1@));
                assert(entries_view(es@) == entries_view(before).push((es@.last().0@, crate::json::view_of(es@.last().1))));
                assert(want.take(i + 1) =~= want.take(i as int).push(want[i as int]));
            }
            i += 1;
        }
        proof {
            assert(want.take(self.entries.len() as int) =~= want);
        }
        object(es).to_text()
    }

    /// The cookies that an auth file's bytes hold; `None` where they are not a JSON object of
    /// strings.
    pub fn from_json_bytes(bytes: &[u8]) -> (r: Option<CookieJar>)
        ensures
            match r {
                Some(j) => jar_of_json(bytes@) == Some(j@),
                None => jar_of_json(bytes@) is None,
            },
    {
        let v = match json_from_bytes(bytes) {
            Ok(v) => v,
            Err(_) => return None,
        };
        let ghost decoded = v@;
        assert(json_decoding(bytes@) == Some(decoded));
        match v {
            Json::Object(es) => {
                proof {
                    lemma_entries_view(es@);
                }
                let ghost ev = entries_view(es@);
                assert(decoded == JsonView::Object(ev));
                let mut pairs: Vec<(String, String)> = Vec::new();
                let mut i: usize = 0;
                while i < es.len()
                    invariant
                        i <= es.len(),
                        ev == entries_view(es@),
                        json_decoding(bytes@) == Some(JsonView::Object(ev)),
                        ev.len() == es@.len(),
                        forall|j: int| 0 <= j < es@.len() ==> #[trigger] ev[j] == (es@[j].0@, crate::json::view_of(es@[j].1)),
                        all_strings(ev.take(i as int)),
                        pairs_view(pairs@) == ev.take(i as int).map_values(
                            |e: (Seq<char>, JsonView)| (e.0, e.1->Str_0),
                        ),
                    decreases es.len() - i,
                {
                    match &es[i].1 {
                        Json::Str(s) => {
                            let ghost before = pairs@;
                            pairs.push((es[i].0.clone(), s.clone()));
                            proof {
                                assert(pairs@.drop_last() == before);
                                assert(ev[i as int].1 == JsonView::Str(s@));
                                assert(pairs_view(pairs@) =~= pairs_view(before).push((es@[i as int].0@, s@)));
                                assert(ev.take(i + 1) =~= ev.take(i as int).push(ev[i as int]));
                                assert(pairs_view(pairs@) =~= ev.take(i + 1).map_values(
                                    |e: (Seq<char>, JsonView)| (e.0, e.1->Str_0),
                                ));
                            }
                        },
                        _ => {
                            proof {
                                assert(!(ev[i as int].1 is Str));
                                assert(!all_strings(ev));
                            }
                            return None;
                        },
                    }
                    i += 1;
                }
                proof {
                    assert(ev.take(es.len() as int) =~= ev);
                }
                Some(CookieJar::from_pairs(pairs))
            },
            _ => None,
        }
    }

    /// `name=value` for each cookie, joined with `; `.
    pub fn cookie_header(&self) -> (r: String)
        ensures
            r@ == header_text(self@),
    {
        let mut out = String::new();
        let mut i: usize = 0;
        while i < self.entries.len()
            invariant
                i <= self.entries.len(),
                out@ == header_text(self@.take(i as int)),
            decreases self.entries.len() - i,
        {
            let ghost prev = self@.take(i as int);
            assert(self@.take(i + 1).drop_last() =~= prev);
            assert(self@[i as int] == (self.entries@[i as int].0@, self.entries@[i as int].1@));
            if i > 0 {
                push_str(&mut out, "; ");
            } else {
                assert(out@ =~= Seq::<char>::empty());
            }
            push_str(&mut out, self.entries[i].0.as_str());
            push_str(&mut out, "=");
            push_str(&mut out, self.entries[i].1.as_str());
            proof {
                if i == 0 {
                    assert(out@ =~= header_text(self@.take(1)));
                } else {
                    assert(out@ =~= header_text(self@.take(i + 1)));
                }
            }
            i += 1;
        }
        assert(self@.take(self@.len() as int) =~= self@);
        out
    }

    /// The account's user id: the `unb` cookie, empty where it is missing.
    pub fn my_id(&self) -> (r: String)
        ensures
            r@ == match value_of(self@, "unb"@) {
                Some(v) => v,
                None => Seq::empty(),
            },
    {
        match self.get("unb") {
            Some(v) => owned(v),
            None => String::new(),
        }
    }

    /// Applies `Set-Cookie` lines in order; whether any value changed.
    pub fn merge_set_cookies(&mut self, lines: &[String]) -> (changed: bool)
        ensures
            final(self)@ == apply_set_cookies(old(self)@, lines@.map_values(|l: String| l@)),
            changed == set_cookies_change(old(self)@, lines@.map_values(|l: String| l@)),
    {
        let ghost start = self@;
        let ghost ls = lines@.map_values(|l: String| l@);
        let mut changed = false;
        let mut i: usize = 0;
        while i < lines.len()
            invariant
                i <= lines.len(),
                ls == lines@.map_values(|l: String| l@),
                self@ == apply_set_cookies(start, ls.take(i as int)),
                changed == set_cookies_change(start, ls.take(i as int)),
            decreases lines.len() - i,
        {
            assert(ls.take(i + 1).drop_last() =~= ls.take(i as int));
            assert(ls.take(i + 1).last() == lines@[i as int]@);
            match parse_set_cookie(lines[i].as_str()) {
                Some((k, v)) => {
                    let same = match self.get(k.as_str()) {
                        Some(old_v) => str_eq(old_v, v.as_str()),
                        None => false,
                    };
                    if !same {
                        self.insert(k, v);
                        changed = true;
                    }
                },
                None => {},
            }
            i += 1;
        }
        assert(ls.take(lines.len() as int) =~= ls);
        changed
    }
}

} // verus!
