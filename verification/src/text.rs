use vstd::prelude::*;

verus! {

/// Appending one character to a `String` extends its character sequence by that character.
pub assume_specification[ String::push ](s: &mut String, ch: char)
    ensures
        final(s)@ == old(s)@.push(ch),
;

/// Two string slices compare equal exactly when they hold the same characters.
pub assume_specification[ <str as PartialEq>::eq ](a: &str, b: &str) -> (r: bool)
    ensures
        r == (a@ == b@),
;

/// Whether `a` and `b` hold the same characters.
pub fn str_eq(a: &str, b: &str) -> (r: bool)
    ensures
        r == (a@ == b@),
{
    a.eq(b)
}

/// Unicode `White_Space` characters, the set that `char::is_whitespace` and `str::trim` use.
pub open spec fn is_ws(c: char) -> bool {
    ||| c == '\t'
    ||| c == '\n'
    ||| c == '\u{0B}'
    ||| c == '\u{0C}'
    ||| c == '\r'
    ||| c == ' '
    ||| c == '\u{85}'
    ||| c == '\u{A0}'
    ||| c == '\u{1680}'
    ||| ('\u{2000}' <= c && c <= '\u{200A}')
    ||| c == '\u{2028}'
    ||| c == '\u{2029}'
    ||| c == '\u{202F}'
    ||| c == '\u{205F}'
    ||| c == '\u{3000}'
}

/// `s` without its leading whitespace.
pub open spec fn trim_start_seq(s: Seq<char>) -> Seq<char>
    decreases s.len(),
{
    if s.len() > 0 && is_ws(s[0]) {
        trim_start_seq(s.drop_first())
    } else {
        s
    }
}

/// `s` without its trailing whitespace.
pub open spec fn trim_end_seq(s: Seq<char>) -> Seq<char>
    decreases s.len(),
{
    if s.len() > 0 && is_ws(s.last()) {
        trim_end_seq(s.drop_last())
    } else {
        s
    }
}

/// `s` without leading and trailing whitespace, as `str::trim` returns it.
pub open spec fn trim_seq(s: Seq<char>) -> Seq<char> {
    trim_end_seq(trim_start_seq(s))
}

pub open spec fn starts_with_seq(s: Seq<char>, p: Seq<char>) -> bool {
    p.len() <= s.len() && s.subrange(0, p.len() as int) == p
}

pub open spec fn ends_with_seq(s: Seq<char>, p: Seq<char>) -> bool {
    p.len() <= s.len() && s.subrange(s.len() - p.len(), s.len() as int) == p
}

/// `p` occurs in `s` starting at index `i`.
pub open spec fn occurs_at(s: Seq<char>, p: Seq<char>, i: int) -> bool {
    0 <= i && i + p.len() <= s.len() && s.subrange(i, i + p.len()) == p
}

pub open spec fn contains_seq(s: Seq<char>, p: Seq<char>) -> bool {
    exists|i: int| occurs_at(s, p, i)
}

/// The part of `s` before the first occurrence of `c`, or all of `s`:
/// what `s.split(c).next()` yields.
pub open spec fn before_char(s: Seq<char>, c: char) -> Seq<char>
    decreases s.len(),
{
    if s.len() == 0 {
        s
    } else if s[0] == c {
        Seq::empty()
    } else {
        seq![s[0]] + before_char(s.drop_first(), c)
    }
}

pub open spec fn digit_char(d: nat) -> char {
    if d == 0 { '0' }
    else if d == 1 { '1' }
    else if d == 2 { '2' }
    else if d == 3 { '3' }
    else if d == 4 { '4' }
    else if d == 5 { '5' }
    else if d == 6 { '6' }
    else if d == 7 { '7' }
    else if d == 8 { '8' }
    else { '9' }
}

/// The decimal rendering of `n`, without sign or leading zeros.
pub open spec fn decimal(n: nat) -> Seq<char>
    decreases n,
{
    if n < 10 {
        seq![digit_char(n)]
    } else {
        decimal(n / 10).push(digit_char(n % 10))
    }
}

/// Upper-case hexadecimal digit of `d`.
pub open spec fn hex_upper(d: nat) -> char {
    if d < 10 { digit_char(d) }
    else if d == 10 { 'A' }
    else if d == 11 { 'B' }
    else if d == 12 { 'C' }
    else if d == 13 { 'D' }
    else if d == 14 { 'E' }
    else { 'F' }
}

/// Lower-case hexadecimal digit of `d`.
pub open spec fn hex_lower(d: nat) -> char {
    if d < 10 { digit_char(d) }
    else if d == 10 { 'a' }
    else if d == 11 { 'b' }
    else if d == 12 { 'c' }
    else if d == 13 { 'd' }
    else if d == 14 { 'e' }
    else { 'f' }
}

pub fn is_whitespace(c: char) -> (r: bool)
    ensures
        r == is_ws(c),
{
    c == '\t' || c == '\n' || c == '\u{0B}' || c == '\u{0C}' || c == '\r' || c == ' '
        || c == '\u{85}' || c == '\u{A0}' || c == '\u{1680}' || ('\u{2000}' <= c && c
        <= '\u{200A}') || c == '\u{2028}' || c == '\u{2029}' || c == '\u{202F}' || c
        == '\u{205F}' || c == '\u{3000}'
}

/// The characters of `s`, in order.
pub fn chars_of(s: &str) -> (out: Vec<char>)
    ensures
        out@ == s@,
{
    let mut out: Vec<char> = Vec::new();
    for c in it: s.chars()
        invariant
            out@ == it.seq().take(it.index() as int),
            it.seq() == s@,
    {
        out.push(c);
    }
    out
}

/// The string made of the characters `cs[from..to]`.
pub fn string_of_range(cs: &Vec<char>, from: usize, to: usize) -> (out: String)
    requires
        from <= to <= cs.len(),
    ensures
        out@ == cs@.subrange(from as int, to as int),
{
    let mut out = String::new();
    let mut i: usize = from;
    while i < to
        invariant
            from <= i <= to <= cs.len(),
            out@ == cs@.subrange(from as int, i as int),
        decreases to - i,
    {
        out.push(cs[i]);
        assert(cs@.subrange(from as int, i + 1) =~= cs@.subrange(from as int, i as int).push(
            cs@[i as int],
        ));
        i += 1;
    }
    out
}

pub fn string_of(cs: &Vec<char>) -> (out: String)
    ensures
        out@ == cs@,
{
    let out = string_of_range(cs, 0, cs.len());
    assert(cs@.subrange(0, cs@.len() as int) =~= cs@);
    out
}

/// A fresh `String` holding the characters of `s`.
pub fn owned(s: &str) -> (out: String)
    ensures
        out@ == s@,
{
    let mut out = String::new();
    push_str(&mut out, s);
    out
}

/// Appends the characters of `t` to `s`.
pub fn push_str(s: &mut String, t: &str)
    ensures
        final(s)@ == old(s)@ + t@,
{
    s.append(t);
}

proof fn lemma_trim_start_skips(s: Seq<char>, i: int)
    requires
        0 <= i <= s.len(),
        forall|j: int| 0 <= j < i ==> is_ws(#[trigger] s[j]),
    ensures
        trim_start_seq(s) == trim_start_seq(s.subrange(i, s.len() as int)),
    decreases i,
{
    if i > 0 {
        lemma_trim_start_skips(s.drop_first(), i - 1);
        assert(s.drop_first().subrange(i - 1, s.drop_first().len() as int) =~= s.subrange(
            i,
            s.len() as int,
        ));
    } else {
        assert(s.subrange(0, s.len() as int) =~= s);
    }
}

proof fn lemma_trim_end_skips(s: Seq<char>, k: int)
    requires
        0 <= k <= s.len(),
        forall|j: int| k <= j < s.len() ==> is_ws(#[trigger] s[j]),
    ensures
        trim_end_seq(s) == trim_end_seq(s.subrange(0, k)),
    decreases s.len() - k,
{
    if k < s.len() {
        lemma_trim_end_skips(s.drop_last(), k);
        assert(s.drop_last().subrange(0, k) =~= s.subrange(0, k));
    } else {
        assert(s.subrange(0, s.len() as int) =~= s);
    }
}

/// Whitespace-trimmed copy of `s`, as `s.trim()`.
pub fn trim(s: &str) -> (out: String)
    ensures
        out@ == trim_seq(s@),
{
    let cs = chars_of(s);
    let n = cs.len();
    let mut i: usize = 0;
    while i < n && is_whitespace(cs[i])
        invariant
            i <= n == cs.len(),
            forall|j: int| 0 <= j < i ==> is_ws(#[trigger] cs@[j]),
        decreases n - i,
    {
        i += 1;
    }
    let mut k: usize = n;
    while k > i && is_whitespace(cs[k - 1])
        invariant
            i <= k <= n == cs.len(),
            forall|j: int| k <= j < n ==> is_ws(#[trigger] cs@[j]),
        decreases k,
    {
        k -= 1;
    }
    proof {
        lemma_trim_start_skips(cs@, i as int);
        let rest = cs@.subrange(i as int, n as int);
        assert(trim_start_seq(rest) == rest);
        assert forall|j: int| k - i <= j < rest.len() implies is_ws(#[trigger] rest[j]) by {
            assert(rest[j] == cs@[j + i]);
        }
        lemma_trim_end_skips(rest, k - i);
        let mid = rest.subrange(0, k - i);
        assert(mid =~= cs@.subrange(i as int, k as int));
        if mid.len() > 0 {
            assert(mid.last() == cs@[k - 1]);
        }
        assert(trim_end_seq(mid) == mid);
    }
    string_of_range(&cs, i, k)
}

/// Whether `s` starts with `p`.
pub fn starts_with(s: &str, p: &str) -> (r: bool)
    ensures
        r == starts_with_seq(s@, p@),
{
    let cs = chars_of(s);
    let ps = chars_of(p);
    if ps.len() > cs.len() {
        return false;
    }
    let mut i: usize = 0;
    while i < ps.len()
        invariant
            i <= ps.len() <= cs.len(),
            cs@ == s@,
            ps@ == p@,
            forall|j: int| 0 <= j < i ==> cs@[j] == ps@[j],
        decreases ps.len() - i,
    {
        if cs[i] != ps[i] {
            assert(cs@.subrange(0, ps@.len() as int)[i as int] != ps@[i as int]);
            assert(cs@.subrange(0, ps@.len() as int) != ps@);
            return false;
        }
        i += 1;
    }
    assert(cs@.subrange(0, ps@.len() as int) =~= ps@);
    true
}

/// Whether `p` occurs in `cs` at index `at`.
pub fn occurs_at_exec(cs: &Vec<char>, ps: &Vec<char>, at: usize) -> (r: bool)
    ensures
        r == occurs_at(cs@, ps@, at as int),
{
    if at > cs.len() || ps.len() > cs.len() - at {
        return false;
    }
    let mut i: usize = 0;
    while i < ps.len()
        invariant
            i <= ps.len(),
            at + ps.len() <= cs.len(),
            forall|j: int| 0 <= j < i ==> cs@[at + j] == ps@[j],
        decreases ps.len() - i,
    {
        if cs[at + i] != ps[i] {
            assert(cs@.subrange(at as int, at + ps@.len())[i as int] != ps@[i as int]);
            return false;
        }
        i += 1;
    }
    assert(cs@.subrange(at as int, at + ps@.len()) =~= ps@);
    true
}

/// Whether `s` ends with `p`.
pub fn ends_with(s: &str, p: &str) -> (r: bool)
    ensures
        r == ends_with_seq(s@, p@),
{
    let cs = chars_of(s);
    let ps = chars_of(p);
    if ps.len() > cs.len() {
        return false;
    }
    occurs_at_exec(&cs, &ps, cs.len() - ps.len())
}

/// Whether `p` occurs anywhere in `cs`.
pub fn contains_chars(cs: &Vec<char>, ps: &Vec<char>) -> (r: bool)
    ensures
        r == contains_seq(cs@, ps@),
{
    if ps.len() > cs.len() {
        assert forall|i: int| !occurs_at(cs@, ps@, i) by {}
        return false;
    }
    let last = cs.len() - ps.len();
    let mut i: usize = 0;
    loop
        invariant
            i <= last,
            last + ps.len() == cs.len(),
            forall|j: int| 0 <= j < i ==> !occurs_at(cs@, ps@, j),
        ensures
            forall|j: int| 0 <= j <= last ==> !occurs_at(cs@, ps@, j),
        decreases last - i,
    {
        if occurs_at_exec(cs, ps, i) {
            return true;
        }
        if i == last {
            break;
        }
        i += 1;
    }
    assert forall|j: int| !occurs_at(cs@, ps@, j) by {
        if 0 <= j <= last {
        }
    }
    false
}

/// Whether `p` occurs anywhere in `s`.
pub fn contains(s: &str, p: &str) -> (r: bool)
    ensures
        r == contains_seq(s@, p@),
{
    let cs = chars_of(s);
    let ps = chars_of(p);
    contains_chars(&cs, &ps)
}

proof fn lemma_before_char_prefix(s: Seq<char>, c: char, i: int)
    requires
        0 <= i <= s.len(),
        forall|j: int| 0 <= j < i ==> #[trigger] s[j] != c,
        i == s.len() || s[i] == c,
    ensures
        before_char(s, c) == s.subrange(0, i),
    decreases i,
{
    if i == 0 {
        if s.len() == 0 {
            assert(s.subrange(0, 0) =~= s);
        } else {
            assert(s.subrange(0, 0) =~= Seq::<char>::empty());
        }
    } else {
        lemma_before_char_prefix(s.drop_first(), c, i - 1);
        assert(seq![s[0]] + s.drop_first().subrange(0, i - 1) =~= s.subrange(0, i));
    }
}

/// The part of `s` before the first `c`: `s.split(c).next().unwrap_or("")`.
pub fn split_first(s: &str, c: char) -> (out: String)
    ensures
        out@ == before_char(s@, c),
{
    let cs = chars_of(s);
    let mut i: usize = 0;
    while i < cs.len() && cs[i] != c
        invariant
            i <= cs.len(),
            forall|j: int| 0 <= j < i ==> #[trigger] cs@[j] != c,
        decreases cs.len() - i,
    {
        i += 1;
    }
    proof {
        lemma_before_char_prefix(cs@, c, i as int);
    }
    string_of_range(&cs, 0, i)
}

proof fn lemma_decimal_nonempty(n: nat)
    ensures
        decimal(n).len() >= 1,
    decreases n,
{
    if n >= 10 {
        lemma_decimal_nonempty(n / 10);
    }
}

fn digit_of(d: u8) -> (c: char)
    requires
        d < 10,
    ensures
        c == digit_char(d as nat),
{
    if d == 0 { '0' }
    else if d == 1 { '1' }
    else if d == 2 { '2' }
    else if d == 3 { '3' }
    else if d == 4 { '4' }
    else if d == 5 { '5' }
    else if d == 6 { '6' }
    else if d == 7 { '7' }
    else if d == 8 { '8' }
    else { '9' }
}

/// Decimal rendering of `n`, as `n.to_string()`.
pub fn decimal_u128(n: u128) -> (out: String)
    ensures
        out@ == decimal(n as nat),
    decreases n,
{
    if n < 10 {
        let mut out = String::new();
        out.push(digit_of(n as u8));
        out
    } else {
        let mut out = decimal_u128(n / 10);
        out.push(digit_of((n % 10) as u8));
        out
    }
}

/// Decimal rendering of `n`, as `n.to_string()`.
pub fn decimal_u64(n: u64) -> (out: String)
    ensures
        out@ == decimal(n as nat),
{
    decimal_u128(n as u128)
}

/// Decimal rendering of `n`, as `n.to_string()`.
pub fn decimal_usize(n: usize) -> (out: String)
    ensures
        out@ == decimal(n as nat),
{
    decimal_u128(n as u128)
}

/// Upper-case hex digit for `d < 16`.
pub fn hex_upper_digit(d: u8) -> (c: char)
    requires
        d < 16,
    ensures
        c == hex_upper(d as nat),
{
    if d < 10 { digit_of(d) }
    else if d == 10 { 'A' }
    else if d == 11 { 'B' }
    else if d == 12 { 'C' }
    else if d == 13 { 'D' }
    else if d == 14 { 'E' }
    else { 'F' }
}

/// Lower-case hex digit for `d < 16`.
pub fn hex_lower_digit(d: u8) -> (c: char)
    requires
        d < 16,
    ensures
        c == hex_lower(d as nat),
{
    if d < 10 { digit_of(d) }
    else if d == 10 { 'a' }
    else if d == 11 { 'b' }
    else if d == 12 { 'c' }
    else if d == 13 { 'd' }
    else if d == 14 { 'e' }
    else { 'f' }
}

} // verus!

verus! {

/// The first index at or after `i` where `p` occurs in `s`.
pub open spec fn find_from(s: Seq<char>, p: Seq<char>, i: int) -> Option<int>
    decreases s.len() + 1 - i,
{
    if i < 0 || i + p.len() > s.len() {
        None
    } else if occurs_at(s, p, i) {
        Some(i)
    } else {
        find_from(s, p, i + 1)
    }
}

/// The second piece of `s.split(sep)`: what lies between the first `sep` and the next one
/// (or the end); `None` where `sep` does not occur.
pub open spec fn second_piece(s: Seq<char>, sep: Seq<char>) -> Option<Seq<char>> {
    match find_from(s, sep, 0) {
        None => None,
        Some(i) => {
            let rest = s.subrange(i + sep.len(), s.len() as int);
            match find_from(rest, sep, 0) {
                None => Some(rest),
                Some(j) => Some(rest.subrange(0, j)),
            }
        },
    }
}

/// The first index at or after `from` where `ps` occurs in `cs`.
pub fn find_chars(cs: &Vec<char>, ps: &Vec<char>, from: usize) -> (r: Option<usize>)
    ensures
        match r {
            Some(i) => find_from(cs@, ps@, from as int) == Some(i as int),
            None => find_from(cs@, ps@, from as int) is None,
        },
    decreases cs.len() + 1 - from,
{
    if from > cs.len() || ps.len() > cs.len() - from {
        return None;
    }
    if occurs_at_exec(cs, ps, from) {
        Some(from)
    } else if from >= cs.len() {
        None
    } else {
        assert(find_from(cs@, ps@, from as int) == find_from(cs@, ps@, from + 1));
        find_chars(cs, ps, from + 1)
    }
}

pub proof fn lemma_find_from_occurs(s: Seq<char>, p: Seq<char>, k: int)
    requires
        k >= 0,
    ensures
        find_from(s, p, k) matches Some(i) ==> occurs_at(s, p, i) && k <= i,
        find_from(s, p, k) is None ==> forall|j: int| k <= j ==> !occurs_at(s, p, j),
    decreases s.len() + 1 - k,
{
    if k + p.len() > s.len() {
        assert forall|j: int| k <= j implies !occurs_at(s, p, j) by {}
    } else if !occurs_at(s, p, k) {
        lemma_find_from_occurs(s, p, k + 1);
    }
}

/// The second piece of `s.split(sep)`, for a non-empty `sep`.
pub fn split_second(s: &str, sep: &str) -> (r: Option<String>)
    requires
        sep@.len() > 0,
    ensures
        match r {
            Some(t) => second_piece(s@, sep@) == Some(t@),
            None => second_piece(s@, sep@) is None,
        },
{
    let cs = chars_of(s);
    let ps = chars_of(sep);
    match find_chars(&cs, &ps, 0) {
        None => None,
        Some(i) => {
            proof {
                lemma_find_from_occurs(cs@, ps@, 0);
                assert(occurs_at(cs@, ps@, i as int));
                assert(i + ps@.len() <= cs@.len());
                assert(cs@.len() == cs.len());
            }
            let start = i + ps.len();
            let rest_str = string_of_range(&cs, start, cs.len());
            let rest = chars_of(rest_str.as_str());
            match find_chars(&rest, &ps, 0) {
                None => Some(rest_str),
                Some(j) => {
                    proof {
                        lemma_find_from_occurs(rest@, ps@, 0);
                        assert(occurs_at(rest@, ps@, j as int));
                    }
                    Some(string_of_range(&rest, 0, j))
                },
            }
        },
    }
}

} // verus!
