//! Text primitives over `str`, each stated over the sequence of its characters.

use vstd::prelude::*;
use vstd::utf8::{encode_scalar, encode_utf8};

verus! {

/// Unicode `White_Space`, the property that `str::trim` goes by.
pub open spec fn is_white(c: char) -> bool {
    ||| '\u{9}' <= c && c <= '\u{d}'
    ||| c == ' '
    ||| c == '\u{85}'
    ||| c == '\u{a0}'
    ||| c == '\u{1680}'
    ||| '\u{2000}' <= c && c <= '\u{200a}'
    ||| c == '\u{2028}'
    ||| c == '\u{2029}'
    ||| c == '\u{202f}'
    ||| c == '\u{205f}'
    ||| c == '\u{3000}'
}

/// The characters that a trim takes off an end.
#[derive(Clone, Copy)]
pub enum Trim {
    White,
    Only(char),
    Quotes,
}

impl Trim {
    pub open spec fn takes(self, c: char) -> bool {
        match self {
            Trim::White => is_white(c),
            Trim::Only(x) => c == x,
            Trim::Quotes => c == '\'' || c == '"',
        }
    }

    /// Whether this trim takes `c`.
    pub fn takes_char(self, c: char) -> (taken: bool)
        ensures
            taken == self.takes(c),
    {
        match self {
            Trim::White => {
                ('\u{9}' <= c && c <= '\u{d}') || c == ' ' || c == '\u{85}' || c == '\u{a0}'
                    || c == '\u{1680}' || ('\u{2000}' <= c && c <= '\u{200a}') || c == '\u{2028}'
                    || c == '\u{2029}' || c == '\u{202f}' || c == '\u{205f}' || c == '\u{3000}'
            },
            Trim::Only(x) => c == x,
            Trim::Quotes => c == '\'' || c == '"',
        }
    }
}

/// `s` without the leading characters that `t` takes.
pub open spec fn strip_front(s: Seq<char>, t: Trim) -> Seq<char>
    decreases s.len(),
{
    if s.len() > 0 && t.takes(s[0]) {
        strip_front(s.skip(1), t)
    } else {
        s
    }
}

/// `s` without the trailing characters that `t` takes.
pub open spec fn strip_back(s: Seq<char>, t: Trim) -> Seq<char>
    decreases s.len(),
{
    if s.len() > 0 && t.takes(s.last()) {
        strip_back(s.drop_last(), t)
    } else {
        s
    }
}

/// `s` without the characters that `t` takes at either end.
pub open spec fn strip(s: Seq<char>, t: Trim) -> Seq<char> {
    strip_back(strip_front(s, t), t)
}

/// `s` without the white space around it.
pub open spec fn trimmed(s: Seq<char>) -> Seq<char> {
    strip(s, Trim::White)
}

/// The characters of `s`.
pub fn chars_of(s: &str) -> (chars: Vec<char>)
    ensures
        chars@ == s@,
{
    let mut chars: Vec<char> = Vec::new();
    for c in it: s.chars()
        invariant
            chars@ == it.seq().take(it.index()),
            it.seq() == s@,
    {
        chars.push(c);
    }
    chars
}

pub fn strip_front_of<'a>(s: &'a str, t: Trim) -> (rest: &'a str)
    ensures
        rest@ == strip_front(s@, t),
{
    let chars = chars_of(s);
    let n: usize = chars.len();
    let mut lo: usize = 0;
    assert(s@.skip(0) == s@);
    while lo < n && t.takes_char(chars[lo])
        invariant
            n == chars@.len(),
            chars@ == s@,
            lo <= n,
            strip_front(s@, t) == strip_front(s@.skip(lo as int), t),
        decreases n - lo,
    {
        assert(s@.skip(lo as int).skip(1) == s@.skip(lo + 1));
        lo = lo + 1;
    }
    let rest = s.substring_char(lo, n);
    assert(rest@ == s@.skip(lo as int));
    rest
}

pub fn strip_back_of<'a>(s: &'a str, t: Trim) -> (rest: &'a str)
    ensures
        rest@ == strip_back(s@, t),
{
    let chars = chars_of(s);
    let mut hi: usize = chars.len();
    assert(s@.take(hi as int) == s@);
    while hi > 0 && t.takes_char(chars[hi - 1])
        invariant
            chars@ == s@,
            hi <= chars@.len(),
            strip_back(s@, t) == strip_back(s@.take(hi as int), t),
        decreases hi,
    {
        assert(s@.take(hi as int).drop_last() == s@.take(hi - 1));
        hi = hi - 1;
    }
    let rest = s.substring_char(0, hi);
    assert(rest@ == s@.take(hi as int));
    rest
}

/// `s` without the characters that `t` takes at either end.
pub fn strip_of<'a>(s: &'a str, t: Trim) -> (rest: &'a str)
    ensures
        rest@ == strip(s@, t),
{
    strip_back_of(strip_front_of(s, t), t)
}

/// `s` without the white space around it.
pub fn trim<'a>(s: &'a str) -> (rest: &'a str)
    ensures
        rest@ == trimmed(s@),
{
    strip_of(s, Trim::White)
}

/// Whether the two texts hold the same characters.
pub fn same(a: &str, b: &str) -> (equal: bool)
    ensures
        equal == (a@ == b@),
{
    a.to_owned() == b.to_owned()
}

/// The texts behind a sequence of slices.
pub open spec fn views(parts: Seq<&str>) -> Seq<Seq<char>> {
    parts.map_values(|part: &str| part@)
}

/// How many characters stand before the first `c`; all of them where there is none.
pub open spec fn until(s: Seq<char>, c: char) -> int
    decreases s.len(),
{
    if s.len() == 0 || s[0] == c {
        0
    } else {
        1 + until(s.skip(1), c)
    }
}

/// The pieces of `s` between its occurrences of `sep`.
pub open spec fn split(s: Seq<char>, sep: char) -> Seq<Seq<char>>
    decreases s.len(),
    via split_decreases
{
    let i = until(s, sep);
    if i < s.len() {
        seq![s.take(i)] + split(s.skip(i + 1), sep)
    } else {
        seq![s]
    }
}

#[via_fn]
proof fn split_decreases(s: Seq<char>, sep: char) {
    lemma_until(s, sep);
}

pub proof fn lemma_until(s: Seq<char>, c: char)
    ensures
        0 <= until(s, c) <= s.len(),
        until(s, c) < s.len() ==> s[until(s, c)] == c,
        forall|k: int| 0 <= k < until(s, c) ==> s[k] != c,
    decreases s.len(),
{
    if s.len() == 0 || s[0] == c {
    } else {
        lemma_until(s.skip(1), c);
        assert forall|k: int| 0 <= k < until(s, c) implies s[k] != c by {
            if k > 0 {
                assert(s[k] == s.skip(1)[k - 1]);
            }
        }
    }
}

proof fn lemma_until_is(s: Seq<char>, c: char, n: int)
    requires
        0 <= n <= s.len(),
        n < s.len() ==> s[n] == c,
        forall|k: int| 0 <= k < n ==> s[k] != c,
    ensures
        until(s, c) == n,
{
    lemma_until(s, c);
    let i = until(s, c);
    if i < n {
        assert(s[i] != c);
    }
    if n < i {
        assert(s[n] != c);
    }
}

/// Where the first `c` stands in `s`, which is its length where there is none.
pub fn find_char(chars: &Vec<char>, from: usize, c: char) -> (at: usize)
    requires
        from <= chars@.len(),
    ensures
        at == from + until(chars@.skip(from as int), c),
        from <= at <= chars@.len(),
{
    let mut at: usize = from;
    while at < chars.len() && chars[at] != c
        invariant
            from <= at <= chars@.len(),
            forall|k: int| from <= k < at ==> chars@[k] != c,
        decreases chars@.len() - at,
    {
        at = at + 1;
    }
    proof {
        let tail = chars@.skip(from as int);
        assert forall|k: int| 0 <= k < at - from implies tail[k] != c by {
            assert(tail[k] == chars@[from + k]);
        }
        lemma_until_is(tail, c, at - from);
    }
    at
}

/// The pieces of `s` between its occurrences of `sep`.
pub fn split_on<'a>(s: &'a str, sep: char) -> (parts: Vec<&'a str>)
    ensures
        views(parts@) == split(s@, sep),
        parts@.len() > 0,
{
    let chars = chars_of(s);
    let n: usize = chars.len();
    let mut parts: Vec<&'a str> = Vec::new();
    let mut start: usize = 0;
    assert(s@.skip(0) == s@);
    assert(views(parts@) + split(s@, sep) == split(s@, sep));
    loop
        invariant
            chars@ == s@,
            n == chars@.len(),
            start <= n,
            split(s@, sep) == views(parts@) + split(s@.skip(start as int), sep),
        decreases n - start,
    {
        let at = find_char(&chars, start, sep);
        let piece = s.substring_char(start, at);
        let ghost before = views(parts@);
        let ghost tail = s@.skip(start as int);
        parts.push(piece);
        assert(views(parts@) == before.push(piece@));
        if at == n {
            assert(piece@ == tail);
            assert(before + seq![tail] == before.push(piece@));
            return parts;
        }
        assert(piece@ == tail.take(until(tail, sep)));
        assert(tail.skip(until(tail, sep) + 1) == s@.skip(at + 1));
        assert(before + (seq![piece@] + split(s@.skip(at + 1), sep)) == before.push(piece@)
            + split(s@.skip(at + 1), sep));
        start = at + 1;
    }
}

/// `line` without one carriage return at its end.
pub open spec fn chomp(line: Seq<char>) -> Seq<char> {
    if line.len() > 0 && line.last() == '\r' {
        line.drop_last()
    } else {
        line
    }
}

/// The lines of `s`. A line ends at a line feed, with a carriage return before it where there
/// is one; the end of the last line is optional.
pub open spec fn lines(s: Seq<char>) -> Seq<Seq<char>>
    decreases s.len(),
    via lines_decreases
{
    let i = until(s, '\n');
    if s.len() == 0 {
        Seq::empty()
    } else if i < s.len() {
        seq![chomp(s.take(i))] + lines(s.skip(i + 1))
    } else {
        seq![s]
    }
}

#[via_fn]
proof fn lines_decreases(s: Seq<char>) {
    lemma_until(s, '\n');
}

/// The lines of `s`.
pub fn lines_of<'a>(s: &'a str) -> (out: Vec<&'a str>)
    ensures
        views(out@) == lines(s@),
{
    let chars = chars_of(s);
    let n: usize = chars.len();
    let mut out: Vec<&'a str> = Vec::new();
    let mut start: usize = 0;
    assert(s@.skip(0) == s@);
    assert(views(out@) + lines(s@) == lines(s@));
    while start < n
        invariant
            chars@ == s@,
            n == chars@.len(),
            start <= n,
            lines(s@) == views(out@) + lines(s@.skip(start as int)),
        decreases n - start,
    {
        let at = find_char(&chars, start, '\n');
        let ghost before = views(out@);
        let ghost tail = s@.skip(start as int);
        if at == n {
            let piece = s.substring_char(start, n);
            out.push(piece);
            assert(piece@ == tail);
            assert(views(out@) == before.push(piece@));
            assert(before + seq![tail] == before.push(piece@));
            return out;
        }
        let end: usize = if at > start && chars[at - 1] == '\r' {
            at - 1
        } else {
            at
        };
        let piece = s.substring_char(start, end);
        out.push(piece);
        assert(piece@ == chomp(tail.take(until(tail, '\n'))));
        assert(views(out@) == before.push(piece@));
        assert(tail.skip(until(tail, '\n') + 1) == s@.skip(at + 1));
        assert(before + (seq![piece@] + lines(s@.skip(at + 1))) == before.push(piece@) + lines(
            s@.skip(at + 1),
        ));
        start = at + 1;
    }
    assert(s@.skip(n as int) == Seq::<char>::empty());
    assert(views(out@) + Seq::<Seq<char>>::empty() == views(out@));
    out
}

/// How many characters at the front of `s` are not white space.
pub open spec fn word_len(s: Seq<char>) -> int
    decreases s.len(),
{
    if s.len() == 0 || is_white(s[0]) {
        0
    } else {
        1 + word_len(s.skip(1))
    }
}

/// The runs of characters of `s` that are not white space.
pub open spec fn words(s: Seq<char>) -> Seq<Seq<char>>
    decreases s.len(),
    via words_decreases
{
    if s.len() == 0 {
        Seq::empty()
    } else if is_white(s[0]) {
        words(s.skip(1))
    } else {
        seq![s.take(word_len(s))] + words(s.skip(word_len(s)))
    }
}

#[via_fn]
proof fn words_decreases(s: Seq<char>) {
    lemma_word_len(s);
}

proof fn lemma_word_len(s: Seq<char>)
    ensures
        0 <= word_len(s) <= s.len(),
        s.len() > 0 && !is_white(s[0]) ==> word_len(s) > 0,
    decreases s.len(),
{
    if s.len() == 0 || is_white(s[0]) {
    } else {
        lemma_word_len(s.skip(1));
    }
}

/// The runs of characters of `s` that are not white space.
pub fn words_of<'a>(s: &'a str) -> (out: Vec<&'a str>)
    ensures
        views(out@) == words(s@),
{
    let chars = chars_of(s);
    let n: usize = chars.len();
    let mut out: Vec<&'a str> = Vec::new();
    let mut start: usize = 0;
    assert(s@.skip(0) == s@);
    assert(views(out@) + words(s@) == words(s@));
    while start < n
        invariant
            chars@ == s@,
            n == chars@.len(),
            start <= n,
            words(s@) == views(out@) + words(s@.skip(start as int)),
        decreases n - start,
    {
        let ghost before = views(out@);
        let ghost tail = s@.skip(start as int);
        if Trim::White.takes_char(chars[start]) {
            assert(tail.skip(1) == s@.skip(start + 1));
            start = start + 1;
        } else {
            let mut end: usize = start;
            while end < n && !Trim::White.takes_char(chars[end])
                invariant
                    chars@ == s@,
                    n == chars@.len(),
                    start <= end <= n,
                    start < n && !is_white(s@[start as int]),
                    word_len(s@.skip(start as int)) == (end - start) + word_len(
                        s@.skip(end as int),
                    ),
                decreases n - end,
            {
                assert(s@.skip(end as int).skip(1) == s@.skip(end + 1));
                end = end + 1;
            }
            proof {
                lemma_word_len(tail);
            }
            let piece = s.substring_char(start, end);
            out.push(piece);
            assert(piece@ == tail.take(word_len(tail)));
            assert(views(out@) == before.push(piece@));
            assert(tail.skip(word_len(tail)) == s@.skip(end as int));
            assert(before + (seq![piece@] + words(s@.skip(end as int))) == before.push(piece@)
                + words(s@.skip(end as int)));
            start = end;
        }
    }
    assert(s@.skip(n as int) == Seq::<char>::empty());
    assert(views(out@) + Seq::<Seq<char>>::empty() == views(out@));
    out
}

/// What follows `prefix` in `s`, where `s` starts with it.
pub open spec fn after_prefix(s: Seq<char>, prefix: Seq<char>) -> Option<Seq<char>> {
    if prefix.is_prefix_of(s) {
        Some(s.skip(prefix.len() as int))
    } else {
        None
    }
}

/// The text that an optional slice holds.
pub open spec fn view_of(s: Option<&str>) -> Option<Seq<char>> {
    match s {
        Some(text) => Some(text@),
        None => None,
    }
}

/// What follows `prefix` in `s`, where `s` starts with it.
pub fn strip_prefix<'a>(s: &'a str, prefix: &str) -> (rest: Option<&'a str>)
    ensures
        view_of(rest) == after_prefix(s@, prefix@),
{
    let n: usize = s.unicode_len();
    let k: usize = prefix.unicode_len();
    if k > n {
        return None;
    }
    if same(s.substring_char(0, k), prefix) {
        Some(s.substring_char(k, n))
    } else {
        None
    }
}

/// Whether `s` starts with `prefix`.
pub fn starts_with(s: &str, prefix: &str) -> (found: bool)
    ensures
        found == prefix@.is_prefix_of(s@),
{
    strip_prefix(s, prefix).is_some()
}

/// An ASCII upper-case letter in lower case; any other character as it is.
pub open spec fn ascii_lower(c: char) -> char {
    if 'A' <= c && c <= 'Z' {
        (c as u8 + 32) as u8 as char
    } else {
        c
    }
}

/// `s` with its ASCII letters in lower case.
pub open spec fn folded(s: Seq<char>) -> Seq<char> {
    s.map_values(|c: char| ascii_lower(c))
}

/// Whether two texts are equal but for the case of ASCII letters.
pub open spec fn same_folded(a: Seq<char>, b: Seq<char>) -> bool {
    folded(a) == folded(b)
}

fn lower_char(c: char) -> (low: char)
    ensures
        low == ascii_lower(c),
{
    if 'A' <= c && c <= 'Z' {
        (c as u8 + 32) as char
    } else {
        c
    }
}

/// Whether two texts are equal but for the case of ASCII letters.
pub fn eq_ignore_ascii_case(a: &str, b: &str) -> (equal: bool)
    ensures
        equal == same_folded(a@, b@),
{
    let x = chars_of(a);
    let y = chars_of(b);
    if x.len() != y.len() {
        assert(folded(a@).len() != folded(b@).len());
        return false;
    }
    let n: usize = x.len();
    let mut i: usize = 0;
    while i < n
        invariant
            x@ == a@,
            y@ == b@,
            n == x@.len() == y@.len(),
            i <= n,
            forall|k: int| 0 <= k < i ==> ascii_lower(a@[k]) == ascii_lower(b@[k]),
        decreases n - i,
    {
        if lower_char(x[i]) != lower_char(y[i]) {
            assert(folded(a@)[i as int] != folded(b@)[i as int]);
            return false;
        }
        i = i + 1;
    }
    assert(folded(a@) =~= folded(b@));
    true
}

/// Whether `c` occurs in `s`.
pub fn contains_char(s: &str, c: char) -> (found: bool)
    ensures
        found == s@.contains(c),
{
    let chars = chars_of(s);
    let at = find_char(&chars, 0, c);
    proof {
        assert(s@.skip(0) == s@);
        lemma_until(s@, c);
        if at < s@.len() {
            assert(s@[at as int] == c);
        } else {
            assert forall|k: int| 0 <= k < s@.len() implies s@[k] != c by {}
        }
    }
    at < chars.len()
}

/// Whether `part` occurs in `s`.
pub open spec fn occurs(s: Seq<char>, part: Seq<char>) -> bool {
    exists|i: int| 0 <= i <= s.len() && #[trigger] part.is_prefix_of(s.skip(i))
}

/// Whether `part` occurs in `s`.
pub fn contains_text(s: &str, part: &str) -> (found: bool)
    ensures
        found == occurs(s@, part@),
{
    let n: usize = s.unicode_len();
    let mut i: usize = 0;
    loop
        invariant
            n == s@.len(),
            i <= n,
            forall|k: int| 0 <= k < i ==> !#[trigger] part@.is_prefix_of(s@.skip(k)),
        decreases n - i,
    {
        let tail = s.substring_char(i, n);
        assert(tail@ == s@.skip(i as int));
        if starts_with(tail, part) {
            return true;
        }
        if i == n {
            return false;
        }
        i = i + 1;
    }
}

/// The text that an optional string holds.
pub open spec fn owned(s: Option<String>) -> Option<Seq<char>> {
    match s {
        Some(text) => Some(text@),
        None => None,
    }
}

/// A copy of an optional string.
pub fn copy_of(s: &Option<String>) -> (copy: Option<String>)
    ensures
        copy == *s,
{
    match s {
        Some(text) => Some(text.clone()),
        None => None,
    }
}

/// Whether an optional string holds exactly `text`.
pub fn holds(s: &Option<String>, text: &str) -> (equal: bool)
    ensures
        equal == (owned(*s) == Some(text@)),
{
    match s {
        Some(found) => same(found.as_str(), text),
        None => false,
    }
}

/// The length of `s` in UTF-8.
pub open spec fn utf8_len(s: Seq<char>) -> nat {
    encode_utf8(s).len()
}

/// The length of `s` in bytes.
pub fn byte_len(s: &str) -> (n: usize)
    ensures
        n == utf8_len(s@),
{
    s.as_bytes().len()
}

/// The bytes of two texts in a row are those of the first, then those of the second.
pub proof fn lemma_utf8_concat(a: Seq<char>, b: Seq<char>)
    ensures
        encode_utf8(a + b) == encode_utf8(a) + encode_utf8(b),
    decreases a.len(),
{
    if a.len() == 0 {
        assert(a + b == b);
        assert(encode_utf8(a) + encode_utf8(b) == encode_utf8(b));
    } else {
        assert((a + b).drop_first() == a.drop_first() + b);
        lemma_utf8_concat(a.drop_first(), b);
        assert(encode_scalar(a[0] as u32) + (encode_utf8(a.drop_first()) + encode_utf8(b)) == (
        encode_scalar(a[0] as u32) + encode_utf8(a.drop_first())) + encode_utf8(b));
    }
}

/// What is trimmed off the front stood at the front.
pub proof fn lemma_strip_front(s: Seq<char>, t: Trim)
    ensures
        strip_front(s, t).len() <= s.len(),
        strip_front(s, t) == s.skip(s.len() - strip_front(s, t).len()),
        strip_front(s, t).len() > 0 ==> !t.takes(strip_front(s, t)[0]),
    decreases s.len(),
{
    if s.len() > 0 && t.takes(s[0]) {
        lemma_strip_front(s.skip(1), t);
        assert(s.skip(1).skip(s.skip(1).len() - strip_front(s, t).len()) == s.skip(
            s.len() - strip_front(s, t).len(),
        ));
    } else {
        assert(s.skip(0) == s);
    }
}

/// What is trimmed off the back stood at the back.
pub proof fn lemma_strip_back(s: Seq<char>, t: Trim)
    ensures
        strip_back(s, t).len() <= s.len(),
        strip_back(s, t) == s.take(strip_back(s, t).len() as int),
        strip_back(s, t).len() > 0 ==> !t.takes(strip_back(s, t).last()),
    decreases s.len(),
{
    if s.len() > 0 && t.takes(s.last()) {
        lemma_strip_back(s.drop_last(), t);
        assert(s.drop_last().take(strip_back(s, t).len() as int) == s.take(
            strip_back(s, t).len() as int,
        ));
    } else {
        assert(s.take(s.len() as int) == s);
    }
}

/// Trimmed text has nothing more to trim.
pub proof fn lemma_strip_again(s: Seq<char>, t: Trim)
    ensures
        strip(strip(s, t), t) == strip(s, t),
{
    let front = strip_front(s, t);
    lemma_strip_front(s, t);
    lemma_strip_back(front, t);
    let out = strip_back(front, t);
    if out.len() > 0 {
        assert(out[0] == front[0]);
    }
    assert(strip_front(out, t) == out);
    assert(strip_back(out, t) == out);
}

/// How many characters stand before the first occurrence of `part`; all of them where there is
/// none.
pub open spec fn until_text(s: Seq<char>, part: Seq<char>) -> int
    decreases s.len(),
{
    if s.len() == 0 || part.is_prefix_of(s) {
        0
    } else {
        1 + until_text(s.skip(1), part)
    }
}

/// What stands before the first occurrence of `part` in `s`.
pub fn before_text<'a>(s: &'a str, part: &str) -> (head: &'a str)
    ensures
        head@ == s@.take(until_text(s@, part@)),
{
    let n: usize = s.unicode_len();
    let mut i: usize = 0;
    assert(s@.skip(0) == s@);
    loop
        invariant
            n == s@.len(),
            i <= n,
            until_text(s@, part@) == i + until_text(s@.skip(i as int), part@),
        decreases n - i,
    {
        let tail = s.substring_char(i, n);
        assert(tail@ == s@.skip(i as int));
        if i == n || starts_with(tail, part) {
            let head = s.substring_char(0, i);
            assert(head@ == s@.take(i as int));
            return head;
        }
        assert(tail@.skip(1) == s@.skip(i + 1));
        i = i + 1;
    }
}

/// Two texts are the same but for the case exactly where they are equally long and each two
/// characters are equal or the two cases of one ASCII letter.
pub proof fn only_ascii_case_is_ignored(a: Seq<char>, b: Seq<char>)
    ensures
        same_folded(a, b) <==> a.len() == b.len() && forall|i: int|
            0 <= i < a.len() ==> #[trigger] a[i] == b[i] || ('A' <= a[i] <= 'Z' && b[i] as int
                == a[i] as int + 32) || ('A' <= b[i] <= 'Z' && a[i] as int == b[i] as int + 32),
{
    assert forall|c: char| #[trigger] ascii_lower(c) as int == (if 'A' <= c <= 'Z' {
        c as int + 32
    } else {
        c as int
    }) by {}
    if same_folded(a, b) {
        assert(folded(a).len() == a.len() && folded(b).len() == b.len());
        assert forall|i: int| 0 <= i < a.len() implies #[trigger] a[i] == b[i] || ('A' <= a[i]
            <= 'Z' && b[i] as int == a[i] as int + 32) || ('A' <= b[i] <= 'Z' && a[i] as int
            == b[i] as int + 32) by {
            assert(folded(a)[i] == ascii_lower(a[i]));
            assert(folded(b)[i] == ascii_lower(b[i]));
            assert(ascii_lower(a[i]) as int == ascii_lower(b[i]) as int);
            assert(a[i] as int == b[i] as int ==> a[i] == b[i]);
        }
    }
    if a.len() == b.len() && forall|i: int|
        0 <= i < a.len() ==> #[trigger] a[i] == b[i] || ('A' <= a[i] <= 'Z' && b[i] as int
            == a[i] as int + 32) || ('A' <= b[i] <= 'Z' && a[i] as int == b[i] as int + 32) {
        assert forall|i: int| 0 <= i < a.len() implies folded(a)[i] == folded(b)[i] by {
            assert(a[i] == a[i]);
            assert(ascii_lower(a[i]) as int == ascii_lower(b[i]) as int);
        }
        assert(folded(a) =~= folded(b));
    }
}

proof fn lemma_front_taken(s: Seq<char>, t: Trim, k: int)
    requires
        0 <= k < s.len() - strip_front(s, t).len(),
    ensures
        t.takes(s[k]),
    decreases s.len(),
{
    if s.len() > 0 && t.takes(s[0]) && k > 0 {
        lemma_front_taken(s.skip(1), t, k - 1);
    }
}

proof fn lemma_back_taken(s: Seq<char>, t: Trim, k: int)
    requires
        strip_back(s, t).len() <= k < s.len(),
    ensures
        t.takes(s[k]),
    decreases s.len(),
{
    if s.len() > 0 && t.takes(s.last()) && k < s.len() - 1 {
        lemma_back_taken(s.drop_last(), t, k);
    }
}

/// Trimming takes white space off both ends and nothing else: what is left stands in the text with
/// nothing but white space around it, and neither begins nor ends with any. Spaces, tabs and line
/// ends are white space; what can be seen of ASCII is not.
pub proof fn trimming_takes_white_space_alone(s: Seq<char>) -> (at: int)
    ensures
        0 <= at <= at + trimmed(s).len() <= s.len(),
        trimmed(s) == s.subrange(at, at + trimmed(s).len()),
        forall|k: int|
            0 <= k < at || at + trimmed(s).len() <= k < s.len() ==> is_white(#[trigger] s[k]),
        trimmed(s).len() > 0 ==> !is_white(trimmed(s)[0]) && !is_white(trimmed(s).last()),
        is_white(' ') && is_white('\t') && is_white('\n') && is_white('\r'),
        forall|c: char| '!' <= c <= '~' ==> !#[trigger] is_white(c),
{
    let front = strip_front(s, Trim::White);
    let at = s.len() - front.len();
    lemma_strip_front(s, Trim::White);
    lemma_strip_back(front, Trim::White);
    assert(trimmed(s) =~= s.subrange(at, at + trimmed(s).len()));
    assert forall|k: int| 0 <= k < at || at + trimmed(s).len() <= k < s.len() implies is_white(
        #[trigger] s[k],
    ) by {
        if k < at {
            lemma_front_taken(s, Trim::White, k);
        } else {
            lemma_back_taken(front, Trim::White, k - at);
        }
    }
    if trimmed(s).len() > 0 {
        assert(trimmed(s)[0] == front[0]);
    }
    at
}

/// The pieces with the separator between each two.
pub open spec fn joined_by(pieces: Seq<Seq<char>>, sep: char) -> Seq<char>
    decreases pieces.len(),
{
    if pieces.len() == 0 {
        Seq::empty()
    } else if pieces.len() == 1 {
        pieces[0]
    } else {
        pieces[0] + seq![sep] + joined_by(pieces.skip(1), sep)
    }
}

/// The pieces of a text hold no separator, and put together again they make the text.
pub proof fn split_pieces_make_the_text(s: Seq<char>, sep: char)
    ensures
        split(s, sep).len() > 0,
        joined_by(split(s, sep), sep) == s,
        forall|k: int| 0 <= k < split(s, sep).len() ==> !(#[trigger] split(s, sep)[k]).contains(sep),
    decreases s.len(),
{
    lemma_until(s, sep);
    let i = until(s, sep);
    if i < s.len() {
        let rest = split(s.skip(i + 1), sep);
        split_pieces_make_the_text(s.skip(i + 1), sep);
        let all = split(s, sep);
        assert(all.skip(1) =~= rest);
        assert(all[0] == s.take(i));
        assert(s =~= s.take(i) + seq![sep] + s.skip(i + 1));
        assert forall|k: int| 0 <= k < all.len() implies !(#[trigger] all[k]).contains(sep) by {
            if k > 0 {
                assert(all[k] == rest[k - 1]);
            }
        }
    }
}

/// A text that is put together from pieces without the separator has just these pieces.
pub proof fn joined_pieces_split_again(pieces: Seq<Seq<char>>, sep: char)
    requires
        pieces.len() > 0,
        forall|k: int| 0 <= k < pieces.len() ==> !(#[trigger] pieces[k]).contains(sep),
    ensures
        split(joined_by(pieces, sep), sep) == pieces,
    decreases pieces.len(),
{
    let s = joined_by(pieces, sep);
    let first = pieces[0];
    assert forall|k: int| 0 <= k < first.len() implies first[k] != sep by {
        assert(first.contains(first[k]));
    }
    if pieces.len() == 1 {
        lemma_until_is(s, sep, s.len() as int);
        assert(split(s, sep) =~= pieces);
    } else {
        let rest = pieces.skip(1);
        assert forall|k: int| 0 <= k < rest.len() implies !(#[trigger] rest[k]).contains(sep) by {
            assert(rest[k] == pieces[k + 1]);
        }
        joined_pieces_split_again(rest, sep);
        lemma_until_is(s, sep, first.len() as int);
        assert(s.take(first.len() as int) =~= first);
        assert(s.skip(first.len() as int + 1) =~= joined_by(rest, sep));
        assert(seq![first] + rest =~= pieces);
    }
}

/// A text without a line end is one line.
pub proof fn text_without_line_end_is_one_line(s: Seq<char>)
    requires
        s.len() > 0,
        !s.contains('\n'),
    ensures
        lines(s) == seq![s],
{
    assert forall|k: int| 0 <= k < s.len() implies s[k] != '\n' by {
        assert(s.contains(s[k]));
    }
    lemma_until_is(s, '\n', s.len() as int);
}

/// A line ends at its line feed, and a carriage return before that is no part of it; what follows is
/// read in the same way.
pub proof fn line_ends_at_its_line_feed(line: Seq<char>, rest: Seq<char>)
    requires
        !line.contains('\n'),
    ensures
        lines(line + seq!['\n'] + rest) == seq![
            if line.len() > 0 && line.last() == '\r' {
                line.drop_last()
            } else {
                line
            },
        ] + lines(rest),
        lines(Seq::<char>::empty()).len() == 0,
{
    let s = line + seq!['\n'] + rest;
    assert forall|k: int| 0 <= k < line.len() implies s[k] != '\n' by {
        assert(line.contains(line[k]));
    }
    lemma_until_is(s, '\n', line.len() as int);
    assert(s.take(line.len() as int) =~= line);
    assert(s.skip((line.len() + 1) as int) =~= rest);
}

/// A word ends at white space, and white space before a word is skipped.
pub proof fn words_are_told_apart_by_white_space(word: Seq<char>, space: char, rest: Seq<char>)
    requires
        word.len() > 0,
        forall|k: int| 0 <= k < word.len() ==> !is_white(#[trigger] word[k]),
        is_white(space),
    ensures
        words(word + seq![space] + rest) == seq![word] + words(rest),
        words(seq![space] + rest) == words(rest),
        words(word) == seq![word],
{
    let s = word + seq![space] + rest;
    assert(s[0] == word[0]);
    assert(s.take(word.len() as int) =~= word);
    let after = s.skip(word.len() as int);
    assert(after =~= seq![space] + rest);
    assert((seq![space] + rest).skip(1) =~= rest);
    assert((seq![space] + rest)[0] == space);
    assert(words(after) == words(rest));
    assert forall|k: int| 0 <= k < word.len() implies !is_white(#[trigger] s[k]) by {
        assert(s[k] == word[k]);
    }
    assert(s[word.len() as int] == space);
    lemma_word_ends(s, word.len() as int);
    assert(words(s) == seq![word] + words(after));
    lemma_word_ends(word, word.len() as int);
    assert(word.take(word.len() as int) =~= word);
    assert(word.skip(word.len() as int) =~= Seq::<char>::empty());
    assert(words(Seq::<char>::empty()) =~= Seq::<Seq<char>>::empty());
}

proof fn lemma_word_ends(s: Seq<char>, n: int)
    requires
        0 <= n <= s.len(),
        forall|k: int| 0 <= k < n ==> !is_white(#[trigger] s[k]),
        n < s.len() ==> is_white(s[n]),
    ensures
        word_len(s) == n,
    decreases s.len(),
{
    if n > 0 {
        let rest = s.skip(1);
        assert forall|k: int| 0 <= k < n - 1 implies !is_white(#[trigger] rest[k]) by {
            assert(rest[k] == s[k + 1]);
        }
        assert(!is_white(s[0]));
        lemma_word_ends(rest, n - 1);
    }
}

/// What stands before a mark ends where the mark begins, and is everything where there is none.
pub proof fn text_ends_at_the_mark(text: Seq<char>, mark: Seq<char>, rest: Seq<char>)
    requires
        mark.len() > 0,
        !text.contains(mark[0]),
    ensures
        until_text(text + mark + rest, mark) == text.len(),
        until_text(text, mark) == text.len(),
    decreases text.len(),
{
    let s = text + mark + rest;
    if text.len() == 0 {
        assert(s.subrange(0, mark.len() as int) =~= mark);
    } else {
        assert(text.contains(text[0]));
        assert(s[0] == text[0]);
        if mark.is_prefix_of(s) {
            assert(s.subrange(0, mark.len() as int)[0] == s[0]);
        }
        if mark.is_prefix_of(text) {
            assert(text.subrange(0, mark.len() as int)[0] == text[0]);
        }
        let less = text.skip(1);
        assert forall|k: int| 0 <= k < less.len() implies less[k] != mark[0] by {
            assert(text.contains(text[k + 1]));
        }
        text_ends_at_the_mark(less, mark, rest);
        assert(s.skip(1) =~= less + mark + rest);
    }
}

/// A part occurs in a text exactly where the text can be cut around it, and a prefix is followed by
/// what stands behind it.
pub proof fn parts_occur_where_they_stand(before: Seq<char>, part: Seq<char>, behind: Seq<char>)
    ensures
        occurs(before + part + behind, part),
        after_prefix(part + behind, part) == Some(behind),
{
    let s = before + part + behind;
    let tail = s.skip(before.len() as int);
    assert(tail =~= part + behind);
    assert(tail.subrange(0, part.len() as int) =~= part);
    assert(part.is_prefix_of(s.skip(before.len() as int)));
    assert((part + behind).skip(part.len() as int) =~= behind);
}

} // verus!
