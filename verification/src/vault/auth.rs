//! Whether a Riot settings file carries a login that survives a restart.

use vstd::prelude::*;

use crate::text::{
    after_prefix, before_text, byte_len, is_white, lemma_strip_front, lemma_utf8_concat, lines,
    lines_of, same, starts_with, strip, strip_front, strip_front_of, strip_of, strip_prefix, trim,
    trimmed, trimming_takes_white_space_alone, until_text, utf8_len, views, Trim,
};
use crate::unicode::{from_utf8_lossy, utf8_lossy};

verus! {

/// A YAML value without what follows its first `" #"`, and without white space around it.
pub open spec fn bare_value(value: Seq<char>) -> Seq<char> {
    let text = trimmed(value);
    trimmed(text.take(until_text(text, " #"@)))
}

/// Whether a YAML value is anything but one of the ways to write nothing.
pub open spec fn is_value(value: Seq<char>) -> bool {
    let v = bare_value(value);
    !(v == ""@ || v == "{}"@ || v == "[]"@ || v == "''"@ || v == "\"\""@ || v == "null"@ || v
        == "~"@)
}

/// Whether a YAML value is anything but one of the ways to write nothing.
pub fn nonempty_yaml_value(value: &str) -> (present: bool)
    ensures
        present == is_value(value@),
{
    let text = trim(value);
    let v = trim(before_text(text, " #"));
    !(same(v, "") || same(v, "{}") || same(v, "[]") || same(v, "''") || same(v, "\"\"") || same(
        v,
        "null",
    ) || same(v, "~"))
}

/// Whether a line says anything: it is neither blank nor a comment.
pub open spec fn significant(raw: Seq<char>) -> bool {
    trimmed(raw).len() > 0 && trimmed(raw)[0] != '#'
}

/// How many bytes of white space a line starts with.
pub open spec fn indent(raw: Seq<char>) -> int {
    utf8_len(raw) - utf8_len(strip_front(raw, Trim::White))
}

/// Whether `line` gives `key` a value.
pub open spec fn carries(line: Seq<char>, key: Seq<char>) -> bool {
    after_prefix(line, key) matches Some(value) && is_value(value)
}

/// Whether `line` carries a token.
pub open spec fn token_line(line: Seq<char>) -> bool {
    carries(line, "private:"@) || carries(line, "refresh_token:"@) || carries(
        line,
        "access_token:"@,
    ) || carries(line, "id_token:"@)
}

/// Whether `line` starts a list item.
pub open spec fn starts_item(line: Seq<char>) -> bool {
    "-"@.is_prefix_of(line)
}

/// `line` without the dash of a list item.
pub open spec fn field_of(line: Seq<char>) -> Seq<char> {
    if starts_item(line) {
        trimmed(line.skip("-"@.len() as int))
    } else {
        line
    }
}

/// What is known of the cookie whose fields are being read.
#[derive(Clone, Copy)]
pub struct Cookie {
    pub named_ssid: bool,
    pub valued: bool,
}

impl Cookie {
    /// Whether this is a session cookie with a value.
    pub open spec fn signs_in(self) -> bool {
        self.named_ssid && self.valued
    }
}

/// What is known of the cookie after `line`.
pub open spec fn cookie_after(before: Cookie, line: Seq<char>) -> Cookie {
    let start = if starts_item(line) {
        Cookie { named_ssid: false, valued: false }
    } else {
        before
    };
    let field = field_of(line);
    Cookie {
        named_ssid: match after_prefix(field, "name:"@) {
            Some(value) => strip(trimmed(value), Trim::Quotes) == "ssid"@,
            None => start.named_ssid,
        },
        valued: match after_prefix(field, "value:"@) {
            Some(value) => is_value(value),
            None => start.valued,
        },
    }
}

/// What is known of the cookie before the line `k`.
pub open spec fn cookie_at(raw: Seq<Seq<char>>, k: int) -> Cookie
    decreases k,
{
    if k <= 0 {
        Cookie { named_ssid: false, valued: false }
    } else if significant(raw[k - 1]) {
        cookie_after(cookie_at(raw, k - 1), trimmed(raw[k - 1]))
    } else {
        cookie_at(raw, k - 1)
    }
}

/// Whether `line` opens a list of sessions that has to follow below it.
pub open spec fn opens_sessions(line: Seq<char>) -> bool {
    after_prefix(line, "sessions:"@) matches Some(value) && trimmed(value).len() == 0
}

/// The indent of the line before the line `k` that says anything, where it opens a list of
/// sessions.
pub open spec fn sessions_before(raw: Seq<Seq<char>>, k: int) -> Option<int>
    decreases k,
{
    if k <= 0 {
        None
    } else if !significant(raw[k - 1]) {
        sessions_before(raw, k - 1)
    } else if opens_sessions(trimmed(raw[k - 1])) {
        Some(indent(raw[k - 1]))
    } else {
        None
    }
}

/// Whether the line `k` shows a login: it carries a token or a session, stands below a list of
/// sessions, or starts a list item after a session cookie.
pub open spec fn shows_login(raw: Seq<Seq<char>>, k: int) -> bool {
    let line = trimmed(raw[k]);
    &&& significant(raw[k])
    &&& {
        ||| sessions_before(raw, k) matches Some(parent) && indent(raw[k]) > parent
        ||| starts_item(line) && cookie_at(raw, k).signs_in()
        ||| carries(line, "sessions:"@)
        ||| token_line(line)
    }
}

/// Whether a settings file carries a login that survives a restart.
pub open spec fn carries_login(body: Seq<char>) -> bool {
    let raw = lines(body);
    ||| exists|k: int| 0 <= k < raw.len() && #[trigger] shows_login(raw, k)
    ||| cookie_at(raw, raw.len() as int).signs_in()
}

fn carries_value(line: &str, key: &str) -> (found: bool)
    ensures
        found == carries(line@, key@),
{
    match strip_prefix(line, key) {
        Some(value) => nonempty_yaml_value(value),
        None => false,
    }
}

fn indent_of(raw: &str) -> (n: usize)
    ensures
        n == indent(raw@),
{
    let rest = strip_front_of(raw, Trim::White);
    proof {
        lemma_strip_front(raw@, Trim::White);
        let cut = raw@.len() - rest@.len();
        assert(raw@ == raw@.take(cut) + raw@.skip(cut));
        lemma_utf8_concat(raw@.take(cut), raw@.skip(cut));
    }
    byte_len(raw) - byte_len(rest)
}

fn next_cookie(before: Cookie, line: &str) -> (after: Cookie)
    ensures
        after == cookie_after(before, line@),
{
    let mut cookie = before;
    let field = match strip_prefix(line, "-") {
        Some(item) => {
            cookie = Cookie { named_ssid: false, valued: false };
            trim(item)
        },
        None => line,
    };
    if let Some(value) = strip_prefix(field, "name:") {
        cookie.named_ssid = same(strip_of(trim(value), Trim::Quotes), "ssid");
    }
    if let Some(value) = strip_prefix(field, "value:") {
        cookie.valued = nonempty_yaml_value(value);
    }
    cookie
}

/// Whether a settings file with the text `body` carries a login that survives a restart.
pub fn has_login(body: &str) -> (found: bool)
    ensures
        found == carries_login(body@),
{
    let all = lines_of(body);
    let n: usize = all.len();
    let ghost raw = lines(body@);
    let mut cookie = Cookie { named_ssid: false, valued: false };
    let mut sessions_indent: Option<usize> = None;
    let mut k: usize = 0;
    while k < n
        invariant
            n == all@.len(),
            k <= n,
            raw == lines(body@),
            raw == views(all@),
            cookie == cookie_at(raw, k as int),
            match sessions_indent {
                Some(i) => sessions_before(raw, k as int) == Some(i as int),
                None => sessions_before(raw, k as int) is None,
            },
            forall|j: int| 0 <= j < k ==> !#[trigger] shows_login(raw, j),
        decreases n - k,
    {
        assert(raw[k as int] == all@[k as int]@);
        let line = trim(all[k]);
        if line.is_empty() || line.get_char(0) == '#' {
            assert(!significant(raw[k as int]));
            assert(!shows_login(raw, k as int));
            k = k + 1;
            continue;
        }
        let indent = indent_of(all[k]);
        let below = match sessions_indent {
            Some(parent) => indent > parent,
            None => false,
        };
        let closes_cookie = starts_with(line, "-") && cookie.named_ssid && cookie.valued;
        if below || closes_cookie || carries_value(line, "sessions:") || carries_value(
            line,
            "private:",
        ) || carries_value(line, "refresh_token:") || carries_value(line, "access_token:")
            || carries_value(line, "id_token:") {
            assert(shows_login(raw, k as int));
            return true;
        }
        assert(!shows_login(raw, k as int));
        cookie = next_cookie(cookie, line);
        sessions_indent = match strip_prefix(line, "sessions:") {
            Some(value) => if trim(value).is_empty() {
                Some(indent)
            } else {
                None
            },
            None => None,
        };
        k = k + 1;
    }
    cookie.named_ssid && cookie.valued
}

/// Whether a settings file with these bytes carries a login that survives a restart. Bytes that
/// are not text do not hide the rest of the file.
pub fn has_persistent_auth(bytes: &[u8]) -> (found: bool)
    ensures
        found == carries_login(utf8_lossy(bytes@)),
{
    let body = from_utf8_lossy(bytes);
    has_login(body.as_str())
}

proof fn lemma_no_text(s: Seq<char>, part: Seq<char>, c: char)
    requires
        part.len() > 0,
        part[0] == c,
        !s.contains(c),
    ensures
        until_text(s, part) == s.len(),
    decreases s.len(),
{
    if s.len() > 0 {
        assert(s.contains(s[0]));
        if part.is_prefix_of(s) {
            assert(s[0] == s.subrange(0, part.len() as int)[0]);
        }
        assert forall|k: int| 0 <= k < s.skip(1).len() implies s.skip(1)[k] != c by {
            assert(s.contains(s[k + 1]));
        }
        lemma_no_text(s.skip(1), part, c);
    }
}

proof fn lemma_bare_word(space: Seq<char>, word: Seq<char>)
    requires
        word.len() > 0,
        forall|k: int| 0 <= k < word.len() ==> !is_white(#[trigger] word[k]),
        forall|k: int| 0 <= k < space.len() ==> is_white(#[trigger] space[k]),
    ensures
        bare_value(space + word) == word,
{
    lemma_trim_word(space, word);
    lemma_trim_word(Seq::empty(), word);
    assert(Seq::<char>::empty() + word =~= word);
    assert(" #"@.len() == 2 && " #"@[0] == ' ') by {
        reveal_strlit(" #");
    }
    assert(!word.contains(' ')) by {
        let _ = trimming_takes_white_space_alone(word);
    }
    lemma_no_text(word, " #"@, ' ');
    assert(word.take(word.len() as int) =~= word);
}

proof fn lemma_bare_blank(space: Seq<char>)
    requires
        forall|k: int| 0 <= k < space.len() ==> is_white(#[trigger] space[k]),
    ensures
        bare_value(space) == Seq::<char>::empty(),
{
    let at = trimming_takes_white_space_alone(space);
    if trimmed(space).len() > 0 {
        assert(trimmed(space)[0] == space[at]);
    }
    assert(trimmed(space) =~= Seq::<char>::empty());
    let nothing = Seq::<char>::empty();
    let kept = nothing.take(until_text(nothing, " #"@) as int);
    assert(until_text(nothing, " #"@) == 0);
    assert(kept =~= nothing);
    let none = trimming_takes_white_space_alone(nothing);
    assert(trimmed(nothing) =~= nothing);
}

/// A word is a value unless it is one of the ways to write nothing, and a blank is none.
pub proof fn words_are_values(word: Seq<char>, space: Seq<char>)
    requires
        word.len() > 0,
        forall|k: int| 0 <= k < word.len() ==> !is_white(#[trigger] word[k]),
        forall|k: int| 0 <= k < space.len() ==> is_white(#[trigger] space[k]),
    ensures
        is_value(space + word) <==> word != "{}"@ && word != "[]"@ && word != "''"@ && word
            != "\"\""@ && word != "null"@ && word != "~"@,
        !is_value(space),
{
    lemma_bare_word(space, word);
    lemma_bare_blank(space);
    assert(""@ =~= Seq::<char>::empty()) by {
        reveal_strlit("");
    }
}

proof fn lemma_trim_word(space: Seq<char>, word: Seq<char>)
    requires
        word.len() > 0,
        forall|k: int| 0 <= k < word.len() ==> !is_white(#[trigger] word[k]),
        forall|k: int| 0 <= k < space.len() ==> is_white(#[trigger] space[k]),
    ensures
        trimmed(space + word) == word,
{
    let all = space + word;
    let at = trimming_takes_white_space_alone(all);
    let n = trimmed(all).len() as int;
    assert(!is_white(all[all.len() - 1])) by {
        assert(all[all.len() - 1] == word[word.len() - 1]);
    }
    if at + n < all.len() {
        assert(is_white(all[all.len() - 1]));
    }
    if at > space.len() {
        assert(all[space.len() as int] == word[0]);
        assert(is_white(all[space.len() as int]));
    }
    if at < space.len() {
        assert(trimmed(all)[0] == all[at]);
        assert(all[at] == space[at]);
    }
    assert(all.subrange(space.len() as int, all.len() as int) =~= word);
}

/// A settings file with a token or a session on any line of its own carries a login, whatever else
/// is in the file; one that says nothing at all carries none.
pub proof fn token_is_a_login(body: Seq<char>, k: int, key: Seq<char>, value: Seq<char>)
    requires
        0 <= k < lines(body).len(),
        key == "private:"@ || key == "refresh_token:"@ || key == "access_token:"@ || key
            == "id_token:"@ || key == "sessions:"@,
        trimmed(lines(body)[k]) == key + value,
        is_value(value),
    ensures
        carries_login(body),
{
    let line = trimmed(lines(body)[k]);
    reveal_strlit("private:");
    reveal_strlit("refresh_token:");
    reveal_strlit("access_token:");
    reveal_strlit("id_token:");
    reveal_strlit("sessions:");
    assert(line[0] == key[0]);
    assert(key =~= line.subrange(0, key.len() as int));
    assert(line.skip(key.len() as int) =~= value);
    assert(carries(line, key));
    assert(shows_login(lines(body), k));
}

/// A settings file of blank lines and comments alone carries no login.
pub proof fn comments_are_no_login(body: Seq<char>)
    requires
        forall|k: int|
            0 <= k < lines(body).len() ==> trimmed(#[trigger] lines(body)[k]).len() == 0 || trimmed(
                lines(body)[k],
            )[0] == '#',
    ensures
        !carries_login(body),
{
    lemma_no_cookie(lines(body), lines(body).len() as int);
}

proof fn lemma_no_cookie(raw: Seq<Seq<char>>, k: int)
    requires
        0 <= k <= raw.len(),
        forall|j: int|
            0 <= j < raw.len() ==> trimmed(#[trigger] raw[j]).len() == 0 || trimmed(raw[j])[0]
                == '#',
    ensures
        !cookie_at(raw, k).signs_in(),
    decreases k,
{
    if k > 0 {
        assert(!significant(raw[k - 1]));
        lemma_no_cookie(raw, k - 1);
    }
}

/// A cookie that is named `ssid` and has a value is a login, in whichever order the two fields of
/// its list item stand, when the item ends there.
pub proof fn session_cookie_is_a_login(
    body: Seq<char>,
    k: int,
    first: Seq<char>,
    second: Seq<char>,
    name: Seq<char>,
    value: Seq<char>,
)
    requires
        0 <= k,
        k + 2 == lines(body).len() || k + 2 < lines(body).len() && trimmed(lines(body)[k + 2]).len()
            > 0 && trimmed(lines(body)[k + 2])[0] == '-',
        trimmed(lines(body)[k]).len() > 0,
        trimmed(lines(body)[k])[0] == '-',
        trimmed(trimmed(lines(body)[k]).skip(1)) == first,
        trimmed(lines(body)[k + 1]) == second,
        first == "name:"@ + name && second == "value:"@ + value || first == "value:"@ + value
            && second == "name:"@ + name,
        strip(trimmed(name), Trim::Quotes) == "ssid"@,
        is_value(value),
    ensures
        carries_login(body),
{
    let raw = lines(body);
    reveal_strlit("-");
    reveal_strlit("name:");
    reveal_strlit("value:");
    let opening = trimmed(raw[k]);
    assert("-"@ =~= opening.subrange(0, 1));
    assert(starts_item(opening));
    assert(significant(raw[k]));
    assert(field_of(opening) == first);
    assert(second[0] == 'n' || second[0] == 'v');
    assert(significant(raw[k + 1]));
    assert(!starts_item(second)) by {
        if starts_item(second) {
            assert(second[0] == second.subrange(0, 1)[0]);
        }
    }
    assert(("name:"@ + name).subrange(0, 5) =~= "name:"@);
    assert(("value:"@ + value).subrange(0, 6) =~= "value:"@);
    assert(("name:"@ + name).skip(5) =~= name);
    assert(("value:"@ + value).skip(6) =~= value);
    assert(after_prefix("name:"@ + name, "value:"@) is None) by {
        assert(("name:"@ + name)[0] == 'n');
        assert("value:"@[0] == 'v');
    }
    assert(after_prefix("value:"@ + value, "name:"@) is None) by {
        assert(("value:"@ + value)[0] == 'v');
        assert("name:"@[0] == 'n');
    }
    assert(cookie_at(raw, k + 1) == cookie_after(cookie_at(raw, k), opening));
    assert(cookie_at(raw, k + 2) == cookie_after(cookie_at(raw, k + 1), second));
    assert(cookie_at(raw, k + 2).signs_in());
    if k + 2 < raw.len() {
        let next = trimmed(raw[k + 2]);
        assert("-"@ =~= next.subrange(0, 1));
        assert(shows_login(raw, k + 2));
    }
}

/// A line below `sessions:`, further in, is a login.
pub proof fn listed_session_is_a_login(body: Seq<char>, k: int)
    requires
        0 <= k,
        k + 1 < lines(body).len(),
        trimmed(lines(body)[k]) == "sessions:"@,
        indent(lines(body)[k + 1]) > indent(lines(body)[k]),
        trimmed(lines(body)[k + 1]).len() > 0,
        trimmed(lines(body)[k + 1])[0] != '#',
    ensures
        carries_login(body),
{
    let raw = lines(body);
    reveal_strlit("sessions:");
    let key = "sessions:"@;
    assert(key.subrange(0, key.len() as int) =~= key);
    assert(key.skip(key.len() as int) =~= Seq::<char>::empty());
    let none = trimming_takes_white_space_alone(Seq::<char>::empty());
    assert(opens_sessions(key));
    assert(significant(raw[k]));
    assert(sessions_before(raw, k + 1) == Some(indent(raw[k])));
    assert(shows_login(raw, k + 1));
}

/// Whether a line starts with a key, after the dash of a list item if there is one.
pub open spec fn mentions(raw: Seq<char>, key: Seq<char>) -> bool {
    let line = trimmed(raw);
    line.len() >= key.len() && line.subrange(0, key.len() as int) == key || line.len() > 0 && line[0]
        == '-' && ({
        let field = trimmed(line.skip(1));
        field.len() >= key.len() && field.subrange(0, key.len() as int) == key
    })
}

/// A login is never made up: some line speaks of a token or of sessions, or one line names a cookie
/// and one gives a value.
pub proof fn login_needs_a_mention(body: Seq<char>)
    requires
        carries_login(body),
    ensures
        exists|k: int|
            0 <= k < lines(body).len() && {
                ||| #[trigger] mentions(lines(body)[k], "private:"@)
                ||| mentions(lines(body)[k], "refresh_token:"@)
                ||| mentions(lines(body)[k], "access_token:"@)
                ||| mentions(lines(body)[k], "id_token:"@)
                ||| mentions(lines(body)[k], "sessions:"@)
                ||| mentions(lines(body)[k], "name:"@)
            },
{
    let raw = lines(body);
    if exists|k: int| 0 <= k < raw.len() && #[trigger] shows_login(raw, k) {
        let k = choose|k: int| 0 <= k < raw.len() && #[trigger] shows_login(raw, k);
        assert(raw[k] == lines(body)[k]);
        let said = mentions(raw[k], "private:"@);
        if sessions_before(raw, k) is Some {
            let at = lemma_sessions_line(raw, k);
            let said = mentions(raw[at], "private:"@);
        } else if cookie_at(raw, k).signs_in() {
            let at = lemma_named_line(raw, k);
            let said = mentions(raw[at], "private:"@);
        }
    } else {
        let at = lemma_named_line(raw, raw.len() as int);
        let said = mentions(raw[at], "private:"@);
    }
}

proof fn lemma_sessions_line(raw: Seq<Seq<char>>, k: int) -> (at: int)
    requires
        0 <= k <= raw.len(),
        sessions_before(raw, k) is Some,
    ensures
        0 <= at < k,
        mentions(raw[at], "sessions:"@),
    decreases k,
{
    if significant(raw[k - 1]) {
        k - 1
    } else {
        lemma_sessions_line(raw, k - 1)
    }
}

proof fn lemma_named_line(raw: Seq<Seq<char>>, k: int) -> (at: int)
    requires
        0 <= k <= raw.len(),
        cookie_at(raw, k).named_ssid,
    ensures
        0 <= at < k,
        mentions(raw[at], "name:"@),
    decreases k,
{
    if significant(raw[k - 1]) && after_prefix(field_of(trimmed(raw[k - 1])), "name:"@) is Some {
        assert("-"@.len() == 1 && "-"@[0] == '-') by {
            reveal_strlit("-");
        }
        let line = trimmed(raw[k - 1]);
        if starts_item(line) {
            assert(line[0] == line.subrange(0, 1)[0]);
        }
        k - 1
    } else {
        lemma_named_line(raw, k - 1)
    }
}

} // verus!
