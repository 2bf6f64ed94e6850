//! JSON documents, parsed by `serde_json`.

use vstd::prelude::*;

use crate::text::same;

verus! {

/// A JSON value with what is read of it. Numbers keep their value where it is an `i64`; the
/// items of an array are not kept.
pub enum Json {
    Null,
    Bool(bool),
    Number(Option<i64>),
    Text(String),
    Array,
    Object(Vec<(String, Json)>),
}

/// A JSON value as a mathematical value. The members of an object stand in the order in which
/// `serde_json` walks them.
pub enum JsonView {
    Null,
    Bool(bool),
    Number(Option<i64>),
    Text(Seq<char>),
    Array,
    Object(Seq<(Seq<char>, JsonView)>),
}

impl View for Json {
    type V = JsonView;

    open spec fn view(&self) -> JsonView
        decreases self,
    {
        match self {
            Json::Null => JsonView::Null,
            Json::Bool(b) => JsonView::Bool(*b),
            Json::Number(n) => JsonView::Number(*n),
            Json::Text(s) => JsonView::Text(s@),
            Json::Array => JsonView::Array,
            Json::Object(members) => JsonView::Object(
                Seq::new(
                    members@.len(),
                    |i: int|
                        if 0 <= i < members@.len() {
                            (members@[i].0@, members@[i].1.view())
                        } else {
                            arbitrary()
                        },
                ),
            ),
        }
    }
}

/// The value of the first of `members` that is named `key`.
pub open spec fn member(members: Seq<(Seq<char>, JsonView)>, key: Seq<char>) -> Option<JsonView>
    decreases members.len(),
{
    if members.len() == 0 {
        None
    } else if members[0].0 == key {
        Some(members[0].1)
    } else {
        member(members.skip(1), key)
    }
}

impl JsonView {
    /// The member `key` of an object.
    pub open spec fn get(self, key: Seq<char>) -> Option<JsonView> {
        match self {
            JsonView::Object(members) => member(members, key),
            _ => None,
        }
    }

    /// The member `inner` of the member `outer`.
    pub open spec fn get2(self, outer: Seq<char>, inner: Seq<char>) -> Option<JsonView> {
        match self.get(outer) {
            Some(value) => value.get(inner),
            None => None,
        }
    }

    /// The text of a string.
    pub open spec fn text(self) -> Option<Seq<char>> {
        match self {
            JsonView::Text(s) => Some(s),
            _ => None,
        }
    }

    /// The value of a number that is an `i64`.
    pub open spec fn integer(self) -> Option<i64> {
        match self {
            JsonView::Number(n) => n,
            _ => None,
        }
    }
}

/// What an optional value holds.
pub open spec fn json_view(value: Option<&Json>) -> Option<JsonView> {
    match value {
        Some(json) => Some(json@),
        None => None,
    }
}

/// The text of an optional value that is a string.
pub open spec fn text_in(value: Option<JsonView>) -> Option<Seq<char>> {
    match value {
        Some(json) => json.text(),
        None => None,
    }
}

/// The number of an optional value that is an `i64`.
pub open spec fn integer_in(value: Option<JsonView>) -> Option<i64> {
    match value {
        Some(json) => json.integer(),
        None => None,
    }
}

impl Json {
    /// The members that the view of an object shows.
    pub open spec fn members_view(members: Seq<(String, Json)>) -> Seq<(Seq<char>, JsonView)> {
        Seq::new(members.len(), |i: int| (members[i].0@, members[i].1@))
    }

    /// The view of an object is made of the views of its members.
    pub proof fn lemma_object(members: Vec<(String, Json)>)
        ensures
            Json::Object(members)@ == JsonView::Object(Json::members_view(members@)),
    {
        reveal_with_fuel(<Json as View>::view, 2);
        match Json::Object(members)@ {
            JsonView::Object(shown) => {
                assert forall|i: int| 0 <= i < members@.len() implies shown[i]
                    == #[trigger] Json::members_view(members@)[i] by {}
                assert(shown =~= Json::members_view(members@));
            },
            _ => {},
        }
    }

    /// The member `key` of an object.
    pub fn get<'a>(&'a self, key: &str) -> (value: Option<&'a Json>)
        ensures
            json_view(value) == self@.get(key@),
    {
        match self {
            Json::Object(members) => {
                proof {
                    Json::lemma_object(*members);
                }
                let ghost shown = Json::members_view(members@);
                let n: usize = members.len();
                let mut i: usize = 0;
                assert(shown.skip(0) == shown);
                while i < n
                    invariant
                        n == members@.len(),
                        i <= n,
                        shown == Json::members_view(members@),
                        member(shown, key@) == member(shown.skip(i as int), key@),
                        self@ == JsonView::Object(shown),
                    decreases n - i,
                {
                    if same(members[i].0.as_str(), key) {
                        return Some(&members[i].1);
                    }
                    assert(shown.skip(i as int).skip(1) == shown.skip(i + 1));
                    i = i + 1;
                }
                assert(shown.skip(n as int).len() == 0);
                None
            },
            _ => None,
        }
    }

    /// The member `inner` of the member `outer`.
    pub fn get2<'a>(&'a self, outer: &str, inner: &str) -> (value: Option<&'a Json>)
        ensures
            json_view(value) == self@.get2(outer@, inner@),
    {
        match self.get(outer) {
            Some(value) => value.get(inner),
            None => None,
        }
    }

    /// The text of a string.
    pub fn text<'a>(&'a self) -> (text: Option<&'a str>)
        ensures
            crate::text::view_of(text) == self@.text(),
    {
        match self {
            Json::Text(s) => Some(s.as_str()),
            _ => None,
        }
    }

    /// The value of a number that is an `i64`.
    pub fn integer(&self) -> (number: Option<i64>)
        ensures
            number == self@.integer(),
    {
        match self {
            Json::Number(n) => *n,
            _ => None,
        }
    }
}

/// `serde_json::Value`, a parsed document.
#[verifier::external_type_specification]
#[verifier::external_body]
pub struct ExValue(serde_json::Value);

/// What a `serde_json::Value` holds.
pub uninterp spec fn contents(value: serde_json::Value) -> JsonView;

/// The document that `s` writes, or the message that says why it writes none.
pub uninterp spec fn json_parsed(s: Seq<char>) -> Result<JsonView, Seq<char>>;

/// `serde_json::from_str` into a `Value`. The result is named; an error is taken by its message.
#[verifier::external_body]
fn parse_value(s: &str) -> (parsed: Result<serde_json::Value, String>)
    ensures
        match parsed {
            Ok(value) => json_parsed(s@) == Ok::<JsonView, Seq<char>>(contents(value)),
            Err(message) => json_parsed(s@) == Err::<JsonView, Seq<char>>(message@),
        },
{
    serde_json::from_str(s).map_err(|e: serde_json::Error| e.to_string())
}

/// The variants and fields of a `serde_json::Value`, moved into a `Json`; a number by
/// `Number::as_i64`.
#[verifier::external_body]
fn convert(value: serde_json::Value) -> (json: Json)
    ensures
        json@ == contents(value),
{
    match value {
        serde_json::Value::Null => Json::Null,
        serde_json::Value::Bool(b) => Json::Bool(b),
        serde_json::Value::Number(n) => Json::Number(n.as_i64()),
        serde_json::Value::String(s) => Json::Text(s),
        serde_json::Value::Array(_) => Json::Array,
        serde_json::Value::Object(members) => {
            Json::Object(members.into_iter().map(|(key, value)| (key, convert(value))).collect())
        },
    }
}

/// What a parse gave, over views.
pub open spec fn parse_view(parsed: Result<Json, String>) -> Result<JsonView, Seq<char>> {
    match parsed {
        Ok(json) => Ok(json@),
        Err(message) => Err(message@),
    }
}

/// The document that `s` writes, or the message that says why it writes none.
pub fn parse(s: &str) -> (parsed: Result<Json, String>)
    ensures
        parse_view(parsed) == json_parsed(s@),
{
    match parse_value(s) {
        Ok(value) => Ok(convert(value)),
        Err(message) => Err(message),
    }
}

/// A member is found by its name, the first one where there are several, and none where no member
/// has the name.
pub proof fn member_is_found_by_its_name(members: Seq<(Seq<char>, JsonView)>, key: Seq<char>)
    ensures
        match member(members, key) {
            Some(value) => exists|k: int|
                0 <= k < members.len() && #[trigger] members[k] == (key, value) && forall|j: int|
                    0 <= j < k ==> (#[trigger] members[j]).0 != key,
            None => forall|k: int| 0 <= k < members.len() ==> (#[trigger] members[k]).0 != key,
        },
    decreases members.len(),
{
    if members.len() > 0 {
        if members[0].0 == key {
            assert(members[0] == (key, members[0].1));
        } else {
            let rest = members.skip(1);
            member_is_found_by_its_name(rest, key);
            match member(rest, key) {
                Some(value) => {
                    let k = choose|k: int|
                        0 <= k < rest.len() && #[trigger] rest[k] == (key, value) && forall|j: int|
                            0 <= j < k ==> (#[trigger] rest[j]).0 != key;
                    assert(members[k + 1] == (key, value));
                    assert forall|j: int| 0 <= j < k + 1 implies (#[trigger] members[j]).0 != key by {
                        if j > 0 {
                            assert(rest[j - 1].0 != key);
                        }
                    }
                },
                None => {
                    assert forall|k: int| 0 <= k < members.len() implies (
                    #[trigger] members[k]).0 != key by {
                        if k > 0 {
                            assert(rest[k - 1].0 != key);
                        }
                    }
                },
            }
        }
    }
}

} // verus!
