//! How requests of the remote page are answered.

use vstd::prelude::*;

use super::control::{ActionError, ActionResult};
use crate::json::{json_parsed, parse, parse_view, text_in, Json, JsonView};
use crate::text::{contains_char, owned, same, strip_front, strip_front_of, Trim};
use crate::windows::path::{parts_of, path_parts, slashed, slashed_of, PathPart};

verus! {

/// Whether a request for an action carries the mark of the remote page. `value` is the value of
/// its `x-swapper-action` header.
pub fn action_allowed(value: Option<&[u8]>) -> (allowed: bool)
    ensures
        allowed == (value matches Some(bytes) && bytes@ == seq![0x31u8]),
{
    match value {
        Some(bytes) => {
            let allowed = bytes.len() == 1 && bytes[0] == 0x31;
            proof {
                if allowed {
                    assert(bytes@ =~= seq![0x31u8]);
                } else if bytes@ == seq![0x31u8] {
                    assert(bytes@.len() == 1 && bytes@[0] == 0x31);
                }
            }
            allowed
        },
        None => false,
    }
}

/// The answer to a request for an action without the mark of the remote page.
pub fn forbidden() -> (answer: (u16, ActionResult))
    ensures
        answer.0 == 403,
        !answer.1.ok,
        owned(answer.1.message) == Some("Invalid action request."@),
{
    (403, ActionResult::error("Invalid action request."))
}

/// The answer to a request for an action, with its status.
pub fn action_response(result: Result<(), ActionError>) -> (answer: (u16, ActionResult))
    ensures
        match result {
            Ok(_) => answer.0 == 200 && answer.1.ok && answer.1.message is None,
            Err(error) => answer.0 == error.status && !answer.1.ok && owned(answer.1.message)
                == Some(error.message@),
        },
{
    match result {
        Ok(_) => (200, ActionResult::success()),
        Err(error) => (error.status, ActionResult::error(error.message.as_str())),
    }
}

/// The path of an asset that a request asks for: the remote page where it asks for none.
pub open spec fn asset_of(path: Seq<char>) -> Seq<char> {
    let asked = strip_front(path, Trim::Only('/'));
    if asked.len() == 0 {
        "remote.html"@
    } else {
        asked
    }
}

/// The path of an asset that a request asks for.
pub fn asked_asset<'a>(path: &'a str) -> (asset: &'a str)
    ensures
        asset@ == asset_of(path@),
{
    let asked = strip_front_of(path, Trim::Only('/'));
    if asked.is_empty() {
        "remote.html"
    } else {
        asked
    }
}

/// The names under which an asset is looked up, one after the other.
#[derive(Debug, PartialEq, Eq)]
pub struct AssetNames {
    pub first: String,
    pub second: Option<String>,
}

/// Whether a path leads to a parent directory anywhere.
pub open spec fn climbs(path: Seq<char>) -> bool {
    path_parts(path).contains(PathPart::ParentDir)
}

fn leads_upwards(path: &str) -> (found: bool)
    ensures
        found == climbs(path@),
{
    let parts = parts_of(path);
    let mut i: usize = 0;
    while i < parts.len()
        invariant
            parts@ == path_parts(path@),
            i <= parts@.len(),
            forall|k: int| 0 <= k < i ==> parts@[k] != PathPart::ParentDir,
        decreases parts@.len() - i,
    {
        if parts[i] == PathPart::ParentDir {
            assert(parts@[i as int] == PathPart::ParentDir);
            return true;
        }
        i = i + 1;
    }
    false
}

/// The names under which the asset at a path is looked up. A path that leads to a parent
/// directory anywhere has no names. A name without a dot may also be a directory with a page of
/// its own.
pub fn asset(path: &str) -> (names: Option<AssetNames>)
    ensures
        match names {
            Some(names) => {
                &&& !climbs(path@)
                &&& names.first@ == slashed(path@)
                &&& owned(names.second) == (if slashed(path@).contains('.') {
                    None
                } else {
                    Some(slashed(path@) + "/remote.html"@)
                })
            },
            None => climbs(path@),
        },
{
    if leads_upwards(path) {
        return None;
    }
    let first = slashed_of(path);
    let second = if contains_char(first.as_str(), '.') {
        None
    } else {
        let mut name = first.clone();
        name.append("/remote.html");
        Some(name)
    };
    Some(AssetNames { first, second })
}

/// What is answered where an asset is missing.
pub const NOT_FOUND: &'static str =
    "Swapper remote assets are missing. Run `npm run build` first, then restart Swapper.";

/// What a ping is answered with.
pub const PONG: &'static str = "{\"type\":\"pong\"}";

/// Whether a message of the remote page is a ping.
pub open spec fn is_ping(message: Result<JsonView, Seq<char>>) -> bool {
    message matches Ok(json) && text_in(json.get("type"@)) == Some("ping"@)
}

/// Whether a message of the remote page is a ping.
pub fn is_ping_message(message: &Result<Json, String>) -> (ping: bool)
    ensures
        ping == is_ping(parse_view(*message)),
{
    match message {
        Ok(json) => {
            match json.get("type") {
                Some(kind) => {
                    match kind.text() {
                        Some(text) => same(text, "ping"),
                        None => false,
                    }
                },
                None => false,
            }
        },
        Err(_) => false,
    }
}

/// What a message of the remote page is answered with, if anything.
pub fn serve_socket(text: &str) -> (reply: Option<&'static str>)
    ensures
        match reply {
            Some(reply) => is_ping(json_parsed(text@)) && reply@ == PONG@,
            None => !is_ping(json_parsed(text@)),
        },
{
    let message = parse(text);
    if is_ping_message(&message) {
        Some(PONG)
    } else {
        None
    }
}

/// What is looked up for a request is its path without the slashes in front; where nothing is left
/// it is the remote page.
pub proof fn request_asks_for_its_path(path: Seq<char>, slashes: nat, rest: Seq<char>)
    requires
        path == Seq::new(slashes, |i: int| '/') + rest,
        rest.len() > 0 ==> rest[0] != '/',
    ensures
        asset_of(path) == if rest.len() > 0 {
            rest
        } else {
            "remote.html"@
        },
    decreases slashes,
{
    if slashes > 0 {
        let fewer = (slashes - 1) as nat;
        assert(path[0] == '/');
        assert(path.skip(1) =~= Seq::new(fewer, |i: int| '/') + rest);
        request_asks_for_its_path(path.skip(1), fewer, rest);
        assert(strip_front(path, Trim::Only('/')) == strip_front(path.skip(1), Trim::Only('/')));
    } else {
        assert(path =~= rest);
    }
}

/// A message is a ping exactly where it is an object whose type is the text `ping`.
pub proof fn ping_is_told_by_its_type(message: Result<JsonView, Seq<char>>)
    ensures
        is_ping(message) <==> (message matches Ok(JsonView::Object(members))
            && crate::json::member(members, "type"@) == Some(JsonView::Text("ping"@))),
{
}

} // verus!
