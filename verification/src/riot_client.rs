//! The signed-in account as the Riot Client's local API reports it.

use vstd::prelude::*;

use crate::codec::{format_uuid, parse_uuid, uuid_parsed, uuid_text};
use crate::json::{integer_in, json_parsed, parse, text_in, Json, JsonView};
use crate::number::{
    decimal, decimal_is_digits, decimal_of, decimal_reads_back, parse_u16, parse_u32, parsed,
};
use crate::text::{
    eq_ignore_ascii_case, joined_by, joined_pieces_split_again, lines, lines_of, owned, same_folded,
    split, split_on, split_pieces_make_the_text, text_without_line_end_is_one_line, trim, trimmed,
    view_of, views,
};
use crate::windows::process::{image_for_pid, image_of, table_view, ProcessModel, SnapshotError, Table};

verus! {

/// Where the Riot Client listens, and the password it asks for.
#[derive(Debug, PartialEq, Eq)]
pub struct Endpoint {
    pub port: u16,
    pub password: String,
}

/// Where the Riot Client listens, as a mathematical value.
pub struct EndpointModel {
    pub port: u16,
    pub password: Seq<char>,
}

impl View for Endpoint {
    type V = EndpointModel;

    open spec fn view(&self) -> EndpointModel {
        EndpointModel { port: self.port, password: self.password@ }
    }
}

/// The account that the Riot Client reports.
#[derive(Debug, PartialEq, Eq)]
pub struct RiotIdentity {
    pub puuid: String,
    pub game_name: String,
    pub tag_line: String,
    pub platform: Option<String>,
    pub profile_icon_id: Option<i64>,
}

/// The account that the Riot Client reports, as a mathematical value.
pub struct RiotModel {
    pub puuid: Seq<char>,
    pub game_name: Seq<char>,
    pub tag_line: Seq<char>,
    pub platform: Option<Seq<char>>,
    pub profile_icon_id: Option<i64>,
}

impl View for RiotIdentity {
    type V = RiotModel;

    open spec fn view(&self) -> RiotModel {
        RiotModel {
            puuid: self.puuid@,
            game_name: self.game_name@,
            tag_line: self.tag_line@,
            platform: owned(self.platform),
            profile_icon_id: self.profile_icon_id,
        }
    }
}

/// The view of an optional identity.
pub open spec fn identity_view(identity: Option<RiotIdentity>) -> Option<RiotModel> {
    match identity {
        Some(identity) => Some(identity@),
        None => None,
    }
}

/// What a look at the Riot Client gave.
#[derive(Debug, PartialEq, Eq)]
pub enum RiotProbe {
    Identified(RiotIdentity),
    NotRunning,
    NotReady,
    Unavailable,
}

/// What a look at the Riot Client gave, as a mathematical value.
pub enum ProbeModel {
    Identified(RiotModel),
    NotRunning,
    NotReady,
    Unavailable,
}

impl View for RiotProbe {
    type V = ProbeModel;

    open spec fn view(&self) -> ProbeModel {
        match *self {
            RiotProbe::Identified(identity) => ProbeModel::Identified(identity@),
            RiotProbe::NotRunning => ProbeModel::NotRunning,
            RiotProbe::NotReady => ProbeModel::NotReady,
            RiotProbe::Unavailable => ProbeModel::Unavailable,
        }
    }
}

/// What the user information says of the account `id`: nothing until both halves of the Riot ID
/// are there.
pub open spec fn account_of(id: u128, info: JsonView) -> Option<RiotModel> {
    match (
        text_in(info.get2("acct"@, "game_name"@)),
        text_in(info.get2("acct"@, "tag_line"@)),
    ) {
        (Some(game), Some(tag)) => if trimmed(game).len() > 0 && trimmed(tag).len() > 0 {
            Some(
                RiotModel {
                    puuid: uuid_text(id),
                    game_name: trimmed(game),
                    tag_line: trimmed(tag),
                    platform: text_in(info.get2("lol"@, "cpid"@)),
                    profile_icon_id: integer_in(info.get2("lol_account"@, "profile_icon"@)),
                },
            )
        } else {
            None
        },
        _ => None,
    }
}

/// What the user information says: nothing unless its subject is a UUID.
pub open spec fn identity_of(info: JsonView) -> Option<RiotModel> {
    match text_in(info.get("sub"@)) {
        Some(subject) => match uuid_parsed(trimmed(subject)) {
            Some(id) => account_of(id, info),
            None => None,
        },
        None => None,
    }
}

fn member_text<'a>(info: &'a Json, outer: &str, inner: &str) -> (text: Option<&'a str>)
    ensures
        view_of(text) == text_in(info@.get2(outer@, inner@)),
{
    match info.get2(outer, inner) {
        Some(value) => value.text(),
        None => None,
    }
}

/// What the user information says of the account `id`.
pub fn signed_in_account(id: u128, info: &Json) -> (identity: Option<RiotIdentity>)
    ensures
        identity_view(identity) == account_of(id, info@),
{
    let game = match member_text(info, "acct", "game_name") {
        Some(text) => trim(text),
        None => {
            return None;
        },
    };
    let tag = match member_text(info, "acct", "tag_line") {
        Some(text) => trim(text),
        None => {
            return None;
        },
    };
    if game.is_empty() || tag.is_empty() {
        return None;
    }
    let platform = match member_text(info, "lol", "cpid") {
        Some(text) => Some(text.to_owned()),
        None => None,
    };
    let profile_icon_id = match info.get2("lol_account", "profile_icon") {
        Some(value) => value.integer(),
        None => None,
    };
    Some(
        RiotIdentity {
            puuid: format_uuid(id),
            game_name: game.to_owned(),
            tag_line: tag.to_owned(),
            platform,
            profile_icon_id,
        },
    )
}

/// What the user information says.
pub fn signed_in_identity(info: &Json) -> (identity: Option<RiotIdentity>)
    ensures
        identity_view(identity) == identity_of(info@),
{
    let subject = match info.get("sub") {
        Some(value) => value.text(),
        None => None,
    };
    match subject {
        Some(subject) => {
            match parse_uuid(trim(subject)) {
                Some(id) => signed_in_account(id, info),
                None => None,
            }
        },
        None => None,
    }
}

/// What the text of the user information says: nothing unless it is a JSON document.
pub open spec fn userinfo(text: Seq<char>) -> Option<RiotModel> {
    match json_parsed(text) {
        Ok(info) => identity_of(info),
        Err(_) => None,
    }
}

/// The account that the text of the user information names.
pub fn parse_userinfo(user_info: &str) -> (identity: Option<RiotIdentity>)
    ensures
        identity_view(identity) == userinfo(user_info@),
{
    match parse(user_info) {
        Ok(info) => signed_in_identity(&info),
        Err(_) => None,
    }
}

/// What the fields of a lockfile say: exactly name, process id, port, password and protocol.
pub open spec fn lockfile_fields(parts: Seq<Seq<char>>) -> Option<(u32, EndpointModel)> {
    if parts.len() != 5 {
        None
    } else {
        match (parsed(parts[1], u32::MAX as nat), parsed(parts[2], u16::MAX as nat)) {
            (Some(pid), Some(port)) => if same_folded(parts[0], "Riot Client"@) && pid != 0 && port
                != 0 && parts[3].len() > 0 && same_folded(parts[4], "https"@) {
                Some((pid as u32, EndpointModel { port: port as u16, password: parts[3] }))
            } else {
                None
            },
            _ => None,
        }
    }
}

/// What the first line of a lockfile says.
pub open spec fn lockfile(body: Seq<char>) -> Option<(u32, EndpointModel)> {
    if lines(body).len() == 0 {
        None
    } else {
        lockfile_fields(split(trimmed(lines(body)[0]), ':'))
    }
}

/// The process id and the endpoint that a lockfile names.
pub fn parse_lockfile(body: &str) -> (result: Option<(u32, Endpoint)>)
    ensures
        match result {
            Some((pid, endpoint)) => lockfile(body@) == Some((pid, endpoint@)),
            None => lockfile(body@) is None,
        },
{
    let all = lines_of(body);
    if all.len() == 0 {
        return None;
    }
    assert(lines(body@)[0] == all@[0]@);
    let parts = split_on(trim(all[0]), ':');
    let ghost fields = split(trimmed(lines(body@)[0]), ':');
    assert(fields == views(parts@));
    if parts.len() != 5 {
        return None;
    }
    assert(forall|i: int| 0 <= i < 5 ==> fields[i] == #[trigger] parts@[i]@);
    let pid = match parse_u32(parts[1]) {
        Some(pid) => pid,
        None => {
            return None;
        },
    };
    let port = match parse_u16(parts[2]) {
        Some(port) => port,
        None => {
            return None;
        },
    };
    if !eq_ignore_ascii_case(parts[0], "Riot Client") || pid == 0 || port == 0
        || parts[3].is_empty() || !eq_ignore_ascii_case(parts[4], "https") {
        return None;
    }
    Some((pid, Endpoint { port, password: parts[3].to_owned() }))
}

/// Where the Riot Client listens, from the text of its lockfile and the process table. The
/// process that the lockfile names must be the Riot Client; a table that cannot be read is not
/// the same as nothing running.
pub open spec fn discovered(
    body: Option<Seq<char>>,
    table: Result<Seq<ProcessModel>, SnapshotError>,
) -> Result<Option<EndpointModel>, SnapshotError> {
    match body {
        None => Ok(None),
        Some(body) => match lockfile(body) {
            None => Ok(None),
            Some((pid, endpoint)) => match table {
                Err(error) => Err(error),
                Ok(processes) => match image_of(processes, pid, 0) {
                    Some(image) => if same_folded(image, "RiotClientServices.exe"@) {
                        Ok(Some(endpoint))
                    } else {
                        Ok(None)
                    },
                    None => Ok(None),
                },
            },
        },
    }
}

/// The view of what a search for the Riot Client gave.
pub open spec fn discovery_view(
    result: Result<Option<Endpoint>, SnapshotError>,
) -> Result<Option<EndpointModel>, SnapshotError> {
    match result {
        Ok(Some(endpoint)) => Ok(Some(endpoint@)),
        Ok(None) => Ok(None),
        Err(error) => Err(error),
    }
}

/// Where the Riot Client listens. `body` is the text of its lockfile where there is one.
pub fn discover(body: Option<&str>, table: &Table) -> (result: Result<
    Option<Endpoint>,
    SnapshotError,
>)
    ensures
        discovery_view(result) == discovered(view_of(body), table_view(*table)),
{
    match body {
        None => Ok(None),
        Some(body) => {
            match parse_lockfile(body) {
                None => Ok(None),
                Some((pid, endpoint)) => {
                    match image_for_pid(table, pid) {
                        Err(error) => Err(error),
                        Ok(Some(image)) => {
                            if eq_ignore_ascii_case(image.as_str(), "RiotClientServices.exe") {
                                Ok(Some(endpoint))
                            } else {
                                Ok(None)
                            }
                        },
                        Ok(None) => Ok(None),
                    }
                },
            }
        },
    }
}

/// The address that the user information is read from.
pub fn userinfo_url(port: u16) -> (url: String)
    ensures
        url@ == "https://127.0.0.1:"@ + decimal(port as nat)
            + "/rso-auth/v1/authorization/userinfo"@,
{
    let mut url = "https://127.0.0.1:".to_owned();
    url.append(decimal_of(port as u64).as_str());
    url.append("/rso-auth/v1/authorization/userinfo");
    url
}

/// What the Riot Client answered.
pub enum UserInfoReply {
    /// There was no answer.
    Silent,
    /// An answer whose body could not be read.
    Unreadable(u16),
    /// An answer with the user information that its body holds, if it holds any.
    Body(u16, Option<String>),
}

/// What the Riot Client answered, as a mathematical value.
pub enum ReplyModel {
    Silent,
    Unreadable(u16),
    Body(u16, Option<Seq<char>>),
}

impl View for UserInfoReply {
    type V = ReplyModel;

    open spec fn view(&self) -> ReplyModel {
        match *self {
            UserInfoReply::Silent => ReplyModel::Silent,
            UserInfoReply::Unreadable(status) => ReplyModel::Unreadable(status),
            UserInfoReply::Body(status, info) => ReplyModel::Body(status, owned(info)),
        }
    }
}

/// Whether a status reports success.
pub open spec fn is_success(status: u16) -> bool {
    200 <= status && status < 300
}

/// Whether a status says that nobody is signed in yet.
pub open spec fn is_signed_out(status: u16) -> bool {
    status == 401 || status == 403 || status == 404
}

/// What an answer of the Riot Client means.
pub open spec fn probe_of(reply: ReplyModel) -> ProbeModel {
    match reply {
        ReplyModel::Silent => ProbeModel::Unavailable,
        ReplyModel::Unreadable(status) => if is_signed_out(status) {
            ProbeModel::NotReady
        } else {
            ProbeModel::Unavailable
        },
        ReplyModel::Body(status, info) => if is_signed_out(status) {
            ProbeModel::NotReady
        } else if !is_success(status) {
            ProbeModel::Unavailable
        } else {
            match info {
                None => ProbeModel::NotReady,
                Some(text) => match userinfo(text) {
                    Some(identity) => ProbeModel::Identified(identity),
                    None => ProbeModel::NotReady,
                },
            }
        },
    }
}

fn signed_out(status: u16) -> (result: bool)
    ensures
        result == is_signed_out(status),
{
    status == 401 || status == 403 || status == 404
}

/// What a search that found no endpoint to ask means; nothing where there is one to ask. An
/// unreadable process table is reported as "unavailable" rather than as a client that is gone.
pub fn probe_without_answer(result: &Result<Option<Endpoint>, SnapshotError>) -> (probe: Option<
    RiotProbe,
>)
    ensures
        match discovery_view(*result) {
            Ok(Some(_)) => probe is None,
            Ok(None) => probe matches Some(p) && p@ == ProbeModel::NotRunning,
            Err(_) => probe matches Some(p) && p@ == ProbeModel::Unavailable,
        },
{
    match result {
        Ok(Some(_)) => None,
        Ok(None) => Some(RiotProbe::NotRunning),
        Err(_) => Some(RiotProbe::Unavailable),
    }
}

/// What an answer of the Riot Client means.
pub fn detect(reply: UserInfoReply) -> (probe: RiotProbe)
    ensures
        probe@ == probe_of(reply@),
{
    match reply {
        UserInfoReply::Silent => RiotProbe::Unavailable,
        UserInfoReply::Unreadable(status) => {
            if signed_out(status) {
                RiotProbe::NotReady
            } else {
                RiotProbe::Unavailable
            }
        },
        UserInfoReply::Body(status, info) => {
            if signed_out(status) {
                return RiotProbe::NotReady;
            }
            if !(200 <= status && status < 300) {
                return RiotProbe::Unavailable;
            }
            match info {
                None => RiotProbe::NotReady,
                Some(text) => {
                    match parse_userinfo(text.as_str()) {
                        Some(identity) => RiotProbe::Identified(identity),
                        None => RiotProbe::NotReady,
                    }
                },
            }
        },
    }
}

/// An account is identified only by an answer that reports success, and its identifier is
/// always a UUID in its hyphenated form.
pub proof fn identified_means_a_successful_answer(reply: ReplyModel)
    requires
        probe_of(reply) is Identified,
    ensures
        reply matches ReplyModel::Body(status, Some(_)) && is_success(status) && !is_signed_out(
            status,
        ),
        exists|id: u128| probe_of(reply)->Identified_0.puuid == #[trigger] uuid_text(id),
        probe_of(reply)->Identified_0.game_name.len() > 0,
        probe_of(reply)->Identified_0.tag_line.len() > 0,
{
    if let ReplyModel::Body(_, Some(text)) = reply {
        if let Ok(info) = json_parsed(text) {
            if let Some(subject) = text_in(info.get("sub"@)) {
                if let Some(id) = uuid_parsed(trimmed(subject)) {
                    assert(probe_of(reply)->Identified_0.puuid == uuid_text(id));
                }
            }
        }
    }
}

/// What the Riot Client writes into its lockfile is read from it: the process, the port and the
/// password.
pub proof fn written_lockfile_is_read(
    name: Seq<char>,
    pid: u32,
    port: u16,
    password: Seq<char>,
    protocol: Seq<char>,
)
    requires
        same_folded(name, "Riot Client"@),
        same_folded(protocol, "https"@),
        pid != 0,
        port != 0,
        password.len() > 0,
        !name.contains(':') && !password.contains(':') && !protocol.contains(':'),
        ({
            let body = joined_by(
                seq![name, decimal(pid as nat), decimal(port as nat), password, protocol],
                ':',
            );
            !body.contains('\n') && trimmed(body) == body
        }),
    ensures
        lockfile(
            joined_by(
                seq![name, decimal(pid as nat), decimal(port as nat), password, protocol],
                ':',
            ),
        ) == Some((pid, EndpointModel { port, password })),
{
    let parts = seq![name, decimal(pid as nat), decimal(port as nat), password, protocol];
    let body = joined_by(parts, ':');
    decimal_reads_back(pid as nat, u32::MAX as nat);
    decimal_reads_back(port as nat, u16::MAX as nat);
    assert(!decimal(pid as nat).contains(':') && !decimal(port as nat).contains(':')) by {
        decimal_is_digits(pid as nat);
        decimal_is_digits(port as nat);
    }
    assert forall|k: int| 0 <= k < parts.len() implies !(#[trigger] parts[k]).contains(':') by {}
    joined_pieces_split_again(parts, ':');
    split_pieces_make_the_text(body, ':');
    assert(body.len() > 0) by {
        assert(joined_by(parts, ':') == parts[0] + seq![':'] + joined_by(parts.skip(1), ':'));
    }
    text_without_line_end_is_one_line(body);
}

/// The Riot Client is found only where the process table shows that the process of its lockfile is
/// the Riot Client. A table that cannot be read is never taken for a client that is gone.
pub proof fn found_client_is_running(
    body: Seq<char>,
    table: Result<Seq<ProcessModel>, SnapshotError>,
)
    ensures
        match discovered(Some(body), table) {
            Ok(Some(endpoint)) => match (lockfile(body), table) {
                (Some((pid, named)), Ok(processes)) => named == endpoint && exists|k: int|
                    0 <= k < processes.len() && (#[trigger] processes[k]).pid == pid && same_folded(
                        processes[k].image,
                        "RiotClientServices.exe"@,
                    ),
                _ => false,
            },
            Ok(None) => lockfile(body) is None || table is Ok,
            Err(error) => table == Err::<Seq<ProcessModel>, SnapshotError>(error),
        },
        table is Err && lockfile(body) is Some ==> discovered(Some(body), table) is Err,
        discovered(None, table) == Ok::<Option<EndpointModel>, SnapshotError>(None),
{
    if let Some((pid, endpoint)) = lockfile(body) {
        if let Ok(processes) = table {
            lemma_image_of(processes, pid, 0);
        }
    }
}

proof fn lemma_image_of(processes: Seq<ProcessModel>, pid: u32, from: int)
    requires
        0 <= from <= processes.len(),
    ensures
        image_of(processes, pid, from) matches Some(image) ==> exists|k: int|
            from <= k < processes.len() && (#[trigger] processes[k]).pid == pid && processes[k].image
                == image,
        image_of(processes, pid, from) is None ==> forall|k: int|
            from <= k < processes.len() ==> (#[trigger] processes[k]).pid != pid,
    decreases processes.len() - from,
{
    if from < processes.len() && processes[from].pid != pid {
        lemma_image_of(processes, pid, from + 1);
    }
}

/// A running Riot Client is found: where the lockfile names a process that is listed once, as the
/// Riot Client, its endpoint is what is found.
pub proof fn running_client_is_found(
    body: Seq<char>,
    processes: Seq<ProcessModel>,
    pid: u32,
    endpoint: EndpointModel,
    k: int,
)
    requires
        lockfile(body) == Some((pid, endpoint)),
        0 <= k < processes.len(),
        processes[k].pid == pid,
        same_folded(processes[k].image, "RiotClientServices.exe"@),
        forall|j: int| 0 <= j < processes.len() && j != k ==> (#[trigger] processes[j]).pid != pid,
    ensures
        discovered(Some(body), Ok(processes)) == Ok::<Option<EndpointModel>, SnapshotError>(
            Some(endpoint),
        ),
{
    lemma_image_of(processes, pid, 0);
}

/// Nobody is signed in where the Riot Client says so or names no account; it cannot be asked where
/// it gives no answer or an answer of another kind.
pub proof fn answer_says_whether_somebody_is_signed_in(reply: ReplyModel)
    ensures
        reply is Silent ==> probe_of(reply) is Unavailable,
        probe_of(reply) !is NotRunning,
        reply matches ReplyModel::Unreadable(status) ==> (probe_of(reply) is NotReady <==> status
            == 401 || status == 403 || status == 404) && (probe_of(reply) is NotReady
            || probe_of(reply) is Unavailable),
        reply matches ReplyModel::Body(status, info) ==> {
            &&& status == 401 || status == 403 || status == 404 ==> probe_of(reply) is NotReady
            &&& 200 <= status < 300 && info is None ==> probe_of(reply) is NotReady
            &&& 200 <= status < 300 ==> !(probe_of(reply) is Unavailable)
            &&& !(200 <= status < 300) && status != 401 && status != 403 && status != 404
                ==> probe_of(reply) is Unavailable
        },
{
}

/// The account that is read is the one that the user information names: its subject, its Riot ID
/// without spaces around, its platform and its icon; and it is read wherever all of that is there.
pub proof fn named_account_is_read(
    text: Seq<char>,
    info: JsonView,
    id: u128,
    subject: Seq<char>,
    game: Seq<char>,
    tag: Seq<char>,
    status: u16,
)
    requires
        json_parsed(text) == Ok::<JsonView, Seq<char>>(info),
        text_in(info.get("sub"@)) == Some(subject),
        uuid_parsed(trimmed(subject)) == Some(id),
        text_in(info.get2("acct"@, "game_name"@)) == Some(game),
        text_in(info.get2("acct"@, "tag_line"@)) == Some(tag),
        trimmed(game).len() > 0,
        trimmed(tag).len() > 0,
        200 <= status < 300,
    ensures
        probe_of(ReplyModel::Body(status, Some(text))) matches ProbeModel::Identified(riot) && {
            &&& riot.puuid == uuid_text(id)
            &&& riot.game_name == trimmed(game)
            &&& riot.tag_line == trimmed(tag)
            &&& riot.platform == text_in(info.get2("lol"@, "cpid"@))
            &&& riot.profile_icon_id == integer_in(info.get2("lol_account"@, "profile_icon"@))
        },
{
}

/// Nothing is read from a lockfile but what the Riot Client writes: five fields, its name, numbers
/// that are not zero, a password, and `https`.
pub proof fn only_a_whole_lockfile_is_read(body: Seq<char>)
    requires
        lockfile(body) is Some,
    ensures
        ({
            let fields = split(trimmed(lines(body)[0]), ':');
            let (pid, endpoint) = lockfile(body)->Some_0;
            &&& lines(body).len() > 0
            &&& fields.len() == 5
            &&& same_folded(fields[0], "Riot Client"@)
            &&& parsed(fields[1], u32::MAX as nat) == Some(pid as nat) && pid != 0
            &&& parsed(fields[2], u16::MAX as nat) == Some(endpoint.port as nat) && endpoint.port != 0
            &&& fields[3] == endpoint.password && endpoint.password.len() > 0
            &&& same_folded(fields[4], "https"@)
        }),
{
}

} // verus!
