//! Who is signed in, and what that means for the saved accounts.

use vstd::prelude::*;
use vstd::utf8::{is_ascii_chars, is_ascii_chars_encode_utf8};

use crate::codec::{base64_encode, base64_text};
use crate::json::{json_parsed, parse, parse_view, text_in, Json, JsonView};
use crate::number::{decimal, signed_decimal, signed_decimal_of};
use crate::riot_client::{is_success, ProbeModel, RiotModel, RiotProbe};
use crate::text::{
    byte_len, chars_of, copy_of, eq_ignore_ascii_case, holds, is_white, lemma_strip_again,
    lemma_utf8_concat, owned, same, same_folded, strip, strip_back, strip_front, strip_of, trim,
    trimmed, trimming_takes_white_space_alone, view_of, Trim,
};
use crate::unicode::{to_uppercase, uppercase};
use crate::vault::files::is_icon;
use crate::vault::{format_riot_id, riot_id_text, Account, AccountModel, Config, ConfigModel};
use crate::windows::process::SnapshotError;

verus! {

/// The largest profile icon that is fetched, in bytes.
pub const MAX_ICON_BYTES: usize = 262_144;

/// The path of the signed-in summoner.
pub const SUMMONER_PATH: &'static str = "/lol-summoner/v1/current-summoner";

/// The path of the League platform id.
pub const PLATFORM_PATH: &'static str =
    "/lol-platform-config/v1/namespaces/LoginDataPacket/platformId";

/// The signed-in Riot account as read from the local Riot Client.
///
/// `puuid` is the canonical identity. The Riot ID is display-only and can change at any time,
/// and `platform` comes from Riot's League account data, never from the Riot ID tagline.
#[derive(Debug, PartialEq, Eq)]
pub struct DetectedIdentity {
    pub puuid: String,
    pub game_name: String,
    pub tag_line: String,
    pub platform: Option<String>,
    pub region: Option<String>,
    pub profile_icon_id: Option<i64>,
    pub icon_data_url: Option<String>,
}

/// The signed-in Riot account, as a mathematical value.
pub struct IdentityModel {
    pub puuid: Seq<char>,
    pub game_name: Seq<char>,
    pub tag_line: Seq<char>,
    pub platform: Option<Seq<char>>,
    pub region: Option<Seq<char>>,
    pub profile_icon_id: Option<i64>,
    pub icon_data_url: Option<Seq<char>>,
}

impl View for DetectedIdentity {
    type V = IdentityModel;

    open spec fn view(&self) -> IdentityModel {
        IdentityModel {
            puuid: self.puuid@,
            game_name: self.game_name@,
            tag_line: self.tag_line@,
            platform: owned(self.platform),
            region: owned(self.region),
            profile_icon_id: self.profile_icon_id,
            icon_data_url: owned(self.icon_data_url),
        }
    }
}

impl Clone for DetectedIdentity {
    fn clone(&self) -> (copy: Self)
        ensures
            copy == *self,
    {
        DetectedIdentity {
            puuid: self.puuid.clone(),
            game_name: self.game_name.clone(),
            tag_line: self.tag_line.clone(),
            platform: copy_of(&self.platform),
            region: copy_of(&self.region),
            profile_icon_id: self.profile_icon_id,
            icon_data_url: copy_of(&self.icon_data_url),
        }
    }
}

impl IdentityModel {
    /// The Riot ID as it is displayed.
    pub open spec fn riot_id(self) -> Seq<char> {
        riot_id_text(self.game_name, self.tag_line)
    }
}

impl DetectedIdentity {
    /// The Riot ID as it is displayed.
    pub fn riot_id(&self) -> (text: String)
        ensures
            text@ == self@.riot_id(),
    {
        format_riot_id(self.game_name.as_str(), self.tag_line.as_str())
    }
}

/// One probe against Riot Client, before it is matched to saved accounts.
#[derive(Debug, PartialEq, Eq)]
pub enum Detection {
    Identified(DetectedIdentity),
    /// The Riot Client is not running (or has no lockfile yet).
    NotRunning,
    /// The Riot Client is reachable but no Riot account is signed in yet.
    NotReady,
    /// The client was found but its API could not be read.
    Unavailable,
}

/// One probe against Riot Client, as a mathematical value.
pub enum DetectionModel {
    Identified(IdentityModel),
    NotRunning,
    NotReady,
    Unavailable,
}

impl View for Detection {
    type V = DetectionModel;

    open spec fn view(&self) -> DetectionModel {
        match *self {
            Detection::Identified(identity) => DetectionModel::Identified(identity@),
            Detection::NotRunning => DetectionModel::NotRunning,
            Detection::NotReady => DetectionModel::NotReady,
            Detection::Unavailable => DetectionModel::Unavailable,
        }
    }
}

/// What a detection means to the user.
#[derive(Debug, PartialEq, Eq)]
pub enum DetectOutcome {
    Identified {
        identity: DetectedIdentity,
        /// Saved account whose PUUID matches the live identity, if any.
        saved_account_id: Option<u128>,
    },
    NotRunning,
    NotReady,
    Unavailable,
}

/// What a detection means to the user, as a mathematical value.
pub enum OutcomeModel {
    Identified { identity: IdentityModel, saved_account_id: Option<u128> },
    NotRunning,
    NotReady,
    Unavailable,
}

impl View for DetectOutcome {
    type V = OutcomeModel;

    open spec fn view(&self) -> OutcomeModel {
        match *self {
            DetectOutcome::Identified { identity, saved_account_id } => OutcomeModel::Identified {
                identity: identity@,
                saved_account_id,
            },
            DetectOutcome::NotRunning => OutcomeModel::NotRunning,
            DetectOutcome::NotReady => OutcomeModel::NotReady,
            DetectOutcome::Unavailable => OutcomeModel::Unavailable,
        }
    }
}

/// `value` without the spaces and quotes around it.
pub open spec fn unquoted(value: Seq<char>) -> Seq<char> {
    trimmed(strip(trimmed(value), Trim::Only('"')))
}

fn unquote<'a>(value: &'a str) -> (text: &'a str)
    ensures
        text@ == unquoted(value@),
{
    trim(strip_of(trim(value), Trim::Only('"')))
}

/// `value` without the spaces and quotes around it, unless nothing is left.
pub open spec fn nonblank(value: Seq<char>) -> Option<Seq<char>> {
    if unquoted(value).len() > 0 {
        Some(unquoted(value))
    } else {
        None
    }
}

/// `value` without the spaces and quotes around it, unless nothing is left.
pub fn nonempty(value: &str) -> (text: Option<String>)
    ensures
        owned(text) == nonblank(value@),
{
    let text = unquote(value);
    if text.is_empty() {
        None
    } else {
        Some(text.to_owned())
    }
}

/// The platform id that a platform configuration holds: a string, or an object's `platformId`
/// or else its `value`; a body that is no JSON document is taken as it is.
pub open spec fn platform_of(
    document: Result<JsonView, Seq<char>>,
    body: Seq<char>,
) -> Option<Seq<char>> {
    match document {
        Ok(JsonView::Text(value)) => nonblank(value),
        Ok(JsonView::Object(members)) => {
            let object = JsonView::Object(members);
            let named = match object.get("platformId"@) {
                Some(value) => Some(value),
                None => object.get("value"@),
            };
            match text_in(named) {
                Some(value) => nonblank(value),
                None => None,
            }
        },
        Ok(_) => None,
        Err(_) => nonblank(body),
    }
}

/// The platform id that a platform configuration holds.
pub fn platform_in(document: &Result<Json, String>, body: &str) -> (platform: Option<String>)
    ensures
        owned(platform) == platform_of(parse_view(*document), body@),
{
    match document {
        Ok(json) => {
            match json {
                Json::Text(value) => nonempty(value.as_str()),
                Json::Object(members) => {
                    proof {
                        Json::lemma_object(*members);
                    }
                    let named = match json.get("platformId") {
                        Some(value) => Some(value),
                        None => json.get("value"),
                    };
                    match named {
                        Some(value) => {
                            match value.text() {
                                Some(text) => nonempty(text),
                                None => None,
                            }
                        },
                        None => None,
                    }
                },
                _ => None,
            }
        },
        Err(_) => nonempty(body),
    }
}

/// Pulls the platform id out of a platform-config response body.
pub fn parse_platform(body: &str) -> (platform: Option<String>)
    ensures
        owned(platform) == platform_of(json_parsed(trimmed(body@)), body@),
{
    let document = parse(trim(body));
    platform_in(&document, body)
}

/// Whether a text looks like a platform id.
pub open spec fn is_platform(value: Seq<char>) -> bool {
    &&& 0 < value.len() <= 16
    &&& forall|i: int|
        0 <= i < value.len() ==> ('A' <= #[trigger] value[i] <= 'Z' || '0' <= value[i] <= '9')
}

/// A text, if it looks like a platform id.
pub fn platform_shaped(value: String) -> (platform: Option<String>)
    ensures
        owned(platform) == (if is_platform(value@) {
            Some(value@)
        } else {
            None
        }),
{
    if value.as_str().is_empty() || byte_len(value.as_str()) > 16 {
        proof {
            if is_platform(value@) {
                assert(is_ascii_chars(value@));
                is_ascii_chars_encode_utf8(value@);
            }
        }
        return None;
    }
    let chars = chars_of(value.as_str());
    let mut i: usize = 0;
    while i < chars.len()
        invariant
            i <= chars@.len(),
            chars@ == value@,
            forall|k: int|
                0 <= k < i ==> ('A' <= #[trigger] value@[k] <= 'Z' || '0' <= value@[k] <= '9'),
        decreases chars@.len() - i,
    {
        let c = chars[i];
        if !(('A' <= c && c <= 'Z') || ('0' <= c && c <= '9')) {
            assert(!('A' <= value@[i as int] <= 'Z' || '0' <= value@[i as int] <= '9'));
            return None;
        }
        i = i + 1;
    }
    proof {
        assert(is_ascii_chars(value@));
        is_ascii_chars_encode_utf8(value@);
    }
    Some(value)
}

/// Accepts only platform-shaped values such as `EUW1` or `NA1`.
pub open spec fn normalized(value: Seq<char>) -> Option<Seq<char>> {
    if is_platform(uppercase(unquoted(value))) {
        Some(uppercase(unquoted(value)))
    } else {
        None
    }
}

/// Accepts only platform-shaped values such as `EUW1` or `NA1`.
pub fn normalize_platform(value: &str) -> (platform: Option<String>)
    ensures
        owned(platform) == normalized(value@),
{
    platform_shaped(to_uppercase(unquote(value)))
}

/// The region labels of the League platforms that have one of their own.
pub const REGIONS: [(&'static str, &'static str); 16] = [
    ("BR1", "BR"),
    ("EUN1", "EUNE"),
    ("EUW1", "EUW"),
    ("JP1", "JP"),
    ("KR", "KR"),
    ("LA1", "LAN"),
    ("LA2", "LAS"),
    ("NA1", "NA"),
    ("OC1", "OCE"),
    ("PBE1", "PBE"),
    ("PH2", "PH"),
    ("SG2", "SG"),
    ("TH2", "TH"),
    ("TR1", "TR"),
    ("TW2", "TW"),
    ("VN2", "VN"),
];

/// The label of a platform among the labels from number `i` on; the platform itself where there
/// is none.
pub open spec fn label_from(platform: Seq<char>, i: int) -> Seq<char>
    decreases 16 - i,
{
    if i >= 16 {
        platform
    } else if REGIONS@[i].0@ == platform {
        REGIONS@[i].1@
    } else {
        label_from(platform, i + 1)
    }
}

/// The friendly region label of a League platform id.
pub open spec fn region_of(platform: Seq<char>) -> Seq<char> {
    label_from(platform, 0)
}

/// Maps a League platform id to its friendly region label.
///
/// The tagline of a Riot ID is user-controlled and non-authoritative, so the region shown in
/// Swapper is derived only from the League platform id.
pub fn region_label(platform: &str) -> (label: String)
    ensures
        label@ == region_of(platform@),
{
    let mut i: usize = 0;
    while i < 16
        invariant
            i <= 16,
            region_of(platform@) == label_from(platform@, i as int),
        decreases 16 - i,
    {
        if same(REGIONS[i].0, platform) {
            return REGIONS[i].1.to_owned();
        }
        i = i + 1;
    }
    platform.to_owned()
}

/// The label of an optional platform.
pub open spec fn region_in(platform: Option<Seq<char>>) -> Option<Seq<char>> {
    match platform {
        Some(platform) => Some(region_of(platform)),
        None => None,
    }
}

fn region_of_platform(platform: &Option<String>) -> (region: Option<String>)
    ensures
        owned(region) == region_in(owned(*platform)),
{
    match platform {
        Some(platform) => Some(region_label(platform.as_str())),
        None => None,
    }
}

/// A profile icon's number, unless it is negative.
pub open spec fn icon_number(id: Option<i64>) -> Option<i64> {
    match id {
        Some(id) => if id >= 0 {
            Some(id)
        } else {
            None
        },
        None => None,
    }
}

fn icon_number_of(id: Option<i64>) -> (number: Option<i64>)
    ensures
        number == icon_number(id),
{
    match id {
        Some(id) => {
            if id >= 0 {
                Some(id)
            } else {
                None
            }
        },
        None => None,
    }
}

/// The identity that the Riot Client reports, without what only the League client knows.
pub open spec fn riot_identity(riot: RiotModel) -> IdentityModel {
    let platform = match riot.platform {
        Some(value) => normalized(value),
        None => None,
    };
    IdentityModel {
        puuid: riot.puuid,
        game_name: riot.game_name,
        tag_line: riot.tag_line,
        platform,
        region: region_in(platform),
        profile_icon_id: icon_number(riot.profile_icon_id),
        icon_data_url: None,
    }
}

/// What a probe of the Riot Client detects.
pub open spec fn detection_of(probe: ProbeModel) -> DetectionModel {
    match probe {
        ProbeModel::Identified(riot) => DetectionModel::Identified(riot_identity(riot)),
        ProbeModel::NotRunning => DetectionModel::NotRunning,
        ProbeModel::NotReady => DetectionModel::NotReady,
        ProbeModel::Unavailable => DetectionModel::Unavailable,
    }
}

/// What a probe of the Riot Client detects. League Client is optional and adds a profile image
/// later, see [`enrich`].
pub fn detect(probe: RiotProbe) -> (detection: Detection)
    ensures
        detection@ == detection_of(probe@),
{
    match probe {
        RiotProbe::Identified(riot) => {
            let platform = match &riot.platform {
                Some(value) => normalize_platform(value.as_str()),
                None => None,
            };
            let region = region_of_platform(&platform);
            Detection::Identified(
                DetectedIdentity {
                    puuid: riot.puuid,
                    game_name: riot.game_name,
                    tag_line: riot.tag_line,
                    platform,
                    region,
                    profile_icon_id: icon_number_of(riot.profile_icon_id),
                    icon_data_url: None,
                },
            )
        },
        RiotProbe::NotRunning => Detection::NotRunning,
        RiotProbe::NotReady => Detection::NotReady,
        RiotProbe::Unavailable => Detection::Unavailable,
    }
}

/// Whether the League client is asked for a profile image. Enrichment is cosmetic: an unreadable
/// process table just skips it.
pub fn league_is_asked(running: Option<Result<bool, SnapshotError>>) -> (asked: bool)
    ensures
        asked == (running == Some(Ok::<bool, SnapshotError>(true))),
{
    match running {
        Some(Ok(running)) => running,
        _ => false,
    }
}

/// An identity with the profile image that the League client shows, if it shows the same
/// account.
pub open spec fn enriched(identity: IdentityModel, league: DetectionModel) -> IdentityModel {
    match league {
        DetectionModel::Identified(other) => if other.puuid == identity.puuid {
            IdentityModel {
                profile_icon_id: match other.profile_icon_id {
                    Some(id) => Some(id),
                    None => identity.profile_icon_id,
                },
                icon_data_url: other.icon_data_url,
                ..identity
            }
        } else {
            identity
        },
        _ => identity,
    }
}

/// Adds the profile image that the League client shows, if it shows the same account.
pub fn enrich(identity: &mut DetectedIdentity, league: Detection)
    ensures
        final(identity)@ == enriched(old(identity)@, league@),
{
    if let Detection::Identified(other) = league {
        if same(other.puuid.as_str(), identity.puuid.as_str()) {
            if other.profile_icon_id.is_some() {
                identity.profile_icon_id = other.profile_icon_id;
            }
            identity.icon_data_url = other.icon_data_url;
        }
    }
}

/// The League client can change nothing but the profile image, whatever it reports.
pub proof fn league_never_changes_who_is_signed_in(identity: IdentityModel, league: DetectionModel)
    ensures
        enriched(identity, league).puuid == identity.puuid,
        enriched(identity, league).game_name == identity.game_name,
        enriched(identity, league).tag_line == identity.tag_line,
        enriched(identity, league).platform == identity.platform,
        enriched(identity, league).region == identity.region,
        !(league matches DetectionModel::Identified(other) && other.puuid == identity.puuid)
            ==> enriched(identity, league) == identity,
{
}

/// The summoner that the League client reports.
pub struct CurrentSummoner {
    pub puuid: String,
    pub game_name: String,
    pub tag_line: String,
    pub profile_icon_id: Option<i64>,
}

/// The summoner that the League client reports, as a mathematical value.
pub struct SummonerModel {
    pub puuid: Seq<char>,
    pub game_name: Seq<char>,
    pub tag_line: Seq<char>,
    pub profile_icon_id: Option<i64>,
}

impl View for CurrentSummoner {
    type V = SummonerModel;

    open spec fn view(&self) -> SummonerModel {
        SummonerModel {
            puuid: self.puuid@,
            game_name: self.game_name@,
            tag_line: self.tag_line@,
            profile_icon_id: self.profile_icon_id,
        }
    }
}

impl SummonerModel {
    /// The summoner with its texts trimmed and a negative icon dropped, once it has all three
    /// texts.
    pub open spec fn complete(self) -> Option<SummonerModel> {
        if trimmed(self.puuid).len() > 0 && trimmed(self.game_name).len() > 0 && trimmed(
            self.tag_line,
        ).len() > 0 {
            Some(
                SummonerModel {
                    puuid: trimmed(self.puuid),
                    game_name: trimmed(self.game_name),
                    tag_line: trimmed(self.tag_line),
                    profile_icon_id: icon_number(self.profile_icon_id),
                },
            )
        } else {
            None
        }
    }
}

impl CurrentSummoner {
    /// The summoner with its texts trimmed and a negative icon dropped, once it has all three
    /// texts; until that somebody is signed in, but not ready.
    pub fn complete(&self) -> (summoner: Option<CurrentSummoner>)
        ensures
            match summoner {
                Some(summoner) => self@.complete() == Some(summoner@),
                None => self@.complete() is None,
            },
    {
        let puuid = trim(self.puuid.as_str());
        let game_name = trim(self.game_name.as_str());
        let tag_line = trim(self.tag_line.as_str());
        if puuid.is_empty() || game_name.is_empty() || tag_line.is_empty() {
            return None;
        }
        Some(
            CurrentSummoner {
                puuid: puuid.to_owned(),
                game_name: game_name.to_owned(),
                tag_line: tag_line.to_owned(),
                profile_icon_id: icon_number_of(self.profile_icon_id),
            },
        )
    }
}

/// What the League client detects: a summoner with the platform and the image that were fetched
/// for it.
pub fn detect_league(
    summoner: CurrentSummoner,
    platform: Option<String>,
    icon_data_url: Option<String>,
) -> (detection: Detection)
    ensures
        detection@ == DetectionModel::Identified(
            IdentityModel {
                puuid: summoner.puuid@,
                game_name: summoner.game_name@,
                tag_line: summoner.tag_line@,
                platform: owned(platform),
                region: region_in(owned(platform)),
                profile_icon_id: summoner.profile_icon_id,
                icon_data_url: owned(icon_data_url),
            },
        ),
{
    let region = region_of_platform(&platform);
    Detection::Identified(
        DetectedIdentity {
            puuid: summoner.puuid,
            game_name: summoner.game_name,
            tag_line: summoner.tag_line,
            platform,
            region,
            profile_icon_id: summoner.profile_icon_id,
            icon_data_url,
        },
    )
}

/// The endpoint answered but no identity came back. Distinguish a client that is still running
/// (keep waiting) from a stale lockfile (client is gone). When the process table cannot be read,
/// keep waiting rather than declaring the client gone.
pub fn after_failed_fetch(running: Option<Result<bool, SnapshotError>>) -> (detection: Detection)
    ensures
        detection@ == (if running == Some(Ok::<bool, SnapshotError>(false)) {
            DetectionModel::NotRunning
        } else {
            DetectionModel::NotReady
        }),
{
    match running {
        Some(Ok(false)) => Detection::NotRunning,
        _ => Detection::NotReady,
    }
}

/// The platform that an answer of the platform configuration names.
pub open spec fn fetched_platform(status: u16, body: Option<Seq<char>>) -> Option<Seq<char>> {
    match body {
        Some(body) => if is_success(status) {
            match platform_of(json_parsed(trimmed(body)), body) {
                Some(value) => normalized(value),
                None => None,
            }
        } else {
            None
        },
        None => None,
    }
}

/// The platform that an answer of the platform configuration names. `body` is the text of the
/// answer where it could be read.
pub fn fetch_platform(status: u16, body: Option<&str>) -> (platform: Option<String>)
    ensures
        owned(platform) == fetched_platform(status, view_of(body)),
{
    match body {
        Some(body) => {
            if !(200 <= status && status < 300) {
                return None;
            }
            match parse_platform(body) {
                Some(value) => normalize_platform(value.as_str()),
                None => None,
            }
        },
        None => None,
    }
}

/// The kinds of image that a profile icon is asked for as.
#[derive(Clone, Copy, Debug, PartialEq, Eq)]
pub enum IconKind {
    Jpeg,
    Png,
}

impl IconKind {
    /// The extension of the image's name.
    pub open spec fn extension_text(self) -> Seq<char> {
        match self {
            IconKind::Jpeg => "jpg"@,
            IconKind::Png => "png"@,
        }
    }

    /// How the data URL of the image begins.
    pub open spec fn prefix(self) -> Seq<char> {
        match self {
            IconKind::Jpeg => "data:image/jpeg;base64,"@,
            IconKind::Png => "data:image/png;base64,"@,
        }
    }

    /// The extension of the image's name.
    pub fn extension(self) -> (text: &'static str)
        ensures
            text@ == self.extension_text(),
    {
        match self {
            IconKind::Jpeg => "jpg",
            IconKind::Png => "png",
        }
    }
}

/// The kinds of image, in the order in which they are asked for.
pub fn icon_kinds() -> (kinds: [IconKind; 2])
    ensures
        kinds@ == seq![IconKind::Jpeg, IconKind::Png],
{
    [IconKind::Jpeg, IconKind::Png]
}

/// The path of a profile icon.
pub open spec fn icon_path_text(id: i64, kind: IconKind) -> Seq<char> {
    "/lol-game-data/assets/v1/profile-icons"@ + "/"@ + signed_decimal(id as int) + "."@
        + kind.extension_text()
}

/// The path of a profile icon.
pub fn icon_path(id: i64, kind: IconKind) -> (path: String)
    ensures
        path@ == icon_path_text(id, kind),
{
    let mut path = "/lol-game-data/assets/v1/profile-icons".to_owned();
    path.append("/");
    path.append(signed_decimal_of(id).as_str());
    path.append(".");
    path.append(kind.extension());
    path
}

/// The data URL of a profile icon that was fetched; nothing where the answer holds none that is
/// usable. Every icon that is accepted here can be cached.
pub fn fetch_icon(kind: IconKind, status: u16, bytes: Option<&[u8]>) -> (url: Option<String>)
    ensures
        match bytes {
            Some(bytes) => if is_success(status) && 0 < bytes@.len() <= MAX_ICON_BYTES {
                owned(url) == Some(kind.prefix() + base64_text(bytes@))
            } else {
                url is None
            },
            None => url is None,
        },
        url matches Some(text) ==> is_icon(text@),
{
    let bytes = match bytes {
        Some(bytes) => bytes,
        None => {
            return None;
        },
    };
    if !(200 <= status && status < 300) || bytes.len() == 0 || bytes.len() > MAX_ICON_BYTES {
        return None;
    }
    let mut url = match kind {
        IconKind::Jpeg => "data:image/jpeg;base64,".to_owned(),
        IconKind::Png => "data:image/png;base64,".to_owned(),
    };
    let encoded = base64_encode(bytes);
    url.append(encoded.as_str());
    proof {
        reveal_strlit("data:image/jpeg;base64,");
        reveal_strlit("data:image/png;base64,");
        assert(is_ascii_chars(kind.prefix()));
        is_ascii_chars_encode_utf8(kind.prefix());
        is_ascii_chars_encode_utf8(encoded@);
        lemma_utf8_concat(kind.prefix(), encoded@);
        assert(kind.prefix() =~= url@.subrange(0, kind.prefix().len() as int));
    }
    Some(url)
}

/// Whether an account is known by this PUUID.
pub open spec fn is_known_as(account: AccountModel, puuid: Seq<char>) -> bool {
    account.puuid == Some(puuid)
}

/// Only a known matching PUUID can update a saved account's metadata.
pub fn can_update_from_detection(account: &Account, identity: &DetectedIdentity) -> (allowed: bool)
    ensures
        allowed == is_known_as(account@, identity@.puuid),
{
    holds(&account.puuid, identity.puuid.as_str())
}

/// What replaces an optional text: the new one where there is one.
pub open spec fn replaced(old_text: Option<Seq<char>>, new_text: Option<Seq<char>>) -> Option<
    Seq<char>,
> {
    match new_text {
        Some(text) => Some(text),
        None => old_text,
    }
}

/// Whether an account's name is a label of the user's that would vanish behind the Riot ID.
pub open spec fn has_legacy_label(account: AccountModel, identity: IdentityModel) -> bool {
    &&& account.game_name is None
    &&& account.nickname is None
    &&& trimmed(account.name).len() > 0
    &&& !same_folded(trimmed(account.name), identity.riot_id())
}

/// An account with its presentation metadata refreshed from a live identity.
pub open spec fn applied(account: AccountModel, identity: IdentityModel) -> AccountModel {
    AccountModel {
        puuid: Some(identity.puuid),
        game_name: Some(identity.game_name),
        tag_line: Some(identity.tag_line),
        platform: replaced(account.platform, identity.platform),
        region: replaced(account.region, identity.region),
        profile_icon_id: match identity.profile_icon_id {
            Some(id) => Some(id),
            None => account.profile_icon_id,
        },
        nickname: if has_legacy_label(account, identity) {
            Some(trimmed(account.name))
        } else {
            account.nickname
        },
        ..account
    }
}

fn refresh(field: &mut Option<String>, text: &str) -> (changed: bool)
    ensures
        owned(*final(field)) == Some(text@),
        changed == (owned(*final(field)) != owned(*old(field))),
{
    if holds(field, text) {
        false
    } else {
        *field = Some(text.to_owned());
        true
    }
}

fn refresh_if(field: &mut Option<String>, text: &Option<String>) -> (changed: bool)
    ensures
        owned(*final(field)) == replaced(owned(*old(field)), owned(*text)),
        changed == (owned(*final(field)) != owned(*old(field))),
{
    match text {
        Some(text) => refresh(field, text.as_str()),
        None => false,
    }
}

/// Refreshes an account's presentation metadata from a verified live identity.
///
/// The PUUID is only ever adopted, never replaced by Riot ID text, and the optional nickname is
/// never touched, except that a legacy account's custom name is migrated into `nickname` the
/// first time real Riot identity arrives, so the user's label is not silently hidden behind the
/// Riot ID.
///
/// Returns whether anything changed.
pub fn apply_identity(account: &mut Account, identity: &DetectedIdentity) -> (changed: bool)
    ensures
        final(account)@ == applied(old(account)@, identity@),
        changed == (final(account)@ != old(account)@),
{
    let mut changed = false;
    if account.game_name.is_none() && account.nickname.is_none() {
        let legacy = trim(account.name.as_str());
        if !legacy.is_empty() && !eq_ignore_ascii_case(legacy, identity.riot_id().as_str()) {
            account.nickname = Some(legacy.to_owned());
            changed = true;
        }
    }
    let puuid_changed = refresh(&mut account.puuid, identity.puuid.as_str());
    let game_changed = refresh(&mut account.game_name, identity.game_name.as_str());
    let tag_changed = refresh(&mut account.tag_line, identity.tag_line.as_str());
    let platform_changed = refresh_if(&mut account.platform, &identity.platform);
    let region_changed = refresh_if(&mut account.region, &identity.region);
    let mut icon_changed = false;
    if let Some(id) = identity.profile_icon_id {
        icon_changed = match account.profile_icon_id {
            Some(old_id) => old_id != id,
            None => true,
        };
        account.profile_icon_id = Some(id);
    }
    changed || puuid_changed || game_changed || tag_changed || platform_changed || region_changed
        || icon_changed
}

/// What becomes of an account's cached profile image.
#[derive(Debug, PartialEq, Eq)]
pub enum IconChange<'a> {
    Keep,
    Save(&'a str),
    Remove,
}

/// What becomes of an account's cached profile image, as a mathematical value.
pub enum IconChangeModel {
    Keep,
    Save(Seq<char>),
    Remove,
}

impl<'a> View for IconChange<'a> {
    type V = IconChangeModel;

    open spec fn view(&self) -> IconChangeModel {
        match *self {
            IconChange::Keep => IconChangeModel::Keep,
            IconChange::Save(url) => IconChangeModel::Save(url@),
            IconChange::Remove => IconChangeModel::Remove,
        }
    }
}

/// What a live identity does to the cached image of an account: a new image replaces it, and an
/// image that is known to be outdated goes.
pub open spec fn icon_after(account: AccountModel, identity: IdentityModel) -> IconChangeModel {
    match identity.icon_data_url {
        Some(url) => IconChangeModel::Save(url),
        None => match identity.profile_icon_id {
            Some(id) => if account.profile_icon_id == Some(id) {
                IconChangeModel::Keep
            } else {
                IconChangeModel::Remove
            },
            None => IconChangeModel::Keep,
        },
    }
}

/// What a live identity does to the cached image of an account. `account` is the account before
/// the identity is applied.
pub fn icon_change<'a>(account: &Account, identity: &'a DetectedIdentity) -> (change: IconChange<
    'a,
>)
    ensures
        change@ == icon_after(account@, identity@),
{
    match &identity.icon_data_url {
        Some(url) => IconChange::Save(url.as_str()),
        None => {
            match identity.profile_icon_id {
                Some(id) => {
                    let kept = match account.profile_icon_id {
                        Some(old_id) => old_id == id,
                        None => false,
                    };
                    if kept {
                        IconChange::Keep
                    } else {
                        IconChange::Remove
                    }
                },
                None => IconChange::Keep,
            }
        },
    }
}

/// Applying the same identity twice changes nothing more, and leaves the cached image alone
/// unless the identity brings one.
pub proof fn applying_again_changes_nothing(account: AccountModel, identity: IdentityModel)
    ensures
        applied(applied(account, identity), identity) == applied(account, identity),
        identity.icon_data_url is None ==> icon_after(applied(account, identity), identity)
            == IconChangeModel::Keep,
{
}

/// What identifies a saved session and what the user chose stay as they are: the account's id,
/// its legacy name, its session, and a nickname that is already there.
pub proof fn applying_keeps_what_is_not_presentation(
    account: AccountModel,
    identity: IdentityModel,
)
    ensures
        applied(account, identity).id == account.id,
        applied(account, identity).vault_id == account.vault_id,
        applied(account, identity).name == account.name,
        account.nickname is Some ==> applied(account, identity).nickname == account.nickname,
        is_known_as(applied(account, identity), identity.puuid),
{
}

/// The first account from `from` on that is known by a PUUID; the number of accounts where there
/// is none.
pub open spec fn known_from(accounts: Seq<AccountModel>, puuid: Seq<char>, from: int) -> int
    decreases accounts.len() - from,
{
    if from >= accounts.len() || is_known_as(accounts[from], puuid) {
        from
    } else {
        known_from(accounts, puuid, from + 1)
    }
}

/// `known_from` is the first place from `from` on where such an account stands.
pub proof fn lemma_known_from(accounts: Seq<AccountModel>, puuid: Seq<char>, from: int)
    requires
        0 <= from <= accounts.len(),
    ensures
        from <= known_from(accounts, puuid, from) <= accounts.len(),
        known_from(accounts, puuid, from) < accounts.len() ==> is_known_as(
            accounts[known_from(accounts, puuid, from)],
            puuid,
        ),
        forall|k: int|
            from <= k < known_from(accounts, puuid, from) ==> !is_known_as(
                #[trigger] accounts[k],
                puuid,
            ),
    decreases accounts.len() - from,
{
    if from >= accounts.len() || is_known_as(accounts[from], puuid) {
    } else {
        lemma_known_from(accounts, puuid, from + 1);
    }
}

/// Where the first account that is known by a PUUID stands.
pub fn position_known_as(config: &Config, puuid: &str) -> (at: Option<usize>)
    ensures
        match at {
            Some(i) => i == known_from(config@.accounts, puuid@, 0) && i < config.accounts@.len(),
            None => known_from(config@.accounts, puuid@, 0) == config.accounts@.len(),
        },
{
    let n: usize = config.accounts.len();
    let mut i: usize = 0;
    while i < n
        invariant
            n == config.accounts@.len(),
            i <= n,
            known_from(config@.accounts, puuid@, 0) == known_from(
                config@.accounts,
                puuid@,
                i as int,
            ),
        decreases n - i,
    {
        assert(config@.accounts[i as int] == config.accounts@[i as int]@);
        if holds(&config.accounts[i].puuid, puuid) {
            return Some(i);
        }
        i = i + 1;
    }
    None
}

/// Whether the active account is saved and known by a PUUID.
pub open spec fn active_is_known_as(config: ConfigModel, puuid: Seq<char>) -> bool {
    match config.active_id {
        Some(id) => config.has(id) && is_known_as(config.account(id), puuid),
        None => false,
    }
}

/// The settings after an identity was observed: only the active account changes, and only if it
/// is known by the identity's PUUID.
pub open spec fn observed(config: ConfigModel, identity: IdentityModel) -> ConfigModel {
    if active_is_known_as(config, identity.puuid) {
        let at = config.index(config.active_id->Some_0);
        ConfigModel {
            accounts: config.accounts.update(at, applied(config.accounts[at], identity)),
            ..config
        }
    } else {
        config
    }
}

/// The saved account that an identity belongs to: the active one where it matches, else the
/// first that does.
pub open spec fn saved_account(config: ConfigModel, puuid: Seq<char>) -> Option<u128> {
    let first = known_from(config.accounts, puuid, 0);
    if active_is_known_as(config, puuid) {
        config.active_id
    } else if first < config.accounts.len() {
        Some(config.accounts[first].id)
    } else {
        None
    }
}

/// What a detection means to the user.
pub open spec fn outcome_of(detection: DetectionModel, config: ConfigModel) -> OutcomeModel {
    match detection {
        DetectionModel::Identified(identity) => OutcomeModel::Identified {
            identity,
            saved_account_id: saved_account(config, identity.puuid),
        },
        DetectionModel::NotRunning => OutcomeModel::NotRunning,
        DetectionModel::NotReady => OutcomeModel::NotReady,
        DetectionModel::Unavailable => OutcomeModel::Unavailable,
    }
}

/// What a detection means, and what is to be done about it.
pub struct Observation<'a> {
    pub outcome: DetectOutcome,
    /// Whether the settings changed and are to be saved.
    pub dirty: bool,
    /// The account whose cached image is concerned, and what becomes of it.
    pub icon: Option<(u128, IconChange<'a>)>,
}

/// Turns a probe into the outcome the user sees, refreshing the active account's presentation
/// metadata only when its PUUID is already known.
pub fn outcome_for<'a>(detection: &'a Detection, config: &mut Config) -> (seen: Observation<'a>)
    ensures
        seen.outcome@ == outcome_of(detection@, old(config)@),
        final(config)@ == (match detection@ {
            DetectionModel::Identified(identity) => observed(old(config)@, identity),
            _ => old(config)@,
        }),
        seen.dirty == (final(config)@ != old(config)@),
        match detection@ {
            DetectionModel::Identified(identity) => if active_is_known_as(
                old(config)@,
                identity.puuid,
            ) {
                let id = old(config)@.active_id->Some_0;
                seen.icon matches Some((account, change)) && account == id && change@ == icon_after(
                    old(config)@.account(id),
                    identity,
                )
            } else {
                seen.icon is None
            },
            _ => seen.icon is None,
        },
{
    let identity = match detection {
        Detection::Identified(identity) => identity,
        Detection::NotRunning => {
            return Observation { outcome: DetectOutcome::NotRunning, dirty: false, icon: None };
        },
        Detection::NotReady => {
            return Observation { outcome: DetectOutcome::NotReady, dirty: false, icon: None };
        },
        Detection::Unavailable => {
            return Observation { outcome: DetectOutcome::Unavailable, dirty: false, icon: None };
        },
    };
    let ghost before = config@;
    let mut saved_account_id: Option<u128> = match position_known_as(
        config,
        identity.puuid.as_str(),
    ) {
        Some(i) => {
            assert(config@.accounts[i as int] == config.accounts@[i as int]@);
            Some(config.accounts[i].id)
        },
        None => None,
    };
    let mut dirty = false;
    let mut icon: Option<(u128, IconChange<'a>)> = None;
    if let Some(active_id) = config.active_id {
        if let Some(i) = config.position(active_id) {
            proof {
                config@.lemma_index(active_id);
                assert(config@.accounts[i as int] == config.accounts@[i as int]@);
            }
            if can_update_from_detection(&config.accounts[i], identity) {
                icon = Some((active_id, icon_change(&config.accounts[i], identity)));
                let mut account = config.accounts[i].clone();
                dirty = apply_identity(&mut account, identity);
                config.accounts.set(i, account);
                saved_account_id = Some(active_id);
                proof {
                    assert(config@.accounts =~= before.accounts.update(i as int, account@));
                    if !dirty {
                        assert(config@.accounts =~= before.accounts);
                    } else {
                        assert(config@.accounts[i as int] != before.accounts[i as int]);
                    }
                }
            }
        }
    }
    Observation {
        outcome: DetectOutcome::Identified { identity: identity.clone(), saved_account_id },
        dirty,
        icon,
    }
}

/// Observing a login that the active account is not known by changes nothing, so a legacy
/// account is never relabelled by a login that was not proven to be its own.
pub proof fn unknown_login_changes_nothing(config: ConfigModel, identity: IdentityModel)
    requires
        !active_is_known_as(config, identity.puuid),
    ensures
        observed(config, identity) == config,
{
}

/// A login that is saved is recognised: where any account is known by the PUUID, the one that is
/// reported is saved and known by it, and it is the active one if that is known by it; where none
/// is, none is reported. Who is signed in is reported as it was detected.
pub proof fn saved_login_is_recognised(config: ConfigModel, login: IdentityModel)
    ensures
        match outcome_of(DetectionModel::Identified(login), config) {
            OutcomeModel::Identified { identity, saved_account_id } => {
                &&& identity == login
                &&& saved_account_id is None ==> forall|k: int|
                    0 <= k < config.accounts.len() ==> (#[trigger] config.accounts[k]).puuid
                        != Some(login.puuid)
                &&& saved_account_id matches Some(id) ==> exists|k: int|
                    0 <= k < config.accounts.len() && (#[trigger] config.accounts[k]).id == id
                        && config.accounts[k].puuid == Some(login.puuid)
                &&& forall|a: int|
                    0 <= a < config.accounts.len() && config.active_id == Some(
                        (#[trigger] config.accounts[a]).id,
                    ) && config.accounts[a].puuid == Some(login.puuid) && (forall|k: int|
                        0 <= k < a ==> (#[trigger] config.accounts[k]).id != config.accounts[a].id)
                        ==> saved_account_id == config.active_id
            },
            _ => false,
        },
        outcome_of(DetectionModel::NotRunning, config) == OutcomeModel::NotRunning,
        outcome_of(DetectionModel::NotReady, config) == OutcomeModel::NotReady,
        outcome_of(DetectionModel::Unavailable, config) == OutcomeModel::Unavailable,
{
    lemma_known_from(config.accounts, login.puuid, 0);
    if let Some(id) = config.active_id {
        config.lemma_index(id);
        assert forall|a: int|
            0 <= a < config.accounts.len() && config.active_id == Some(
                (#[trigger] config.accounts[a]).id,
            ) && config.accounts[a].puuid == Some(login.puuid) && (forall|k: int|
                0 <= k < a ==> (#[trigger] config.accounts[k]).id != config.accounts[a].id)
            implies a == config.index(id) by {
            let i = config.index(id);
            if i < a {
                assert(config.accounts[i].id != config.accounts[a].id);
            }
        }
    }
}

/// Observing who is signed in refreshes the active account if it is known by the PUUID, and
/// touches nothing else: all other accounts and settings stay as they are.
pub proof fn observing_refreshes_the_active_account_alone(
    config: ConfigModel,
    login: IdentityModel,
    k: int,
)
    requires
        0 <= k < config.accounts.len(),
    ensures
        ({
            let after = observed(config, login);
            let is_active = config.active_id == Some(config.accounts[k].id) && forall|j: int|
                0 <= j < k ==> (#[trigger] config.accounts[j]).id != config.accounts[k].id;
            &&& after == (ConfigModel { accounts: after.accounts, ..config })
            &&& after.accounts.len() == config.accounts.len()
            &&& if is_active && config.accounts[k].puuid == Some(login.puuid) {
                &&& after.accounts[k].game_name == Some(login.game_name)
                &&& after.accounts[k].tag_line == Some(login.tag_line)
                &&& after.accounts[k].puuid == Some(login.puuid)
                &&& after.accounts[k].id == config.accounts[k].id
                &&& after.accounts[k].vault_id == config.accounts[k].vault_id
            } else {
                after.accounts[k] == config.accounts[k]
            }
        }),
{
    if let Some(id) = config.active_id {
        config.lemma_index(id);
        let i = config.index(id);
        if config.accounts[k].id == id {
            if i < k {
                assert(config.accounts[i].id == config.accounts[k].id);
            }
        }
    }
}

/// A live identity brings its Riot ID, and its platform, its region and its icon where it has
/// them; what it does not have stays as it was. The name that a user gave an account before it had
/// a Riot ID stays the name that is shown.
pub proof fn applying_shows_the_live_identity(account: AccountModel, identity: IdentityModel)
    ensures
        ({
            let after = applied(account, identity);
            &&& after.puuid == Some(identity.puuid)
            &&& after.game_name == Some(identity.game_name)
            &&& after.tag_line == Some(identity.tag_line)
            &&& after.platform == (if identity.platform is Some {
                identity.platform
            } else {
                account.platform
            })
            &&& after.region == (if identity.region is Some {
                identity.region
            } else {
                account.region
            })
            &&& after.profile_icon_id == (if identity.profile_icon_id is Some {
                identity.profile_icon_id
            } else {
                account.profile_icon_id
            })
            &&& account.game_name is None && account.nickname is None && trimmed(account.name).len()
                > 0 && !same_folded(
                trimmed(account.name),
                identity.game_name + "#"@ + identity.tag_line,
            ) ==> after.display_name() == trimmed(account.name)
            &&& account.game_name is Some ==> after.nickname == account.nickname
            &&& after.nickname != account.nickname ==> after.nickname == Some(trimmed(account.name))
        }),
{
    lemma_strip_again(account.name, Trim::White);
}

/// The image that is cached for an account follows the live identity: a new image is kept, an image
/// of another icon than the live one goes, and nothing happens where nothing is known.
pub proof fn cached_image_follows_the_identity(account: AccountModel, identity: IdentityModel)
    ensures
        icon_after(account, identity) matches IconChangeModel::Save(url) ==> identity.icon_data_url
            == Some(url),
        identity.icon_data_url is Some ==> icon_after(account, identity) is Save,
        identity.icon_data_url is None ==> (icon_after(account, identity) is Remove
            <==> identity.profile_icon_id is Some && account.profile_icon_id
            != identity.profile_icon_id),
{
}

/// The account that is detected is the one that the Riot Client reports, with its Riot ID. Its
/// region comes from its platform alone: whatever the Riot ID says, accounts of one platform have
/// one region.
pub proof fn detected_account_is_the_reported_one(riot: RiotModel, other: RiotModel)
    ensures
        detection_of(ProbeModel::Identified(riot)) matches DetectionModel::Identified(identity) && {
            &&& identity.puuid == riot.puuid
            &&& identity.game_name == riot.game_name
            &&& identity.tag_line == riot.tag_line
            &&& identity.icon_data_url is None
            &&& identity.profile_icon_id == (if riot.profile_icon_id matches Some(id) && id >= 0 {
                riot.profile_icon_id
            } else {
                None
            })
            &&& identity.platform is Some <==> identity.region is Some
            &&& identity.platform matches Some(platform) ==> 0 < platform.len() <= 16
            &&& riot.platform is None ==> identity.platform is None
        },
        detection_of(ProbeModel::NotRunning) == DetectionModel::NotRunning,
        detection_of(ProbeModel::NotReady) == DetectionModel::NotReady,
        detection_of(ProbeModel::Unavailable) == DetectionModel::Unavailable,
        riot_identity(riot).platform == riot_identity(other).platform ==> riot_identity(riot).region
            == riot_identity(other).region,
{
}

/// The League client adds the image of the account that is signed in, and its icon where it knows
/// it.
pub proof fn league_adds_the_image(identity: IdentityModel, league: IdentityModel)
    requires
        league.puuid == identity.puuid,
    ensures
        enriched(identity, DetectionModel::Identified(league)).icon_data_url
            == league.icon_data_url,
        league.profile_icon_id is Some ==> enriched(
            identity,
            DetectionModel::Identified(league),
        ).profile_icon_id == league.profile_icon_id,
        league.profile_icon_id is None ==> enriched(
            identity,
            DetectionModel::Identified(league),
        ).profile_icon_id == identity.profile_icon_id,
{
}

/// The regions that are shown for the platforms that have a name of their own; any other platform
/// is shown as it is.
pub proof fn regions_are_shown_by_their_names(platform: Seq<char>)
    ensures
        region_of("BR1"@) == "BR"@,
        region_of("EUN1"@) == "EUNE"@,
        region_of("EUW1"@) == "EUW"@,
        region_of("JP1"@) == "JP"@,
        region_of("LA1"@) == "LAN"@,
        region_of("LA2"@) == "LAS"@,
        region_of("NA1"@) == "NA"@,
        region_of("OC1"@) == "OCE"@,
        region_of("PBE1"@) == "PBE"@,
        region_of("PH2"@) == "PH"@,
        region_of("SG2"@) == "SG"@,
        region_of("TH2"@) == "TH"@,
        region_of("TR1"@) == "TR"@,
        region_of("TW2"@) == "TW"@,
        region_of("VN2"@) == "VN"@,
        platform == "BR1"@ || platform == "EUN1"@ || platform == "EUW1"@ || platform == "JP1"@
            || platform == "LA1"@ || platform == "LA2"@ || platform == "NA1"@ || platform == "OC1"@
            || platform == "PBE1"@ || platform == "PH2"@ || platform == "SG2"@ || platform == "TH2"@
            || platform == "TR1"@ || platform == "TW2"@ || platform == "VN2"@ || region_of(platform)
            == platform,
{
    reveal_strlit("BR1");
    reveal_strlit("EUN1");
    reveal_strlit("EUW1");
    reveal_strlit("JP1");
    reveal_strlit("KR");
    reveal_strlit("LA1");
    reveal_strlit("LA2");
    reveal_strlit("NA1");
    reveal_strlit("OC1");
    reveal_strlit("PBE1");
    reveal_strlit("PH2");
    reveal_strlit("SG2");
    reveal_strlit("TH2");
    reveal_strlit("TR1");
    reveal_strlit("TW2");
    reveal_strlit("VN2");
    reveal_with_fuel(label_from, 17);
    assert(forall|i: int, j: int| 0 <= i < j < 16 ==> REGIONS@[i].0@ != REGIONS@[j].0@) by {
        assert("BR1"@[0] == 'B' && "EUN1"@[2] == 'N' && "EUW1"@[2] == 'W' && "JP1"@[0] == 'J'
            && "KR"@[0] == 'K' && "LA1"@[0] == 'L' && "LA1"@[2] == '1' && "LA2"@[2] == '2'
            && "NA1"@[0] == 'N' && "OC1"@[0] == 'O' && "PBE1"@[1] == 'B' && "PH2"@[1] == 'H'
            && "SG2"@[0] == 'S' && "TH2"@[1] == 'H' && "TR1"@[1] == 'R' && "TW2"@[1] == 'W'
            && "VN2"@[0] == 'V' && "EUN1"@[0] == 'E' && "TH2"@[0] == 'T');
    }
}

/// A platform is accepted exactly where it is one to sixteen ASCII capitals and digits in capital
/// letters, without what surrounds it; then it is shown in capitals.
pub proof fn platforms_are_capitals_and_digits(value: Seq<char>)
    ensures
        normalized(value) is Some <==> 1 <= uppercase(unquoted(value)).len() <= 16 && forall|i: int|
            0 <= i < uppercase(unquoted(value)).len() ==> ('A' <= #[trigger] uppercase(
                unquoted(value),
            )[i] <= 'Z' || '0' <= uppercase(unquoted(value))[i] <= '9'),
        normalized(value) matches Some(platform) ==> platform == uppercase(unquoted(value)),
{
}

/// The label of an account from before Riot IDs were known becomes its nickname the first time that
/// one is, unless it is blank or says the Riot ID itself, whatever the case.
pub proof fn old_label_becomes_the_nickname(account: AccountModel, identity: IdentityModel)
    requires
        account.game_name is None,
        account.nickname is None,
    ensures
        applied(account, identity).nickname is Some <==> trimmed(account.name).len() > 0
            && !same_folded(
            trimmed(account.name),
            identity.game_name + "#"@ + identity.tag_line,
        ),
        applied(account, identity).nickname matches Some(label) ==> label == trimmed(account.name),
{
}

/// The region that is detected is that of the platform that is, and there is none without one.
pub proof fn region_follows_the_platform(riot: RiotModel)
    ensures
        riot_identity(riot).region == match riot_identity(riot).platform {
            Some(platform) => Some(region_of(platform)),
            None => None,
        },
        riot.platform is None ==> riot_identity(riot).platform is None,
        riot_identity(riot).icon_data_url is None,
{
}

/// A summoner is taken once all three of its texts say something, without the spaces around them.
pub proof fn summoner_is_taken_once_complete(summoner: SummonerModel)
    ensures
        summoner.complete() is Some <==> trimmed(summoner.puuid).len() > 0 && trimmed(
            summoner.game_name,
        ).len() > 0 && trimmed(summoner.tag_line).len() > 0,
        summoner.complete() matches Some(taken) ==> {
            &&& taken.puuid == trimmed(summoner.puuid)
            &&& taken.game_name == trimmed(summoner.game_name)
            &&& taken.tag_line == trimmed(summoner.tag_line)
            &&& taken.profile_icon_id is Some ==> taken.profile_icon_id == summoner.profile_icon_id
            &&& taken.profile_icon_id is Some <==> (summoner.profile_icon_id matches Some(id) && id
                >= 0)
        },
{
}

/// Whether a text has neither white space nor a quote at either end.
pub open spec fn is_bare(text: Seq<char>) -> bool {
    text.len() > 0 && trimmed(text) == text && text[0] != '"' && text.last() != '"'
}

/// A text says the same with and without quotes around it.
pub proof fn quotes_are_taken_off(text: Seq<char>)
    requires
        is_bare(text),
    ensures
        nonblank(text) == Some(text),
        nonblank(seq!['"'] + text + seq!['"']) == Some(text),
{
    let quoted = seq!['"'] + text + seq!['"'];
    let at = trimming_takes_white_space_alone(quoted);
    let n = trimmed(quoted).len() as int;
    assert(quoted[0] == '"' && quoted.last() == '"');
    if at > 0 {
        assert(is_white(quoted[0]));
    }
    if at + n < quoted.len() {
        assert(is_white(quoted[quoted.len() - 1]));
    }
    assert(quoted.subrange(0, quoted.len() as int) =~= quoted);
    let inner = quoted.skip(1);
    assert(inner =~= text.push('"'));
    assert(inner[0] == text[0]);
    assert(strip_front(inner, Trim::Only('"')) == inner);
    assert(strip_front(quoted, Trim::Only('"')) == inner);
    assert(inner.drop_last() =~= text);
    assert(strip_back(text, Trim::Only('"')) == text);
    assert(strip_back(inner, Trim::Only('"')) == text);
    assert(strip_front(text, Trim::Only('"')) == text);
}

/// The platform that a configuration names: a text itself, the `platformId` of an object, its
/// `value` where it has none, and what is no JSON document as it stands.
pub proof fn platform_is_read_from_every_form(
    members: Seq<(Seq<char>, JsonView)>,
    text: Seq<char>,
    body: Seq<char>,
    reason: Seq<char>,
)
    requires
        is_bare(text),
    ensures
        platform_of(Ok(JsonView::Text(text)), body) == Some(text),
        crate::json::member(members, "platformId"@) == Some(JsonView::Text(text)) ==> platform_of(
            Ok(JsonView::Object(members)),
            body,
        ) == Some(text),
        crate::json::member(members, "platformId"@) is None && crate::json::member(
            members,
            "value"@,
        ) == Some(JsonView::Text(text)) ==> platform_of(Ok(JsonView::Object(members)), body)
            == Some(text),
        platform_of(Err(reason), text) == Some(text),
        platform_of(Ok(JsonView::Null), body) is None,
        platform_of(Ok(JsonView::Array), body) is None,
{
    quotes_are_taken_off(text);
}

/// A platform is only taken from an answer that reports success.
pub proof fn platform_comes_from_a_good_answer(status: u16, body: Option<Seq<char>>)
    ensures
        fetched_platform(status, body) is Some ==> 200 <= status && status <= 299 && body is Some,
        200 <= status && status <= 299 ==> fetched_platform(status, body) == match body {
            Some(text) => match platform_of(json_parsed(trimmed(text)), text) {
                Some(value) => normalized(value),
                None => None,
            },
            None => None,
        },
{
}

/// A profile icon is asked for by its number, as a JPEG or as a PNG, and its data URL says which.
pub proof fn profile_icon_goes_by_its_number(id: i64)
    requires
        id >= 0,
    ensures
        icon_path_text(id, IconKind::Jpeg) == "/lol-game-data/assets/v1/profile-icons"@ + "/"@
            + decimal(id as nat) + "."@ + "jpg"@,
        icon_path_text(id, IconKind::Png) == "/lol-game-data/assets/v1/profile-icons"@ + "/"@
            + decimal(id as nat) + "."@ + "png"@,
        IconKind::Jpeg.prefix() == "data:image/jpeg;base64,"@,
        IconKind::Png.prefix() == "data:image/png;base64,"@,
{
}

} // verus!
