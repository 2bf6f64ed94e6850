//! Finding out who is signed in: which client is asked for what, and when.
//!
//! The Riot Client alone says who is signed in. The League client is optional: it adds a profile
//! image, and only if it shows the same account. A [`DetectRun`] decides what is asked next; the
//! caller asks and reports what came of it.

use vstd::prelude::*;

use crate::codec::base64_text;
use crate::identity::{
    after_failed_fetch, detect, detect_league, detection_of, enrich, enriched, fetch_icon,
    fetch_platform, fetched_platform, icon_kinds, icon_path, icon_path_text, league_is_asked,
    region_in, region_of, CurrentSummoner, DetectedIdentity, Detection, DetectionModel, IconKind,
    IdentityModel, SummonerModel, MAX_ICON_BYTES,
};
use crate::lcu::{EndpointModel, LcuEndpoint};
use crate::riot_client::EndpointModel as RiotEndpointModel;
use crate::riot_client::{
    detect as probe_with_answer, discovery_view, is_success, probe_of, probe_without_answer,
    Endpoint, ProbeModel, ReplyModel, UserInfoReply,
};
use crate::text::{owned, trimmed};
use crate::windows::process::SnapshotError;

verus! {

/// What a search for the League client gave.
pub enum LeagueSearch {
    Found(LcuEndpoint),
    Absent,
    /// It could not be searched for, or cannot be asked.
    Failed,
}

/// What a search for the League client gave, as a mathematical value.
pub enum SearchModel {
    Found(EndpointModel),
    Absent,
    Failed,
}

impl View for LeagueSearch {
    type V = SearchModel;

    open spec fn view(&self) -> SearchModel {
        match *self {
            LeagueSearch::Found(endpoint) => SearchModel::Found(endpoint@),
            LeagueSearch::Absent => SearchModel::Absent,
            LeagueSearch::Failed => SearchModel::Failed,
        }
    }
}

/// What came of asking.
pub enum DetectEvent {
    /// Where the Riot Client listens; nothing where the search itself broke off.
    Riot(Option<Result<Option<Endpoint>, SnapshotError>>),
    Answer(UserInfoReply),
    /// Whether the League client runs; nothing where the look itself broke off.
    Running(Option<Result<bool, SnapshotError>>),
    League(LeagueSearch),
    /// The summoner that a successful answer names.
    Summoner(Option<CurrentSummoner>),
    /// The status of an answer and its text, as far as they could be read.
    Platform(Option<(u16, Option<String>)>),
    /// The status of an answer and its bytes, as far as they could be read.
    Icon(Option<(u16, Option<Vec<u8>>)>),
}

/// What came of asking, as a mathematical value.
pub enum EventModel {
    Riot(Option<Result<Option<RiotEndpointModel>, SnapshotError>>),
    Answer(ReplyModel),
    Running(Option<Result<bool, SnapshotError>>),
    League(SearchModel),
    Summoner(Option<SummonerModel>),
    Platform(Option<(u16, Option<Seq<char>>)>),
    Icon(Option<(u16, Option<Seq<u8>>)>),
}

impl View for DetectEvent {
    type V = EventModel;

    open spec fn view(&self) -> EventModel {
        match *self {
            DetectEvent::Riot(found) => EventModel::Riot(
                match found {
                    Some(result) => Some(discovery_view(result)),
                    None => None,
                },
            ),
            DetectEvent::Answer(reply) => EventModel::Answer(reply@),
            DetectEvent::Running(running) => EventModel::Running(running),
            DetectEvent::League(search) => EventModel::League(search@),
            DetectEvent::Summoner(summoner) => EventModel::Summoner(
                match summoner {
                    Some(summoner) => Some(summoner@),
                    None => None,
                },
            ),
            DetectEvent::Platform(answer) => EventModel::Platform(
                match answer {
                    Some((status, body)) => Some((status, owned(body))),
                    None => None,
                },
            ),
            DetectEvent::Icon(answer) => EventModel::Icon(
                match answer {
                    Some((status, Some(bytes))) => Some((status, Some(bytes@))),
                    Some((status, None)) => Some((status, None)),
                    None => None,
                },
            ),
        }
    }
}

/// How far the League client has been asked.
pub enum LeagueStep {
    /// It is to be searched for.
    Search,
    /// It is to be asked who plays.
    Summoner(LcuEndpoint),
    /// It did not say who plays; whether it runs at all is to be looked up.
    Check,
    /// It is to be asked for the platform.
    Platform { endpoint: LcuEndpoint, summoner: CurrentSummoner },
    /// It is to be asked for the profile icon `id`, as the image kind of the number `kind`.
    Icon {
        endpoint: LcuEndpoint,
        summoner: CurrentSummoner,
        platform: Option<String>,
        id: i64,
        kind: usize,
    },
    Done(Detection),
}

/// How far the League client has been asked, as a mathematical value.
pub enum LeagueModel {
    Search,
    Summoner(EndpointModel),
    Check,
    Platform { endpoint: EndpointModel, summoner: SummonerModel },
    Icon {
        endpoint: EndpointModel,
        summoner: SummonerModel,
        platform: Option<Seq<char>>,
        id: i64,
        kind: int,
    },
    Done(DetectionModel),
}

impl View for LeagueStep {
    type V = LeagueModel;

    open spec fn view(&self) -> LeagueModel {
        match *self {
            LeagueStep::Search => LeagueModel::Search,
            LeagueStep::Summoner(endpoint) => LeagueModel::Summoner(endpoint@),
            LeagueStep::Check => LeagueModel::Check,
            LeagueStep::Platform { endpoint, summoner } => LeagueModel::Platform {
                endpoint: endpoint@,
                summoner: summoner@,
            },
            LeagueStep::Icon { endpoint, summoner, platform, id, kind } => LeagueModel::Icon {
                endpoint: endpoint@,
                summoner: summoner@,
                platform: owned(platform),
                id,
                kind: kind as int,
            },
            LeagueStep::Done(detection) => LeagueModel::Done(detection@),
        }
    }
}

/// The image kinds in the order in which they are asked for.
pub open spec fn kinds() -> Seq<IconKind> {
    seq![IconKind::Jpeg, IconKind::Png]
}

/// The account of a summoner with the platform and the image that were fetched for it.
pub open spec fn league_identity(
    summoner: SummonerModel,
    platform: Option<Seq<char>>,
    icon: Option<Seq<char>>,
) -> DetectionModel {
    DetectionModel::Identified(
        IdentityModel {
            puuid: summoner.puuid,
            game_name: summoner.game_name,
            tag_line: summoner.tag_line,
            platform,
            region: region_in(platform),
            profile_icon_id: summoner.profile_icon_id,
            icon_data_url: icon,
        },
    )
}

/// The data URL of an image that was fetched.
pub open spec fn fetched_icon(kind: IconKind, answer: Option<(u16, Option<Seq<u8>>)>) -> Option<
    Seq<char>,
> {
    match answer {
        Some((status, Some(bytes))) => if is_success(status) && 0 < bytes.len() <= MAX_ICON_BYTES {
            Some(kind.prefix() + base64_text(bytes))
        } else {
            None
        },
        _ => None,
    }
}

impl LeagueModel {
    /// The League client is asked further after an answer. An answer that was not asked for
    /// changes nothing.
    pub open spec fn after(self, event: EventModel) -> LeagueModel {
        match (self, event) {
            (LeagueModel::Search, EventModel::League(search)) => match search {
                SearchModel::Found(endpoint) => LeagueModel::Summoner(endpoint),
                SearchModel::Absent => LeagueModel::Done(DetectionModel::NotRunning),
                SearchModel::Failed => LeagueModel::Done(DetectionModel::Unavailable),
            },
            (LeagueModel::Summoner(endpoint), EventModel::Summoner(summoner)) => match summoner {
                Some(summoner) => match summoner.complete() {
                    Some(summoner) => LeagueModel::Platform { endpoint, summoner },
                    None => LeagueModel::Done(DetectionModel::NotReady),
                },
                None => LeagueModel::Check,
            },
            (LeagueModel::Check, EventModel::Running(running)) => LeagueModel::Done(
                if running == Some(Ok::<bool, SnapshotError>(false)) {
                    DetectionModel::NotRunning
                } else {
                    DetectionModel::NotReady
                },
            ),
            (
                LeagueModel::Platform { endpoint, summoner },
                EventModel::Platform(answer),
            ) => {
                let platform = match answer {
                    Some((status, body)) => fetched_platform(status, body),
                    None => None,
                };
                match summoner.profile_icon_id {
                    Some(id) => LeagueModel::Icon { endpoint, summoner, platform, id, kind: 0 },
                    None => LeagueModel::Done(league_identity(summoner, platform, None)),
                }
            },
            (
                LeagueModel::Icon { endpoint, summoner, platform, id, kind },
                EventModel::Icon(answer),
            ) => if 0 <= kind < kinds().len() {
                match fetched_icon(kinds()[kind], answer) {
                    Some(url) => LeagueModel::Done(
                        league_identity(summoner, platform, Some(url)),
                    ),
                    None => if kind + 1 < kinds().len() {
                        LeagueModel::Icon { endpoint, summoner, platform, id, kind: kind + 1 }
                    } else {
                        LeagueModel::Done(league_identity(summoner, platform, None))
                    },
                }
            } else {
                self
            },
            _ => self,
        }
    }
}

impl LeagueStep {
    /// Goes on after an answer.
    fn proceed(self, event: DetectEvent) -> (next: LeagueStep)
        ensures
            next@ == self@.after(event@),
    {
        match (self, event) {
            (LeagueStep::Search, DetectEvent::League(search)) => {
                match search {
                    LeagueSearch::Found(endpoint) => LeagueStep::Summoner(endpoint),
                    LeagueSearch::Absent => LeagueStep::Done(Detection::NotRunning),
                    LeagueSearch::Failed => LeagueStep::Done(Detection::Unavailable),
                }
            },
            (LeagueStep::Summoner(endpoint), DetectEvent::Summoner(summoner)) => {
                match summoner {
                    Some(summoner) => {
                        match summoner.complete() {
                            Some(summoner) => LeagueStep::Platform { endpoint, summoner },
                            None => LeagueStep::Done(Detection::NotReady),
                        }
                    },
                    None => LeagueStep::Check,
                }
            },
            (LeagueStep::Check, DetectEvent::Running(running)) => {
                LeagueStep::Done(after_failed_fetch(running))
            },
            (LeagueStep::Platform { endpoint, summoner }, DetectEvent::Platform(answer)) => {
                let platform = match answer {
                    Some((status, Some(body))) => fetch_platform(status, Some(body.as_str())),
                    Some((status, None)) => fetch_platform(status, None),
                    None => None,
                };
                match summoner.profile_icon_id {
                    Some(id) => LeagueStep::Icon { endpoint, summoner, platform, id, kind: 0 },
                    None => LeagueStep::Done(detect_league(summoner, platform, None)),
                }
            },
            (
                LeagueStep::Icon { endpoint, summoner, platform, id, kind },
                DetectEvent::Icon(answer),
            ) => {
                let order = icon_kinds();
                if kind < 2 {
                    let url = match answer {
                        Some((status, Some(bytes))) => {
                            fetch_icon(order[kind], status, Some(bytes.as_slice()))
                        },
                        Some((status, None)) => fetch_icon(order[kind], status, None),
                        None => None,
                    };
                    if url.is_some() {
                        LeagueStep::Done(detect_league(summoner, platform, url))
                    } else if kind + 1 < 2 {
                        LeagueStep::Icon { endpoint, summoner, platform, id, kind: kind + 1 }
                    } else {
                        LeagueStep::Done(detect_league(summoner, platform, None))
                    }
                } else {
                    LeagueStep::Icon { endpoint, summoner, platform, id, kind }
                }
            },
            (step, _) => step,
        }
    }
}

/// A detection in progress.
pub enum DetectRun {
    /// The Riot Client is to be searched for.
    Riot,
    /// The Riot Client is to be asked who is signed in.
    Ask(Endpoint),
    /// Whether the League client runs is to be looked up.
    Look(DetectedIdentity),
    /// The League client is asked for an image of the account.
    League { identity: DetectedIdentity, step: LeagueStep },
    Done(Detection),
}

/// A detection in progress, as a mathematical value.
pub enum RunModel {
    Riot,
    Ask(RiotEndpointModel),
    Look(IdentityModel),
    League { identity: IdentityModel, step: LeagueModel },
    Done(DetectionModel),
}

impl View for DetectRun {
    type V = RunModel;

    open spec fn view(&self) -> RunModel {
        match *self {
            DetectRun::Riot => RunModel::Riot,
            DetectRun::Ask(endpoint) => RunModel::Ask(endpoint@),
            DetectRun::Look(identity) => RunModel::Look(identity@),
            DetectRun::League { identity, step } => RunModel::League {
                identity: identity@,
                step: step@,
            },
            DetectRun::Done(detection) => RunModel::Done(detection@),
        }
    }
}

/// What follows from what the Riot Client said: a known account may get an image, anything else
/// is the result.
pub open spec fn told(probe: ProbeModel) -> RunModel {
    match detection_of(probe) {
        DetectionModel::Identified(identity) => RunModel::Look(identity),
        other => RunModel::Done(other),
    }
}

/// The detection goes on with the League client until that has said what it knows.
pub open spec fn with_league(identity: IdentityModel, step: LeagueModel) -> RunModel {
    match step {
        LeagueModel::Done(league) => RunModel::Done(
            DetectionModel::Identified(enriched(identity, league)),
        ),
        _ => RunModel::League { identity, step },
    }
}

impl RunModel {
    /// The detection after an answer. An answer that was not asked for changes nothing.
    pub open spec fn after(self, event: EventModel) -> RunModel {
        match (self, event) {
            (RunModel::Riot, EventModel::Riot(found)) => match found {
                Some(Ok(Some(endpoint))) => RunModel::Ask(endpoint),
                Some(Ok(None)) => RunModel::Done(DetectionModel::NotRunning),
                _ => RunModel::Done(DetectionModel::Unavailable),
            },
            (RunModel::Ask(_), EventModel::Answer(reply)) => told(probe_of(reply)),
            (RunModel::Look(identity), EventModel::Running(running)) => {
                if running == Some(Ok::<bool, SnapshotError>(true)) {
                    RunModel::League { identity, step: LeagueModel::Search }
                } else {
                    RunModel::Done(DetectionModel::Identified(identity))
                }
            },
            (RunModel::League { identity, step }, event) => with_league(
                identity,
                step.after(event),
            ),
            _ => self,
        }
    }
}

/// What the caller is to do next.
pub enum DetectAction<'a> {
    /// Search for the Riot Client.
    FindRiot,
    /// Ask the Riot Client for the user information.
    AskRiot(&'a Endpoint),
    /// Look whether the League client runs.
    LookForLeague,
    /// Search for the League client.
    FindLeague,
    /// Ask the League client for the signed-in summoner.
    FetchSummoner(&'a LcuEndpoint),
    /// Ask the League client for the platform.
    FetchPlatform(&'a LcuEndpoint),
    /// Ask the League client for the image at a path.
    FetchIcon { endpoint: &'a LcuEndpoint, path: String },
    Finish(&'a Detection),
}

/// What the caller is to do next, as a mathematical value.
pub enum ActionModel {
    FindRiot,
    AskRiot(RiotEndpointModel),
    LookForLeague,
    FindLeague,
    FetchSummoner(EndpointModel),
    FetchPlatform(EndpointModel),
    FetchIcon { endpoint: EndpointModel, path: Seq<char> },
    Finish(DetectionModel),
}

impl<'a> View for DetectAction<'a> {
    type V = ActionModel;

    open spec fn view(&self) -> ActionModel {
        match *self {
            DetectAction::FindRiot => ActionModel::FindRiot,
            DetectAction::AskRiot(endpoint) => ActionModel::AskRiot(endpoint@),
            DetectAction::LookForLeague => ActionModel::LookForLeague,
            DetectAction::FindLeague => ActionModel::FindLeague,
            DetectAction::FetchSummoner(endpoint) => ActionModel::FetchSummoner(endpoint@),
            DetectAction::FetchPlatform(endpoint) => ActionModel::FetchPlatform(endpoint@),
            DetectAction::FetchIcon { endpoint, path } => ActionModel::FetchIcon {
                endpoint: endpoint@,
                path: path@,
            },
            DetectAction::Finish(detection) => ActionModel::Finish(detection@),
        }
    }
}

impl LeagueModel {
    /// What is asked next.
    pub open spec fn action(self) -> ActionModel {
        match self {
            LeagueModel::Search => ActionModel::FindLeague,
            LeagueModel::Summoner(endpoint) => ActionModel::FetchSummoner(endpoint),
            LeagueModel::Check => ActionModel::LookForLeague,
            LeagueModel::Platform { endpoint, .. } => ActionModel::FetchPlatform(endpoint),
            LeagueModel::Icon { endpoint, id, kind, .. } => ActionModel::FetchIcon {
                endpoint,
                path: icon_path_text(
                    id,
                    if kind == 0 {
                        IconKind::Jpeg
                    } else {
                        IconKind::Png
                    },
                ),
            },
            LeagueModel::Done(detection) => ActionModel::Finish(detection),
        }
    }
}

impl RunModel {
    /// What is asked next.
    pub open spec fn action(self) -> ActionModel {
        match self {
            RunModel::Riot => ActionModel::FindRiot,
            RunModel::Ask(endpoint) => ActionModel::AskRiot(endpoint),
            RunModel::Look(_) => ActionModel::LookForLeague,
            RunModel::League { step, .. } => step.action(),
            RunModel::Done(detection) => ActionModel::Finish(detection),
        }
    }
}

impl LeagueStep {
    fn action(&self) -> (action: DetectAction<'_>)
        ensures
            action@ == self@.action(),
    {
        match self {
            LeagueStep::Search => DetectAction::FindLeague,
            LeagueStep::Summoner(endpoint) => DetectAction::FetchSummoner(endpoint),
            LeagueStep::Check => DetectAction::LookForLeague,
            LeagueStep::Platform { endpoint, .. } => DetectAction::FetchPlatform(endpoint),
            LeagueStep::Icon { endpoint, id, kind, .. } => {
                let order = if *kind == 0 {
                    IconKind::Jpeg
                } else {
                    IconKind::Png
                };
                DetectAction::FetchIcon { endpoint, path: icon_path(*id, order) }
            },
            LeagueStep::Done(detection) => DetectAction::Finish(detection),
        }
    }
}

/// Begins to find out who is signed in.
pub fn begin() -> (run: DetectRun)
    ensures
        run@ == RunModel::Riot,
{
    DetectRun::Riot
}

impl DetectRun {
    /// What is asked next.
    pub fn action(&self) -> (action: DetectAction<'_>)
        ensures
            action@ == self@.action(),
    {
        match self {
            DetectRun::Riot => DetectAction::FindRiot,
            DetectRun::Ask(endpoint) => DetectAction::AskRiot(endpoint),
            DetectRun::Look(_) => DetectAction::LookForLeague,
            DetectRun::League { step, .. } => step.action(),
            DetectRun::Done(detection) => DetectAction::Finish(detection),
        }
    }

    /// Goes on after an answer.
    pub fn proceed(self, event: DetectEvent) -> (next: DetectRun)
        ensures
            next@ == self@.after(event@),
    {
        match (self, event) {
            (DetectRun::Riot, DetectEvent::Riot(found)) => {
                match found {
                    Some(found) => {
                        match probe_without_answer(&found) {
                            Some(probe) => DetectRun::Done(detect(probe)),
                            None => {
                                match found {
                                    Ok(Some(endpoint)) => DetectRun::Ask(endpoint),
                                    _ => DetectRun::Done(Detection::Unavailable),
                                }
                            },
                        }
                    },
                    None => DetectRun::Done(Detection::Unavailable),
                }
            },
            (DetectRun::Ask(_), DetectEvent::Answer(reply)) => {
                match detect(probe_with_answer(reply)) {
                    Detection::Identified(identity) => DetectRun::Look(identity),
                    other => DetectRun::Done(other),
                }
            },
            (DetectRun::Look(identity), DetectEvent::Running(running)) => {
                if league_is_asked(running) {
                    DetectRun::League { identity, step: LeagueStep::Search }
                } else {
                    DetectRun::Done(Detection::Identified(identity))
                }
            },
            (DetectRun::League { identity, step }, event) => {
                match step.proceed(event) {
                    LeagueStep::Done(league) => {
                        let mut identity = identity;
                        enrich(&mut identity, league);
                        DetectRun::Done(Detection::Identified(identity))
                    },
                    step => DetectRun::League { identity, step },
                }
            },
            (run, _) => run,
        }
    }
}

/// Whether two accounts are the same but for their profile image.
pub open spec fn same_but_image(a: IdentityModel, b: IdentityModel) -> bool {
    a == (IdentityModel {
        profile_icon_id: a.profile_icon_id,
        icon_data_url: a.icon_data_url,
        ..b
    })
}

/// Once the Riot Client has said who is signed in, that account is the result whatever else is
/// found or fails: the League client can change nothing but the profile image.
pub proof fn known_account_is_reported(run: RunModel, event: EventModel)
    ensures
        run matches RunModel::Look(identity) ==> ({
            ||| run.after(event) == run
            ||| run.after(event) == RunModel::Done(DetectionModel::Identified(identity))
            ||| run.after(event) matches RunModel::League { identity: kept, .. } && kept == identity
        }),
        run matches RunModel::League { identity, .. } ==> ({
            ||| run.after(event) matches RunModel::League { identity: kept, .. } && kept == identity
            ||| run.after(event) matches RunModel::Done(DetectionModel::Identified(found))
                && same_but_image(found, identity)
        }),
{
}

/// An account is detected only from an answer of the Riot Client that identifies it: before
/// that, nothing but such an answer leads on to an account.
pub proof fn only_the_riot_client_identifies(run: RunModel, event: EventModel)
    requires
        run is Riot || run is Ask,
    ensures
        run.after(event) !is League,
        run.after(event) matches RunModel::Done(detection) ==> !(detection is Identified),
        run.after(event) matches RunModel::Look(identity) ==> (run is Ask && (
        event matches EventModel::Answer(reply) && (probe_of(reply) matches ProbeModel::Identified(
            riot,
        ) && identity.puuid == riot.puuid))),
{
}

impl RunModel {
    /// How many answers a detection takes at most until it is over.
    pub open spec fn answers_left(self) -> int {
        match self {
            RunModel::Riot => 8,
            RunModel::Ask(_) => 7,
            RunModel::Look(_) => 6,
            RunModel::League { step, .. } => match step {
                LeagueModel::Search => 5,
                LeagueModel::Summoner(_) => 4,
                LeagueModel::Check => 1,
                LeagueModel::Platform { .. } => 3,
                LeagueModel::Icon { kind, .. } => 2 - kind,
                LeagueModel::Done(_) => 0,
            },
            RunModel::Done(_) => 0,
        }
    }

    /// Whether an answer is the one that was asked for.
    pub open spec fn expects(self, event: EventModel) -> bool {
        match (self, event) {
            (RunModel::Riot, EventModel::Riot(_)) => true,
            (RunModel::Ask(_), EventModel::Answer(_)) => true,
            (RunModel::Look(_), EventModel::Running(_)) => true,
            (RunModel::League { step, .. }, event) => match (step, event) {
                (LeagueModel::Search, EventModel::League(_)) => true,
                (LeagueModel::Summoner(_), EventModel::Summoner(_)) => true,
                (LeagueModel::Check, EventModel::Running(_)) => true,
                (LeagueModel::Platform { .. }, EventModel::Platform(_)) => true,
                (LeagueModel::Icon { kind, .. }, EventModel::Icon(_)) => 0 <= kind < 2,
                _ => false,
            },
            _ => false,
        }
    }
}

/// Every answer that was asked for brings a detection closer to its end.
pub proof fn every_answer_brings_the_end_closer(run: RunModel, event: EventModel)
    requires
        run.expects(event),
    ensures
        0 <= run.after(event).answers_left() < run.answers_left(),
{
}

impl RunModel {
    /// The detection after a whole sequence of answers.
    pub open spec fn run(self, events: Seq<EventModel>) -> RunModel
        decreases events.len(),
    {
        if events.len() == 0 {
            self
        } else {
            self.run(events.drop_last()).after(events.last())
        }
    }
}

/// What the Riot Client says of who is signed in is what is detected: no client, no answer, nobody
/// signed in, or the account that it names; and without a running League client that is all.
pub proof fn riot_client_decides(endpoint: RiotEndpointModel, error: SnapshotError, reply: ReplyModel)
    ensures
        RunModel::Riot.after(EventModel::Riot(Some(Ok(None)))) == RunModel::Done(
            DetectionModel::NotRunning,
        ),
        RunModel::Riot.after(EventModel::Riot(Some(Err(error)))) == RunModel::Done(
            DetectionModel::Unavailable,
        ),
        RunModel::Riot.after(EventModel::Riot(None)) == RunModel::Done(DetectionModel::Unavailable),
        RunModel::Riot.after(EventModel::Riot(Some(Ok(Some(endpoint))))) == RunModel::Ask(endpoint),
        match probe_of(reply) {
            ProbeModel::Identified(riot) => RunModel::Ask(endpoint).after(
                EventModel::Answer(reply),
            ) matches RunModel::Look(identity) && {
                &&& identity.puuid == riot.puuid
                &&& identity.game_name == riot.game_name
                &&& identity.tag_line == riot.tag_line
                &&& RunModel::Look(identity).after(EventModel::Running(Some(Ok(false))))
                    == RunModel::Done(DetectionModel::Identified(identity))
                &&& RunModel::Look(identity).after(EventModel::Running(None)) == RunModel::Done(
                    DetectionModel::Identified(identity),
                )
            },
            ProbeModel::NotReady => RunModel::Ask(endpoint).after(EventModel::Answer(reply))
                == RunModel::Done(DetectionModel::NotReady),
            _ => RunModel::Ask(endpoint).after(EventModel::Answer(reply)) is Done,
        },
        probe_of(reply) is Unavailable ==> RunModel::Ask(endpoint).after(EventModel::Answer(reply))
            == RunModel::Done(DetectionModel::Unavailable),
{
}

/// Where the League client runs and shows the account that is signed in, its profile image is
/// found: the JPEG that it has, or else the PNG.
pub proof fn profile_image_is_found(
    identity: IdentityModel,
    endpoint: EndpointModel,
    summoner: SummonerModel,
    platform: Option<(u16, Option<Seq<char>>)>,
    id: i64,
    status: u16,
    bytes: Seq<u8>,
    bad: u16,
)
    requires
        trimmed(summoner.puuid) == identity.puuid,
        identity.puuid.len() > 0,
        trimmed(summoner.game_name).len() > 0,
        trimmed(summoner.tag_line).len() > 0,
        summoner.profile_icon_id == Some(id),
        id >= 0,
        200 <= status < 300,
        0 < bytes.len() <= 262_144,
        !(200 <= bad < 300),
    ensures
        ({
            let asked = RunModel::Look(identity).after(
                EventModel::Running(Some(Ok(true))),
            ).after(EventModel::League(SearchModel::Found(endpoint))).after(
                EventModel::Summoner(Some(summoner)),
            ).after(EventModel::Platform(platform));
            let image = EventModel::Icon(Some((status, Some(bytes))));
            &&& asked.after(image) matches RunModel::Done(DetectionModel::Identified(found))
                && found == (IdentityModel {
                profile_icon_id: Some(id),
                icon_data_url: Some("data:image/jpeg;base64,"@ + base64_text(bytes)),
                ..identity
            })
            &&& asked.after(EventModel::Icon(Some((bad, None)))).after(
                image,
            ) matches RunModel::Done(DetectionModel::Identified(found)) && found
                == (IdentityModel {
                profile_icon_id: Some(id),
                icon_data_url: Some("data:image/png;base64,"@ + base64_text(bytes)),
                ..identity
            })
        }),
{
}

/// Whether an answer of the Riot Client names this account.
pub open spec fn names(event: EventModel, identity: IdentityModel) -> bool {
    event matches EventModel::Answer(reply) && (probe_of(reply) matches ProbeModel::Identified(riot)
        && identity.puuid == riot.puuid && identity.game_name == riot.game_name && identity.tag_line
        == riot.tag_line)
}

/// Whatever is answered, the account that is detected is one that an answer of the Riot Client
/// named.
pub proof fn detected_account_was_named(events: Seq<EventModel>)
    ensures
        match RunModel::Riot.run(events) {
            RunModel::Done(DetectionModel::Identified(identity)) => exists|k: int|
                0 <= k < events.len() && names(#[trigger] events[k], identity),
            RunModel::Look(identity) => exists|k: int|
                0 <= k < events.len() && names(#[trigger] events[k], identity),
            RunModel::League { identity, .. } => exists|k: int|
                0 <= k < events.len() && names(#[trigger] events[k], identity),
            _ => true,
        },
    decreases events.len(),
{
    if events.len() > 0 {
        let before = events.drop_last();
        let last = events.last();
        detected_account_was_named(before);
        assert(events[events.len() - 1] == last);
        match RunModel::Riot.run(before) {
            RunModel::Look(known) => {
                let k = choose|k: int| 0 <= k < before.len() && names(#[trigger] before[k], known);
                assert(names(events[k], known));
            },
            RunModel::League { identity: known, step } => {
                let k = choose|k: int| 0 <= k < before.len() && names(#[trigger] before[k], known);
                assert(names(events[k], known));
                if let RunModel::Done(DetectionModel::Identified(found)) = RunModel::Riot.run(
                    events,
                ) {
                    assert(names(events[k], found));
                }
            },
            RunModel::Done(DetectionModel::Identified(known)) => {
                let k = choose|k: int| 0 <= k < before.len() && names(#[trigger] before[k], known);
                assert(names(events[k], known));
            },
            RunModel::Ask(_) => {
                if let RunModel::Look(found) = RunModel::Riot.run(events) {
                    assert(names(events[events.len() - 1], found));
                }
            },
            _ => {},
        }
    }
}

/// What the League client says of an account is what its summoner is, with the platform and the
/// image that were fetched, and the region of that platform.
pub proof fn league_account_is_the_summoner(
    summoner: SummonerModel,
    platform: Option<Seq<char>>,
    icon: Option<Seq<char>>,
)
    ensures
        league_identity(summoner, platform, icon) matches DetectionModel::Identified(identity) && {
            &&& identity.puuid == summoner.puuid
            &&& identity.game_name == summoner.game_name
            &&& identity.tag_line == summoner.tag_line
            &&& identity.profile_icon_id == summoner.profile_icon_id
            &&& identity.platform == platform
            &&& identity.icon_data_url == icon
            &&& identity.region == match platform {
                Some(platform) => Some(region_of(platform)),
                None => None,
            }
        },
{
}

/// An image is taken from an answer exactly where that reports success and holds between one byte
/// and 256 KiB; then its data URL is of the kind that was asked for.
pub proof fn image_comes_from_a_good_answer(kind: IconKind, status: u16, bytes: Seq<u8>)
    ensures
        fetched_icon(kind, Some((status, Some(bytes)))) is Some <==> 200 <= status && status <= 299
            && 1 <= bytes.len() <= 256 * 1024,
        fetched_icon(kind, Some((status, Some(bytes)))) matches Some(url) ==> url == kind.prefix()
            + base64_text(bytes),
        fetched_icon(kind, Some((status, None))) is None,
        fetched_icon(kind, None) is None,
{
}

/// What the search for the League client and its silence mean: it does not run only where it was
/// not found or is known to be gone.
pub proof fn silent_league_client_is_not_ready(running: Option<Result<bool, SnapshotError>>)
    ensures
        LeagueModel::Search.after(EventModel::League(SearchModel::Absent)) == LeagueModel::Done(
            DetectionModel::NotRunning,
        ),
        LeagueModel::Search.after(EventModel::League(SearchModel::Failed)) == LeagueModel::Done(
            DetectionModel::Unavailable,
        ),
        LeagueModel::Check.after(EventModel::Running(running)) == LeagueModel::Done(
            match running {
                Some(Ok(false)) => DetectionModel::NotRunning,
                _ => DetectionModel::NotReady,
            },
        ),
{
}

} // verus!
