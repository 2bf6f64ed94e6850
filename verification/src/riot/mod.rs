//! Riot policy: which processes matter, which launcher is used, and when a saved session may be
//! touched.

use vstd::prelude::*;
use vstd::std_specs::convert::FromSpecImpl;

use crate::identity::{is_known_as, DetectedIdentity, Detection, DetectionModel, IdentityModel};
use crate::text::{eq_ignore_ascii_case, holds, same_folded, view_of, views};
use crate::vault::{Account, AccountModel, Config, ConfigModel};
use crate::windows::process::{
    any_running, is_named, running, table_view, ProcessModel, SnapshotError, Table,
};
use crate::windows::stop::{
    stop_begun, stop_images, success_means_no_target_runs, StopActionModel, StopError,
    StopErrorModel, StopEventModel, StopModel, StopOptions, StopReport, StopRun,
};

pub mod laws;
pub mod settings;
pub mod task;
pub mod world;

verus! {

/// The images that a switch stops.
pub const CLIENTS: [&'static str; 7] = [
    "RiotClientServices.exe",
    "RiotClientUx.exe",
    "RiotClientUxRender.exe",
    "LeagueClient.exe",
    "LeagueClientUx.exe",
    "LeagueClientUxRender.exe",
    "Deceive.exe",
];

/// The images that a switch must never disturb.
pub const GAMES: [&'static str; 3] = [
    "League of Legends.exe",
    "LeagueofLegends.exe",
    "VALORANT-Win64-Shipping.exe",
];

/// The names of the clients.
pub open spec fn clients() -> Seq<Seq<char>> {
    views(CLIENTS@)
}

/// The names of the games.
pub open spec fn games() -> Seq<Seq<char>> {
    views(GAMES@)
}

/// Why a Riot process check refused to let a switch continue.
///
/// [`InspectionFailed`](Self::InspectionFailed) is the fail-closed case: the process table could
/// not be read, so Swapper cannot claim that no game is running and must not touch the live
/// session.
#[derive(Clone, Copy, Debug, PartialEq, Eq)]
pub enum ProcessStateError {
    GameRunning,
    ClientStillRunning,
    InspectionFailed(SnapshotError),
}

impl ProcessStateError {
    /// What the refusal says.
    pub open spec fn text(self) -> Seq<char> {
        match self {
            ProcessStateError::GameRunning => {
                "Close the running Riot game before switching accounts."@
            },
            ProcessStateError::ClientStillRunning => {
                "Riot Client is still running. Close it from the tray and try again."@
            },
            ProcessStateError::InspectionFailed(error) => {
                "Swapper could not verify which Riot processes are running ("@ + error.text()
                    + "). No account or session data was changed - try again."@
            },
        }
    }

    /// What the refusal says.
    pub fn message(self) -> (text: String)
        ensures
            text@ == self.text(),
    {
        match self {
            ProcessStateError::GameRunning => {
                "Close the running Riot game before switching accounts.".to_owned()
            },
            ProcessStateError::ClientStillRunning => {
                "Riot Client is still running. Close it from the tray and try again.".to_owned()
            },
            ProcessStateError::InspectionFailed(error) => {
                let mut text =
                    "Swapper could not verify which Riot processes are running (".to_owned();
                text.append(error.message().as_str());
                text.append("). No account or session data was changed - try again.");
                text
            },
        }
    }
}

/// Whether the process table shows that no game runs.
pub open spec fn game_check(table: Result<Seq<ProcessModel>, SnapshotError>) -> Result<
    (),
    ProcessStateError,
> {
    match running(table, games()) {
        Ok(true) => Err(ProcessStateError::GameRunning),
        Ok(false) => Ok(()),
        Err(error) => Err(ProcessStateError::InspectionFailed(error)),
    }
}

/// Refuses unless the process table shows that no game runs.
pub fn ensure_no_game(table: Table) -> (result: Result<(), ProcessStateError>)
    ensures
        result == game_check(table_view(table)),
{
    match any_running(table, GAMES.as_slice()) {
        Ok(true) => Err(ProcessStateError::GameRunning),
        Ok(false) => Ok(()),
        Err(error) => Err(ProcessStateError::InspectionFailed(error)),
    }
}

/// The stop of the Riot clients as it begins: a running game forbids it, the clients have a second
/// and a half to close themselves, and what survives is killed in at most two rounds with two
/// seconds to exit each.
pub open spec fn clients_stop() -> StopModel {
    stop_begun(
        clients(),
        games(),
        StopOptions { grace: 1_500_000_000, force_wait: 2_000_000_000, max_force_rounds: 2 },
    )
}

/// Begins to stop the Riot clients.
pub fn begin_client_stop() -> (run: StopRun<'static>)
    ensures
        run@ == clients_stop(),
        run@.wf(),
{
    stop_images(&CLIENTS, &GAMES, StopOptions::default())
}

/// What the stop of the Riot clients means for a switch. The game check is part of the same
/// inspections that collect the kill targets, so a running game can never be terminated as a
/// side effect of a switch.
pub fn stop_clients(stopped: Result<StopReport, StopError>) -> (result: Result<
    (),
    ProcessStateError,
>)
    ensures
        match stopped {
            Ok(_) => result is Ok,
            Err(error) => match error@ {
                StopErrorModel::ForbiddenPresent => result == Err::<(), ProcessStateError>(
                    ProcessStateError::GameRunning,
                ),
                StopErrorModel::StillRunning(_) => result == Err::<(), ProcessStateError>(
                    ProcessStateError::ClientStillRunning,
                ),
                StopErrorModel::EnumerationFailed(cause) => result == Err::<(), ProcessStateError>(
                    ProcessStateError::InspectionFailed(cause),
                ),
            },
        },
{
    match stopped {
        Ok(_) => Ok(()),
        Err(StopError::ForbiddenPresent) => Err(ProcessStateError::GameRunning),
        Err(StopError::StillRunning(_)) => Err(ProcessStateError::ClientStillRunning),
        Err(StopError::EnumerationFailed(error)) => Err(ProcessStateError::InspectionFailed(error)),
    }
}

/// Whether a path names an executable: it is a file, and its name is the expected one, whatever
/// its case.
pub open spec fn names_exe(is_file: bool, name: Option<Seq<char>>, expected: Seq<char>) -> bool {
    is_file && (name matches Some(text) && same_folded(text, expected))
}

/// Whether a path names the expected executable.
pub fn is_exe(is_file: bool, name: Option<&str>, expected: &str) -> (result: bool)
    ensures
        result == names_exe(is_file, view_of(name), expected@),
{
    is_file && match name {
        Some(text) => eq_ignore_ascii_case(text, expected),
        None => false,
    }
}

/// Where an executable is looked for.
#[derive(Clone, Copy, Debug, PartialEq, Eq)]
pub enum ExeSource {
    /// The copy that comes with Swapper.
    Bundled,
    /// The path in the settings.
    Configured,
    /// The path of a running process.
    Running,
    Fixed(&'static str),
    /// Below the directory that an environment variable names; an unset variable counts as an
    /// empty path.
    Below { variable: &'static str, path: &'static str },
    /// Below the directory that an environment variable names, if it is set.
    BelowIfSet { variable: &'static str, path: &'static str },
}

/// Where an executable is looked for, as a mathematical value.
pub enum ExeSourceModel {
    Bundled,
    Configured,
    Running,
    Fixed(Seq<char>),
    Below { variable: Seq<char>, path: Seq<char> },
    BelowIfSet { variable: Seq<char>, path: Seq<char> },
}

impl View for ExeSource {
    type V = ExeSourceModel;

    open spec fn view(&self) -> ExeSourceModel {
        match *self {
            ExeSource::Bundled => ExeSourceModel::Bundled,
            ExeSource::Configured => ExeSourceModel::Configured,
            ExeSource::Running => ExeSourceModel::Running,
            ExeSource::Fixed(path) => ExeSourceModel::Fixed(path@),
            ExeSource::Below { variable, path } => ExeSourceModel::Below {
                variable: variable@,
                path: path@,
            },
            ExeSource::BelowIfSet { variable, path } => ExeSourceModel::BelowIfSet {
                variable: variable@,
                path: path@,
            },
        }
    }
}

/// The places as mathematical values.
pub open spec fn source_models(sources: Seq<ExeSource>) -> Seq<ExeSourceModel> {
    sources.map_values(|s: ExeSource| s@)
}

/// Where the Riot Client is looked for, in this order; the first place that holds it counts.
pub fn riot_path() -> (sources: Vec<ExeSource>)
    ensures
        source_models(sources@) == seq![
            ExeSourceModel::Configured,
            ExeSourceModel::Running,
            ExeSourceModel::Fixed("C:\\Riot Games\\Riot Client\\RiotClientServices.exe"@),
            ExeSourceModel::Below {
                variable: "ProgramFiles"@,
                path: "Riot Games\\Riot Client\\RiotClientServices.exe"@,
            },
            ExeSourceModel::Below {
                variable: "ProgramFiles(x86)"@,
                path: "Riot Games\\Riot Client\\RiotClientServices.exe"@,
            },
        ],
{
    let mut sources: Vec<ExeSource> = Vec::new();
    sources.push(ExeSource::Configured);
    sources.push(ExeSource::Running);
    sources.push(ExeSource::Fixed("C:\\Riot Games\\Riot Client\\RiotClientServices.exe"));
    sources.push(
        ExeSource::Below {
            variable: "ProgramFiles",
            path: "Riot Games\\Riot Client\\RiotClientServices.exe",
        },
    );
    sources.push(
        ExeSource::Below {
            variable: "ProgramFiles(x86)",
            path: "Riot Games\\Riot Client\\RiotClientServices.exe",
        },
    );
    sources
}

/// Where Deceive is looked for, in this order; the first place that holds it counts.
pub fn deceive_path() -> (sources: Vec<ExeSource>)
    ensures
        source_models(sources@) == seq![
            ExeSourceModel::Bundled,
            ExeSourceModel::Configured,
            ExeSourceModel::Running,
            ExeSourceModel::BelowIfSet {
                variable: "LOCALAPPDATA"@,
                path: "Programs\\Deceive\\Deceive.exe"@,
            },
            ExeSourceModel::BelowIfSet {
                variable: "LOCALAPPDATA"@,
                path: "Deceive\\Deceive.exe"@,
            },
        ],
{
    let mut sources: Vec<ExeSource> = Vec::new();
    sources.push(ExeSource::Bundled);
    sources.push(ExeSource::Configured);
    sources.push(ExeSource::Running);
    sources.push(
        ExeSource::BelowIfSet { variable: "LOCALAPPDATA", path: "Programs\\Deceive\\Deceive.exe" },
    );
    sources.push(ExeSource::BelowIfSet { variable: "LOCALAPPDATA", path: "Deceive\\Deceive.exe" });
    sources
}

/// What is started.
#[derive(Clone, Copy, Debug, PartialEq, Eq)]
pub enum Launcher {
    /// League through Deceive.
    Deceive,
    /// League through the Riot Client.
    League,
    /// The Riot Client alone.
    Riot,
}

impl Launcher {
    /// Which launcher the settings select for League.
    pub open spec fn selected_by(use_deceive: bool) -> Launcher {
        if use_deceive {
            Launcher::Deceive
        } else {
            Launcher::League
        }
    }

    /// What is said where the launcher is missing.
    pub open spec fn missing(self) -> Seq<char> {
        match self {
            Launcher::Deceive => "Bundled Deceive.exe was not found. Reinstall Swapper."@,
            _ => "Riot Client was not found. Set its path in Settings."@,
        }
    }

    /// The arguments that the launcher is started with.
    pub open spec fn argument_texts(self) -> Seq<Seq<char>> {
        match self {
            Launcher::Deceive => seq!["lol"@],
            Launcher::League => seq![
                "--launch-product=league_of_legends"@,
                "--launch-patchline=live"@,
            ],
            Launcher::Riot => seq![],
        }
    }

    /// Which launcher the settings select for League.
    pub fn selected(use_deceive: bool) -> (launcher: Launcher)
        ensures
            launcher == Launcher::selected_by(use_deceive),
    {
        if use_deceive {
            Launcher::Deceive
        } else {
            Launcher::League
        }
    }

    /// What is said where the launcher is missing.
    pub fn missing_message(self) -> (text: String)
        ensures
            text@ == self.missing(),
    {
        match self {
            Launcher::Deceive => "Bundled Deceive.exe was not found. Reinstall Swapper.".to_owned(),
            _ => "Riot Client was not found. Set its path in Settings.".to_owned(),
        }
    }

    /// The arguments that the launcher is started with.
    pub fn arguments(self) -> (args: Vec<&'static str>)
        ensures
            views(args@) == self.argument_texts(),
    {
        let mut args: Vec<&'static str> = Vec::new();
        match self {
            Launcher::Deceive => {
                args.push("lol");
            },
            Launcher::League => {
                args.push("--launch-product=league_of_legends");
                args.push("--launch-patchline=live");
            },
            Launcher::Riot => {},
        }
        assert(views(args@) =~= self.argument_texts());
        args
    }
}

/// Pure policy for [`verified_live_identity`]: may `identity` be written into `active`'s saved
/// snapshot?
pub fn identity_safe_for(active: &Account, identity: &DetectedIdentity) -> (safe: bool)
    ensures
        safe == is_known_as(active@, identity@.puuid),
{
    holds(&active.puuid, identity.puuid.as_str())
}

/// What is said when the live login belongs to another account.
pub open spec fn mismatch_text(account: AccountModel) -> Seq<char> {
    "Different Riot account detected. The current Riot login no longer matches the saved account "@
        + account.display_name()
        + ". Save this account separately or sign back into the expected account."@
}

/// What is said when the live login belongs to another account.
pub fn mismatch_message(account: &Account) -> (text: String)
    ensures
        text@ == mismatch_text(account@),
{
    let mut text =
        "Different Riot account detected. The current Riot login no longer matches the saved account ".to_owned();
    text.append(account.display_name().as_str());
    text.append(". Save this account separately or sign back into the expected account.");
    text
}

/// Whether the active account's saved session may be overwritten with the live session. `live`
/// says whether there is a live session.
pub open spec fn may_refresh(
    config: ConfigModel,
    identity: Option<IdentityModel>,
    live: bool,
) -> Result<bool, Seq<char>> {
    match (config.active_id, identity) {
        (Some(id), Some(identity)) => if live && config.has(id) && config.account(
            id,
        ).puuid is Some {
            if is_known_as(config.account(id), identity.puuid) {
                Ok(true)
            } else {
                Err(mismatch_text(config.account(id)))
            }
        } else {
            Ok(false)
        },
        _ => Ok(false),
    }
}

/// Decides whether the active account's saved session snapshot may be overwritten with the live
/// Riot session. `identity` is the detected identity where there is one, and `live` says whether
/// there is a live session.
///
/// * `Ok(true)`: the live PUUID matches the saved account, so the refresh is safe.
/// * `Ok(false)`: identity cannot be verified (no live session, no active account, or Riot Client
///   is unavailable). The refresh must be skipped; saved sessions are never overwritten blind.
/// * `Err`: the live login belongs to a different account. The caller must stop before touching
///   any saved session.
pub fn verified_live_identity(
    config: &Config,
    identity: Option<&DetectedIdentity>,
    live: bool,
) -> (result: Result<bool, String>)
    ensures
        crate::vault::files::outcome_view(result) == may_refresh(
            config@,
            identity_in(identity),
            live,
        ),
{
    let active_id = match config.active_id {
        Some(id) => id,
        None => {
            return Ok(false);
        },
    };
    if !live {
        return Ok(false);
    }
    let identity = match identity {
        Some(identity) => identity,
        None => {
            return Ok(false);
        },
    };
    let at = match config.position(active_id) {
        Some(at) => at,
        None => {
            return Ok(false);
        },
    };
    let active = &config.accounts[at];
    assert(config@.account(active_id) == active@);
    if active.puuid.is_none() {
        return Ok(false);
    }
    if !identity_safe_for(active, identity) {
        return Err(mismatch_message(active));
    }
    Ok(true)
}

/// The view of an optional identity.
pub open spec fn identity_in(identity: Option<&DetectedIdentity>) -> Option<IdentityModel> {
    match identity {
        Some(identity) => Some(identity@),
        None => None,
    }
}

/// The identity of a detection, where it has one.
pub open spec fn detected(detection: DetectionModel) -> Option<IdentityModel> {
    match detection {
        DetectionModel::Identified(identity) => Some(identity),
        _ => None,
    }
}

/// The identity of a detection, where it has one.
pub fn identity_of<'a>(detection: &'a Detection) -> (identity: Option<&'a DetectedIdentity>)
    ensures
        identity_in(identity) == detected(detection@),
{
    match detection {
        Detection::Identified(identity) => Some(identity),
        _ => None,
    }
}

/// Whether an account shows the Riot ID of an identity but is not known by its PUUID.
pub open spec fn conflicts(account: AccountModel, identity: IdentityModel) -> bool {
    &&& !is_known_as(account, identity.puuid)
    &&& account.riot_id() matches Some(riot_id) && same_folded(riot_id, identity.riot_id())
}

/// Whether any account shows the Riot ID of an identity but is not known by its PUUID.
pub open spec fn has_conflict(config: ConfigModel, identity: IdentityModel) -> bool {
    exists|i: int| 0 <= i < config.accounts.len() && conflicts(#[trigger] config.accounts[i], identity)
}

/// A matching display ID is not proof of ownership when the stable IDs differ. Keep both saved
/// sessions intact and require the user to resolve the conflict.
pub fn conflicting_riot_id(config: &Config, identity: &DetectedIdentity) -> (conflict: bool)
    ensures
        conflict == has_conflict(config@, identity@),
{
    let shown = identity.riot_id();
    let n: usize = config.accounts.len();
    let mut i: usize = 0;
    while i < n
        invariant
            n == config.accounts@.len(),
            i <= n,
            shown@ == identity@.riot_id(),
            forall|k: int| 0 <= k < i ==> !conflicts(#[trigger] config@.accounts[k], identity@),
        decreases n - i,
    {
        let account = &config.accounts[i];
        assert(config@.accounts[i as int] == account@);
        if !holds(&account.puuid, identity.puuid.as_str()) {
            if let Some(riot_id) = account.riot_id() {
                if eq_ignore_ascii_case(riot_id.as_str(), shown.as_str()) {
                    assert(conflicts(config@.accounts[i as int], identity@));
                    return true;
                }
            }
        }
        i = i + 1;
    }
    false
}

/// Why a switch failed, as a category.
#[derive(Clone, Copy, Debug, PartialEq, Eq, Structural)]
pub enum SwitchFailureKind {
    GameRunning,
    ClientBusy,
    InspectionFailed,
    AccountMissing,
    LauncherMissing,
    SessionRestore,
    Launch,
    Other,
}

/// Why a switch failed.
#[derive(Debug)]
pub struct SwitchFailure {
    pub kind: SwitchFailureKind,
    pub detail: String,
}

/// Why a switch failed, as a mathematical value.
pub struct FailureModel {
    pub kind: SwitchFailureKind,
    pub detail: Seq<char>,
}

impl View for SwitchFailure {
    type V = FailureModel;

    open spec fn view(&self) -> FailureModel {
        FailureModel { kind: self.kind, detail: self.detail@ }
    }
}

impl SwitchFailure {
    /// A failure of a kind.
    pub fn new(kind: SwitchFailureKind, detail: String) -> (failure: SwitchFailure)
        ensures
            failure@ == (FailureModel { kind, detail: detail@ }),
    {
        SwitchFailure { kind, detail }
    }
}

impl From<String> for SwitchFailure {
    fn from(detail: String) -> (failure: SwitchFailure) {
        SwitchFailure { kind: SwitchFailureKind::Other, detail }
    }
}

impl FromSpecImpl<String> for SwitchFailure {
    open spec fn obeys_from_spec() -> bool {
        true
    }

    open spec fn from_spec(detail: String) -> SwitchFailure {
        SwitchFailure { kind: SwitchFailureKind::Other, detail }
    }
}

/// The category of a process-state refusal. An unreadable process table is its own kind so the
/// user is never told a game is running when Swapper simply could not look.
pub open spec fn refusal(error: ProcessStateError) -> FailureModel {
    FailureModel {
        kind: match error {
            ProcessStateError::GameRunning => SwitchFailureKind::GameRunning,
            ProcessStateError::ClientStillRunning => SwitchFailureKind::ClientBusy,
            ProcessStateError::InspectionFailed(_) => SwitchFailureKind::InspectionFailed,
        },
        detail: error.text(),
    }
}

/// Maps a process-state refusal onto the switch failure the UI explains.
pub fn switch_failure(error: ProcessStateError) -> (failure: SwitchFailure)
    ensures
        failure@ == refusal(error),
{
    let kind = match error {
        ProcessStateError::GameRunning => SwitchFailureKind::GameRunning,
        ProcessStateError::ClientStillRunning => SwitchFailureKind::ClientBusy,
        ProcessStateError::InspectionFailed(_) => SwitchFailureKind::InspectionFailed,
    };
    SwitchFailure::new(kind, error.message())
}

/// A saved session may be refreshed only by a login that is proven to be its account's own.
pub proof fn refresh_needs_a_matching_login(
    config: ConfigModel,
    identity: Option<IdentityModel>,
    live: bool,
)
    requires
        may_refresh(config, identity, live) == Ok::<bool, Seq<char>>(true),
    ensures
        live,
        match (config.active_id, identity) {
            (Some(id), Some(login)) => config.has(id) && config.account(id).puuid == Some(
                login.puuid,
            ),
            _ => false,
        },
{
}

/// What the live login decides for the active account: its own login refreshes it, another one stops
/// everything and names the account, and without proof of either nothing is touched.
pub proof fn live_login_decides_the_refresh(
    config: ConfigModel,
    identity: Option<IdentityModel>,
    live: bool,
    at: int,
)
    requires
        0 <= at < config.accounts.len(),
        config.active_id == Some(config.accounts[at].id),
        forall|k: int| 0 <= k < at ==> (#[trigger] config.accounts[k]).id != config.accounts[at].id,
    ensures
        match (config.accounts[at].puuid, identity) {
            (Some(puuid), Some(login)) => match may_refresh(config, identity, live) {
                Ok(refresh) => refresh == live && (live ==> login.puuid == puuid),
                Err(message) => live && login.puuid != puuid && message
                    == "Different Riot account detected. The current Riot login no longer matches the saved account "@
                    + config.accounts[at].display_name()
                    + ". Save this account separately or sign back into the expected account."@,
            },
            _ => may_refresh(config, identity, live) == Ok::<bool, Seq<char>>(false),
        },
{
    config.lemma_index(config.accounts[at].id);
}

/// Another account's Riot ID, whatever its case, is a conflict unless that account is known by the
/// same PUUID; without such an account there is none.
pub proof fn shared_riot_id_is_a_conflict(config: ConfigModel, identity: IdentityModel)
    ensures
        has_conflict(config, identity) <==> exists|k: int|
            0 <= k < config.accounts.len() && (#[trigger] config.accounts[k]).puuid != Some(
                identity.puuid,
            ) && (config.accounts[k].riot_id() matches Some(shown) && same_folded(
                shown,
                identity.riot_id(),
            )),
{
    if has_conflict(config, identity) {
        let k = choose|k: int|
            0 <= k < config.accounts.len() && conflicts(#[trigger] config.accounts[k], identity);
        assert(config.accounts[k].puuid != Some(identity.puuid));
    }
    if exists|k: int|
        0 <= k < config.accounts.len() && (#[trigger] config.accounts[k]).puuid != Some(
            identity.puuid,
        ) && (config.accounts[k].riot_id() matches Some(shown) && same_folded(
            shown,
            identity.riot_id(),
        )) {
        let k = choose|k: int|
            0 <= k < config.accounts.len() && (#[trigger] config.accounts[k]).puuid != Some(
                identity.puuid,
            ) && (config.accounts[k].riot_id() matches Some(shown) && same_folded(
                shown,
                identity.riot_id(),
            ));
        assert(conflicts(config.accounts[k], identity));
    }
}

/// Whether a process is League or VALORANT itself.
pub open spec fn is_game(image: Seq<char>) -> bool {
    same_folded(image, "League of Legends.exe"@) || same_folded(image, "LeagueofLegends.exe"@)
        || same_folded(image, "VALORANT-Win64-Shipping.exe"@)
}

/// Whether a process is a part of the Riot Client or the League client, or Deceive.
pub open spec fn is_client(image: Seq<char>) -> bool {
    same_folded(image, "RiotClientServices.exe"@) || same_folded(image, "RiotClientUx.exe"@)
        || same_folded(image, "RiotClientUxRender.exe"@) || same_folded(image, "LeagueClient.exe"@)
        || same_folded(image, "LeagueClientUx.exe"@) || same_folded(
        image,
        "LeagueClientUxRender.exe"@,
    ) || same_folded(image, "Deceive.exe"@)
}

/// What counts as a game and what as a client.
pub proof fn games_and_clients_are_known(image: Seq<char>)
    ensures
        is_named(image, games()) <==> is_game(image),
        is_named(image, clients()) <==> is_client(image),
{
    let games = games();
    let clients = clients();
    assert(games[0] == "League of Legends.exe"@);
    assert(games[1] == "LeagueofLegends.exe"@);
    assert(games[2] == "VALORANT-Win64-Shipping.exe"@);
    assert(clients[0] == "RiotClientServices.exe"@);
    assert(clients[1] == "RiotClientUx.exe"@);
    assert(clients[2] == "RiotClientUxRender.exe"@);
    assert(clients[3] == "LeagueClient.exe"@);
    assert(clients[4] == "LeagueClientUx.exe"@);
    assert(clients[5] == "LeagueClientUxRender.exe"@);
    assert(clients[6] == "Deceive.exe"@);
}

/// A running game is always noticed, no other process is taken for one, and a process table that
/// cannot be read never passes for one without a game.
pub proof fn running_game_is_noticed(table: Result<Seq<ProcessModel>, SnapshotError>)
    ensures
        match (table, game_check(table)) {
            (Ok(processes), Ok(_)) => forall|k: int|
                0 <= k < processes.len() ==> !is_game(#[trigger] processes[k].image),
            (Ok(processes), Err(error)) => error is GameRunning && exists|k: int|
                0 <= k < processes.len() && is_game(#[trigger] processes[k].image),
            (Err(reason), checked) => checked == Err::<(), ProcessStateError>(
                ProcessStateError::InspectionFailed(reason),
            ),
        },
{
    if let Ok(processes) = table {
        assert forall|k: int| 0 <= k < processes.len() implies is_named(
            #[trigger] processes[k].image,
            games(),
        ) == is_game(processes[k].image) by {
            games_and_clients_are_known(processes[k].image);
        }
    }
}

/// When the clients were stopped, none of them ran any more, and no game did.
pub proof fn stopped_clients_are_gone(stop: StopModel, event: StopEventModel, at: u128)
    requires
        stop.targets == clients(),
        stop.forbidden == games(),
        stop.action() !is Finish,
        stop.after(event, at).action() matches StopActionModel::Finish(Ok(_)),
    ensures
        event matches StopEventModel::Table(Ok(processes)) && forall|k: int|
            0 <= k < processes.len() ==> !is_client(#[trigger] processes[k].image) && !is_game(
                processes[k].image,
            ),
{
    success_means_no_target_runs(stop, event, at);
    if let StopEventModel::Table(Ok(processes)) = event {
        assert forall|k: int| 0 <= k < processes.len() implies !is_client(
            #[trigger] processes[k].image,
        ) && !is_game(processes[k].image) by {
            games_and_clients_are_known(processes[k].image);
        }
    }
}

/// Every refusal is told as what it is: a game only where one runs, busy clients only where one
/// would not go, and a failed look as nothing else.
pub proof fn refusals_are_told_apart(error: ProcessStateError)
    ensures
        refusal(error).kind == SwitchFailureKind::GameRunning <==> error is GameRunning,
        refusal(error).kind == SwitchFailureKind::ClientBusy <==> error is ClientStillRunning,
        refusal(error).kind == SwitchFailureKind::InspectionFailed <==> error is InspectionFailed,
{
}

/// What a launcher is told to start: League, through whichever launcher, and nothing for the Riot
/// Client alone.
pub proof fn launcher_is_told_what_to_start(launcher: Launcher)
    ensures
        launcher.argument_texts().len() == 0 <==> launcher is Riot,
        launcher is Deceive <==> launcher.argument_texts().contains("lol"@),
        launcher is League <==> launcher.argument_texts().contains(
            "--launch-product=league_of_legends"@,
        ),
        launcher is League <==> launcher.argument_texts().contains("--launch-patchline=live"@),
        launcher.argument_texts().len() <= 2,
        launcher.missing() == "Bundled Deceive.exe was not found. Reinstall Swapper."@ <==> launcher
            is Deceive,
        launcher.missing() == "Riot Client was not found. Set its path in Settings."@ <==> launcher
            !is Deceive,
{
    reveal_strlit("lol");
    reveal_strlit("--launch-product=league_of_legends");
    reveal_strlit("--launch-patchline=live");
    reveal_strlit("Bundled Deceive.exe was not found. Reinstall Swapper.");
    reveal_strlit("Riot Client was not found. Set its path in Settings.");
    assert("Bundled Deceive.exe was not found. Reinstall Swapper."@[0] == 'B');
    assert("Riot Client was not found. Set its path in Settings."@[0] == 'R');
    let texts = launcher.argument_texts();
    match launcher {
        Launcher::Deceive => {
            assert(texts[0] == "lol"@);
            assert(texts.contains("lol"@));
        },
        Launcher::League => {
            assert(texts[0] == "--launch-product=league_of_legends"@);
            assert(texts[1] == "--launch-patchline=live"@);
            assert(texts[0].len() == 34 && texts[1].len() == 23 && "lol"@.len() == 3);
        },
        Launcher::Riot => {},
    }
}

} // verus!
