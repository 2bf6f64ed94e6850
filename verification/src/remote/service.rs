//! Turning remote control on and off, and keeping its address alive.
//!
//! [`RemoteCore`] is what remote control knows of itself; a [`RemoteRun`] changes it step by
//! step. The run decides what to do next; the caller does it and reports what came of it. Each
//! change of the status that others should hear of is handed back to the caller.

use vstd::prelude::*;

use super::tailscale::{
    address_for, address_of, proxy_address, proxy_target, RootRoute, RouteModel, TailscaleModel,
    TailscaleStatus, route_view,
};
use crate::codec::{format_uuid, is_random_uuid, new_uuid, uuid_text};
use crate::text::{copy_of, eq_ignore_ascii_case, owned, same, same_folded};
use crate::vault::files::outcome_view;

verus! {

#[derive(Clone, Copy, Debug, PartialEq, Eq, Structural)]
pub enum RemoteState {
    Disabled,
    Starting,
    NotInstalled,
    Disconnected,
    Available,
    Failed,
}

/// What is shown of remote control.
#[derive(Debug, PartialEq, Eq)]
pub struct RemoteStatus {
    pub enabled: bool,
    pub state: RemoteState,
    pub address: Option<String>,
    pub message: Option<String>,
    pub tailscale_installed: bool,
    pub tailscale_running: bool,
    pub dns_name: Option<String>,
    pub league_running: bool,
    pub lcu_connected: bool,
}

/// What is shown of remote control, as a mathematical value.
pub struct StatusModel {
    pub enabled: bool,
    pub state: RemoteState,
    pub address: Option<Seq<char>>,
    pub message: Option<Seq<char>>,
    pub tailscale_installed: bool,
    pub tailscale_running: bool,
    pub dns_name: Option<Seq<char>>,
    pub league_running: bool,
    pub lcu_connected: bool,
}

impl View for RemoteStatus {
    type V = StatusModel;

    open spec fn view(&self) -> StatusModel {
        StatusModel {
            enabled: self.enabled,
            state: self.state,
            address: owned(self.address),
            message: owned(self.message),
            tailscale_installed: self.tailscale_installed,
            tailscale_running: self.tailscale_running,
            dns_name: owned(self.dns_name),
            league_running: self.league_running,
            lcu_connected: self.lcu_connected,
        }
    }
}

impl Clone for RemoteStatus {
    fn clone(&self) -> (copy: Self)
        ensures
            copy == *self,
    {
        RemoteStatus {
            enabled: self.enabled,
            state: self.state,
            address: copy_of(&self.address),
            message: copy_of(&self.message),
            tailscale_installed: self.tailscale_installed,
            tailscale_running: self.tailscale_running,
            dns_name: copy_of(&self.dns_name),
            league_running: self.league_running,
            lcu_connected: self.lcu_connected,
        }
    }
}

/// What is shown while remote control is off.
pub open spec fn off() -> StatusModel {
    StatusModel {
        enabled: false,
        state: RemoteState::Disabled,
        address: None,
        message: None,
        tailscale_installed: false,
        tailscale_running: false,
        dns_name: None,
        league_running: false,
        lcu_connected: false,
    }
}

fn same_text(a: &Option<String>, b: &Option<String>) -> (equal: bool)
    ensures
        equal == (owned(*a) == owned(*b)),
{
    match (a, b) {
        (Some(a), Some(b)) => same(a.as_str(), b.as_str()),
        (None, None) => true,
        _ => false,
    }
}

impl RemoteStatus {
    /// What is shown while remote control is off.
    pub fn disabled() -> (status: RemoteStatus)
        ensures
            status@ == off(),
    {
        RemoteStatus {
            enabled: false,
            state: RemoteState::Disabled,
            address: None,
            message: None,
            tailscale_installed: false,
            tailscale_running: false,
            dns_name: None,
            league_running: false,
            lcu_connected: false,
        }
    }

    /// Whether two statuses show the same.
    pub fn shows_same(&self, other: &RemoteStatus) -> (equal: bool)
        ensures
            equal == (self@ == other@),
    {
        self.enabled == other.enabled && self.state == other.state && same_text(
            &self.address,
            &other.address,
        ) && same_text(&self.message, &other.message) && self.tailscale_installed
            == other.tailscale_installed && self.tailscale_running == other.tailscale_running
            && same_text(&self.dns_name, &other.dns_name) && self.league_running
            == other.league_running && self.lcu_connected == other.lcu_connected
    }
}

/// A route of Tailscale that Swapper set up, as it is recorded.
#[derive(Debug, PartialEq, Eq)]
pub struct OwnedRoute {
    pub dns_name: String,
    pub port: u16,
}

/// A route of Tailscale that Swapper set up, as a mathematical value.
pub struct OwnedModel {
    pub dns_name: Seq<char>,
    pub port: u16,
}

impl View for OwnedRoute {
    type V = OwnedModel;

    open spec fn view(&self) -> OwnedModel {
        OwnedModel { dns_name: self.dns_name@, port: self.port }
    }
}

impl Clone for OwnedRoute {
    fn clone(&self) -> (copy: Self)
        ensures
            copy == *self,
    {
        OwnedRoute { dns_name: self.dns_name.clone(), port: self.port }
    }
}

/// A new name for the file that the own route is recorded in before it replaces the old record.
pub fn new_pending_claim() -> (name: String)
    ensures
        exists|id: u128|
            is_random_uuid(id) && name@ == "remote-route-"@ + #[trigger] uuid_text(id) + ".tmp"@,
{
    let mut name = "remote-route-".to_owned();
    name.append(format_uuid(new_uuid()).as_str());
    name.append(".tmp");
    name
}

/// The view of an optional route.
pub open spec fn owned_view(route: Option<OwnedRoute>) -> Option<OwnedModel> {
    match route {
        Some(route) => Some(route@),
        None => None,
    }
}

fn copy_route(route: &Option<OwnedRoute>) -> (copy: Option<OwnedRoute>)
    ensures
        copy == *route,
{
    match route {
        Some(route) => Some(route.clone()),
        None => None,
    }
}

/// Whether the root of the machine `dns_name` may be taken: it is vacant, or what stands there is
/// what Swapper recorded for that machine.
pub open spec fn may_take(route: RouteModel, dns_name: Seq<char>, recorded: Option<OwnedModel>) -> bool {
    match route {
        RouteModel::Vacant => true,
        RouteModel::Proxy(target) => recorded matches Some(own) && same_folded(
            own.dns_name,
            dns_name,
        ) && target == proxy_address(own.port),
        RouteModel::Other => false,
    }
}

/// Whether the root of the machine `dns_name` may be taken.
pub fn route_is_available(route: &RootRoute, dns_name: &str, recorded: Option<&OwnedRoute>) -> (
    available: bool)
    ensures
        available == may_take(
            route@,
            dns_name@,
            match recorded {
                Some(own) => Some(own@),
                None => None,
            },
        ),
{
    match route {
        RootRoute::Vacant => true,
        RootRoute::Proxy(target) => {
            match recorded {
                Some(own) => eq_ignore_ascii_case(own.dns_name.as_str(), dns_name) && same(
                    target.as_str(),
                    proxy_target(own.port).as_str(),
                ),
                None => false,
            }
        },
        RootRoute::Other => false,
    }
}

/// A change of what is shown.
pub enum StatusPatch {
    Starting,
    /// Remote control failed for this reason.
    Failed(String),
    TailscaleAbsent,
    TailscaleSeen { running: bool, dns_name: Option<String> },
    League { running: bool, connected: bool },
    NotInstalled,
    Unreachable(String),
    NotConnected { dns_name: Option<String> },
    NoName { dns_name: Option<String> },
    NoService,
    ClaimUnreadable(String),
    Published { host: String, address: String },
    RouteFailed { host: String, reason: String },
}

/// A change of what is shown, as a mathematical value.
pub enum PatchModel {
    Starting,
    Failed(Seq<char>),
    TailscaleAbsent,
    TailscaleSeen { running: bool, dns_name: Option<Seq<char>> },
    League { running: bool, connected: bool },
    NotInstalled,
    Unreachable(Seq<char>),
    NotConnected { dns_name: Option<Seq<char>> },
    NoName { dns_name: Option<Seq<char>> },
    NoService,
    ClaimUnreadable(Seq<char>),
    Published { host: Seq<char>, address: Seq<char> },
    RouteFailed { host: Seq<char>, reason: Seq<char> },
}

impl View for StatusPatch {
    type V = PatchModel;

    open spec fn view(&self) -> PatchModel {
        match *self {
            StatusPatch::Starting => PatchModel::Starting,
            StatusPatch::Failed(reason) => PatchModel::Failed(reason@),
            StatusPatch::TailscaleAbsent => PatchModel::TailscaleAbsent,
            StatusPatch::TailscaleSeen { running, dns_name } => PatchModel::TailscaleSeen {
                running,
                dns_name: owned(dns_name),
            },
            StatusPatch::League { running, connected } => PatchModel::League { running, connected },
            StatusPatch::NotInstalled => PatchModel::NotInstalled,
            StatusPatch::Unreachable(reason) => PatchModel::Unreachable(reason@),
            StatusPatch::NotConnected { dns_name } => PatchModel::NotConnected {
                dns_name: owned(dns_name),
            },
            StatusPatch::NoName { dns_name } => PatchModel::NoName { dns_name: owned(dns_name) },
            StatusPatch::NoService => PatchModel::NoService,
            StatusPatch::ClaimUnreadable(reason) => PatchModel::ClaimUnreadable(reason@),
            StatusPatch::Published { host, address } => PatchModel::Published {
                host: host@,
                address: address@,
            },
            StatusPatch::RouteFailed { host, reason } => PatchModel::RouteFailed {
                host: host@,
                reason: reason@,
            },
        }
    }
}

/// What is shown after a change.
pub open spec fn patched(status: StatusModel, patch: PatchModel) -> StatusModel {
    match patch {
        PatchModel::Starting => StatusModel {
            enabled: true,
            state: RemoteState::Starting,
            message: None,
            ..status
        },
        PatchModel::Failed(reason) => StatusModel {
            state: RemoteState::Failed,
            message: Some(reason),
            ..status
        },
        PatchModel::TailscaleAbsent => StatusModel {
            tailscale_installed: false,
            tailscale_running: false,
            dns_name: None,
            ..status
        },
        PatchModel::TailscaleSeen { running, dns_name } => StatusModel {
            tailscale_installed: true,
            tailscale_running: running,
            dns_name,
            ..status
        },
        PatchModel::League { running, connected } => if status.enabled {
            StatusModel { league_running: running, lcu_connected: connected, ..status }
        } else {
            status
        },
        PatchModel::NotInstalled => StatusModel {
            state: RemoteState::NotInstalled,
            tailscale_installed: false,
            tailscale_running: false,
            address: None,
            message: Some(
                "Tailscale is not installed. Install Tailscale, then turn Remote Control off and on again."@,
            ),
            ..status
        },
        PatchModel::Unreachable(reason) => StatusModel {
            state: RemoteState::Disconnected,
            tailscale_installed: true,
            tailscale_running: false,
            address: None,
            message: Some(reason),
            ..status
        },
        PatchModel::NotConnected { dns_name } => StatusModel {
            state: RemoteState::Disconnected,
            tailscale_installed: true,
            tailscale_running: false,
            dns_name,
            address: None,
            message: Some(
                "Tailscale is not connected. Open Tailscale and sign in, then turn Remote Control off and on again."@,
            ),
            ..status
        },
        PatchModel::NoName { dns_name } => StatusModel {
            state: RemoteState::Failed,
            tailscale_installed: true,
            tailscale_running: true,
            dns_name,
            address: None,
            message: Some("Tailscale is connected but did not report a MagicDNS name."@),
            ..status
        },
        PatchModel::NoService => StatusModel {
            state: RemoteState::Failed,
            message: Some("The remote service is not running."@),
            ..status
        },
        PatchModel::ClaimUnreadable(reason) => StatusModel {
            state: RemoteState::Failed,
            address: None,
            message: Some(reason),
            ..status
        },
        PatchModel::Published { host, address } => StatusModel {
            state: RemoteState::Available,
            tailscale_installed: true,
            tailscale_running: true,
            dns_name: Some(host),
            address: Some(address),
            message: None,
            ..status
        },
        PatchModel::RouteFailed { host, reason } => StatusModel {
            state: RemoteState::Failed,
            tailscale_installed: true,
            tailscale_running: true,
            dns_name: Some(host),
            address: None,
            message: Some(reason),
            ..status
        },
    }
}

impl RemoteStatus {
    /// Changes what is shown.
    pub fn patch(&mut self, patch: StatusPatch)
        ensures
            final(self)@ == patched(old(self)@, patch@),
    {
        match patch {
            StatusPatch::Starting => {
                self.enabled = true;
                self.state = RemoteState::Starting;
                self.message = None;
            },
            StatusPatch::Failed(reason) => {
                self.state = RemoteState::Failed;
                self.message = Some(reason);
            },
            StatusPatch::TailscaleAbsent => {
                self.tailscale_installed = false;
                self.tailscale_running = false;
                self.dns_name = None;
            },
            StatusPatch::TailscaleSeen { running, dns_name } => {
                self.tailscale_installed = true;
                self.tailscale_running = running;
                self.dns_name = dns_name;
            },
            StatusPatch::League { running, connected } => {
                if self.enabled {
                    self.league_running = running;
                    self.lcu_connected = connected;
                }
            },
            StatusPatch::NotInstalled => {
                self.state = RemoteState::NotInstalled;
                self.tailscale_installed = false;
                self.tailscale_running = false;
                self.address = None;
                self.message = Some(
                    "Tailscale is not installed. Install Tailscale, then turn Remote Control off and on again.".to_owned(),
                );
            },
            StatusPatch::Unreachable(reason) => {
                self.state = RemoteState::Disconnected;
                self.tailscale_installed = true;
                self.tailscale_running = false;
                self.address = None;
                self.message = Some(reason);
            },
            StatusPatch::NotConnected { dns_name } => {
                self.state = RemoteState::Disconnected;
                self.tailscale_installed = true;
                self.tailscale_running = false;
                self.dns_name = dns_name;
                self.address = None;
                self.message = Some(
                    "Tailscale is not connected. Open Tailscale and sign in, then turn Remote Control off and on again.".to_owned(),
                );
            },
            StatusPatch::NoName { dns_name } => {
                self.state = RemoteState::Failed;
                self.tailscale_installed = true;
                self.tailscale_running = true;
                self.dns_name = dns_name;
                self.address = None;
                self.message = Some(
                    "Tailscale is connected but did not report a MagicDNS name.".to_owned(),
                );
            },
            StatusPatch::NoService => {
                self.state = RemoteState::Failed;
                self.message = Some("The remote service is not running.".to_owned());
            },
            StatusPatch::ClaimUnreadable(reason) => {
                self.state = RemoteState::Failed;
                self.address = None;
                self.message = Some(reason);
            },
            StatusPatch::Published { host, address } => {
                self.state = RemoteState::Available;
                self.tailscale_installed = true;
                self.tailscale_running = true;
                self.dns_name = Some(host);
                self.address = Some(address);
                self.message = None;
            },
            StatusPatch::RouteFailed { host, reason } => {
                self.state = RemoteState::Failed;
                self.tailscale_installed = true;
                self.tailscale_running = true;
                self.dns_name = Some(host);
                self.address = None;
                self.message = Some(reason);
            },
        }
    }
}

/// What remote control knows of itself.
pub struct RemoteCore {
    pub status: RemoteStatus,
    /// How often remote control was turned off.
    pub epoch: u64,
    /// The route that was set up last.
    pub owned_route: Option<OwnedRoute>,
    /// Where the remote service listens, while it runs.
    pub service_port: Option<u16>,
}

/// What remote control knows of itself, as a mathematical value.
pub struct CoreModel {
    pub status: StatusModel,
    pub epoch: u64,
    pub owned_route: Option<OwnedModel>,
    pub service_port: Option<u16>,
}

impl View for RemoteCore {
    type V = CoreModel;

    open spec fn view(&self) -> CoreModel {
        CoreModel {
            status: self.status@,
            epoch: self.epoch,
            owned_route: owned_view(self.owned_route),
            service_port: self.service_port,
        }
    }
}

impl CoreModel {
    /// What is known after a change that is meant for an epoch: a change for another one is
    /// stale and does nothing.
    pub open spec fn applied(self, epoch: u64, patch: PatchModel) -> CoreModel {
        if self.epoch == epoch {
            CoreModel { status: patched(self.status, patch), ..self }
        } else {
            self
        }
    }

    /// What is known once remote control is off.
    pub open spec fn turned_off(self) -> CoreModel {
        CoreModel { status: off(), epoch: (self.epoch + 1) as u64, ..self }
    }
}

/// Whether others are told of a change: of the new status if and only if it shows something else.
pub open spec fn tells(told: Option<RemoteStatus>, before: StatusModel, after: StatusModel) -> bool {
    match told {
        Some(status) => status@ == after && before != after,
        None => before == after,
    }
}

impl RemoteCore {
    /// Remote control as it begins.
    pub fn new(enabled: bool) -> (core: RemoteCore)
        ensures
            core@ == (CoreModel {
                status: if enabled {
                    StatusModel { enabled: true, state: RemoteState::Starting, ..off() }
                } else {
                    off()
                },
                epoch: 0,
                owned_route: None,
                service_port: None,
            }),
    {
        let mut status = RemoteStatus::disabled();
        if enabled {
            status.enabled = true;
            status.state = RemoteState::Starting;
        }
        RemoteCore { status, epoch: 0, owned_route: None, service_port: None }
    }

    /// What is shown of remote control.
    pub fn status(&self) -> (status: RemoteStatus)
        ensures
            status@ == self@.status,
    {
        self.status.clone()
    }

    /// Changes what is shown, if the change is meant for the current epoch.
    pub fn apply_if_current(&mut self, epoch: u64, patch: StatusPatch) -> (told: Option<
        RemoteStatus,
    >)
        ensures
            final(self)@ == old(self)@.applied(epoch, patch@),
            tells(told, old(self)@.status, final(self)@.status),
    {
        if self.epoch != epoch {
            return None;
        }
        let before = self.status.clone();
        self.status.patch(patch);
        if before.shows_same(&self.status) {
            None
        } else {
            Some(self.status.clone())
        }
    }

    /// Changes what is shown.
    pub fn apply(&mut self, patch: StatusPatch) -> (told: Option<RemoteStatus>)
        ensures
            final(self)@ == old(self)@.applied(old(self)@.epoch, patch@),
            tells(told, old(self)@.status, final(self)@.status),
    {
        let epoch = self.epoch;
        self.apply_if_current(epoch, patch)
    }

    /// Shows remote control as off and makes every change that is under way stale.
    pub fn apply_disabled(&mut self) -> (told: Option<RemoteStatus>)
        requires
            old(self).epoch < u64::MAX,
        ensures
            final(self)@ == old(self)@.turned_off(),
            tells(told, old(self)@.status, final(self)@.status),
    {
        self.epoch = self.epoch + 1;
        let before = self.status.clone();
        self.status = RemoteStatus::disabled();
        if before.shows_same(&self.status) {
            None
        } else {
            Some(self.status.clone())
        }
    }

    /// Shows whether League runs and whether its client is connected, while remote control is on.
    pub fn patch_league(&mut self, league_running: bool, lcu_connected: bool) -> (told: Option<
        RemoteStatus,
    >)
        ensures
            final(self)@ == old(self)@.applied(
                old(self)@.epoch,
                PatchModel::League { running: league_running, connected: lcu_connected },
            ),
            tells(told, old(self)@.status, final(self)@.status),
    {
        self.apply(StatusPatch::League { running: league_running, connected: lcu_connected })
    }
}

/// Changes that were under way when remote control was turned off never show.
pub proof fn stale_changes_never_show(core: CoreModel, patch: PatchModel)
    requires
        core.epoch < u64::MAX,
    ensures
        core.turned_off().applied(core.epoch, patch) == core.turned_off(),
{
}

/// What remote control has found out on the way to its address.
pub struct Finding {
    pub epoch: u64,
    pub dns_name: String,
    pub address: String,
    pub port: u16,
}

/// What remote control has found out, as a mathematical value.
pub struct FindingModel {
    pub epoch: u64,
    pub dns_name: Seq<char>,
    pub address: Seq<char>,
    pub port: u16,
}

impl View for Finding {
    type V = FindingModel;

    open spec fn view(&self) -> FindingModel {
        FindingModel {
            epoch: self.epoch,
            dns_name: self.dns_name@,
            address: self.address@,
            port: self.port,
        }
    }
}

/// How far a run has come.
pub enum RemoteRun {
    /// The record of the own route is to be read.
    ReadOwnClaim,
    /// The command of Tailscale is to be found, to remove the own route.
    FindOwnCli(OwnedRoute),
    /// The own route is to be looked at.
    CheckOwnRoute(OwnedRoute),
    /// The own route is to be removed.
    RemoveRoute,
    /// The record of the own route is to be removed.
    RemoveClaim,
    StopService,
    /// The command of Tailscale is to be found, to see how Tailscale is.
    ProbeCli,
    ProbeStatus,
    /// The remote service is to be started; a run that is `stubborn` goes on without it.
    StartService { stubborn: bool },
    FindCli { epoch: u64 },
    Status { epoch: u64 },
    ReadClaim(Finding),
    Route(Finding, Option<OwnedRoute>),
    SaveClaim(Finding),
    Serve(Finding),
    Done,
}

/// How far a run has come, as a mathematical value.
pub enum RunModel {
    ReadOwnClaim,
    FindOwnCli(OwnedModel),
    CheckOwnRoute(OwnedModel),
    RemoveRoute,
    RemoveClaim,
    StopService,
    ProbeCli,
    ProbeStatus,
    StartService { stubborn: bool },
    FindCli { epoch: u64 },
    Status { epoch: u64 },
    ReadClaim(FindingModel),
    Route(FindingModel, Option<OwnedModel>),
    SaveClaim(FindingModel),
    Serve(FindingModel),
    Done,
}

impl View for RemoteRun {
    type V = RunModel;

    open spec fn view(&self) -> RunModel {
        match *self {
            RemoteRun::ReadOwnClaim => RunModel::ReadOwnClaim,
            RemoteRun::FindOwnCli(own) => RunModel::FindOwnCli(own@),
            RemoteRun::CheckOwnRoute(own) => RunModel::CheckOwnRoute(own@),
            RemoteRun::RemoveRoute => RunModel::RemoveRoute,
            RemoteRun::RemoveClaim => RunModel::RemoveClaim,
            RemoteRun::StopService => RunModel::StopService,
            RemoteRun::ProbeCli => RunModel::ProbeCli,
            RemoteRun::ProbeStatus => RunModel::ProbeStatus,
            RemoteRun::StartService { stubborn } => RunModel::StartService { stubborn },
            RemoteRun::FindCli { epoch } => RunModel::FindCli { epoch },
            RemoteRun::Status { epoch } => RunModel::Status { epoch },
            RemoteRun::ReadClaim(finding) => RunModel::ReadClaim(finding@),
            RemoteRun::Route(finding, recorded) => RunModel::Route(finding@, owned_view(recorded)),
            RemoteRun::SaveClaim(finding) => RunModel::SaveClaim(finding@),
            RemoteRun::Serve(finding) => RunModel::Serve(finding@),
            RemoteRun::Done => RunModel::Done,
        }
    }
}

/// What came of an action.
pub enum RemoteEvent {
    /// The record of the own route.
    Claim(Result<Option<OwnedRoute>, String>),
    /// Whether the command of Tailscale was found.
    Cli(bool),
    Route(Result<RootRoute, String>),
    Status(Result<TailscaleStatus, String>),
    /// Where the remote service listens.
    Service(Result<u16, String>),
    Finished(Result<(), String>),
}

/// What came of an action, as a mathematical value.
pub enum RemoteEventModel {
    Claim(Result<Option<OwnedModel>, Seq<char>>),
    Cli(bool),
    Route(Result<RouteModel, Seq<char>>),
    Status(Result<TailscaleModel, Seq<char>>),
    Service(Result<u16, Seq<char>>),
    Finished(Result<(), Seq<char>>),
}

impl View for RemoteEvent {
    type V = RemoteEventModel;

    open spec fn view(&self) -> RemoteEventModel {
        match *self {
            RemoteEvent::Claim(Ok(claim)) => RemoteEventModel::Claim(Ok(owned_view(claim))),
            RemoteEvent::Claim(Err(reason)) => RemoteEventModel::Claim(Err(reason@)),
            RemoteEvent::Cli(found) => RemoteEventModel::Cli(found),
            RemoteEvent::Route(route) => RemoteEventModel::Route(route_view(route)),
            RemoteEvent::Status(Ok(status)) => RemoteEventModel::Status(Ok(status@)),
            RemoteEvent::Status(Err(reason)) => RemoteEventModel::Status(Err(reason@)),
            RemoteEvent::Service(port) => RemoteEventModel::Service(outcome_view(port)),
            RemoteEvent::Finished(done) => RemoteEventModel::Finished(outcome_view(done)),
        }
    }
}

/// What is said where the root is taken by somebody else.
pub open spec fn taken_text() -> Seq<char> {
    "Tailscale's HTTPS root route is already in use. Swapper will not replace it."@
}

/// Whether Tailscale is connected.
pub open spec fn is_connected(status: TailscaleModel) -> bool {
    same_folded(status.backend_state, "Running"@)
}

/// A run together with what remote control knows.
pub struct Remote {
    pub core: CoreModel,
    pub run: RunModel,
}

impl Remote {
    /// The run at another step.
    pub open spec fn at(self, run: RunModel) -> Remote {
        Remote { run, ..self }
    }

    /// The run after it came to an end with a change for an epoch.
    pub open spec fn ended(self, epoch: u64, patch: PatchModel) -> Remote {
        Remote { core: self.core.applied(epoch, patch), run: RunModel::Done }
    }

    /// The run after the root could not be taken.
    pub open spec fn lost(self, finding: FindingModel, reason: Seq<char>) -> Remote {
        self.ended(
            finding.epoch,
            PatchModel::RouteFailed { host: finding.dns_name, reason },
        )
    }

    /// The run once Tailscale's status is known.
    pub open spec fn status_known(
        self,
        epoch: u64,
        status: Result<TailscaleModel, Seq<char>>,
    ) -> Remote {
        match status {
            Err(reason) => self.ended(epoch, PatchModel::Unreachable(reason)),
            Ok(status) => if !is_connected(status) {
                self.ended(epoch, PatchModel::NotConnected { dns_name: status.dns_name })
            } else {
                match status.dns_name {
                    None => self.ended(epoch, PatchModel::NoName { dns_name: None }),
                    Some(dns_name) => match address_of(dns_name) {
                        None => self.ended(epoch, PatchModel::NoName { dns_name: Some(dns_name) }),
                        Some(address) => match self.core.service_port {
                            None => self.ended(epoch, PatchModel::NoService),
                            Some(port) => self.at(
                                RunModel::ReadClaim(FindingModel { epoch, dns_name, address, port }),
                            ),
                        },
                    },
                }
            },
        }
    }

    /// The run after an event. An event that was not asked for changes nothing.
    pub open spec fn after(self, event: RemoteEventModel) -> Remote {
        match (self.run, event) {
            (RunModel::ReadOwnClaim, RemoteEventModel::Claim(claim)) => {
                let recorded = match claim {
                    Ok(claim) => claim,
                    Err(_) => None,
                };
                match (self.core.owned_route, recorded) {
                    (Some(own), _) => self.at(RunModel::FindOwnCli(own)),
                    (None, Some(own)) => self.at(RunModel::FindOwnCli(own)),
                    (None, None) => self.at(RunModel::StopService),
                }
            },
            (RunModel::FindOwnCli(own), RemoteEventModel::Cli(found)) => if found {
                self.at(RunModel::CheckOwnRoute(own))
            } else {
                self.at(RunModel::StopService)
            },
            (RunModel::CheckOwnRoute(own), RemoteEventModel::Route(route)) => {
                if route == Ok::<RouteModel, Seq<char>>(
                    RouteModel::Proxy(proxy_address(own.port)),
                ) {
                    self.at(RunModel::RemoveRoute)
                } else {
                    self.at(RunModel::StopService)
                }
            },
            (RunModel::RemoveRoute, RemoteEventModel::Finished(done)) => match done {
                Ok(_) => Remote {
                    core: CoreModel { owned_route: None, ..self.core },
                    run: RunModel::RemoveClaim,
                },
                Err(_) => self.at(RunModel::StopService),
            },
            (RunModel::RemoveClaim, RemoteEventModel::Finished(_)) => {
                self.at(RunModel::StopService)
            },
            (RunModel::StopService, RemoteEventModel::Finished(_)) => Remote {
                core: CoreModel { service_port: None, ..self.core },
                run: RunModel::ProbeCli,
            },
            (RunModel::ProbeCli, RemoteEventModel::Cli(found)) => if found {
                self.at(RunModel::ProbeStatus)
            } else {
                self.ended(self.core.epoch, PatchModel::TailscaleAbsent)
            },
            (RunModel::ProbeStatus, RemoteEventModel::Status(status)) => self.ended(
                self.core.epoch,
                match status {
                    Ok(status) => PatchModel::TailscaleSeen {
                        running: is_connected(status),
                        dns_name: status.dns_name,
                    },
                    Err(_) => PatchModel::TailscaleSeen { running: false, dns_name: None },
                },
            ),
            (RunModel::StartService { stubborn }, RemoteEventModel::Service(service)) => {
                match service {
                    Ok(port) => Remote {
                        core: CoreModel { service_port: Some(port), ..self.core },
                        run: RunModel::FindCli { epoch: self.core.epoch },
                    },
                    Err(reason) => {
                        let stopped = Remote {
                            core: CoreModel { service_port: None, ..self.core },
                            ..self
                        };
                        if stubborn {
                            stopped.at(RunModel::FindCli { epoch: self.core.epoch })
                        } else {
                            stopped.ended(self.core.epoch, PatchModel::Failed(reason))
                        }
                    },
                }
            },
            (RunModel::FindCli { epoch }, RemoteEventModel::Cli(found)) => if found {
                self.at(RunModel::Status { epoch })
            } else {
                self.ended(epoch, PatchModel::NotInstalled)
            },
            (RunModel::Status { epoch }, RemoteEventModel::Status(status)) => {
                self.status_known(epoch, status)
            },
            (RunModel::ReadClaim(finding), RemoteEventModel::Claim(claim)) => match claim {
                Ok(claim) => self.at(RunModel::Route(finding, claim)),
                Err(reason) => self.ended(finding.epoch, PatchModel::ClaimUnreadable(reason)),
            },
            (RunModel::Route(finding, recorded), RemoteEventModel::Route(route)) => match route {
                Ok(route) => if may_take(route, finding.dns_name, recorded) {
                    self.at(RunModel::SaveClaim(finding))
                } else {
                    self.lost(finding, taken_text())
                },
                Err(reason) => self.lost(finding, reason),
            },
            (RunModel::SaveClaim(finding), RemoteEventModel::Finished(done)) => match done {
                Ok(_) => self.at(RunModel::Serve(finding)),
                Err(reason) => self.lost(finding, reason),
            },
            (RunModel::Serve(finding), RemoteEventModel::Finished(done)) => match done {
                Ok(_) => {
                    let own = OwnedModel { dns_name: finding.dns_name, port: finding.port };
                    Remote {
                        core: CoreModel { owned_route: Some(own), ..self.core },
                        ..self
                    }.ended(
                        finding.epoch,
                        PatchModel::Published {
                            host: finding.dns_name,
                            address: finding.address,
                        },
                    )
                },
                Err(reason) => self.lost(finding, reason),
            },
            _ => self,
        }
    }
}

/// What the caller is to do next.
#[derive(Debug, PartialEq, Eq)]
pub enum RemoteAction<'a> {
    /// Read the record of the own route.
    ReadClaim,
    /// Find the command of Tailscale.
    FindCli,
    /// Ask Tailscale what stands at the root of a machine.
    AskRoute { dns_name: &'a str },
    /// Have Tailscale remove what stands at the root.
    RemoveRoute,
    /// Remove the record of the own route.
    RemoveClaim,
    StopService,
    /// Ask Tailscale how it is.
    AskStatus,
    /// Start the remote service, unless it runs.
    StartService,
    /// Record the own route.
    SaveClaim { dns_name: &'a str, port: u16 },
    /// Have Tailscale proxy the root to a port.
    Serve { port: u16 },
    Finish,
}

/// Begins to turn remote control on or off. The second result is what others are told at once.
pub fn set_enabled(core: &mut RemoteCore, enabled: bool) -> (begun: (
    RemoteRun,
    Option<RemoteStatus>,
))
    requires
        !enabled ==> old(core).epoch < u64::MAX,
    ensures
        final(core)@ == (if enabled {
            old(core)@.applied(old(core)@.epoch, PatchModel::Starting)
        } else {
            old(core)@.turned_off()
        }),
        begun.0@ == (if enabled {
            RunModel::StartService { stubborn: false }
        } else {
            RunModel::ReadOwnClaim
        }),
        tells(begun.1, old(core)@.status, final(core)@.status),
{
    if enabled {
        let told = core.apply(StatusPatch::Starting);
        (RemoteRun::StartService { stubborn: false }, told)
    } else {
        let told = core.apply_disabled();
        (RemoteRun::ReadOwnClaim, told)
    }
}

/// Begins to see how remote control is, and to mend it if it is on.
pub fn probe(core: &RemoteCore) -> (run: RemoteRun)
    ensures
        run@ == (if core@.status.enabled {
            RunModel::StartService { stubborn: false }
        } else {
            RunModel::ProbeCli
        }),
{
    if core.status.enabled {
        RemoteRun::StartService { stubborn: false }
    } else {
        RemoteRun::ProbeCli
    }
}

/// Whether remote control needs mending: it is on, and its service crashed or it is in a state
/// that may have passed.
pub open spec fn is_unhealthy(status: StatusModel, crashed: bool) -> bool {
    status.enabled && (crashed || status.state == RemoteState::NotInstalled || status.state
        == RemoteState::Disconnected || status.state == RemoteState::Failed)
}

/// Begins to mend remote control, if it needs it. `crashed` says whether its service ended by
/// itself.
pub fn maintain(core: &RemoteCore, crashed: bool) -> (run: Option<RemoteRun>)
    ensures
        match run {
            Some(run) => is_unhealthy(core@.status, crashed) && run@ == (RunModel::StartService {
                stubborn: true,
            }),
            None => !is_unhealthy(core@.status, crashed),
        },
{
    let unhealthy = crashed || matches!(
        core.status.state,
        RemoteState::NotInstalled | RemoteState::Disconnected | RemoteState::Failed
    );
    if core.status.enabled && unhealthy {
        Some(RemoteRun::StartService { stubborn: true })
    } else {
        None
    }
}

impl RemoteRun {
    /// What the caller is to do next.
    pub fn action(&self) -> (action: RemoteAction<'_>)
        ensures
            match self@ {
                RunModel::ReadOwnClaim => action is ReadClaim,
                RunModel::FindOwnCli(_) => action is FindCli,
                RunModel::CheckOwnRoute(own) => action matches RemoteAction::AskRoute { dns_name }
                    && dns_name@ == own.dns_name,
                RunModel::RemoveRoute => action is RemoveRoute,
                RunModel::RemoveClaim => action is RemoveClaim,
                RunModel::StopService => action is StopService,
                RunModel::ProbeCli => action is FindCli,
                RunModel::ProbeStatus => action is AskStatus,
                RunModel::StartService { .. } => action is StartService,
                RunModel::FindCli { .. } => action is FindCli,
                RunModel::Status { .. } => action is AskStatus,
                RunModel::ReadClaim(_) => action is ReadClaim,
                RunModel::Route(finding, _) => action matches RemoteAction::AskRoute { dns_name }
                    && dns_name@ == finding.dns_name,
                RunModel::SaveClaim(finding) => action matches RemoteAction::SaveClaim {
                    dns_name,
                    port,
                } && dns_name@ == finding.dns_name && port == finding.port,
                RunModel::Serve(finding) => action matches RemoteAction::Serve { port } && port
                    == finding.port,
                RunModel::Done => action is Finish,
            },
    {
        match self {
            RemoteRun::ReadOwnClaim => RemoteAction::ReadClaim,
            RemoteRun::FindOwnCli(_) => RemoteAction::FindCli,
            RemoteRun::CheckOwnRoute(own) => RemoteAction::AskRoute {
                dns_name: own.dns_name.as_str(),
            },
            RemoteRun::RemoveRoute => RemoteAction::RemoveRoute,
            RemoteRun::RemoveClaim => RemoteAction::RemoveClaim,
            RemoteRun::StopService => RemoteAction::StopService,
            RemoteRun::ProbeCli => RemoteAction::FindCli,
            RemoteRun::ProbeStatus => RemoteAction::AskStatus,
            RemoteRun::StartService { .. } => RemoteAction::StartService,
            RemoteRun::FindCli { .. } => RemoteAction::FindCli,
            RemoteRun::Status { .. } => RemoteAction::AskStatus,
            RemoteRun::ReadClaim(_) => RemoteAction::ReadClaim,
            RemoteRun::Route(finding, _) => RemoteAction::AskRoute {
                dns_name: finding.dns_name.as_str(),
            },
            RemoteRun::SaveClaim(finding) => RemoteAction::SaveClaim {
                dns_name: finding.dns_name.as_str(),
                port: finding.port,
            },
            RemoteRun::Serve(finding) => RemoteAction::Serve { port: finding.port },
            RemoteRun::Done => RemoteAction::Finish,
        }
    }

    fn proceed_off(self, core: &mut RemoteCore, event: RemoteEvent) -> (next: (
        RemoteRun,
        Option<RemoteStatus>,
    ))
        requires
            is_turning_off(self@),
        ensures
            (Remote { core: final(core)@, run: next.0@ }) == (Remote {
                core: old(core)@,
                run: self@,
            }).after(event@),
            tells(next.1, old(core)@.status, final(core)@.status),
    {
        match (self, event) {
            (RemoteRun::ReadOwnClaim, RemoteEvent::Claim(claim)) => {
                let recorded = match claim {
                    Ok(claim) => claim,
                    Err(_) => None,
                };
                let own = match copy_route(&core.owned_route) {
                    Some(own) => Some(own),
                    None => recorded,
                };
                match own {
                    Some(own) => (RemoteRun::FindOwnCli(own), None),
                    None => (RemoteRun::StopService, None),
                }
            },
            (RemoteRun::FindOwnCli(own), RemoteEvent::Cli(found)) => {
                if found {
                    (RemoteRun::CheckOwnRoute(own), None)
                } else {
                    (RemoteRun::StopService, None)
                }
            },
            (RemoteRun::CheckOwnRoute(own), RemoteEvent::Route(route)) => {
                let stands = match &route {
                    Ok(RootRoute::Proxy(target)) => same(
                        target.as_str(),
                        proxy_target(own.port).as_str(),
                    ),
                    _ => false,
                };
                if stands {
                    (RemoteRun::RemoveRoute, None)
                } else {
                    (RemoteRun::StopService, None)
                }
            },
            (RemoteRun::RemoveRoute, RemoteEvent::Finished(done)) => {
                if done.is_ok() {
                    core.owned_route = None;
                    (RemoteRun::RemoveClaim, None)
                } else {
                    (RemoteRun::StopService, None)
                }
            },
            (RemoteRun::RemoveClaim, RemoteEvent::Finished(_)) => (RemoteRun::StopService, None),
            (RemoteRun::StopService, RemoteEvent::Finished(_)) => {
                core.service_port = None;
                (RemoteRun::ProbeCli, None)
            },
            (RemoteRun::ProbeCli, RemoteEvent::Cli(found)) => {
                if found {
                    (RemoteRun::ProbeStatus, None)
                } else {
                    let told = core.apply(StatusPatch::TailscaleAbsent);
                    (RemoteRun::Done, told)
                }
            },
            (RemoteRun::ProbeStatus, RemoteEvent::Status(status)) => {
                let patch = match status {
                    Ok(status) => StatusPatch::TailscaleSeen {
                        running: eq_ignore_ascii_case(status.backend_state.as_str(), "Running"),
                        dns_name: status.dns_name,
                    },
                    Err(_) => StatusPatch::TailscaleSeen { running: false, dns_name: None },
                };
                let told = core.apply(patch);
                (RemoteRun::Done, told)
            },
            (run, _) => (run, None),
        }
    }

    fn lose(core: &mut RemoteCore, finding: Finding, reason: String) -> (next: (
        RemoteRun,
        Option<RemoteStatus>,
    ))
        ensures
            next.0@ == RunModel::Done,
            final(core)@ == old(core)@.applied(
                finding@.epoch,
                PatchModel::RouteFailed { host: finding@.dns_name, reason: reason@ },
            ),
            tells(next.1, old(core)@.status, final(core)@.status),
    {
        let told = core.apply_if_current(
            finding.epoch,
            StatusPatch::RouteFailed { host: finding.dns_name, reason },
        );
        (RemoteRun::Done, told)
    }

    fn reconcile(core: &mut RemoteCore, epoch: u64, status: Result<TailscaleStatus, String>) -> (
        next: (RemoteRun, Option<RemoteStatus>))
        ensures
            (Remote { core: final(core)@, run: next.0@ }) == (Remote {
                core: old(core)@,
                run: RunModel::Status { epoch },
            }).after(RemoteEvent::Status(status)@),
            tells(next.1, old(core)@.status, final(core)@.status),
    {
        let status = match status {
            Err(reason) => {
                let told = core.apply_if_current(epoch, StatusPatch::Unreachable(reason));
                return (RemoteRun::Done, told);
            },
            Ok(status) => status,
        };
        if !eq_ignore_ascii_case(status.backend_state.as_str(), "Running") {
            let told = core.apply_if_current(
                epoch,
                StatusPatch::NotConnected { dns_name: status.dns_name },
            );
            return (RemoteRun::Done, told);
        }
        let dns_name = match status.dns_name {
            None => {
                let told = core.apply_if_current(epoch, StatusPatch::NoName { dns_name: None });
                return (RemoteRun::Done, told);
            },
            Some(dns_name) => dns_name,
        };
        let address = match address_for(dns_name.as_str()) {
            None => {
                let told = core.apply_if_current(
                    epoch,
                    StatusPatch::NoName { dns_name: Some(dns_name) },
                );
                return (RemoteRun::Done, told);
            },
            Some(address) => address,
        };
        match core.service_port {
            None => {
                let told = core.apply_if_current(epoch, StatusPatch::NoService);
                (RemoteRun::Done, told)
            },
            Some(port) => (RemoteRun::ReadClaim(Finding { epoch, dns_name, address, port }), None),
        }
    }

    fn proceed_on(self, core: &mut RemoteCore, event: RemoteEvent) -> (next: (
        RemoteRun,
        Option<RemoteStatus>,
    ))
        requires
            !is_turning_off(self@),
        ensures
            (Remote { core: final(core)@, run: next.0@ }) == (Remote {
                core: old(core)@,
                run: self@,
            }).after(event@),
            tells(next.1, old(core)@.status, final(core)@.status),
    {
        match (self, event) {
            (RemoteRun::StartService { stubborn }, RemoteEvent::Service(service)) => {
                let epoch = core.epoch;
                match service {
                    Ok(port) => {
                        core.service_port = Some(port);
                        (RemoteRun::FindCli { epoch }, None)
                    },
                    Err(reason) => {
                        core.service_port = None;
                        if stubborn {
                            (RemoteRun::FindCli { epoch }, None)
                        } else {
                            let told = core.apply(StatusPatch::Failed(reason));
                            (RemoteRun::Done, told)
                        }
                    },
                }
            },
            (RemoteRun::FindCli { epoch }, RemoteEvent::Cli(found)) => {
                if found {
                    (RemoteRun::Status { epoch }, None)
                } else {
                    let told = core.apply_if_current(epoch, StatusPatch::NotInstalled);
                    (RemoteRun::Done, told)
                }
            },
            (RemoteRun::Status { epoch }, RemoteEvent::Status(status)) => {
                RemoteRun::reconcile(core, epoch, status)
            },
            (RemoteRun::ReadClaim(finding), RemoteEvent::Claim(claim)) => {
                match claim {
                    Ok(claim) => (RemoteRun::Route(finding, claim), None),
                    Err(reason) => {
                        let told = core.apply_if_current(
                            finding.epoch,
                            StatusPatch::ClaimUnreadable(reason),
                        );
                        (RemoteRun::Done, told)
                    },
                }
            },
            (RemoteRun::Route(finding, recorded), RemoteEvent::Route(route)) => {
                match route {
                    Ok(route) => {
                        let own = match &recorded {
                            Some(own) => Some(own),
                            None => None,
                        };
                        if route_is_available(&route, finding.dns_name.as_str(), own) {
                            (RemoteRun::SaveClaim(finding), None)
                        } else {
                            RemoteRun::lose(
                                core,
                                finding,
                                "Tailscale's HTTPS root route is already in use. Swapper will not replace it.".to_owned(),
                            )
                        }
                    },
                    Err(reason) => RemoteRun::lose(core, finding, reason),
                }
            },
            (RemoteRun::SaveClaim(finding), RemoteEvent::Finished(done)) => {
                match done {
                    Ok(_) => (RemoteRun::Serve(finding), None),
                    Err(reason) => RemoteRun::lose(core, finding, reason),
                }
            },
            (RemoteRun::Serve(finding), RemoteEvent::Finished(done)) => {
                match done {
                    Ok(_) => {
                        core.owned_route = Some(
                            OwnedRoute { dns_name: finding.dns_name.clone(), port: finding.port },
                        );
                        let told = core.apply_if_current(
                            finding.epoch,
                            StatusPatch::Published {
                                host: finding.dns_name,
                                address: finding.address,
                            },
                        );
                        (RemoteRun::Done, told)
                    },
                    Err(reason) => RemoteRun::lose(core, finding, reason),
                }
            },
            (run, _) => (run, None),
        }
    }

    /// Goes on after an event. The second result is what others are told. An event that was not
    /// asked for changes nothing.
    pub fn proceed(self, core: &mut RemoteCore, event: RemoteEvent) -> (next: (
        RemoteRun,
        Option<RemoteStatus>,
    ))
        ensures
            (Remote { core: final(core)@, run: next.0@ }) == (Remote {
                core: old(core)@,
                run: self@,
            }).after(event@),
            tells(next.1, old(core)@.status, final(core)@.status),
    {
        if matches!(
            self,
            RemoteRun::ReadOwnClaim | RemoteRun::FindOwnCli(_) | RemoteRun::CheckOwnRoute(_)
                | RemoteRun::RemoveRoute | RemoteRun::RemoveClaim | RemoteRun::StopService
                | RemoteRun::ProbeCli | RemoteRun::ProbeStatus
        ) {
            self.proceed_off(core, event)
        } else {
            self.proceed_on(core, event)
        }
    }
}

/// The steps of turning remote control off.
pub open spec fn is_turning_off(run: RunModel) -> bool {
    match run {
        RunModel::ReadOwnClaim => true,
        RunModel::FindOwnCli(_) => true,
        RunModel::CheckOwnRoute(_) => true,
        RunModel::RemoveRoute => true,
        RunModel::RemoveClaim => true,
        RunModel::StopService => true,
        RunModel::ProbeCli => true,
        RunModel::ProbeStatus => true,
        _ => false,
    }
}

/// The epoch that a run on the way to an address is meant for.
pub open spec fn epoch_of(run: RunModel) -> Option<u64> {
    match run {
        RunModel::FindCli { epoch } => Some(epoch),
        RunModel::Status { epoch } => Some(epoch),
        RunModel::ReadClaim(finding) => Some(finding.epoch),
        RunModel::Route(finding, _) => Some(finding.epoch),
        RunModel::SaveClaim(finding) => Some(finding.epoch),
        RunModel::Serve(finding) => Some(finding.epoch),
        _ => None,
    }
}

/// A run on the way to an address that was overtaken by turning remote control off never changes
/// what is shown, and it stays meant for its own epoch.
pub proof fn overtaken_run_never_shows(remote: Remote, event: RemoteEventModel)
    requires
        epoch_of(remote.run) matches Some(epoch) && epoch != remote.core.epoch,
    ensures
        remote.after(event).core.status == remote.core.status,
        remote.after(event).core.epoch == remote.core.epoch,
        remote.after(event).run == RunModel::Done || epoch_of(remote.after(event).run) == epoch_of(
            remote.run,
        ),
{
}

/// The root is taken only where it was vacant or held the route that Swapper recorded for this
/// machine, and the new route is recorded before it is set up.
pub proof fn only_a_vacant_or_own_root_is_taken(remote: Remote, event: RemoteEventModel)
    ensures
        remote.run !is SaveClaim ==> (remote.after(event).run matches RunModel::SaveClaim(finding)
            ==> match (remote.run, event) {
            (RunModel::Route(asked, recorded), RemoteEventModel::Route(Ok(route))) => asked
                == finding && may_take(route, finding.dns_name, recorded),
            _ => false,
        }),
        remote.run !is Serve ==> (remote.after(event).run matches RunModel::Serve(finding)
            ==> remote.run == RunModel::SaveClaim(finding) && (event matches RemoteEventModel::Finished(
            Ok(_),
        ))),
{
}

/// What stands at the root is removed only if it is the very route that Swapper set up or
/// recorded.
pub proof fn only_the_own_route_is_removed(remote: Remote, event: RemoteEventModel)
    requires
        remote.after(event).run == RunModel::RemoveRoute,
        remote.run != RunModel::RemoveRoute,
    ensures
        match (remote.run, event) {
            (RunModel::CheckOwnRoute(own), RemoteEventModel::Route(Ok(RouteModel::Proxy(target)))) => {
                target == proxy_address(own.port)
            },
            _ => false,
        },
{
}

/// Remote control is shown as available only once Tailscale serves it, with its address.
pub proof fn available_means_served(remote: Remote, event: RemoteEventModel)
    requires
        remote.core.status.state != RemoteState::Available,
        remote.after(event).core.status.state == RemoteState::Available,
    ensures
        remote.run matches RunModel::Serve(finding) && remote.after(event).core.status.address
            == Some(finding.address),
        event matches RemoteEventModel::Finished(Ok(_)),
{
}

/// Whether a change says that remote control does not work.
pub open spec fn is_problem(patch: PatchModel) -> bool {
    match patch {
        PatchModel::Failed(_) => true,
        PatchModel::NotInstalled => true,
        PatchModel::Unreachable(_) => true,
        PatchModel::NotConnected { .. } => true,
        PatchModel::NoName { .. } => true,
        PatchModel::NoService => true,
        PatchModel::ClaimUnreadable(_) => true,
        PatchModel::RouteFailed { .. } => true,
        _ => false,
    }
}

/// A problem is shown with a message and, while remote control is on, is mended later; what works,
/// is about to, or is off is left alone unless the service ended by itself.
pub proof fn problems_are_shown_and_mended(status: StatusModel, patch: PatchModel, crashed: bool)
    ensures
        ({
            let next = patched(status, patch);
            &&& is_problem(patch) ==> {
                &&& next.message is Some
                &&& next.state != RemoteState::Available
                &&& next.state != RemoteState::Starting
                &&& next.state != RemoteState::Disabled
                &&& next.enabled == status.enabled
                &&& is_unhealthy(next, crashed) == status.enabled
            }
            &&& patch is Published || patch is Starting ==> {
                &&& next.message is None
                &&& is_unhealthy(next, crashed) == (next.enabled && crashed)
            }
            &&& !is_problem(patch) && !(patch is Published || patch is Starting) ==> next.state
                == status.state && next.message == status.message && next.address
                == status.address && next.enabled == status.enabled
            &&& patch is Starting ==> next.enabled && next.state == RemoteState::Starting
            &&& next.enabled == (status.enabled || patch is Starting)
        }),
        !status.enabled ==> !is_unhealthy(status, crashed),
{
}

/// What a change shows of its reason, of Tailscale and of League is what it says; all else stays.
pub proof fn change_shows_what_it_says(status: StatusModel, patch: PatchModel)
    ensures
        ({
            let next = patched(status, patch);
            &&& match patch {
                PatchModel::Failed(reason) => next.message == Some(reason) && next.state
                    == RemoteState::Failed,
                PatchModel::Unreachable(reason) => next.message == Some(reason) && next.state
                    == RemoteState::Disconnected && !next.tailscale_running
                    && next.tailscale_installed,
                PatchModel::NotConnected { dns_name } => next.state == RemoteState::Disconnected
                    && !next.tailscale_running && next.tailscale_installed && next.dns_name
                    == dns_name,
                PatchModel::NotInstalled => next.state == RemoteState::NotInstalled
                    && !next.tailscale_installed && !next.tailscale_running,
                PatchModel::NoName { dns_name } => next.tailscale_running && next.dns_name
                    == dns_name && next.state == RemoteState::Failed,
                PatchModel::ClaimUnreadable(reason) => next.message == Some(reason) && next.state
                    == RemoteState::Failed,
                PatchModel::RouteFailed { host, reason } => next.message == Some(reason)
                    && next.dns_name == Some(host) && next.tailscale_running && next.state
                    == RemoteState::Failed,
                PatchModel::Published { host, address } => next.state == RemoteState::Available
                    && next.address == Some(address) && next.dns_name == Some(host)
                    && next.tailscale_installed && next.tailscale_running,
                PatchModel::TailscaleAbsent => !next.tailscale_installed && !next.tailscale_running
                    && next.dns_name is None,
                PatchModel::TailscaleSeen { running, dns_name } => next.tailscale_installed
                    && next.tailscale_running == running && next.dns_name == dns_name,
                PatchModel::League { running, connected } => if status.enabled {
                    next.league_running == running && next.lcu_connected == connected
                } else {
                    next == status
                },
                _ => true,
            }
            &&& patch !is League ==> next.league_running == status.league_running
                && next.lcu_connected == status.lcu_connected
            &&& is_problem(patch) && patch !is Failed && patch !is NoService ==> next.address is None
            &&& patch is Failed || patch is NoService || patch is Starting || patch is League
                ==> next.address == status.address && next.dns_name == status.dns_name
                && next.tailscale_installed == status.tailscale_installed
                && next.tailscale_running == status.tailscale_running
        }),
{
}

/// Once remote control is off nothing of it is shown, and nothing that is still on its way shows
/// any more.
pub proof fn off_shows_nothing(core: CoreModel, patch: PatchModel)
    requires
        core.epoch < u64::MAX,
    ensures
        ({
            let status = core.turned_off().status;
            &&& !status.enabled
            &&& status.state == RemoteState::Disabled
            &&& status.address is None && status.message is None && status.dns_name is None
            &&& !status.league_running && !status.lcu_connected
            &&& core.turned_off().applied(core.epoch, patch).status == status
        }),
        core.turned_off().owned_route == core.owned_route,
        core.turned_off().service_port == core.service_port,
{
}

/// What Tailscale's status decides for a run on the way to an address: it goes on only where
/// Tailscale runs, has a name with a domain, and the service listens; otherwise it ends with the
/// problem.
pub proof fn status_decides_the_way(remote: Remote, status: Result<TailscaleModel, Seq<char>>)
    requires
        remote.run matches RunModel::Status { epoch } && epoch == remote.core.epoch,
    ensures
        ({
            let next = remote.after(RemoteEventModel::Status(status));
            &&& next.run is ReadClaim || next.run is Done
            &&& next.run is ReadClaim <==> (status matches Ok(tailscale) && same_folded(
                tailscale.backend_state,
                "Running"@,
            ) && (tailscale.dns_name matches Some(name) && address_of(name) is Some)
                && remote.core.service_port is Some)
            &&& next.run matches RunModel::ReadClaim(finding) ==> {
                &&& status matches Ok(tailscale) && tailscale.dns_name == Some(finding.dns_name)
                &&& address_of(finding.dns_name) == Some(finding.address)
                &&& remote.core.service_port == Some(finding.port)
                &&& next.core == remote.core
            }
            &&& next.run is Done ==> next.core.status.message is Some && match status {
                Err(reason) => next.core.status.message == Some(reason) && next.core.status.state
                    == RemoteState::Disconnected,
                Ok(tailscale) => (next.core.status.state == RemoteState::Disconnected
                    <==> !same_folded(tailscale.backend_state, "Running"@)) && (
                next.core.status.state == RemoteState::Failed || next.core.status.state
                    == RemoteState::Disconnected),
            }
        }),
{
}

/// A service that does not start ends the run with its reason when remote control is turned on;
/// where it is being mended, the run goes on to look at Tailscale. Either way no service listens.
pub proof fn service_that_does_not_start_is_told(remote: Remote, stubborn: bool, reason: Seq<char>)
    requires
        remote.run == (RunModel::StartService { stubborn }),
    ensures
        ({
            let next = remote.after(RemoteEventModel::Service(Err(reason)));
            &&& next.core.service_port is None
            &&& stubborn ==> next.run == (RunModel::FindCli { epoch: remote.core.epoch })
                && next.core.status == remote.core.status
            &&& !stubborn ==> next.run == RunModel::Done && next.core.status.message == Some(reason)
                && next.core.status.state == RemoteState::Failed
        }),
{
}

/// A Tailscale that is not there is shown as such, and one that is there is asked for its status.
pub proof fn missing_tailscale_is_shown(remote: Remote, found: bool)
    requires
        remote.run == (RunModel::FindCli { epoch: remote.core.epoch }),
    ensures
        ({
            let next = remote.after(RemoteEventModel::Cli(found));
            &&& found ==> next.run == (RunModel::Status { epoch: remote.core.epoch }) && next.core
                == remote.core
            &&& !found ==> next.run == RunModel::Done && next.core.status.state
                == RemoteState::NotInstalled && !next.core.status.tailscale_installed
        }),
{
}

/// Others are told of a change exactly where something else is shown than before, and then of what
/// is shown now.
pub proof fn only_changes_are_told(
    told: Option<RemoteStatus>,
    before: StatusModel,
    after: StatusModel,
)
    requires
        tells(told, before, after),
    ensures
        told is Some <==> before != after,
        told matches Some(status) ==> status@ == after,
{
}

} // verus!
