//! Switching to a saved account, starting to add one, and saving the one that is signed in.
//!
//! A [`RiotTask`] holds the settings while it runs and decides what to do next; the caller does
//! it and reports what came of it. Sessions that were read or captured stay with the caller and
//! are spoken of by their [`Slot`].

use vstd::prelude::*;

use super::settings::lemma_same_places;
use super::{
    conflicting_riot_id, ensure_no_game, game_check, has_conflict, identity_in, identity_of,
    detected, may_refresh, refusal, switch_failure, verified_live_identity, FailureModel, Launcher,
    ProcessStateError, SwitchFailure, SwitchFailureKind,
};
use crate::codec::{is_random_uuid, new_uuid};
use crate::identity::{
    applied, apply_identity, icon_after, icon_change, known_from, lemma_known_from,
    position_known_as, DetectedIdentity, Detection, DetectionModel, IconChange, IconChangeModel,
    IdentityModel,
};
use crate::text::{copy_of, trim, trimmed};
use crate::vault::files::outcome_view;
use crate::vault::{Account, AccountModel, Config, ConfigModel};
use crate::windows::process::{table_view, ProcessModel, SnapshotError, Table};

verus! {

/// What a task is for.
#[derive(Clone, Copy, Debug, PartialEq, Eq)]
pub enum Flow {
    /// Switch to the account with this id.
    Switch(u128),
    /// Make room for a new sign-in.
    BeginAdd,
    /// Save the account that is signed in; a new account gets this id.
    CompleteAdd(u128),
}

/// The sessions that the caller keeps for a task.
#[derive(Clone, Copy, Debug, PartialEq, Eq)]
pub enum Slot {
    /// A saved session that was read.
    Target,
    /// The live session before the switch.
    Previous,
    /// The live session that is to be saved.
    Fresh,
}

/// How far a task has come.
pub enum Step {
    /// No game may run.
    CheckGames,
    /// The current sign-in must have been saved.
    CheckUnsaved,
    /// The target's session must be readable.
    ReadTarget { vault: u128 },
    /// The launcher must be there.
    FindLauncher,
    /// The live login must not be another account's.
    Verify,
    StopClients,
    /// The live session is to be kept for the way back.
    LookForPrevious,
    CapturePrevious,
    /// The active account's session is to be refreshed, if there is a live one.
    LookForRefresh,
    CaptureFresh,
    SaveFresh,
    /// The active account vanished; its new session is to go again.
    DropOrphan { vault: u128 },
    /// The cached image of the account number `at` is to be updated.
    Icon { at: usize, before: Account, old_active: Option<u128> },
    /// The settings are to be saved with the refreshed account number `at`.
    SaveAccount { at: usize, before: Account, old_active: Option<u128> },
    /// The settings could not be saved; the new session is to go again.
    DropUnsaved { vault: u128, error: String },
    /// The session that was replaced is to go.
    DropReplaced { vault: u128 },
    /// The target is the active account, whose session was just refreshed.
    RereadTarget { vault: u128 },
    RestoreTarget,
    SaveSwitched { old_active: Option<u128> },
    LaunchSelected { old_active: Option<u128> },
    /// The live session is to be put back as it was; with `back_to` the active account too.
    UndoLive { failure: SwitchFailure, back_to: Option<Option<u128>> },
    SaveUndone { failure: SwitchFailure },
    ClearLive,
    SaveCleared { old_active: Option<u128> },
    /// The active account's saved session is to be put back.
    ReadUndo { vault: u128, error: String },
    RestoreUndo { error: String },
    LaunchRiot,
    SaveAdded { old_active: Option<u128> },
    /// The cached image of the new account is to be saved.
    AddedIcon,
    Done(Result<(), SwitchFailure>),
}

/// How far a task has come, as a mathematical value.
pub enum StepModel {
    CheckGames,
    CheckUnsaved,
    ReadTarget { vault: u128 },
    FindLauncher,
    Verify,
    StopClients,
    LookForPrevious,
    CapturePrevious,
    LookForRefresh,
    CaptureFresh,
    SaveFresh,
    DropOrphan { vault: u128 },
    Icon { at: int, before: AccountModel, old_active: Option<u128> },
    SaveAccount { at: int, before: AccountModel, old_active: Option<u128> },
    DropUnsaved { vault: u128, error: Seq<char> },
    DropReplaced { vault: u128 },
    RereadTarget { vault: u128 },
    RestoreTarget,
    SaveSwitched { old_active: Option<u128> },
    LaunchSelected { old_active: Option<u128> },
    UndoLive { failure: FailureModel, back_to: Option<Option<u128>> },
    SaveUndone { failure: FailureModel },
    ClearLive,
    SaveCleared { old_active: Option<u128> },
    ReadUndo { vault: u128, error: Seq<char> },
    RestoreUndo { error: Seq<char> },
    LaunchRiot,
    SaveAdded { old_active: Option<u128> },
    AddedIcon,
    Done(Result<(), FailureModel>),
}

impl View for Step {
    type V = StepModel;

    open spec fn view(&self) -> StepModel {
        match *self {
            Step::CheckGames => StepModel::CheckGames,
            Step::CheckUnsaved => StepModel::CheckUnsaved,
            Step::ReadTarget { vault } => StepModel::ReadTarget { vault },
            Step::FindLauncher => StepModel::FindLauncher,
            Step::Verify => StepModel::Verify,
            Step::StopClients => StepModel::StopClients,
            Step::LookForPrevious => StepModel::LookForPrevious,
            Step::CapturePrevious => StepModel::CapturePrevious,
            Step::LookForRefresh => StepModel::LookForRefresh,
            Step::CaptureFresh => StepModel::CaptureFresh,
            Step::SaveFresh => StepModel::SaveFresh,
            Step::DropOrphan { vault } => StepModel::DropOrphan { vault },
            Step::Icon { at, before, old_active } => StepModel::Icon {
                at: at as int,
                before: before@,
                old_active,
            },
            Step::SaveAccount { at, before, old_active } => StepModel::SaveAccount {
                at: at as int,
                before: before@,
                old_active,
            },
            Step::DropUnsaved { vault, error } => StepModel::DropUnsaved { vault, error: error@ },
            Step::DropReplaced { vault } => StepModel::DropReplaced { vault },
            Step::RereadTarget { vault } => StepModel::RereadTarget { vault },
            Step::RestoreTarget => StepModel::RestoreTarget,
            Step::SaveSwitched { old_active } => StepModel::SaveSwitched { old_active },
            Step::LaunchSelected { old_active } => StepModel::LaunchSelected { old_active },
            Step::UndoLive { failure, back_to } => StepModel::UndoLive {
                failure: failure@,
                back_to,
            },
            Step::SaveUndone { failure } => StepModel::SaveUndone { failure: failure@ },
            Step::ClearLive => StepModel::ClearLive,
            Step::SaveCleared { old_active } => StepModel::SaveCleared { old_active },
            Step::ReadUndo { vault, error } => StepModel::ReadUndo { vault, error: error@ },
            Step::RestoreUndo { error } => StepModel::RestoreUndo { error: error@ },
            Step::LaunchRiot => StepModel::LaunchRiot,
            Step::SaveAdded { old_active } => StepModel::SaveAdded { old_active },
            Step::AddedIcon => StepModel::AddedIcon,
            Step::Done(Ok(())) => StepModel::Done(Ok(())),
            Step::Done(Err(failure)) => StepModel::Done(Err(failure@)),
        }
    }
}

/// What the caller is to do next.
#[derive(Debug)]
pub enum TaskAction<'a> {
    /// Read the process table.
    Inspect,
    /// See whether there is a live session.
    LookForLiveSession,
    /// Read the saved session `vault`.
    ReadSession { vault: u128, slot: Slot },
    /// See whether the launcher is there.
    FindLauncher(Launcher),
    StopClients,
    /// Capture the live session.
    Capture(Slot),
    /// Save the captured session under a new id.
    SaveSession(Slot),
    RemoveSession(u128),
    /// Put a session in place of the live one.
    Restore(Slot),
    ClearLive,
    /// Save the task's settings.
    SaveConfig,
    /// Update the cached image of an account.
    UpdateIcon { account: u128, change: IconChange<'a> },
    Launch(Launcher),
    /// The task is over.
    Finish(Result<(), &'a SwitchFailure>),
}

/// What the caller is to do next, as a mathematical value.
pub enum TaskActionModel {
    Inspect,
    LookForLiveSession,
    ReadSession { vault: u128, slot: Slot },
    FindLauncher(Launcher),
    StopClients,
    Capture(Slot),
    SaveSession(Slot),
    RemoveSession(u128),
    Restore(Slot),
    ClearLive,
    SaveConfig,
    UpdateIcon { account: u128, change: IconChangeModel },
    Launch(Launcher),
    Finish(Result<(), FailureModel>),
}

impl<'a> View for TaskAction<'a> {
    type V = TaskActionModel;

    open spec fn view(&self) -> TaskActionModel {
        match *self {
            TaskAction::Inspect => TaskActionModel::Inspect,
            TaskAction::LookForLiveSession => TaskActionModel::LookForLiveSession,
            TaskAction::ReadSession { vault, slot } => TaskActionModel::ReadSession { vault, slot },
            TaskAction::FindLauncher(launcher) => TaskActionModel::FindLauncher(launcher),
            TaskAction::StopClients => TaskActionModel::StopClients,
            TaskAction::Capture(slot) => TaskActionModel::Capture(slot),
            TaskAction::SaveSession(slot) => TaskActionModel::SaveSession(slot),
            TaskAction::RemoveSession(vault) => TaskActionModel::RemoveSession(vault),
            TaskAction::Restore(slot) => TaskActionModel::Restore(slot),
            TaskAction::ClearLive => TaskActionModel::ClearLive,
            TaskAction::SaveConfig => TaskActionModel::SaveConfig,
            TaskAction::UpdateIcon { account, change } => TaskActionModel::UpdateIcon {
                account,
                change: change@,
            },
            TaskAction::Launch(launcher) => TaskActionModel::Launch(launcher),
            TaskAction::Finish(Ok(())) => TaskActionModel::Finish(Ok(())),
            TaskAction::Finish(Err(failure)) => TaskActionModel::Finish(Err(failure@)),
        }
    }
}

/// What came of an action.
pub enum TaskEvent {
    Table(Table),
    /// Whether there is a live session.
    Live(Result<bool, String>),
    /// Whether the launcher is there.
    Found(bool),
    Stopped(Result<(), ProcessStateError>),
    /// The id that the session was saved under.
    Saved(Result<u128, String>),
    Finished(Result<(), String>),
}

/// What came of an action, as a mathematical value.
pub enum TaskEventModel {
    Table(Result<Seq<ProcessModel>, SnapshotError>),
    Live(Result<bool, Seq<char>>),
    Found(bool),
    Stopped(Result<(), ProcessStateError>),
    Saved(Result<u128, Seq<char>>),
    Finished(Result<(), Seq<char>>),
}

impl View for TaskEvent {
    type V = TaskEventModel;

    open spec fn view(&self) -> TaskEventModel {
        match *self {
            TaskEvent::Table(table) => TaskEventModel::Table(table_view(table)),
            TaskEvent::Live(live) => TaskEventModel::Live(outcome_view(live)),
            TaskEvent::Found(found) => TaskEventModel::Found(found),
            TaskEvent::Stopped(stopped) => TaskEventModel::Stopped(stopped),
            TaskEvent::Saved(saved) => TaskEventModel::Saved(outcome_view(saved)),
            TaskEvent::Finished(finished) => TaskEventModel::Finished(outcome_view(finished)),
        }
    }
}

/// A task in progress.
pub struct RiotTask<'a> {
    pub config: Config,
    pub flow: Flow,
    /// The live identity, where it was detected.
    pub identity: Option<&'a DetectedIdentity>,
    /// Whether the live login was proven to be the active account's own.
    pub verified: bool,
    /// Whether the live session was kept for the way back.
    pub previous: bool,
    pub step: Step,
}

/// A task in progress, as a mathematical value.
#[verifier::ext_equal]
pub struct TaskModel {
    pub config: ConfigModel,
    pub flow: Flow,
    pub identity: Option<IdentityModel>,
    pub verified: bool,
    pub previous: bool,
    pub step: StepModel,
}

impl<'a> View for RiotTask<'a> {
    type V = TaskModel;

    open spec fn view(&self) -> TaskModel {
        TaskModel {
            config: self.config@,
            flow: self.flow,
            identity: identity_in(self.identity),
            verified: self.verified,
            previous: self.previous,
            step: self.step@,
        }
    }
}

/// What is said where the identity of an account to add cannot be read.
pub open spec fn no_identity_text() -> Seq<char> {
    "Could not read account identity. Make sure Riot Client is signed in."@
}

/// What is said where another saved account shows the Riot ID of an account to add.
pub open spec fn conflict_text() -> Seq<char> {
    "An account with this Riot ID is already saved, but its account identifier differs. Swapper will not create a duplicate or overwrite that saved session automatically."@
}

/// A failure of no particular kind.
pub open spec fn other(detail: Seq<char>) -> FailureModel {
    FailureModel { kind: SwitchFailureKind::Other, detail }
}

/// A task that switches to the account `id`, as it begins.
pub open spec fn switch_begun(config: ConfigModel, id: u128, detection: DetectionModel) -> TaskModel {
    TaskModel {
        config,
        flow: Flow::Switch(id),
        identity: detected(detection),
        verified: false,
        previous: false,
        step: StepModel::CheckGames,
    }
}

/// A task that makes room for a new sign-in, as it begins.
pub open spec fn add_begun(config: ConfigModel, detection: DetectionModel) -> TaskModel {
    TaskModel {
        config,
        flow: Flow::BeginAdd,
        identity: detected(detection),
        verified: false,
        previous: false,
        step: StepModel::CheckGames,
    }
}

/// A task that saves the account that is signed in, as it begins. An account that is saved
/// already is refreshed in place; one whose Riot ID another account shows is refused.
pub open spec fn completion_begun(
    config: ConfigModel,
    identity: IdentityModel,
    new_id: u128,
) -> TaskModel {
    let known = known_from(config.accounts, identity.puuid, 0) < config.accounts.len();
    TaskModel {
        config,
        flow: Flow::CompleteAdd(new_id),
        identity: Some(identity),
        verified: false,
        previous: false,
        step: if trimmed(identity.puuid).len() == 0 {
            StepModel::Done(Err(other(no_identity_text())))
        } else if !known && has_conflict(config, identity) {
            StepModel::Done(Err(other(conflict_text())))
        } else {
            StepModel::StopClients
        },
    }
}

/// A new account for an identity with its saved session.
pub open spec fn account_for(identity: IdentityModel, id: u128, vault_id: u128) -> AccountModel {
    AccountModel {
        id,
        name: identity.riot_id(),
        puuid: Some(identity.puuid),
        game_name: Some(identity.game_name),
        tag_line: Some(identity.tag_line),
        platform: identity.platform,
        region: identity.region,
        profile_icon_id: identity.profile_icon_id,
        nickname: None,
        vault_id,
    }
}

/// The settings with the account number `at` refreshed from an identity and with a new session.
pub open spec fn with_session(
    config: ConfigModel,
    at: int,
    identity: IdentityModel,
    vault_id: u128,
) -> ConfigModel {
    ConfigModel {
        accounts: config.accounts.update(
            at,
            AccountModel { vault_id, ..applied(config.accounts[at], identity) },
        ),
        ..config
    }
}

impl TaskModel {
    /// The task at another step.
    pub open spec fn at(self, step: StepModel) -> TaskModel {
        TaskModel { step, ..self }
    }

    /// The task with another active account.
    pub open spec fn with_active(self, active_id: Option<u128>) -> TaskModel {
        TaskModel { config: ConfigModel { active_id, ..self.config }, ..self }
    }

    /// The task after it failed.
    pub open spec fn failed(self, kind: SwitchFailureKind, detail: Seq<char>) -> TaskModel {
        self.at(StepModel::Done(Err(FailureModel { kind, detail })))
    }

    /// The task after it failed for no particular kind of reason.
    pub open spec fn broken(self, detail: Seq<char>) -> TaskModel {
        self.failed(SwitchFailureKind::Other, detail)
    }

    /// The task once no game runs.
    pub open spec fn allowed(self) -> TaskModel {
        match self.flow {
            Flow::Switch(id) => if self.config.has(id) {
                self.at(StepModel::ReadTarget { vault: self.config.account(id).vault_id })
            } else {
                self.failed(SwitchFailureKind::AccountMissing, "Account no longer exists"@)
            },
            _ => if self.config.active_id is None {
                self.at(StepModel::CheckUnsaved)
            } else {
                self.at(StepModel::FindLauncher)
            },
        }
    }

    /// The launcher that a task needs.
    pub open spec fn launcher(self) -> Launcher {
        match self.flow {
            Flow::Switch(_) => Launcher::selected_by(self.config.use_deceive),
            _ => Launcher::Riot,
        }
    }

    /// The task once the launcher is there.
    pub open spec fn equipped(self) -> TaskModel {
        if self.config.active_id is Some {
            self.at(StepModel::Verify)
        } else {
            self.at(StepModel::StopClients)
        }
    }

    /// The task once the Riot clients have stopped.
    pub open spec fn quiet(self) -> TaskModel {
        match self.flow {
            Flow::Switch(_) => self.at(StepModel::LookForPrevious),
            Flow::BeginAdd => self.refreshing(),
            Flow::CompleteAdd(_) => self.at(StepModel::CaptureFresh),
        }
    }

    /// The task as it turns to the active account's session.
    pub open spec fn refreshing(self) -> TaskModel {
        if self.config.active_id is Some && self.verified {
            self.at(StepModel::LookForRefresh)
        } else {
            self.refreshed()
        }
    }

    /// The task once the active account's session is as fresh as it may be.
    pub open spec fn refreshed(self) -> TaskModel {
        match self.flow {
            Flow::Switch(id) => if self.config.active_id == Some(id) {
                self.at(StepModel::RereadTarget { vault: self.config.account(id).vault_id })
            } else {
                self.at(StepModel::RestoreTarget)
            },
            Flow::BeginAdd => self.at(StepModel::ClearLive),
            Flow::CompleteAdd(_) => self.at(StepModel::Done(Ok(()))),
        }
    }

    /// The task with the account number `at` refreshed and a new session for it.
    pub open spec fn replaced(self, at: int, vault: u128, active: Option<u128>) -> TaskModel {
        let before = self.config.accounts[at];
        let old_active = self.config.active_id;
        let identity = self.identity->Some_0;
        let next = TaskModel {
            config: ConfigModel {
                active_id: active,
                ..with_session(self.config, at, identity, vault)
            },
            ..self
        };
        if icon_after(before, identity) == IconChangeModel::Keep {
            next.at(StepModel::SaveAccount { at, before, old_active })
        } else {
            next.at(StepModel::Icon { at, before, old_active })
        }
    }

    /// The task with a new account.
    pub open spec fn extended(self, id: u128, vault: u128) -> TaskModel {
        let old_active = self.config.active_id;
        TaskModel {
            config: ConfigModel {
                accounts: self.config.accounts.push(
                    account_for(self.identity->Some_0, id, vault),
                ),
                active_id: Some(id),
                ..self.config
            },
            step: StepModel::SaveAdded { old_active },
            ..self
        }
    }

    /// The task once the live session was saved as `vault`.
    pub open spec fn captured(self, vault: u128) -> TaskModel {
        match self.flow {
            Flow::CompleteAdd(new_id) => {
                let at = known_from(self.config.accounts, self.identity->Some_0.puuid, 0);
                if at < self.config.accounts.len() {
                    self.replaced(at, vault, Some(self.config.accounts[at].id))
                } else {
                    self.extended(new_id, vault)
                }
            },
            _ => {
                let active = self.config.active_id->Some_0;
                if self.config.has(active) {
                    self.replaced(self.config.index(active), vault, self.config.active_id)
                } else {
                    self.at(StepModel::DropOrphan { vault })
                }
            },
        }
    }

    /// The settings with the account number `at` as it was.
    pub open spec fn reverted(self, at: int, before: AccountModel, active: Option<u128>) -> TaskModel {
        TaskModel {
            config: ConfigModel {
                accounts: self.config.accounts.update(at, before),
                active_id: active,
                ..self.config
            },
            ..self
        }
    }

    /// The task after an event. An event that was not asked for changes nothing.
    pub open spec fn after(self, event: TaskEventModel) -> TaskModel {
        match (self.step, event) {
            (StepModel::CheckGames, TaskEventModel::Table(table)) => match game_check(table) {
                Ok(_) => self.allowed(),
                Err(error) => self.at(StepModel::Done(Err(refusal(error)))),
            },
            (StepModel::CheckUnsaved, TaskEventModel::Live(live)) => match live {
                Err(error) => self.broken(error),
                Ok(true) => self.broken(
                    "Save the current Riot sign-in first, then start a new account."@,
                ),
                Ok(false) => self.at(StepModel::FindLauncher),
            },
            (StepModel::ReadTarget { .. }, TaskEventModel::Finished(read)) => match read {
                Err(error) => self.failed(SwitchFailureKind::SessionRestore, error),
                Ok(_) => self.at(StepModel::FindLauncher),
            },
            (StepModel::FindLauncher, TaskEventModel::Found(found)) => if found {
                self.equipped()
            } else {
                self.failed(SwitchFailureKind::LauncherMissing, self.launcher().missing())
            },
            (StepModel::Verify, TaskEventModel::Live(live)) => match live {
                Err(error) => self.broken(error),
                Ok(live) => match may_refresh(self.config, self.identity, live) {
                    Err(error) => self.broken(error),
                    Ok(verified) => TaskModel { verified, ..self }.at(StepModel::StopClients),
                },
            },
            (StepModel::StopClients, TaskEventModel::Stopped(stopped)) => match stopped {
                Err(error) => self.at(StepModel::Done(Err(refusal(error)))),
                Ok(_) => self.quiet(),
            },
            (StepModel::LookForPrevious, TaskEventModel::Live(live)) => match live {
                Err(error) => self.broken(error),
                Ok(true) => self.at(StepModel::CapturePrevious),
                Ok(false) => self.refreshing(),
            },
            (StepModel::CapturePrevious, TaskEventModel::Finished(done)) => match done {
                Err(error) => self.broken(error),
                Ok(_) => TaskModel { previous: true, ..self }.refreshing(),
            },
            (StepModel::LookForRefresh, TaskEventModel::Live(live)) => match live {
                Err(error) => self.broken(error),
                Ok(true) => self.at(StepModel::CaptureFresh),
                Ok(false) => self.refreshed(),
            },
            (StepModel::CaptureFresh, TaskEventModel::Finished(done)) => match done {
                Err(error) => self.broken(error),
                Ok(_) => self.at(StepModel::SaveFresh),
            },
            (StepModel::SaveFresh, TaskEventModel::Saved(saved)) => match saved {
                Err(error) => self.broken(error),
                Ok(vault) => self.captured(vault),
            },
            (StepModel::DropOrphan { .. }, TaskEventModel::Finished(done)) => match done {
                Err(error) => self.broken(error),
                Ok(_) => self.broken("Active account is missing from Swapper settings"@),
            },
            (StepModel::Icon { at, before, old_active }, TaskEventModel::Finished(_)) => {
                self.at(StepModel::SaveAccount { at, before, old_active })
            },
            (StepModel::SaveAccount { at, before, old_active }, TaskEventModel::Finished(done)) => {
                match done {
                    Err(error) => self.reverted(at, before, old_active).at(
                        StepModel::DropUnsaved {
                            vault: self.config.accounts[at].vault_id,
                            error,
                        },
                    ),
                    Ok(_) => self.at(StepModel::DropReplaced { vault: before.vault_id }),
                }
            },
            (StepModel::DropUnsaved { error, .. }, TaskEventModel::Finished(done)) => match done {
                Err(worse) => self.broken(worse),
                Ok(_) => self.broken(error),
            },
            (StepModel::DropReplaced { .. }, TaskEventModel::Finished(_)) => self.refreshed(),
            (StepModel::RereadTarget { .. }, TaskEventModel::Finished(read)) => match read {
                Err(error) => self.failed(SwitchFailureKind::SessionRestore, error),
                Ok(_) => self.at(StepModel::RestoreTarget),
            },
            (StepModel::RestoreTarget, TaskEventModel::Finished(done)) => match (done, self.flow) {
                (Err(error), _) => self.at(
                    StepModel::UndoLive {
                        failure: FailureModel {
                            kind: SwitchFailureKind::SessionRestore,
                            detail: "Could not restore account: "@ + error,
                        },
                        back_to: None,
                    },
                ),
                (Ok(_), Flow::Switch(id)) => self.with_active(Some(id)).at(
                    StepModel::SaveSwitched { old_active: self.config.active_id },
                ),
                _ => self,
            },
            (StepModel::SaveSwitched { old_active }, TaskEventModel::Finished(done)) => match done {
                Err(error) => self.with_active(old_active).at(
                    StepModel::UndoLive { failure: other(error), back_to: None },
                ),
                Ok(_) => self.at(StepModel::LaunchSelected { old_active }),
            },
            (StepModel::LaunchSelected { old_active }, TaskEventModel::Finished(done)) => {
                match done {
                    Err(error) => self.at(
                        StepModel::UndoLive {
                            failure: FailureModel { kind: SwitchFailureKind::Launch, detail: error },
                            back_to: Some(old_active),
                        },
                    ),
                    Ok(_) => self.at(StepModel::Done(Ok(()))),
                }
            },
            (StepModel::UndoLive { failure, back_to }, TaskEventModel::Finished(_)) => {
                match back_to {
                    Some(active) => self.with_active(active).at(StepModel::SaveUndone { failure }),
                    None => self.at(StepModel::Done(Err(failure))),
                }
            },
            (StepModel::SaveUndone { failure }, TaskEventModel::Finished(_)) => {
                self.at(StepModel::Done(Err(failure)))
            },
            (StepModel::ClearLive, TaskEventModel::Finished(done)) => match done {
                Err(error) => self.broken(error),
                Ok(_) => self.with_active(None).at(
                    StepModel::SaveCleared { old_active: self.config.active_id },
                ),
            },
            (StepModel::SaveCleared { old_active }, TaskEventModel::Finished(done)) => match done {
                Err(error) => {
                    let back = self.with_active(old_active);
                    match old_active {
                        Some(id) => if back.config.has(id) {
                            back.at(
                                StepModel::ReadUndo {
                                    vault: back.config.account(id).vault_id,
                                    error,
                                },
                            )
                        } else {
                            back.broken(error)
                        },
                        None => back.broken(error),
                    }
                },
                Ok(_) => self.at(StepModel::LaunchRiot),
            },
            (StepModel::ReadUndo { error, .. }, TaskEventModel::Finished(read)) => match read {
                Err(_) => self.broken(error),
                Ok(_) => self.at(StepModel::RestoreUndo { error }),
            },
            (StepModel::RestoreUndo { error }, TaskEventModel::Finished(_)) => self.broken(error),
            (StepModel::LaunchRiot, TaskEventModel::Finished(done)) => match done {
                Err(error) => self.broken(error),
                Ok(_) => self.at(StepModel::Done(Ok(()))),
            },
            (StepModel::SaveAdded { old_active }, TaskEventModel::Finished(done)) => match done {
                Err(error) => TaskModel {
                    config: ConfigModel {
                        accounts: self.config.accounts.drop_last(),
                        active_id: old_active,
                        ..self.config
                    },
                    ..self
                }.at(
                    StepModel::DropUnsaved { vault: self.config.accounts.last().vault_id, error },
                ),
                Ok(_) => if self.identity->Some_0.icon_data_url is Some {
                    self.at(StepModel::AddedIcon)
                } else {
                    self.at(StepModel::Done(Ok(())))
                },
            },
            (StepModel::AddedIcon, TaskEventModel::Finished(_)) => {
                self.at(StepModel::Done(Ok(())))
            },
            _ => self,
        }
    }

    /// What the caller is to do next.
    pub open spec fn action(self) -> TaskActionModel {
        match self.step {
            StepModel::CheckGames => TaskActionModel::Inspect,
            StepModel::CheckUnsaved => TaskActionModel::LookForLiveSession,
            StepModel::ReadTarget { vault } => TaskActionModel::ReadSession {
                vault,
                slot: Slot::Target,
            },
            StepModel::FindLauncher => TaskActionModel::FindLauncher(self.launcher()),
            StepModel::Verify => TaskActionModel::LookForLiveSession,
            StepModel::StopClients => TaskActionModel::StopClients,
            StepModel::LookForPrevious => TaskActionModel::LookForLiveSession,
            StepModel::CapturePrevious => TaskActionModel::Capture(Slot::Previous),
            StepModel::LookForRefresh => TaskActionModel::LookForLiveSession,
            StepModel::CaptureFresh => TaskActionModel::Capture(Slot::Fresh),
            StepModel::SaveFresh => TaskActionModel::SaveSession(Slot::Fresh),
            StepModel::DropOrphan { vault } => TaskActionModel::RemoveSession(vault),
            StepModel::Icon { before, .. } => TaskActionModel::UpdateIcon {
                account: before.id,
                change: icon_after(before, self.identity->Some_0),
            },
            StepModel::SaveAccount { .. } => TaskActionModel::SaveConfig,
            StepModel::DropUnsaved { vault, .. } => TaskActionModel::RemoveSession(vault),
            StepModel::DropReplaced { vault } => TaskActionModel::RemoveSession(vault),
            StepModel::RereadTarget { vault } => TaskActionModel::ReadSession {
                vault,
                slot: Slot::Target,
            },
            StepModel::RestoreTarget => TaskActionModel::Restore(Slot::Target),
            StepModel::SaveSwitched { .. } => TaskActionModel::SaveConfig,
            StepModel::LaunchSelected { .. } => TaskActionModel::Launch(self.launcher()),
            StepModel::UndoLive { .. } => if self.previous {
                TaskActionModel::Restore(Slot::Previous)
            } else {
                TaskActionModel::ClearLive
            },
            StepModel::SaveUndone { .. } => TaskActionModel::SaveConfig,
            StepModel::ClearLive => TaskActionModel::ClearLive,
            StepModel::SaveCleared { .. } => TaskActionModel::SaveConfig,
            StepModel::ReadUndo { vault, .. } => TaskActionModel::ReadSession {
                vault,
                slot: Slot::Target,
            },
            StepModel::RestoreUndo { .. } => TaskActionModel::Restore(Slot::Target),
            StepModel::LaunchRiot => TaskActionModel::Launch(Launcher::Riot),
            StepModel::SaveAdded { .. } => TaskActionModel::SaveConfig,
            StepModel::AddedIcon => TaskActionModel::UpdateIcon {
                account: match self.flow {
                    Flow::CompleteAdd(id) => id,
                    _ => 0,
                },
                change: match self.identity->Some_0.icon_data_url {
                    Some(url) => IconChangeModel::Save(url),
                    None => IconChangeModel::Keep,
                },
            },
            StepModel::Done(result) => TaskActionModel::Finish(result),
        }
    }

    /// Whether the live session may be saved: it is the active account's own, or the account's
    /// that is being added.
    pub open spec fn may_capture(self) -> bool {
        self.flow is CompleteAdd || self.verified && self.config.active_id is Some
    }

    /// What every task keeps.
    pub open spec fn wf(self) -> bool {
        &&& self.verified ==> self.identity is Some
        &&& self.flow is CompleteAdd ==> self.identity is Some
        &&& self.flow matches Flow::Switch(id) ==> (self.step is CheckGames || self.step is Done
            || self.config.has(id))
        &&& match self.step {
            StepModel::CheckGames => !(self.flow is CompleteAdd),
            StepModel::CheckUnsaved => self.flow is BeginAdd,
            StepModel::ReadTarget { .. } => self.flow is Switch,
            StepModel::LookForPrevious => self.flow is Switch,
            StepModel::CapturePrevious => self.flow is Switch,
            StepModel::LookForRefresh => self.verified && self.config.active_id is Some,
            StepModel::CaptureFresh => self.may_capture(),
            StepModel::SaveFresh => self.may_capture(),
            StepModel::Icon { at, before, .. } => {
                &&& 0 <= at < self.config.accounts.len()
                &&& self.identity is Some
                &&& self.config.accounts[at].id == before.id
            },
            StepModel::SaveAccount { at, before, .. } => {
                &&& 0 <= at < self.config.accounts.len()
                &&& self.config.accounts[at].id == before.id
            },
            StepModel::RereadTarget { .. } => self.flow is Switch,
            StepModel::RestoreTarget => self.flow is Switch,
            StepModel::SaveSwitched { .. } => self.flow is Switch,
            StepModel::LaunchSelected { .. } => self.flow is Switch,
            StepModel::UndoLive { .. } => self.flow is Switch,
            StepModel::SaveUndone { .. } => self.flow is Switch,
            StepModel::ClearLive => self.flow is BeginAdd,
            StepModel::SaveCleared { .. } => self.flow is BeginAdd,
            StepModel::SaveAdded { .. } => self.flow is CompleteAdd && self.config.accounts.len()
                > 0,
            StepModel::AddedIcon => self.flow is CompleteAdd,
            _ => true,
        }
    }
}

/// The steps in which nothing has been touched yet.
pub open spec fn is_check(step: StepModel) -> bool {
    match step {
        StepModel::CheckGames => true,
        StepModel::CheckUnsaved => true,
        StepModel::ReadTarget { .. } => true,
        StepModel::FindLauncher => true,
        StepModel::Verify => true,
        StepModel::StopClients => true,
        _ => false,
    }
}

/// The steps that keep the live session.
pub open spec fn is_refresh(step: StepModel) -> bool {
    match step {
        StepModel::LookForPrevious => true,
        StepModel::CapturePrevious => true,
        StepModel::LookForRefresh => true,
        StepModel::CaptureFresh => true,
        StepModel::SaveFresh => true,
        StepModel::DropOrphan { .. } => true,
        StepModel::Icon { .. } => true,
        StepModel::SaveAccount { .. } => true,
        StepModel::DropUnsaved { .. } => true,
        StepModel::DropReplaced { .. } => true,
        _ => false,
    }
}

/// Every event keeps a task well-formed.
pub proof fn task_stays_well_formed(task: TaskModel, event: TaskEventModel)
    requires
        task.wf(),
    ensures
        task.after(event).wf(),
{
    let next = task.after(event);
    match (task.step, event) {
        (StepModel::SaveFresh, TaskEventModel::Saved(Ok(vault))) => {
            if let Some(identity) = task.identity {
                lemma_known_from(task.config.accounts, identity.puuid, 0);
            }
            if let Some(active) = task.config.active_id {
                task.config.lemma_index(active);
            }
        },
        _ => {},
    }
    if let Flow::Switch(id) = task.flow {
        if next.config.accounts.len() == task.config.accounts.len() {
            assert(forall|k: int|
                0 <= k < task.config.accounts.len() ==> task.config.accounts[k].id
                    == next.config.accounts[k].id);
            lemma_same_places(task.config, next.config, id);
        }
    }
}

fn new_account(identity: &DetectedIdentity, id: u128, vault_id: u128) -> (account: Account)
    ensures
        account@ == account_for(identity@, id, vault_id),
{
    Account {
        id,
        name: identity.riot_id(),
        puuid: Some(identity.puuid.clone()),
        game_name: Some(identity.game_name.clone()),
        tag_line: Some(identity.tag_line.clone()),
        platform: copy_of(&identity.platform),
        region: copy_of(&identity.region),
        profile_icon_id: identity.profile_icon_id,
        nickname: None,
        vault_id,
    }
}

/// Begins to switch to the account `id`. `detection` is what was detected while the Riot Client
/// was still running.
pub fn switch_account<'a>(config: Config, id: u128, detection: &'a Detection) -> (task: RiotTask<'a>)
    ensures
        task@ == switch_begun(config@, id, detection@),
        task@.wf(),
{
    RiotTask {
        config,
        flow: Flow::Switch(id),
        identity: identity_of(detection),
        verified: false,
        previous: false,
        step: Step::CheckGames,
    }
}

/// Begins to make room for a new sign-in. `detection` is what was detected while the Riot Client
/// was still running.
pub fn begin_add<'a>(config: Config, detection: &'a Detection) -> (task: RiotTask<'a>)
    ensures
        task@ == add_begun(config@, detection@),
        task@.wf(),
{
    RiotTask {
        config,
        flow: Flow::BeginAdd,
        identity: identity_of(detection),
        verified: false,
        previous: false,
        step: Step::CheckGames,
    }
}

/// Begins to save the account that is signed in. A new account gets a random id.
pub fn complete_add<'a>(config: Config, identity: &'a DetectedIdentity) -> (task: RiotTask<'a>)
    ensures
        exists|new_id: u128|
            is_random_uuid(new_id) && task@ == #[trigger] completion_begun(
                config@,
                identity@,
                new_id,
            ),
        task@.wf(),
{
    let new_id = new_uuid();
    complete_add_as(config, identity, new_id)
}

/// Begins to save the account that is signed in. A new account gets the id `new_id`.
pub fn complete_add_as<'a>(
    config: Config,
    identity: &'a DetectedIdentity,
    new_id: u128,
) -> (task: RiotTask<'a>)
    ensures
        task@ == completion_begun(config@, identity@, new_id),
        task@.wf(),
{
    let step = if trim(identity.puuid.as_str()).is_empty() {
        Step::Done(
            Err(
                SwitchFailure::new(
                    SwitchFailureKind::Other,
                    "Could not read account identity. Make sure Riot Client is signed in.".to_owned(),
                ),
            ),
        )
    } else {
        match position_known_as(&config, identity.puuid.as_str()) {
            Some(_) => Step::StopClients,
            None => {
                if conflicting_riot_id(&config, identity) {
                    Step::Done(
                        Err(
                            SwitchFailure::new(
                                SwitchFailureKind::Other,
                                "An account with this Riot ID is already saved, but its account identifier differs. Swapper will not create a duplicate or overwrite that saved session automatically.".to_owned(),
                            ),
                        ),
                    )
                } else {
                    Step::StopClients
                }
            },
        }
    };
    RiotTask {
        config,
        flow: Flow::CompleteAdd(new_id),
        identity: Some(identity),
        verified: false,
        previous: false,
        step,
    }
}

impl<'a> RiotTask<'a> {
    /// What the caller is to do next.
    pub fn action(&self) -> (action: TaskAction<'_>)
        requires
            self@.wf(),
        ensures
            action@ == self@.action(),
    {
        match &self.step {
            Step::CheckGames => TaskAction::Inspect,
            Step::CheckUnsaved => TaskAction::LookForLiveSession,
            Step::ReadTarget { vault } => TaskAction::ReadSession {
                vault: *vault,
                slot: Slot::Target,
            },
            Step::FindLauncher => TaskAction::FindLauncher(self.launcher()),
            Step::Verify => TaskAction::LookForLiveSession,
            Step::StopClients => TaskAction::StopClients,
            Step::LookForPrevious => TaskAction::LookForLiveSession,
            Step::CapturePrevious => TaskAction::Capture(Slot::Previous),
            Step::LookForRefresh => TaskAction::LookForLiveSession,
            Step::CaptureFresh => TaskAction::Capture(Slot::Fresh),
            Step::SaveFresh => TaskAction::SaveSession(Slot::Fresh),
            Step::DropOrphan { vault } => TaskAction::RemoveSession(*vault),
            Step::Icon { before, .. } => {
                match self.identity {
                    Some(identity) => TaskAction::UpdateIcon {
                        account: before.id,
                        change: icon_change(before, identity),
                    },
                    None => TaskAction::UpdateIcon { account: before.id, change: IconChange::Keep },
                }
            },
            Step::SaveAccount { .. } => TaskAction::SaveConfig,
            Step::DropUnsaved { vault, .. } => TaskAction::RemoveSession(*vault),
            Step::DropReplaced { vault } => TaskAction::RemoveSession(*vault),
            Step::RereadTarget { vault } => TaskAction::ReadSession {
                vault: *vault,
                slot: Slot::Target,
            },
            Step::RestoreTarget => TaskAction::Restore(Slot::Target),
            Step::SaveSwitched { .. } => TaskAction::SaveConfig,
            Step::LaunchSelected { .. } => TaskAction::Launch(self.launcher()),
            Step::UndoLive { .. } => {
                if self.previous {
                    TaskAction::Restore(Slot::Previous)
                } else {
                    TaskAction::ClearLive
                }
            },
            Step::SaveUndone { .. } => TaskAction::SaveConfig,
            Step::ClearLive => TaskAction::ClearLive,
            Step::SaveCleared { .. } => TaskAction::SaveConfig,
            Step::ReadUndo { vault, .. } => TaskAction::ReadSession {
                vault: *vault,
                slot: Slot::Target,
            },
            Step::RestoreUndo { .. } => TaskAction::Restore(Slot::Target),
            Step::LaunchRiot => TaskAction::Launch(Launcher::Riot),
            Step::SaveAdded { .. } => TaskAction::SaveConfig,
            Step::AddedIcon => {
                let account: u128 = match self.flow {
                    Flow::CompleteAdd(id) => id,
                    _ => 0,
                };
                let url = match self.identity {
                    Some(identity) => &identity.icon_data_url,
                    None => &None,
                };
                TaskAction::UpdateIcon {
                    account,
                    change: match url {
                        Some(url) => IconChange::Save(url.as_str()),
                        None => IconChange::Keep,
                    },
                }
            },
            Step::Done(Ok(())) => TaskAction::Finish(Ok(())),
            Step::Done(Err(failure)) => TaskAction::Finish(Err(failure)),
        }
    }

    fn launcher(&self) -> (launcher: Launcher)
        ensures
            launcher == self@.launcher(),
    {
        match self.flow {
            Flow::Switch(_) => Launcher::selected(self.config.use_deceive),
            _ => Launcher::Riot,
        }
    }

    fn fail(&mut self, kind: SwitchFailureKind, detail: String)
        ensures
            final(self)@ == old(self)@.failed(kind, detail@),
    {
        self.step = Step::Done(Err(SwitchFailure::new(kind, detail)));
    }

    fn abort(&mut self, detail: String)
        ensures
            final(self)@ == old(self)@.broken(detail@),
    {
        self.fail(SwitchFailureKind::Other, detail);
    }

    fn allow(&mut self)
        ensures
            final(self)@ == old(self)@.allowed(),
    {
        match self.flow {
            Flow::Switch(id) => {
                match self.config.position(id) {
                    Some(at) => {
                        assert(self@.config.accounts[at as int]
                            == self.config.accounts@[at as int]@);
                        self.step = Step::ReadTarget { vault: self.config.accounts[at].vault_id };
                    },
                    None => {
                        self.fail(
                            SwitchFailureKind::AccountMissing,
                            "Account no longer exists".to_owned(),
                        );
                    },
                }
            },
            _ => {
                self.step = if self.config.active_id.is_none() {
                    Step::CheckUnsaved
                } else {
                    Step::FindLauncher
                };
            },
        }
    }

    fn stop_next(&mut self)
        ensures
            final(self)@ == old(self)@.equipped(),
    {
        self.step = if self.config.active_id.is_some() {
            Step::Verify
        } else {
            Step::StopClients
        };
    }

    fn go_on_stopped(&mut self)
        requires
            old(self)@.flow matches Flow::Switch(id) ==> old(self)@.config.has(id),
        ensures
            final(self)@ == old(self)@.quiet(),
    {
        match self.flow {
            Flow::Switch(_) => {
                self.step = Step::LookForPrevious;
            },
            Flow::BeginAdd => {
                self.refresh();
            },
            Flow::CompleteAdd(_) => {
                self.step = Step::CaptureFresh;
            },
        }
    }

    fn refresh(&mut self)
        requires
            old(self)@.flow matches Flow::Switch(id) ==> old(self)@.config.has(id),
        ensures
            final(self)@ == old(self)@.refreshing(),
    {
        if self.config.active_id.is_some() && self.verified {
            self.step = Step::LookForRefresh;
        } else {
            self.go_on_refreshed();
        }
    }

    fn go_on_refreshed(&mut self)
        requires
            old(self)@.flow matches Flow::Switch(id) ==> old(self)@.config.has(id),
        ensures
            final(self)@ == old(self)@.refreshed(),
    {
        match self.flow {
            Flow::Switch(id) => {
                let is_active = match self.config.active_id {
                    Some(active) => active == id,
                    None => false,
                };
                if !is_active {
                    self.step = Step::RestoreTarget;
                } else if let Some(at) = self.config.position(id) {
                    assert(self@.config.accounts[at as int] == self.config.accounts@[at as int]@);
                    self.step = Step::RereadTarget { vault: self.config.accounts[at].vault_id };
                }
            },
            Flow::BeginAdd => {
                self.step = Step::ClearLive;
            },
            Flow::CompleteAdd(_) => {
                self.step = Step::Done(Ok(()));
            },
        }
    }

    fn replace(
        &mut self,
        at: usize,
        identity: &DetectedIdentity,
        vault: u128,
        active: Option<u128>,
    )
        requires
            at < old(self).config.accounts@.len(),
            old(self)@.identity == Some(identity@),
        ensures
            final(self)@ == old(self)@.replaced(at as int, vault, active),
    {
        let ghost start = self@;
        let old_active = self.config.active_id;
        let before = self.config.accounts[at].clone();
        assert(start.config.accounts[at as int] == before@);
        let keep = matches!(icon_change(&before, identity), IconChange::Keep);
        let mut account = self.config.accounts[at].clone();
        apply_identity(&mut account, identity);
        account.vault_id = vault;
        self.config.accounts.set(at, account);
        assert(self@.config.accounts =~= start.config.accounts.update(at as int, account@));
        self.config.active_id = active;
        self.step = if keep {
            Step::SaveAccount { at, before, old_active }
        } else {
            Step::Icon { at, before, old_active }
        };
    }

    fn extend(&mut self, identity: &DetectedIdentity, id: u128, vault: u128)
        requires
            old(self)@.identity == Some(identity@),
        ensures
            final(self)@ == old(self)@.extended(id, vault),
    {
        let ghost start = self@;
        let old_active = self.config.active_id;
        let account = new_account(identity, id, vault);
        self.config.accounts.push(account);
        assert(self@.config.accounts =~= start.config.accounts.push(account@));
        self.config.active_id = Some(id);
        self.step = Step::SaveAdded { old_active };
    }

    fn keep_session(&mut self, vault: u128)
        requires
            old(self)@.may_capture(),
            old(self)@.identity is Some,
        ensures
            final(self)@ == old(self)@.captured(vault),
    {
        if let Some(identity) = self.identity {
            match self.flow {
                Flow::CompleteAdd(new_id) => {
                    match position_known_as(&self.config, identity.puuid.as_str()) {
                        Some(at) => {
                            assert(self@.config.accounts[at as int]
                                == self.config.accounts@[at as int]@);
                            let id = self.config.accounts[at].id;
                            self.replace(at, identity, vault, Some(id));
                        },
                        None => {
                            self.extend(identity, new_id, vault);
                        },
                    }
                },
                _ => {
                    if let Some(active) = self.config.active_id {
                        match self.config.position(active) {
                            Some(at) => {
                                self.replace(at, identity, vault, Some(active));
                            },
                            None => {
                                self.step = Step::DropOrphan { vault };
                            },
                        }
                    }
                },
            }
        }
    }

    fn revert(&mut self, at: usize, before: Account, active: Option<u128>)
        requires
            at < old(self).config.accounts@.len(),
        ensures
            final(self)@ == old(self)@.reverted(at as int, before@, active),
    {
        let ghost start = self@;
        self.config.accounts.set(at, before);
        assert(self@.config.accounts =~= start.config.accounts.update(at as int, before@));
        self.config.active_id = active;
    }

    fn verify(&mut self, live: bool)
        ensures
            final(self)@ == (match may_refresh(old(self)@.config, old(self)@.identity, live) {
                Err(error) => old(self)@.broken(error),
                Ok(verified) => TaskModel { verified, ..old(self)@ }.at(StepModel::StopClients),
            }),
    {
        match verified_live_identity(&self.config, self.identity, live) {
            Err(error) => {
                self.abort(error);
            },
            Ok(verified) => {
                self.verified = verified;
                self.step = Step::StopClients;
            },
        }
    }

    fn put_back_cleared(&mut self, old_active: Option<u128>, error: String)
        ensures
            final(self)@ == (TaskModel {
                step: StepModel::SaveCleared { old_active },
                ..old(self)@
            }).after(TaskEventModel::Finished(Err(error@))),
    {
        self.config.active_id = old_active;
        if let Some(id) = old_active {
            if let Some(at) = self.config.position(id) {
                assert(self@.config.accounts[at as int] == self.config.accounts@[at as int]@);
                self.step = Step::ReadUndo { vault: self.config.accounts[at].vault_id, error };
                return;
            }
        }
        self.abort(error);
    }

    fn drop_added(&mut self, old_active: Option<u128>, error: String)
        requires
            old(self)@.config.accounts.len() > 0,
        ensures
            final(self)@ == (TaskModel {
                step: StepModel::SaveAdded { old_active },
                ..old(self)@
            }).after(TaskEventModel::Finished(Err(error@))),
    {
        let ghost start = self@;
        assert(start.config.accounts.last() == self.config.accounts@.last()@);
        if let Some(account) = self.config.accounts.pop() {
            assert(self@.config.accounts =~= start.config.accounts.drop_last());
            self.config.active_id = old_active;
            self.step = Step::DropUnsaved { vault: account.vault_id, error };
        }
    }

    fn handle_check(&mut self, step: Step, event: TaskEvent)
        requires
            is_check(step@),
            old(self)@.at(step@).wf(),
        ensures
            final(self)@ == old(self)@.at(step@).after(event@),
    {
        match (step, event) {
            (Step::CheckGames, TaskEvent::Table(table)) => {
                match ensure_no_game(table) {
                    Ok(_) => self.allow(),
                    Err(error) => {
                        self.step = Step::Done(Err(switch_failure(error)));
                    },
                }
            },
            (Step::CheckUnsaved, TaskEvent::Live(live)) => {
                match live {
                    Err(error) => self.abort(error),
                    Ok(true) => self.abort(
                        "Save the current Riot sign-in first, then start a new account.".to_owned(),
                    ),
                    Ok(false) => {
                        self.step = Step::FindLauncher;
                    },
                }
            },
            (Step::ReadTarget { .. }, TaskEvent::Finished(read)) => {
                match read {
                    Err(error) => self.fail(SwitchFailureKind::SessionRestore, error),
                    Ok(_) => {
                        self.step = Step::FindLauncher;
                    },
                }
            },
            (Step::FindLauncher, TaskEvent::Found(found)) => {
                if found {
                    self.stop_next();
                } else {
                    let message = self.launcher().missing_message();
                    self.fail(SwitchFailureKind::LauncherMissing, message);
                }
            },
            (Step::Verify, TaskEvent::Live(live)) => {
                match live {
                    Err(error) => self.abort(error),
                    Ok(live) => self.verify(live),
                }
            },
            (Step::StopClients, TaskEvent::Stopped(stopped)) => {
                match stopped {
                    Err(error) => {
                        self.step = Step::Done(Err(switch_failure(error)));
                    },
                    Ok(_) => self.go_on_stopped(),
                }
            },
            (step, _) => {
                self.step = step;
            },
        }
    }

    fn handle_refresh(&mut self, step: Step, event: TaskEvent)
        requires
            is_refresh(step@),
            old(self)@.at(step@).wf(),
        ensures
            final(self)@ == old(self)@.at(step@).after(event@),
    {
        match (step, event) {
            (Step::LookForPrevious, TaskEvent::Live(live)) => {
                match live {
                    Err(error) => self.abort(error),
                    Ok(true) => {
                        self.step = Step::CapturePrevious;
                    },
                    Ok(false) => self.refresh(),
                }
            },
            (Step::CapturePrevious, TaskEvent::Finished(done)) => {
                match done {
                    Err(error) => self.abort(error),
                    Ok(_) => {
                        self.previous = true;
                        self.refresh();
                    },
                }
            },
            (Step::LookForRefresh, TaskEvent::Live(live)) => {
                match live {
                    Err(error) => self.abort(error),
                    Ok(true) => {
                        self.step = Step::CaptureFresh;
                    },
                    Ok(false) => self.go_on_refreshed(),
                }
            },
            (Step::CaptureFresh, TaskEvent::Finished(done)) => {
                match done {
                    Err(error) => self.abort(error),
                    Ok(_) => {
                        self.step = Step::SaveFresh;
                    },
                }
            },
            (Step::SaveFresh, TaskEvent::Saved(saved)) => {
                match saved {
                    Err(error) => self.abort(error),
                    Ok(vault) => self.keep_session(vault),
                }
            },
            (Step::DropOrphan { .. }, TaskEvent::Finished(done)) => {
                match done {
                    Err(error) => self.abort(error),
                    Ok(_) => self.abort(
                        "Active account is missing from Swapper settings".to_owned(),
                    ),
                }
            },
            (Step::Icon { at, before, old_active }, TaskEvent::Finished(_)) => {
                self.step = Step::SaveAccount { at, before, old_active };
            },
            (Step::SaveAccount { at, before, old_active }, TaskEvent::Finished(done)) => {
                match done {
                    Err(error) => {
                        assert(self@.config.accounts[at as int]
                            == self.config.accounts@[at as int]@);
                        let vault = self.config.accounts[at].vault_id;
                        self.revert(at, before, old_active);
                        self.step = Step::DropUnsaved { vault, error };
                    },
                    Ok(_) => {
                        self.step = Step::DropReplaced { vault: before.vault_id };
                    },
                }
            },
            (Step::DropUnsaved { error, .. }, TaskEvent::Finished(done)) => {
                match done {
                    Err(worse) => self.abort(worse),
                    Ok(_) => self.abort(error),
                }
            },
            (Step::DropReplaced { .. }, TaskEvent::Finished(_)) => {
                self.go_on_refreshed();
            },
            (step, _) => {
                self.step = step;
            },
        }
    }

    fn handle_rest(&mut self, step: Step, event: TaskEvent)
        requires
            !is_check(step@) && !is_refresh(step@),
            old(self)@.at(step@).wf(),
        ensures
            final(self)@ == old(self)@.at(step@).after(event@),
    {
        match (step, event) {
            (Step::RereadTarget { .. }, TaskEvent::Finished(read)) => {
                match read {
                    Err(error) => self.fail(SwitchFailureKind::SessionRestore, error),
                    Ok(_) => {
                        self.step = Step::RestoreTarget;
                    },
                }
            },
            (Step::RestoreTarget, TaskEvent::Finished(done)) => {
                match (done, self.flow) {
                    (Err(error), _) => {
                        let mut detail = "Could not restore account: ".to_owned();
                        detail.append(error.as_str());
                        self.step = Step::UndoLive {
                            failure: SwitchFailure::new(SwitchFailureKind::SessionRestore, detail),
                            back_to: None,
                        };
                    },
                    (Ok(_), Flow::Switch(id)) => {
                        self.step = Step::SaveSwitched { old_active: self.config.active_id };
                        self.config.active_id = Some(id);
                    },
                    _ => {
                        self.step = Step::RestoreTarget;
                    },
                }
            },
            (Step::SaveSwitched { old_active }, TaskEvent::Finished(done)) => {
                match done {
                    Err(error) => {
                        self.config.active_id = old_active;
                        self.step = Step::UndoLive {
                            failure: SwitchFailure::from(error),
                            back_to: None,
                        };
                    },
                    Ok(_) => {
                        self.step = Step::LaunchSelected { old_active };
                    },
                }
            },
            (Step::LaunchSelected { old_active }, TaskEvent::Finished(done)) => {
                match done {
                    Err(error) => {
                        self.step = Step::UndoLive {
                            failure: SwitchFailure::new(SwitchFailureKind::Launch, error),
                            back_to: Some(old_active),
                        };
                    },
                    Ok(_) => {
                        self.step = Step::Done(Ok(()));
                    },
                }
            },
            (Step::UndoLive { failure, back_to }, TaskEvent::Finished(_)) => {
                match back_to {
                    Some(active) => {
                        self.config.active_id = active;
                        self.step = Step::SaveUndone { failure };
                    },
                    None => {
                        self.step = Step::Done(Err(failure));
                    },
                }
            },
            (Step::SaveUndone { failure }, TaskEvent::Finished(_)) => {
                self.step = Step::Done(Err(failure));
            },
            (Step::ClearLive, TaskEvent::Finished(done)) => {
                match done {
                    Err(error) => self.abort(error),
                    Ok(_) => {
                        self.step = Step::SaveCleared { old_active: self.config.active_id };
                        self.config.active_id = None;
                    },
                }
            },
            (Step::SaveCleared { old_active }, TaskEvent::Finished(done)) => {
                match done {
                    Err(error) => self.put_back_cleared(old_active, error),
                    Ok(_) => {
                        self.step = Step::LaunchRiot;
                    },
                }
            },
            (Step::ReadUndo { error, .. }, TaskEvent::Finished(read)) => {
                match read {
                    Err(_) => self.abort(error),
                    Ok(_) => {
                        self.step = Step::RestoreUndo { error };
                    },
                }
            },
            (Step::RestoreUndo { error }, TaskEvent::Finished(_)) => {
                self.abort(error);
            },
            (Step::LaunchRiot, TaskEvent::Finished(done)) => {
                match done {
                    Err(error) => self.abort(error),
                    Ok(_) => {
                        self.step = Step::Done(Ok(()));
                    },
                }
            },
            (Step::SaveAdded { old_active }, TaskEvent::Finished(done)) => {
                match done {
                    Err(error) => self.drop_added(old_active, error),
                    Ok(_) => {
                        let has_icon = match self.identity {
                            Some(identity) => identity.icon_data_url.is_some(),
                            None => false,
                        };
                        self.step = if has_icon {
                            Step::AddedIcon
                        } else {
                            Step::Done(Ok(()))
                        };
                    },
                }
            },
            (Step::AddedIcon, TaskEvent::Finished(_)) => {
                self.step = Step::Done(Ok(()));
            },
            (step, _) => {
                self.step = step;
            },
        }
    }

    /// Takes note of what came of the action. An event that was not asked for changes nothing.
    pub fn handle(&mut self, event: TaskEvent)
        requires
            old(self)@.wf(),
        ensures
            final(self)@ == old(self)@.after(event@),
            final(self)@.wf(),
    {
        proof {
            task_stays_well_formed(self@, event@);
        }
        let mut step = Step::CheckGames;
        std::mem::swap(&mut step, &mut self.step);
        if matches!(
            step,
            Step::CheckGames | Step::CheckUnsaved | Step::ReadTarget { .. } | Step::FindLauncher
                | Step::Verify | Step::StopClients
        ) {
            self.handle_check(step, event);
        } else if matches!(
            step,
            Step::LookForPrevious | Step::CapturePrevious | Step::LookForRefresh | Step::CaptureFresh
                | Step::SaveFresh | Step::DropOrphan { .. } | Step::Icon { .. }
                | Step::SaveAccount { .. } | Step::DropUnsaved { .. } | Step::DropReplaced { .. }
        ) {
            self.handle_refresh(step, event);
        } else {
            self.handle_rest(step, event);
        }
    }
}

} // verus!
