//! What holds of every switch, of every start of an addition and of every completed one,
//! whatever the caller reports; and of every stop of the clients.

use vstd::prelude::*;

use super::task::{
    account_for, add_begun, completion_begun, is_check, switch_begun, task_stays_well_formed,
    with_session, Flow, Slot, StepModel, TaskActionModel, TaskEventModel, TaskModel,
};
use super::{
    clients, clients_stop, detected, game_check, games, is_game, may_refresh,
    running_game_is_noticed, FailureModel, ProcessStateError, SwitchFailureKind,
};
use crate::identity::{
    applied, is_known_as, known_from, lemma_known_from, DetectionModel, IdentityModel,
};
use crate::vault::{AccountModel, ConfigModel};
use crate::windows::process::{
    any_named, is_named, named_processes_are_listed, pids_of, unique_images_are_images,
    unique_of, ProcessModel,
};
use crate::windows::stop::{
    just_seen, pids_of_image, stop_acts_on_clean_inspections, StopActionModel, StopEventModel,
    StopStateModel,
};

verus! {

impl TaskModel {
    /// The task after a whole sequence of events.
    pub open spec fn run(self, events: Seq<TaskEventModel>) -> TaskModel
        decreases events.len(),
    {
        if events.len() == 0 {
            self
        } else {
            self.run(events.drop_last()).after(events.last())
        }
    }
}

/// Whether `account` is the account number `k` as it was, or as a login that is proven to be its
/// own refreshed it: only the active account, only if it is known by the PUUID of the live
/// login, and with nothing changed but its presentation and its session.
pub open spec fn kept_or_own(
    origin: ConfigModel,
    identity: Option<IdentityModel>,
    k: int,
    account: AccountModel,
) -> bool {
    account == origin.accounts[k] || match (origin.active_id, identity) {
        (Some(active), Some(login)) => {
            &&& origin.has(active)
            &&& k == origin.index(active)
            &&& is_known_as(origin.accounts[k], login.puuid)
            &&& account == (AccountModel {
                vault_id: account.vault_id,
                ..applied(origin.accounts[k], login)
            })
        },
        _ => false,
    }
}

/// Whether every account is as it was or was refreshed by its own login, and the settings beside
/// the accounts are as they were.
pub open spec fn accounts_kept(
    origin: ConfigModel,
    identity: Option<IdentityModel>,
    config: ConfigModel,
) -> bool {
    &&& config.accounts.len() == origin.accounts.len()
    &&& forall|k: int|
        0 <= k < origin.accounts.len() ==> kept_or_own(
            origin,
            identity,
            k,
            #[trigger] config.accounts[k],
        )
    &&& config.use_deceive == origin.use_deceive
    &&& config.riot_exe == origin.riot_exe
    &&& config.deceive_exe == origin.deceive_exe
    &&& config.remote_enabled == origin.remote_enabled
}

spec fn before_refresh(step: StepModel) -> bool {
    is_check(step) || step is LookForPrevious || step is CapturePrevious || step is LookForRefresh
        || step is CaptureFresh || step is SaveFresh
}

spec fn active_kept(task: TaskModel, origin: ConfigModel) -> bool {
    match task.step {
        StepModel::SaveSwitched { old_active } => old_active == origin.active_id && (
        task.flow matches Flow::Switch(id) && task.config.active_id == Some(id)),
        StepModel::LaunchSelected { old_active } => old_active == origin.active_id && (
        task.flow matches Flow::Switch(id) && task.config.active_id == Some(id)),
        StepModel::UndoLive { back_to: Some(active), .. } => active == origin.active_id,
        StepModel::SaveCleared { old_active } => old_active == origin.active_id
            && task.config.active_id is None && task.flow is BeginAdd,
        StepModel::LaunchRiot => task.config.active_id is None && task.flow is BeginAdd,
        StepModel::Done(Ok(_)) => match task.flow {
            Flow::Switch(id) => task.config.active_id == Some(id),
            _ => task.config.active_id is None,
        },
        StepModel::Done(Err(_)) => task.config.active_id == origin.active_id || (
        task.flow is BeginAdd && task.config.active_id is None),
        _ => task.config.active_id == origin.active_id,
    }
}

spec fn keeps(task: TaskModel, origin: ConfigModel) -> bool {
    &&& task.wf()
    &&& !(task.flow is CompleteAdd)
    &&& !(task.step is SaveAdded) && !(task.step is AddedIcon)
    &&& accounts_kept(origin, task.identity, task.config)
    &&& active_kept(task, origin)
    &&& before_refresh(task.step) ==> task.config == origin
    &&& task.verified ==> may_refresh(origin, task.identity, true) == Ok::<bool, Seq<char>>(true)
    &&& match task.step {
        StepModel::Icon { at, before, old_active } => {
            before == origin.accounts[at] && old_active == origin.active_id
        },
        StepModel::SaveAccount { at, before, old_active } => {
            before == origin.accounts[at] && old_active == origin.active_id
        },
        _ => true,
    }
}

proof fn lemma_keeps(task: TaskModel, origin: ConfigModel, event: TaskEventModel)
    requires
        keeps(task, origin),
    ensures
        keeps(task.after(event), origin),
{
    let next = task.after(event);
    task_stays_well_formed(task, event);
    match (task.step, event) {
        (StepModel::SaveFresh, TaskEventModel::Saved(Ok(vault))) => {
            if let Some(active) = task.config.active_id {
                task.config.lemma_index(active);
                if task.config.has(active) {
                    let at = task.config.index(active);
                    assert forall|k: int| 0 <= k < origin.accounts.len() implies kept_or_own(
                        origin,
                        task.identity,
                        k,
                        #[trigger] next.config.accounts[k],
                    ) by {
                        if k != at {
                            assert(next.config.accounts[k] == task.config.accounts[k]);
                        }
                    }
                }
            }
        },
        (StepModel::SaveAccount { at, before, .. }, TaskEventModel::Finished(Err(_))) => {
            assert forall|k: int| 0 <= k < origin.accounts.len() implies kept_or_own(
                origin,
                task.identity,
                k,
                #[trigger] next.config.accounts[k],
            ) by {
                if k != at {
                    assert(next.config.accounts[k] == task.config.accounts[k]);
                }
            }
        },
        _ => {
            assert(next.config.accounts == task.config.accounts);
        },
    }
}

proof fn lemma_run_keeps(start: TaskModel, origin: ConfigModel, events: Seq<TaskEventModel>)
    requires
        keeps(start, origin),
    ensures
        keeps(start.run(events), origin),
        start.run(events).identity == start.identity,
        start.run(events).flow == start.flow,
    decreases events.len(),
{
    if events.len() > 0 {
        lemma_run_keeps(start, origin, events.drop_last());
        lemma_keeps(start.run(events.drop_last()), origin, events.last());
    }
}

/// At every moment of a switch each saved account is as it was, or it is the active account and
/// was refreshed by a live login that is proven to be its own. A switch that succeeded made the
/// target the active account; one that failed left the active account as it was.
pub proof fn switch_never_overwrites_another_session(
    config: ConfigModel,
    id: u128,
    detection: DetectionModel,
    events: Seq<TaskEventModel>,
)
    ensures
        ({
            let task = switch_begun(config, id, detection).run(events);
            &&& accounts_kept(config, detected(detection), task.config)
            &&& task.step matches StepModel::Done(result) ==> task.config.active_id == (
            if result is Ok {
                Some(id)
            } else {
                config.active_id
            })
        }),
{
    lemma_run_keeps(switch_begun(config, id, detection), config, events);
}

/// At every moment while room is made for a new sign-in each saved account is as it was, or it is
/// the active account and was refreshed by a live login that is proven to be its own. On success
/// no account is active; on failure the active account is as it was, unless it was cleared
/// already.
pub proof fn adding_never_overwrites_another_session(
    config: ConfigModel,
    detection: DetectionModel,
    events: Seq<TaskEventModel>,
)
    ensures
        ({
            let task = add_begun(config, detection).run(events);
            &&& accounts_kept(config, detected(detection), task.config)
            &&& task.step matches StepModel::Done(result) ==> (task.config.active_id is None
                || result is Err && task.config.active_id == config.active_id)
        }),
{
    lemma_run_keeps(add_begun(config, detection), config, events);
}

/// The settings once the signed-in account was saved with the session `vault`: refreshed in place
/// where it is known, else added at the end; it is the active account either way.
pub open spec fn completed(
    config: ConfigModel,
    identity: IdentityModel,
    new_id: u128,
    vault: u128,
) -> ConfigModel {
    let at = known_from(config.accounts, identity.puuid, 0);
    if at < config.accounts.len() {
        ConfigModel {
            active_id: Some(config.accounts[at].id),
            ..with_session(config, at, identity, vault)
        }
    } else {
        ConfigModel {
            accounts: config.accounts.push(account_for(identity, new_id, vault)),
            active_id: Some(new_id),
            ..config
        }
    }
}

spec fn completes(
    task: TaskModel,
    origin: ConfigModel,
    identity: IdentityModel,
    new_id: u128,
) -> bool {
    let known = known_from(origin.accounts, identity.puuid, 0);
    &&& task.wf()
    &&& task.flow == Flow::CompleteAdd(new_id)
    &&& task.identity == Some(identity)
    &&& match task.step {
        StepModel::StopClients => task.config == origin,
        StepModel::CaptureFresh => task.config == origin,
        StepModel::SaveFresh => task.config == origin,
        StepModel::DropUnsaved { .. } => task.config == origin,
        StepModel::Done(Err(_)) => task.config == origin,
        StepModel::Icon { at, before, old_active } => {
            &&& at == known < origin.accounts.len()
            &&& before == origin.accounts[at]
            &&& old_active == origin.active_id
            &&& task.config == completed(
                origin,
                identity,
                new_id,
                task.config.accounts[at].vault_id,
            )
        },
        StepModel::SaveAccount { at, before, old_active } => {
            &&& at == known < origin.accounts.len()
            &&& before == origin.accounts[at]
            &&& old_active == origin.active_id
            &&& task.config == completed(
                origin,
                identity,
                new_id,
                task.config.accounts[at].vault_id,
            )
        },
        StepModel::SaveAdded { old_active } => {
            &&& known >= origin.accounts.len()
            &&& old_active == origin.active_id
            &&& task.config == completed(
                origin,
                identity,
                new_id,
                task.config.accounts.last().vault_id,
            )
        },
        StepModel::DropReplaced { .. } => was_completed(task.config, origin, identity, new_id),
        StepModel::AddedIcon => was_completed(task.config, origin, identity, new_id),
        StepModel::Done(Ok(_)) => was_completed(task.config, origin, identity, new_id),
        _ => false,
    }
}

/// Whether the settings are those of a completed addition, with some session.
pub open spec fn was_completed(
    config: ConfigModel,
    origin: ConfigModel,
    identity: IdentityModel,
    new_id: u128,
) -> bool {
    exists|vault: u128| config == #[trigger] completed(origin, identity, new_id, vault)
}

proof fn lemma_completes(
    task: TaskModel,
    origin: ConfigModel,
    identity: IdentityModel,
    new_id: u128,
    event: TaskEventModel,
)
    requires
        completes(task, origin, identity, new_id),
    ensures
        completes(task.after(event), origin, identity, new_id),
{
    let next = task.after(event);
    task_stays_well_formed(task, event);
    lemma_known_from(origin.accounts, identity.puuid, 0);
    match (task.step, event) {
        (StepModel::SaveAccount { at, before, old_active }, TaskEventModel::Finished(done)) => {
            if done is Err {
                assert(next.config.accounts =~= origin.accounts);
            } else {
                let vault = task.config.accounts[at].vault_id;
                assert(next.config == completed(origin, identity, new_id, vault));
            }
        },
        (StepModel::SaveAdded { old_active }, TaskEventModel::Finished(done)) => {
            if done is Err {
                assert(next.config.accounts =~= origin.accounts);
            } else {
                let vault = task.config.accounts.last().vault_id;
                assert(next.config == completed(origin, identity, new_id, vault));
            }
        },
        (StepModel::SaveFresh, TaskEventModel::Saved(Ok(vault))) => {
            assert(next.config == completed(origin, identity, new_id, vault));
        },
        _ => {},
    }
}

proof fn lemma_run_completes(
    origin: ConfigModel,
    identity: IdentityModel,
    new_id: u128,
    events: Seq<TaskEventModel>,
)
    ensures
        completes(
            completion_begun(origin, identity, new_id).run(events),
            origin,
            identity,
            new_id,
        ),
    decreases events.len(),
{
    if events.len() > 0 {
        lemma_run_completes(origin, identity, new_id, events.drop_last());
        lemma_completes(
            completion_begun(origin, identity, new_id).run(events.drop_last()),
            origin,
            identity,
            new_id,
            events.last(),
        );
    }
}

/// Saving the signed-in account either succeeds, and then the account is refreshed in place or
/// added once, or it fails and leaves the settings exactly as they were.
pub proof fn completed_addition_is_all_or_nothing(
    config: ConfigModel,
    identity: IdentityModel,
    new_id: u128,
    events: Seq<TaskEventModel>,
)
    ensures
        ({
            let task = completion_begun(config, identity, new_id).run(events);
            task.step matches StepModel::Done(result) ==> if result is Ok {
                was_completed(task.config, config, identity, new_id)
            } else {
                task.config == config
            }
        }),
{
    lemma_run_completes(config, identity, new_id, events);
}

/// Saving the signed-in account never gives two accounts the same PUUID: if no two accounts were
/// known by it before, no two are afterwards.
pub proof fn completed_addition_adds_no_duplicate(
    config: ConfigModel,
    identity: IdentityModel,
    new_id: u128,
    vault: u128,
    i: int,
    j: int,
)
    requires
        forall|a: int, b: int|
            0 <= a < b < config.accounts.len() ==> !(is_known_as(
                #[trigger] config.accounts[a],
                identity.puuid,
            ) && is_known_as(#[trigger] config.accounts[b], identity.puuid)),
        0 <= i < j < completed(config, identity, new_id, vault).accounts.len(),
    ensures
        !(is_known_as(completed(config, identity, new_id, vault).accounts[i], identity.puuid)
            && is_known_as(completed(config, identity, new_id, vault).accounts[j], identity.puuid)),
{
    lemma_known_from(config.accounts, identity.puuid, 0);
    let at = known_from(config.accounts, identity.puuid, 0);
    let after = completed(config, identity, new_id, vault).accounts;
    if at < config.accounts.len() {
        if i != at {
            assert(after[i] == config.accounts[i]);
        }
        if j != at {
            assert(after[j] == config.accounts[j]);
        }
        assert(is_known_as(config.accounts[at], identity.puuid));
    } else {
        assert(!is_known_as(config.accounts[i], identity.puuid));
        assert(after[i] == config.accounts[i]);
    }
}

/// Whether an action changes anything that outlives the task.
pub open spec fn is_lasting(action: TaskActionModel) -> bool {
    match action {
        TaskActionModel::SaveSession(_) => true,
        TaskActionModel::RemoveSession(_) => true,
        TaskActionModel::Restore(_) => true,
        TaskActionModel::ClearLive => true,
        TaskActionModel::SaveConfig => true,
        TaskActionModel::UpdateIcon { .. } => true,
        TaskActionModel::Launch(_) => true,
        _ => false,
    }
}

/// Whether an event reports that the Riot clients stopped.
pub open spec fn reports_stop(event: TaskEventModel) -> bool {
    event matches TaskEventModel::Stopped(Ok(_))
}

/// Whether an event is a process table without a running game.
pub open spec fn shows_no_game(event: TaskEventModel) -> bool {
    event matches TaskEventModel::Table(table) && game_check(table) is Ok
}

spec fn occurred(events: Seq<TaskEventModel>, what: spec_fn(TaskEventModel) -> bool) -> bool {
    exists|k: int| 0 <= k < events.len() && what(#[trigger] events[k])
}

proof fn lemma_occurred(events: Seq<TaskEventModel>, what: spec_fn(TaskEventModel) -> bool)
    requires
        events.len() > 0,
    ensures
        occurred(events.drop_last(), what) ==> occurred(events, what),
        what(events.last()) ==> occurred(events, what),
{
    if occurred(events.drop_last(), what) {
        let k = choose|k: int|
            0 <= k < events.drop_last().len() && what(#[trigger] events.drop_last()[k]);
        assert(events[k] == events.drop_last()[k]);
    }
    if what(events.last()) {
        assert(what(events[events.len() - 1]));
    }
}

spec fn ordered(start: TaskModel, events: Seq<TaskEventModel>) -> bool {
    let task = start.run(events);
    &&& task.flow == start.flow
    &&& !is_check(task.step) && !(task.step is Done) ==> occurred(
        events,
        |e: TaskEventModel| reports_stop(e),
    )
    &&& start.step is CheckGames && !(task.step is CheckGames) && !(task.step is Done) ==> occurred(
        events,
        |e: TaskEventModel| shows_no_game(e),
    )
}

proof fn lemma_ordered(start: TaskModel, events: Seq<TaskEventModel>)
    requires
        is_check(start.step) || start.step is Done,
    ensures
        ordered(start, events),
    decreases events.len(),
{
    if events.len() > 0 {
        lemma_ordered(start, events.drop_last());
        lemma_occurred(events, |e: TaskEventModel| reports_stop(e));
        lemma_occurred(events, |e: TaskEventModel| shows_no_game(e));
        let task = start.run(events.drop_last());
        assert(start.run(events) == task.after(events.last()));
    }
}

/// Nothing that outlives a task is done before the Riot clients have stopped. In a switch, and
/// when room is made for a new sign-in, the clients are not even stopped before a process table
/// showed that no game runs.
pub proof fn nothing_lasting_before_the_checks(start: TaskModel, events: Seq<TaskEventModel>)
    requires
        is_check(start.step) || start.step is Done,
    ensures
        ({
            let action = start.run(events).action();
            &&& is_lasting(action) ==> exists|k: int|
                0 <= k < events.len() && reports_stop(#[trigger] events[k])
            &&& start.step is CheckGames && (is_lasting(action)
                || action == TaskActionModel::StopClients) ==> exists|k: int|
                0 <= k < events.len() && shows_no_game(#[trigger] events[k])
        }),
{
    lemma_ordered(start, events);
    let action = start.run(events).action();
    if is_lasting(action) {
        let what = |e: TaskEventModel| reports_stop(e);
        let k = choose|k: int| 0 <= k < events.len() && what(#[trigger] events[k]);
        assert(reports_stop(events[k]));
    }
    if start.step is CheckGames && (is_lasting(action) || action == TaskActionModel::StopClients) {
        let what = |e: TaskEventModel| shows_no_game(e);
        let k = choose|k: int| 0 <= k < events.len() && what(#[trigger] events[k]);
        assert(shows_no_game(events[k]));
    }
}

/// A switch that fails once the live session was touched puts the live session back as it was:
/// it restores the session that it kept, or clears what was not there before.
pub proof fn failed_switch_puts_the_live_session_back(task: TaskModel, error: Seq<char>)
    requires
        task.step is RestoreTarget || task.step is SaveSwitched || task.step is LaunchSelected,
    ensures
        task.after(TaskEventModel::Finished(Err(error))).action() == (if task.previous {
            TaskActionModel::Restore(Slot::Previous)
        } else {
            TaskActionModel::ClearLive
        }),
{
}

/// Whether these processes are the clients of a process table without a game, the one that the
/// last of the events brought.
pub open spec fn clients_just_seen(
    events: Seq<(StopEventModel, u128)>,
    seen: Seq<ProcessModel>,
) -> bool {
    just_seen(events, clients(), games(), seen)
}

/// While the clients are stopped no game is ever disturbed. What is killed are the clients that
/// the inspection just before showed, beside no game; each image that is killed is a client and
/// none is a game. What is asked to close are clients that the first inspection showed, beside
/// no game.
pub proof fn client_stop_spares_every_game(events: Seq<(StopEventModel, u128)>)
    requires
        clients_stop().answered(events),
    ensures
        match clients_stop().run(events).action() {
            StopActionModel::ForceKill { images, pids, .. } => {
                &&& exists|seen: Seq<ProcessModel>| #[trigger]
                    clients_just_seen(events, seen) && images == unique_of(seen) && pids
                        == pids_of(seen)
                &&& forall|k: int|
                    0 <= k < images.len() ==> is_named(#[trigger] images[k], clients())
                        && !is_named(images[k], games())
            },
            StopActionModel::RequestClose(pids) => {
                exists|seen: Seq<ProcessModel>, image: Seq<char>| #[trigger]
                    pids_of_image(seen, image) == pids && clients_just_seen(events.take(1), seen)
            },
            _ => true,
        },
{
    let stop = clients_stop().run(events);
    stop_acts_on_clean_inspections(clients(), games(), clients_stop().options, events);
    match stop.state {
        StopStateModel::Killing { processes, .. } => {
            assert(clients_just_seen(events, processes));
            if let StopEventModel::Table(Ok(table)) = events.last().0 {
                let images = unique_of(processes);
                assert forall|k: int| 0 <= k < images.len() implies is_named(
                    #[trigger] images[k],
                    clients(),
                ) && !is_named(images[k], games()) by {
                    let i = unique_images_are_images(processes, k);
                    let j = named_processes_are_listed(table, clients(), i);
                    assert(!any_named(table, games()));
                    assert(!is_named(table[j].image, games()));
                }
            }
        },
        StopStateModel::Closing { processes, image, .. } => {
            assert(clients_just_seen(events.take(1), processes));
            let pids = pids_of_image(processes, stop.report.images[image]);
            assert(stop.action() == StopActionModel::RequestClose(pids));
        },
        _ => {},
    }
}

/// What a task will fail with, once that is settled.
pub open spec fn settled_failure(task: TaskModel) -> Option<FailureModel> {
    match task.step {
        StepModel::UndoLive { failure, .. } => Some(failure),
        StepModel::SaveUndone { failure } => Some(failure),
        StepModel::Done(Err(failure)) => Some(failure),
        _ => None,
    }
}

/// A task fails for the reason that settled it: what was being done when it came says which kind of
/// failure it is and how it is explained, and nothing that comes later changes it.
pub proof fn failure_says_what_went_wrong(task: TaskModel, event: TaskEventModel)
    requires
        settled_failure(task.after(event)) is Some,
    ensures
        settled_failure(task) is Some ==> settled_failure(task.after(event)) == settled_failure(
            task,
        ),
        settled_failure(task) is None ==> ({
            let failure = settled_failure(task.after(event))->Some_0;
            match (task.action(), event) {
                (TaskActionModel::Inspect, TaskEventModel::Table(Err(_))) => failure.kind
                    == SwitchFailureKind::InspectionFailed,
                (TaskActionModel::Inspect, TaskEventModel::Table(Ok(processes))) => {
                    let playing = exists|k: int|
                        0 <= k < processes.len() && is_game(#[trigger] processes[k].image);
                    &&& playing ==> failure.kind == SwitchFailureKind::GameRunning
                    &&& !playing ==> failure.kind == SwitchFailureKind::AccountMissing
                },
                (TaskActionModel::FindLauncher(launcher), TaskEventModel::Found(found)) => !found
                    && failure.kind == SwitchFailureKind::LauncherMissing && failure.detail
                    == launcher.missing(),
                (TaskActionModel::StopClients, TaskEventModel::Stopped(Err(error))) => match error {
                    ProcessStateError::GameRunning => failure.kind
                        == SwitchFailureKind::GameRunning,
                    ProcessStateError::ClientStillRunning => failure.kind
                        == SwitchFailureKind::ClientBusy,
                    ProcessStateError::InspectionFailed(_) => failure.kind
                        == SwitchFailureKind::InspectionFailed,
                },
                (TaskActionModel::Restore(_), TaskEventModel::Finished(Err(reason))) => {
                    task.step is RestoreTarget ==> failure.kind == SwitchFailureKind::SessionRestore
                        && failure.detail == "Could not restore account: "@ + reason
                },
                (TaskActionModel::ReadSession { .. }, TaskEventModel::Finished(Err(reason))) => {
                    task.step !is ReadUndo ==> failure.kind == SwitchFailureKind::SessionRestore
                        && failure.detail == reason
                },
                (TaskActionModel::Launch(launcher), TaskEventModel::Finished(Err(reason))) => {
                    &&& failure.detail == reason
                    &&& task.step is LaunchSelected ==> failure.kind == SwitchFailureKind::Launch
                },
                (TaskActionModel::LookForLiveSession, TaskEventModel::Live(Err(reason))) => {
                    failure.kind == SwitchFailureKind::Other && failure.detail == reason
                },
                (TaskActionModel::Capture(_), TaskEventModel::Finished(Err(reason))) => {
                    failure.kind == SwitchFailureKind::Other && failure.detail == reason
                },
                (TaskActionModel::SaveSession(_), TaskEventModel::Saved(Err(reason))) => {
                    failure.kind == SwitchFailureKind::Other && failure.detail == reason
                },
                (TaskActionModel::ClearLive, TaskEventModel::Finished(Err(reason))) => {
                    failure.kind == SwitchFailureKind::Other && failure.detail == reason
                },
                (TaskActionModel::SaveConfig, TaskEventModel::Finished(Err(reason))) => {
                    failure.kind == SwitchFailureKind::Other && failure.detail == reason
                },
                _ => failure.kind == SwitchFailureKind::Other,
            }
        }),
{
    if let TaskEventModel::Table(table) = event {
        running_game_is_noticed(table);
    }
}

} // verus!
