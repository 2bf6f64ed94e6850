//! What a task does to the world: to the live session, to the saved sessions, to the settings on
//! disk, to the cached images and to what is started.
//!
//! A [`World`] is what the actions of a task work on. The laws here speak of what the world is
//! like when a task is over, and of what it is never like on the way, whatever fails.

use vstd::prelude::*;

use super::laws::completed;
use super::settings::lemma_same_places;
use super::task::{
    add_begun, completion_begun, is_check, is_refresh, switch_begun, task_stays_well_formed,
    with_session, Flow, Slot, StepModel, TaskActionModel, TaskEventModel, TaskModel,
};
use super::{detected, games, may_refresh, Launcher, SwitchFailureKind};
use crate::identity::{
    icon_after, lemma_known_from, DetectionModel, IconChangeModel, IdentityModel,
};
use crate::vault::{AccountModel, ConfigModel};
use crate::windows::process::any_named;

verus! {

/// What the actions of a task work on. What a session holds is a number here; sessions that hold
/// the same have the same number.
#[verifier::ext_equal]
pub struct World {
    /// The live session, if there is one.
    pub live: Option<int>,
    /// The saved sessions by their ids.
    pub vault: Map<u128, int>,
    /// The sessions that are kept for the task.
    pub target: Option<int>,
    pub previous: Option<int>,
    pub fresh: Option<int>,
    /// The settings as they were saved last.
    pub disk: ConfigModel,
    /// The cached images by the ids of their accounts.
    pub icons: Map<u128, Seq<char>>,
    /// What was started, if anything.
    pub started: Option<Launcher>,
    /// The live session as the clients left it, once they have stopped.
    pub left: Option<Option<int>>,
    /// Whether the last attempt to replace the live session broke off.
    pub torn: bool,
    /// Whether a saved session could not be read.
    pub unread: bool,
    /// Whether the last attempt to save the settings failed.
    pub unsaved: bool,
    /// Whether everything has succeeded so far.
    pub smooth: bool,
}

impl World {
    /// The session that is kept in a slot.
    pub open spec fn held(self, slot: Slot) -> Option<int> {
        match slot {
            Slot::Target => self.target,
            Slot::Previous => self.previous,
            Slot::Fresh => self.fresh,
        }
    }

    /// The world with a session kept in a slot.
    pub open spec fn holding(self, slot: Slot, session: int) -> World {
        match slot {
            Slot::Target => World { target: Some(session), ..self },
            Slot::Previous => World { previous: Some(session), ..self },
            Slot::Fresh => World { fresh: Some(session), ..self },
        }
    }

    /// The world after something failed.
    pub open spec fn failed(self) -> World {
        World { smooth: false, ..self }
    }

    /// The world before a task: nothing was done yet, and the settings on disk are these.
    pub open spec fn is_untouched(self, config: ConfigModel) -> bool {
        &&& self.disk == config
        &&& self.started is None
        &&& self.left is None
        &&& !self.torn
        &&& !self.unread
        &&& !self.unsaved
        &&& self.smooth
    }
}

/// Whether a session could be saved under an id without taking the place of another one.
pub open spec fn is_new(id: u128, world: World, config: ConfigModel) -> bool {
    &&& !world.vault.dom().contains(id)
    &&& forall|k: int|
        0 <= k < config.accounts.len() ==> (#[trigger] config.accounts[k]).vault_id != id
}

/// Whether an action of a task whose settings are `config` can come to `event` and leave the world
/// as `after`. The live session may change until the clients have stopped, and an attempt to
/// replace it that fails may leave anything behind. A session is saved under an id that is new.
pub open spec fn happens(
    world: World,
    config: ConfigModel,
    action: TaskActionModel,
    event: TaskEventModel,
    after: World,
) -> bool {
    match (action, event) {
        (TaskActionModel::Inspect, TaskEventModel::Table(table)) => after == (World {
            smooth: world.smooth && (table matches Ok(processes) && !any_named(processes, games())),
            ..world
        }),
        (TaskActionModel::LookForLiveSession, TaskEventModel::Live(Ok(live))) => {
            live == (world.live is Some) && after == world
        },
        (TaskActionModel::LookForLiveSession, TaskEventModel::Live(Err(_))) => after
            == world.failed(),
        (TaskActionModel::ReadSession { vault, slot }, TaskEventModel::Finished(Ok(_))) => {
            world.vault.dom().contains(vault) && after == world.holding(slot, world.vault[vault])
        },
        (TaskActionModel::ReadSession { .. }, TaskEventModel::Finished(Err(_))) => after == (World {
            unread: true,
            ..world.failed()
        }),
        (TaskActionModel::FindLauncher(_), TaskEventModel::Found(found)) => after == (World {
            smooth: world.smooth && found,
            ..world
        }),
        (TaskActionModel::StopClients, TaskEventModel::Stopped(Ok(_))) => after == (World {
            live: after.live,
            left: Some(after.live),
            ..world
        }),
        (TaskActionModel::StopClients, TaskEventModel::Stopped(Err(_))) => after == (World {
            live: after.live,
            ..world.failed()
        }),
        (TaskActionModel::Capture(slot), TaskEventModel::Finished(Ok(_))) => {
            world.live matches Some(session) && after == world.holding(slot, session)
        },
        (TaskActionModel::Capture(_), TaskEventModel::Finished(Err(_))) => after == world.failed(),
        (TaskActionModel::SaveSession(slot), TaskEventModel::Saved(Ok(id))) => {
            &&& is_new(id, world, config)
            &&& world.held(slot) matches Some(session) && after == (World {
                vault: world.vault.insert(id, session),
                ..world
            })
        },
        (TaskActionModel::SaveSession(_), TaskEventModel::Saved(Err(_))) => after == world.failed(),
        (TaskActionModel::RemoveSession(id), TaskEventModel::Finished(Ok(_))) => after == (World {
            vault: world.vault.remove(id),
            ..world
        }),
        (TaskActionModel::RemoveSession(_), TaskEventModel::Finished(Err(_))) => after
            == world.failed(),
        (TaskActionModel::Restore(slot), TaskEventModel::Finished(Ok(_))) => {
            world.held(slot) matches Some(session) && after == (World {
                live: Some(session),
                torn: false,
                ..world
            })
        },
        (TaskActionModel::Restore(_), TaskEventModel::Finished(Err(_))) => after == (World {
            live: after.live,
            torn: true,
            ..world.failed()
        }),
        (TaskActionModel::ClearLive, TaskEventModel::Finished(Ok(_))) => after == (World {
            live: None,
            torn: false,
            ..world
        }),
        (TaskActionModel::ClearLive, TaskEventModel::Finished(Err(_))) => after == (World {
            live: after.live,
            torn: true,
            ..world.failed()
        }),
        (TaskActionModel::SaveConfig, TaskEventModel::Finished(Ok(_))) => after == (World {
            disk: config,
            unsaved: false,
            ..world
        }),
        (TaskActionModel::SaveConfig, TaskEventModel::Finished(Err(_))) => after == (World {
            unsaved: true,
            ..world.failed()
        }),
        (TaskActionModel::UpdateIcon { account, change }, TaskEventModel::Finished(Ok(_))) => {
            after == (World {
                icons: match change {
                    IconChangeModel::Keep => world.icons,
                    IconChangeModel::Save(url) => world.icons.insert(account, url),
                    IconChangeModel::Remove => world.icons.remove(account),
                },
                ..world
            })
        },
        (TaskActionModel::UpdateIcon { .. }, TaskEventModel::Finished(Err(_))) => after
            == world.failed(),
        (TaskActionModel::Launch(launcher), TaskEventModel::Finished(Ok(_))) => after == (World {
            started: Some(launcher),
            ..world
        }),
        (TaskActionModel::Launch(_), TaskEventModel::Finished(Err(_))) => after == world.failed(),
        _ => false,
    }
}

/// The task after a sequence of deeds: of what came of its actions, each with the world it left.
pub open spec fn through(start: TaskModel, deeds: Seq<(TaskEventModel, World)>) -> TaskModel
    decreases deeds.len(),
{
    if deeds.len() == 0 {
        start
    } else {
        through(start, deeds.drop_last()).after(deeds.last().0)
    }
}

/// The world after a sequence of deeds.
pub open spec fn reached(world: World, deeds: Seq<(TaskEventModel, World)>) -> World {
    if deeds.len() == 0 {
        world
    } else {
        deeds.last().1
    }
}

/// Whether each of the deeds is what can come of the action that the task asked for.
pub open spec fn performed(
    start: TaskModel,
    world: World,
    deeds: Seq<(TaskEventModel, World)>,
) -> bool
    decreases deeds.len(),
{
    deeds.len() == 0 || {
        let before = deeds.drop_last();
        let task = through(start, before);
        &&& performed(start, world, before)
        &&& happens(
            reached(world, before),
            task.config,
            task.action(),
            deeds.last().0,
            deeds.last().1,
        )
    }
}

/// Whether the account number `a` is the active one, and is known by the PUUID of the login that
/// was detected.
pub open spec fn is_own_login(config: ConfigModel, detection: DetectionModel, a: int) -> bool {
    &&& is_active_at(config, a)
    &&& detection matches DetectionModel::Identified(login) && config.accounts[a].puuid == Some(
        login.puuid,
    )
}

/// Whether the account number `a` is the active one: the first with the active id.
pub open spec fn is_active_at(config: ConfigModel, a: int) -> bool {
    config.active_id matches Some(id) && stands_at(config, id, a)
}

/// Whether the account `id` is the account number `at`: the first with that id.
pub open spec fn stands_at(config: ConfigModel, id: u128, at: int) -> bool {
    &&& 0 <= at < config.accounts.len()
    &&& config.accounts[at].id == id
    &&& forall|k: int| 0 <= k < at ==> (#[trigger] config.accounts[k]).id != id
}

/// Whether the login that was detected is another one than the active account number `a` is
/// known by.
pub open spec fn is_foreign_login(config: ConfigModel, detection: DetectionModel, a: int) -> bool {
    &&& is_active_at(config, a)
    &&& config.accounts[a].puuid is Some
    &&& detection matches DetectionModel::Identified(login) && config.accounts[a].puuid != Some(
        login.puuid,
    )
}

proof fn lemma_stands_at(config: ConfigModel, id: u128, at: int)
    requires
        stands_at(config, id, at),
    ensures
        config.has(id),
        config.index(id) == at,
{
    config.lemma_index(id);
    let i = config.index(id);
    if i < at {
        assert(config.accounts[i].id != id);
    }
    if i > at {
        assert(config.accounts[at].id != id);
    }
}

spec fn own(origin: ConfigModel, identity: Option<IdentityModel>, world0: World) -> bool {
    may_refresh(origin, identity, world0.live is Some) == Ok::<bool, Seq<char>>(true)
}

spec fn place(origin: ConfigModel) -> int {
    origin.index(origin.active_id->Some_0)
}

spec fn icons_after(
    icons: Map<u128, Seq<char>>,
    account: AccountModel,
    identity: IdentityModel,
) -> Map<u128, Seq<char>> {
    match icon_after(account, identity) {
        IconChangeModel::Keep => icons,
        IconChangeModel::Save(url) => icons.insert(account.id, url),
        IconChangeModel::Remove => icons.remove(account.id),
    }
}

/// How the sessions stand once the account number `at` got the session `vault`, which holds what
/// the clients left; the session before may be gone, and is where nothing failed.
spec fn renewed(
    world0: World,
    world: World,
    origin: ConfigModel,
    at: int,
    vault: u128,
) -> bool {
    let all = world0.vault.insert(vault, world.left->Some_0->Some_0);
    &&& world.left matches Some(Some(_))
    &&& is_new(vault, world0, origin)
    &&& world.vault == all || world.vault == all.remove(origin.accounts[at].vault_id)
    &&& world.smooth ==> world.vault == all.remove(origin.accounts[at].vault_id)
}

spec fn refreshed(
    world0: World,
    world: World,
    origin: ConfigModel,
    identity: Option<IdentityModel>,
    accounts: Seq<AccountModel>,
) -> bool {
    let a = place(origin);
    if own(origin, identity, world0) && world.left->Some_0 is Some {
        &&& accounts == with_session(
            origin,
            a,
            identity->Some_0,
            accounts[a].vault_id,
        ).accounts
        &&& renewed(world0, world, origin, a, accounts[a].vault_id)
        &&& world.smooth ==> world.icons == icons_after(
            world0.icons,
            origin.accounts[a],
            identity->Some_0,
        )
    } else {
        &&& accounts == origin.accounts
        &&& world.vault == world0.vault
        &&& world.icons == world0.icons
    }
}

spec fn session_to_restore(
    world0: World,
    world: World,
    origin: ConfigModel,
    identity: Option<IdentityModel>,
    id: u128,
) -> int {
    if own(origin, identity, world0) && world.left->Some_0 is Some && origin.active_id == Some(id) {
        world.left->Some_0->Some_0
    } else {
        world0.vault[origin.account(id).vault_id]
    }
}

spec fn kept_previous(task: TaskModel, world: World) -> bool {
    task.flow is Switch ==> if task.previous {
        world.left == Some(world.previous) && world.previous is Some
    } else {
        world.left == Some(None::<int>)
    }
}

spec fn target_read(task: TaskModel, world0: World, world: World, origin: ConfigModel) -> bool {
    task.flow matches Flow::Switch(id) ==> {
        &&& world0.vault.dom().contains(origin.account(id).vault_id)
        &&& world.target == Some(world0.vault[origin.account(id).vault_id])
    }
}

spec fn launcher_for(task: TaskModel, origin: ConfigModel) -> Launcher {
    match task.flow {
        Flow::Switch(_) => if origin.use_deceive {
            Launcher::Deceive
        } else {
            Launcher::League
        },
        _ => Launcher::Riot,
    }
}

spec fn unsaved_session(world0: World, world: World, origin: ConfigModel, vault: u128) -> bool {
    &&& world.left matches Some(Some(_))
    &&& is_new(vault, world0, origin)
    &&& world.vault == world0.vault.insert(vault, world.left->Some_0->Some_0)
}

/// What holds at every moment of a switch and of making room for a new sign-in.
spec fn moves(origin: ConfigModel, world0: World, task: TaskModel, world: World) -> bool {
    let a = place(origin);
    let own = own(origin, task.identity, world0);
    &&& task.wf()
    &&& !(task.flow is CompleteAdd)
    &&& task.config.use_deceive == origin.use_deceive
    &&& ConfigModel { accounts: origin.accounts, active_id: origin.active_id, ..task.config }
        == origin
    &&& own ==> origin.active_id is Some && task.identity is Some && origin.has(
        origin.active_id->Some_0,
    )
    &&& world.started == (if task.step matches StepModel::Done(Ok(_)) {
        Some(launcher_for(task, origin))
    } else {
        None
    })
    &&& !is_check(task.step) && !(task.step is Done) ==> world.left is Some && task.verified == own
    &&& match task.step {
        StepModel::CheckGames => true,
        StepModel::CheckUnsaved => origin.active_id is None,
        StepModel::ReadTarget { vault } => task.flow matches Flow::Switch(id) && vault
            == origin.account(id).vault_id,
        StepModel::FindLauncher => target_read(task, world0, world, origin),
        StepModel::Verify => origin.active_id is Some && target_read(task, world0, world, origin),
        StepModel::StopClients => target_read(task, world0, world, origin) && task.verified == own,
        StepModel::LookForPrevious => !task.previous,
        StepModel::CapturePrevious => !task.previous && world.live is Some,
        StepModel::LookForRefresh => own && kept_previous(task, world),
        StepModel::CaptureFresh => own && kept_previous(task, world) && world.live is Some,
        StepModel::SaveFresh => own && kept_previous(task, world) && world.live is Some
            && world.fresh == world.live,
        StepModel::Icon { at, before, old_active } => {
            &&& own && at == a && before == origin.accounts[a] && old_active == origin.active_id
            &&& world.icons == world0.icons
            &&& icon_after(before, task.identity->Some_0) != IconChangeModel::Keep
        },
        StepModel::SaveAccount { at, before, old_active } => {
            &&& own && at == a && before == origin.accounts[a] && old_active == origin.active_id
            &&& world.smooth ==> world.icons == icons_after(
                world0.icons,
                before,
                task.identity->Some_0,
            )
        },
        StepModel::DropReplaced { vault } => {
            &&& own && vault == origin.accounts[a].vault_id
            &&& world.smooth ==> world.icons == icons_after(
                world0.icons,
                origin.accounts[a],
                task.identity->Some_0,
            )
        },
        StepModel::RereadTarget { vault } => task.flow matches Flow::Switch(id)
            && origin.active_id == Some(id) && vault == task.config.accounts[a].vault_id,
        StepModel::RestoreTarget => task.flow matches Flow::Switch(id) && world.target == Some(
            session_to_restore(world0, world, origin, task.identity, id),
        ),
        StepModel::SaveSwitched { old_active } => old_active == origin.active_id && (
        task.flow matches Flow::Switch(id) && task.config.active_id == Some(id) && world.live
            == Some(session_to_restore(world0, world, origin, task.identity, id))),
        StepModel::LaunchSelected { old_active } => old_active == origin.active_id && (
        task.flow matches Flow::Switch(id) && task.config.active_id == Some(id) && world.live
            == Some(session_to_restore(world0, world, origin, task.identity, id))),
        StepModel::UndoLive { failure, back_to } => !world.smooth && match back_to {
            Some(active) => active == origin.active_id && failure.kind == SwitchFailureKind::Launch
                && (task.flow matches Flow::Switch(id) && task.config.active_id == Some(id)
                && world.disk == task.config),
            None => true,
        },
        StepModel::SaveUndone { failure } => failure.kind == SwitchFailureKind::Launch
            && !world.smooth,
        StepModel::SaveCleared { old_active } => old_active == origin.active_id && world.live is None
            && task.config.active_id is None,
        StepModel::ReadUndo { vault, .. } => !world.smooth && task.flow is BeginAdd && origin.active_id is Some
            && origin.has(origin.active_id->Some_0) && vault == task.config.accounts[a].vault_id
            && world.live is None,
        StepModel::RestoreUndo { .. } => !world.smooth && task.flow is BeginAdd && origin.active_id is Some && origin.has(
            origin.active_id->Some_0,
        ) && world.live is None && world.vault.dom().contains(task.config.accounts[a].vault_id)
            && world.target == Some(world.vault[task.config.accounts[a].vault_id]),
        StepModel::LaunchRiot => task.flow is BeginAdd && world.live is None
            && task.config.active_id is None,
        StepModel::ClearLive => true,
        StepModel::DropUnsaved { .. } => !world.smooth,
        StepModel::Done(Ok(_)) => match task.flow {
            Flow::Switch(id) => task.config.active_id == Some(id) && world.live == Some(
                session_to_restore(world0, world, origin, task.identity, id),
            ),
            _ => task.config.active_id is None && world.live is None,
        },
        StepModel::Done(Err(failure)) => true,
        _ => false,
    }
    &&& match task.step {
        StepModel::Icon { .. } | StepModel::SaveAccount { .. } => {
            &&& task.config == with_session(
                origin,
                a,
                task.identity->Some_0,
                task.config.accounts[a].vault_id,
            )
            &&& unsaved_session(world0, world, origin, task.config.accounts[a].vault_id)
            &&& world.disk == origin
            &&& kept_previous(task, world)
        },
        StepModel::DropReplaced { vault } => {
            &&& task.config == with_session(
                origin,
                a,
                task.identity->Some_0,
                task.config.accounts[a].vault_id,
            )
            &&& unsaved_session(world0, world, origin, task.config.accounts[a].vault_id)
            &&& world.disk == task.config
            &&& kept_previous(task, world)
        },
        StepModel::DropUnsaved { vault, .. } => {
            &&& task.config == origin
            &&& unsaved_session(world0, world, origin, vault)
            &&& world.disk == origin
        },
        StepModel::Done(Err(failure)) => {
            ||| task.config == origin && world.disk == origin && (world.vault == world0.vault
                || !world.smooth && exists|vault: u128| #[trigger]
                unsaved_session(world0, world, origin, vault))
            ||| refreshed(world0, world, origin, task.identity, task.config.accounts)
                && world.left is Some && (world.disk == task.config || failure.kind
                == SwitchFailureKind::Launch && world.unsaved && task.flow is Switch && world.disk
                == (ConfigModel { active_id: world.disk.active_id, ..task.config }))
        },
        _ => if is_check(task.step) || before_saving(task.step) {
            &&& task.config == origin
            &&& world.disk == origin
            &&& world.vault == world0.vault
            &&& world.icons == world0.icons
        } else {
            &&& refreshed(world0, world, origin, task.identity, task.config.accounts)
            &&& world.disk.accounts == task.config.accounts
            &&& task.step is UndoLive || kept_previous(task, world)
        },
    }
    &&& match task.step {
        StepModel::RereadTarget { .. } | StepModel::RestoreTarget | StepModel::ClearLive
        | StepModel::ReadUndo { .. } | StepModel::RestoreUndo { .. } => task.config.active_id
            == origin.active_id && world.disk == task.config,
        StepModel::SaveSwitched { .. } | StepModel::SaveUndone { .. }
        | StepModel::SaveCleared { .. } => world.disk == (ConfigModel {
            active_id: world.disk.active_id,
            ..task.config
        }),
        StepModel::LaunchSelected { .. } | StepModel::LaunchRiot | StepModel::Done(Ok(_)) => {
            world.disk == task.config
        },
        StepModel::UndoLive { back_to: None, .. } => task.config.active_id == origin.active_id
            && world.disk == task.config,
        _ => true,
    }
    &&& match task.step {
        StepModel::SaveSwitched { .. } => world.disk.active_id == origin.active_id,
        StepModel::SaveCleared { .. } => world.disk.active_id == origin.active_id,
        StepModel::SaveUndone { .. } => task.config.active_id == origin.active_id,
        StepModel::Done(Err(_)) => task.config.active_id == origin.active_id || (
        task.flow is BeginAdd && task.config.active_id is None),
        _ => true,
    }
    &&& match task.step {
        StepModel::UndoLive { .. } => kept_previous(task, world),
        _ => true,
    }
    &&& match task.step {
        StepModel::LookForPrevious | StepModel::CapturePrevious | StepModel::LookForRefresh
        | StepModel::CaptureFresh | StepModel::SaveFresh | StepModel::Icon { .. }
        | StepModel::SaveAccount { .. } | StepModel::DropReplaced { .. }
        | StepModel::DropUnsaved { .. } | StepModel::RereadTarget { .. }
        | StepModel::RestoreTarget | StepModel::ClearLive => world.left == Some(world.live)
            && !world.torn,
        StepModel::SaveSwitched { .. } | StepModel::LaunchSelected { .. } => !world.torn,
        StepModel::SaveUndone { .. } => world.torn || world.left == Some(world.live),
        StepModel::Done(Err(_)) => world.torn || (match (world.left, task.flow) {
            (Some(left), Flow::Switch(_)) => world.live == left,
            (Some(left), _) => {
                ||| world.live == left
                ||| task.config.active_id is None && world.live is None
                ||| world.unread
                ||| !(origin.active_id matches Some(id) && origin.has(id))
                ||| world.live == Some(world.vault[task.config.accounts[a].vault_id])
            },
            _ => true,
        }),
        _ => is_check(task.step) ==> world.left is None && world.live == world0.live && !world.torn
            && !task.previous && (!(task.step is StopClients) ==> !task.verified),
    }
    &&& match task.step {
        StepModel::RereadTarget { .. } | StepModel::RestoreTarget
        | StepModel::SaveSwitched { .. } | StepModel::LaunchSelected { .. } => true,
        _ => !is_check(task.step) && !(task.step is Done) && before_restoring(task.step)
            ==> target_read(task, world0, world, origin),
    }
    &&& task.step matches StepModel::RereadTarget { .. } ==> target_read(
        task,
        world0,
        world,
        origin,
    )
    &&& task.flow is BeginAdd && origin.active_id is None && world0.live is Some ==> {
        &&& task.step is CheckGames || task.step is CheckUnsaved || task.step is Done
        &&& world.left is None
    }
    &&& task.step matches StepModel::Done(Err(_)) ==> (task.flow is BeginAdd
        && task.config.active_id != origin.active_id ==> world.live is None)
    &&& task.step matches StepModel::Done(Err(_)) ==> (world.smooth ==> excused(
        origin,
        world0,
        task,
    ))
}

/// The reasons for which a task fails though nothing failed around it.
spec fn excused(origin: ConfigModel, world0: World, task: TaskModel) -> bool {
    ||| may_refresh(origin, task.identity, world0.live is Some) is Err
    ||| match task.flow {
        Flow::Switch(id) => !origin.has(id),
        _ => origin.active_id is None && world0.live is Some,
    }
}

spec fn before_saving(step: StepModel) -> bool {
    step is LookForPrevious || step is CapturePrevious || step is LookForRefresh
        || step is CaptureFresh || step is SaveFresh
}

spec fn before_restoring(step: StepModel) -> bool {
    before_saving(step) || step is Icon || step is SaveAccount || step is DropReplaced
}

proof fn lemma_moves_checked(
    origin: ConfigModel,
    world0: World,
    task: TaskModel,
    world: World,
    event: TaskEventModel,
    after: World,
)
    requires
        is_check(task.step),
        moves(origin, world0, task, world),
        happens(world, task.config, task.action(), event, after),
    ensures
        moves(origin, world0, task.after(event), after),
{
    task_stays_well_formed(task, event);
    if let Some(active) = origin.active_id {
        origin.lemma_index(active);
    }
    if let Flow::Switch(id) = task.flow {
        origin.lemma_index(id);
    }
}

proof fn lemma_moves_saving(
    origin: ConfigModel,
    world0: World,
    task: TaskModel,
    world: World,
    event: TaskEventModel,
    after: World,
)
    requires
        before_saving(task.step),
        moves(origin, world0, task, world),
        happens(world, task.config, task.action(), event, after),
    ensures
        moves(origin, world0, task.after(event), after),
{
    task_stays_well_formed(task, event);
    if let Some(active) = origin.active_id {
        origin.lemma_index(active);
    }
    if let Flow::Switch(id) = task.flow {
        origin.lemma_index(id);
    }
}

proof fn lemma_moves_kept(
    origin: ConfigModel,
    world0: World,
    task: TaskModel,
    world: World,
    event: TaskEventModel,
    after: World,
)
    requires
        task.step is Icon || task.step is SaveAccount || task.step is DropUnsaved
            || task.step is DropReplaced || task.step is Done,
        moves(origin, world0, task, world),
        happens(world, task.config, task.action(), event, after),
    ensures
        moves(origin, world0, task.after(event), after),
{
    task_stays_well_formed(task, event);
    if let Some(active) = origin.active_id {
        origin.lemma_index(active);
    }
    if let Flow::Switch(id) = task.flow {
        origin.lemma_index(id);
        if task.step is DropReplaced {
            lemma_same_places(origin, task.config, id);
        }
    }
    match task.step {
        StepModel::SaveAccount { before, .. } => {
            assert(origin.accounts =~= task.config.accounts.update(place(origin), before));
        },
        StepModel::DropUnsaved { vault, .. } => {
            if event matches TaskEventModel::Finished(Ok(_)) {
                assert(after.vault =~= world0.vault);
            } else {
                assert(unsaved_session(world0, after, origin, vault));
            }
        },
        _ => {},
    }
}

proof fn lemma_moves_on(
    origin: ConfigModel,
    world0: World,
    task: TaskModel,
    world: World,
    event: TaskEventModel,
    after: World,
)
    requires
        !is_check(task.step) && !is_refresh(task.step),
        moves(origin, world0, task, world),
        happens(world, task.config, task.action(), event, after),
    ensures
        moves(origin, world0, task.after(event), after),
{
    task_stays_well_formed(task, event);
    if let Some(active) = origin.active_id {
        origin.lemma_index(active);
        lemma_same_places(origin, task.config, active);
    }
    if let Flow::Switch(id) = task.flow {
        origin.lemma_index(id);
        lemma_same_places(origin, task.config, id);
    }
}

proof fn lemma_moved(
    origin: ConfigModel,
    start: TaskModel,
    world0: World,
    deeds: Seq<(TaskEventModel, World)>,
)
    requires
        moves(origin, world0, start, world0),
        performed(start, world0, deeds),
    ensures
        moves(origin, world0, through(start, deeds), reached(world0, deeds)),
        through(start, deeds).flow == start.flow,
        through(start, deeds).identity == start.identity,
    decreases deeds.len(),
{
    if deeds.len() > 0 {
        let before = deeds.drop_last();
        lemma_moved(origin, start, world0, before);
        let task = through(start, before);
        let world = reached(world0, before);
        let (event, after) = deeds.last();
        if is_check(task.step) {
            lemma_moves_checked(origin, world0, task, world, event, after);
        } else if before_saving(task.step) {
            lemma_moves_saving(origin, world0, task, world, event, after);
        } else if is_refresh(task.step) || task.step is Done {
            lemma_moves_kept(origin, world0, task, world, event, after);
        } else {
            lemma_moves_on(origin, world0, task, world, event, after);
        }
    }
}

/// A switch that succeeds has put the target's session in the place of the live one, made the
/// target the active account in the settings on disk, and started League: through Deceive exactly
/// where the settings say so, else through the Riot Client. The session that is put in place is
/// the one that was saved for the target; where the target is the active account and the login is
/// its own, it is the one that the clients left.
///
/// A switch that fails has started nothing and left the active account as it was. Unless an
/// attempt to put it back broke off, the live session is the one that the clients left. The
/// settings on disk are those of the task, unless it was the launch that failed and the settings
/// could not be saved again.
pub proof fn switch_moves_the_session(
    config: ConfigModel,
    id: u128,
    detection: DetectionModel,
    world: World,
    deeds: Seq<(TaskEventModel, World)>,
    t: int,
)
    requires
        stands_at(config, id, t),
        world.is_untouched(config),
        performed(switch_begun(config, id, detection), world, deeds),
    ensures
        ({
            let task = through(switch_begun(config, id, detection), deeds);
            let end = reached(world, deeds);
            let chosen = if config.use_deceive {
                Launcher::Deceive
            } else {
                Launcher::League
            };
            &&& task.action() matches TaskActionModel::FindLauncher(launcher) ==> launcher == chosen
            &&& task.action() matches TaskActionModel::Launch(launcher) ==> launcher == chosen
            &&& task.action() == TaskActionModel::Finish(Ok(())) ==> {
                &&& end.started == Some(chosen)
                &&& task.config.active_id == Some(id)
                &&& end.disk == task.config
                &&& end.left is Some
                &&& end.live == (if is_own_login(config, detection, t) && world.live is Some
                    && end.left->Some_0 is Some {
                    end.left->Some_0
                } else {
                    Some(world.vault[config.accounts[t].vault_id])
                })
            }
            &&& task.action() matches TaskActionModel::Finish(Err(failure)) ==> {
                &&& end.started is None
                &&& task.config.active_id == config.active_id
                &&& end.torn || (end.left matches Some(left) ==> end.live == left)
                &&& end.disk == task.config || failure.kind == SwitchFailureKind::Launch
                    && end.unsaved
            }
        }),
{
    let start = switch_begun(config, id, detection);
    lemma_stands_at(config, id, t);
    if let Some(active) = config.active_id {
        config.lemma_index(active);
    }
    lemma_moved(config, start, world, deeds);
}

/// Before the live session is replaced or cleared, and before a launcher is started, the session
/// of the active account was saved and the account points to it, in the settings on disk too, if
/// the login is its own and the clients left a session. Nothing but its presentation and its
/// session changes of the account.
pub proof fn own_session_is_saved_before_it_is_replaced(
    config: ConfigModel,
    start: TaskModel,
    detection: DetectionModel,
    world: World,
    deeds: Seq<(TaskEventModel, World)>,
    a: int,
)
    requires
        start == add_begun(config, detection) || exists|id: u128|
            start == #[trigger] switch_begun(config, id, detection),
        is_own_login(config, detection, a),
        world.is_untouched(config),
        world.live is Some,
        performed(start, world, deeds),
    ensures
        ({
            let task = through(start, deeds);
            let end = reached(world, deeds);
            match task.action() {
                TaskActionModel::Restore(_) | TaskActionModel::ClearLive | TaskActionModel::Launch(_)
                | TaskActionModel::Finish(Ok(_)) => {
                    &&& end.left matches Some(Some(session)) ==> {
                        &&& end.vault.dom().contains(task.config.accounts[a].vault_id)
                        &&& end.vault[task.config.accounts[a].vault_id] == session
                        &&& end.disk.accounts == task.config.accounts
                        &&& task.config.accounts[a].id == config.accounts[a].id
                        &&& task.config.accounts[a].puuid == config.accounts[a].puuid
                        &&& task.config.accounts[a].name == config.accounts[a].name
                    }
                },
                _ => true,
            }
        }),
{
    lemma_stands_at(config, config.active_id->Some_0, a);
    lemma_moved(config, start, world, deeds);
    assert(config.accounts[a].vault_id != through(start, deeds).config.accounts[a].vault_id || through(
        start,
        deeds,
    ).config.accounts == config.accounts);
}

/// Making room for a new sign-in that succeeds has cleared the live session, made no account the
/// active one in the settings on disk, and started the Riot Client alone. A sign-in that no account
/// is active for is never cleared.
///
/// Where it fails nothing was started. Unless an attempt to replace it broke off, the live session
/// is the one that the clients left; or it was cleared and stays so because the Riot Client could
/// not be started; or it is the session that is saved for the active account, if that is there and
/// can be read.
pub proof fn room_is_made_for_a_new_login(
    config: ConfigModel,
    detection: DetectionModel,
    world: World,
    deeds: Seq<(TaskEventModel, World)>,
)
    requires
        world.is_untouched(config),
        performed(add_begun(config, detection), world, deeds),
    ensures
        ({
            let task = through(add_begun(config, detection), deeds);
            let end = reached(world, deeds);
            &&& task.action() matches TaskActionModel::FindLauncher(launcher) ==> launcher
                == Launcher::Riot
            &&& task.action() matches TaskActionModel::Launch(launcher) ==> launcher
                == Launcher::Riot
            &&& config.active_id is None && world.live is Some ==> task.action()
                != TaskActionModel::StopClients && end.left is None
            &&& task.action() == TaskActionModel::Finish(Ok(())) ==> {
                &&& end.started == Some(Launcher::Riot)
                &&& end.live is None
                &&& task.config.active_id is None
                &&& end.disk == task.config
            }
            &&& task.action() matches TaskActionModel::Finish(Err(_)) ==> {
                &&& end.started is None
                &&& end.disk == task.config
                &&& task.config.active_id == config.active_id || task.config.active_id is None
                    && end.live is None
                &&& end.torn || (end.left matches Some(left) ==> {
                    ||| end.live == left
                    ||| task.config.active_id is None && end.live is None
                    ||| end.unread
                    ||| !exists|a: int| is_active_at(config, a)
                    ||| exists|a: int|
                        is_active_at(config, a) && end.live == Some(
                            end.vault[(#[trigger] task.config.accounts[a]).vault_id],
                        )
                })
            }
        }),
{
    let start = add_begun(config, detection);
    lemma_moved(config, start, world, deeds);
    let task = through(start, deeds);
    if let Some(active) = config.active_id {
        config.lemma_index(active);
        if config.has(active) {
            let a = place(config);
            assert(is_active_at(config, a));
            assert(task.config.accounts[a].id == task.config.accounts[a].id);
        }
    }
}

/// Whether every account has a saved session of its own.
pub open spec fn sessions_are_there(config: ConfigModel, world: World) -> bool {
    &&& forall|k: int|
        0 <= k < config.accounts.len() ==> world.vault.dom().contains(
            (#[trigger] config.accounts[k]).vault_id,
        )
    &&& forall|i: int, j: int|
        0 <= i < j < config.accounts.len() ==> (#[trigger] config.accounts[i]).vault_id != (
        #[trigger] config.accounts[j]).vault_id
}

/// At every moment of a switch, and of making room for a new sign-in, each account in the settings
/// on disk has a saved session: the one that it had, or, for the active account with its own login
/// alone, the one that the clients left. So nothing is lost where the task is cut short.
pub proof fn no_saved_session_is_lost(
    config: ConfigModel,
    start: TaskModel,
    detection: DetectionModel,
    world: World,
    deeds: Seq<(TaskEventModel, World)>,
    k: int,
)
    requires
        start == add_begun(config, detection) || exists|id: u128|
            start == #[trigger] switch_begun(config, id, detection),
        world.is_untouched(config),
        sessions_are_there(config, world),
        performed(start, world, deeds),
        0 <= k < config.accounts.len(),
    ensures
        ({
            let end = reached(world, deeds);
            let vault = end.disk.accounts[k].vault_id;
            &&& end.disk.accounts.len() == config.accounts.len()
            &&& end.disk.accounts[k].id == config.accounts[k].id
            &&& end.vault.dom().contains(vault)
            &&& end.vault[vault] == world.vault[config.accounts[k].vault_id] || is_own_login(
                config,
                detection,
                k,
            ) && end.left == Some(Some(end.vault[vault]))
        }),
{
    if let Some(active) = config.active_id {
        config.lemma_index(active);
    }
    lemma_moved(config, start, world, deeds);
    let task = through(start, deeds);
    let end = reached(world, deeds);
    assert(end.disk.accounts[k].vault_id == config.accounts[k].vault_id || k == place(config));
}

/// A task never puts a session in place, and never saves one, that it does not hold; and it reads
/// only sessions that are there, if every account has one of its own.
pub proof fn task_uses_what_it_holds(
    config: ConfigModel,
    start: TaskModel,
    detection: DetectionModel,
    world: World,
    deeds: Seq<(TaskEventModel, World)>,
)
    requires
        start == add_begun(config, detection) || exists|id: u128|
            start == #[trigger] switch_begun(config, id, detection),
        world.is_untouched(config),
        sessions_are_there(config, world),
        performed(start, world, deeds),
    ensures
        ({
            let end = reached(world, deeds);
            match through(start, deeds).action() {
                TaskActionModel::Restore(slot) => end.held(slot) is Some,
                TaskActionModel::SaveSession(slot) => end.held(slot) is Some,
                TaskActionModel::Capture(_) => end.live is Some,
                TaskActionModel::ReadSession { vault, .. } => end.vault.dom().contains(vault),
                _ => true,
            }
        }),
{
    if let Some(active) = config.active_id {
        config.lemma_index(active);
    }
    if let Flow::Switch(id) = start.flow {
        config.lemma_index(id);
    }
    lemma_moved(config, start, world, deeds);
}

/// Where nothing fails, a switch to a saved account does not fail either, and neither does making
/// room for a new sign-in; unless the live login is another account's than the active one, or a
/// sign-in would be lost that no account is active for.
pub proof fn smooth_task_does_not_fail(
    config: ConfigModel,
    start: TaskModel,
    detection: DetectionModel,
    world: World,
    deeds: Seq<(TaskEventModel, World)>,
)
    requires
        start == add_begun(config, detection) && (config.active_id is None ==> world.live is None)
            || exists|id: u128, t: int|
            start == #[trigger] switch_begun(config, id, detection) && #[trigger] stands_at(
                config,
                id,
                t,
            ),
        world.live is Some ==> forall|a: int| !is_foreign_login(config, detection, a),
        world.is_untouched(config),
        performed(start, world, deeds),
        reached(world, deeds).smooth,
    ensures
        !(through(start, deeds).action() matches TaskActionModel::Finish(Err(_))),
{
    if let Some(active) = config.active_id {
        config.lemma_index(active);
        if config.has(active) {
            assert(!(world.live is Some) || !is_foreign_login(config, detection, place(config)));
        }
    }
    if let Flow::Switch(id) = start.flow {
        let (i, t) = choose|i: u128, t: int|
            start == #[trigger] switch_begun(config, i, detection) && #[trigger] stands_at(
                config,
                i,
                t,
            );
        lemma_stands_at(config, i, t);
    }
    lemma_moved(config, start, world, deeds);
}

spec fn deeds_left(step: StepModel) -> int {
    match step {
        StepModel::CheckGames => 24,
        StepModel::CheckUnsaved => 23,
        StepModel::ReadTarget { .. } => 23,
        StepModel::FindLauncher => 22,
        StepModel::Verify => 21,
        StepModel::StopClients => 20,
        StepModel::LookForPrevious => 19,
        StepModel::CapturePrevious => 18,
        StepModel::LookForRefresh => 17,
        StepModel::CaptureFresh => 16,
        StepModel::SaveFresh => 15,
        StepModel::Icon { .. } => 14,
        StepModel::SaveAccount { .. } => 13,
        StepModel::DropReplaced { .. } => 12,
        StepModel::RereadTarget { .. } => 11,
        StepModel::RestoreTarget => 10,
        StepModel::SaveSwitched { .. } => 9,
        StepModel::LaunchSelected { .. } => 8,
        StepModel::UndoLive { .. } => 7,
        StepModel::SaveUndone { .. } => 6,
        StepModel::ClearLive => 5,
        StepModel::SaveCleared { .. } => 4,
        StepModel::ReadUndo { .. } => 3,
        StepModel::RestoreUndo { .. } => 2,
        StepModel::SaveAdded { .. } => 2,
        StepModel::Done(_) => 0,
        _ => 1,
    }
}

/// Every task is over after at most twenty-four deeds, whatever comes of them.
pub proof fn every_task_ends(
    start: TaskModel,
    world: World,
    deeds: Seq<(TaskEventModel, World)>,
)
    requires
        start.wf(),
        performed(start, world, deeds),
    ensures
        deeds.len() <= 24,
        deeds.len() == 24 ==> through(start, deeds).action() is Finish,
{
    lemma_deeds_left(start, world, deeds);
}

proof fn lemma_deeds_left(start: TaskModel, world: World, deeds: Seq<(TaskEventModel, World)>)
    requires
        start.wf(),
        performed(start, world, deeds),
    ensures
        through(start, deeds).wf(),
        0 <= deeds_left(through(start, deeds).step) <= 24 - deeds.len(),
    decreases deeds.len(),
{
    if deeds.len() > 0 {
        let before = deeds.drop_last();
        let task = through(start, before);
        let (event, after) = deeds.last();
        lemma_deeds_left(start, world, before);
        task_stays_well_formed(task, event);
        lemma_fits(reached(world, before), task.config, task.action(), event, after);
        lemma_deed(task, event);
    }
}

spec fn fits(action: TaskActionModel, event: TaskEventModel) -> bool {
    match action {
        TaskActionModel::Inspect => event is Table,
        TaskActionModel::LookForLiveSession => event is Live,
        TaskActionModel::FindLauncher(_) => event is Found,
        TaskActionModel::StopClients => event is Stopped,
        TaskActionModel::SaveSession(_) => event is Saved,
        TaskActionModel::Finish(_) => false,
        _ => event is Finished,
    }
}

proof fn lemma_fits(
    world: World,
    config: ConfigModel,
    action: TaskActionModel,
    event: TaskEventModel,
    after: World,
)
    requires
        happens(world, config, action, event, after),
    ensures
        fits(action, event),
{
}

proof fn lemma_deed(task: TaskModel, event: TaskEventModel)
    requires
        fits(task.action(), event),
    ensures
        deeds_left(task.after(event).step) < deeds_left(task.step) || (task.step is RestoreTarget
            && !(task.flow is Switch)),
{
    if is_check(task.step) {
        lemma_checking_deed(task, event);
    } else if is_refresh(task.step) {
        lemma_keeping_deed(task, event);
    }
}

proof fn lemma_checking_deed(task: TaskModel, event: TaskEventModel)
    requires
        is_check(task.step),
        fits(task.action(), event),
    ensures
        deeds_left(task.after(event).step) < deeds_left(task.step),
{
}

proof fn lemma_keeping_deed(task: TaskModel, event: TaskEventModel)
    requires
        is_refresh(task.step),
        fits(task.action(), event),
    ensures
        deeds_left(task.after(event).step) < deeds_left(task.step),
{
}

spec fn account_before(origin: ConfigModel, identity: IdentityModel) -> int {
    crate::identity::known_from(origin.accounts, identity.puuid, 0)
}

spec fn was_known(origin: ConfigModel, identity: IdentityModel) -> bool {
    account_before(origin, identity) < origin.accounts.len()
}

spec fn vault_of(config: ConfigModel, origin: ConfigModel, identity: IdentityModel) -> u128 {
    config.accounts[account_before(origin, identity)].vault_id
}

spec fn icons_saved(
    icons: Map<u128, Seq<char>>,
    origin: ConfigModel,
    identity: IdentityModel,
    new_id: u128,
) -> Map<u128, Seq<char>> {
    if was_known(origin, identity) {
        icons_after(icons, origin.accounts[account_before(origin, identity)], identity)
    } else {
        match identity.icon_data_url {
            Some(url) => icons.insert(new_id, url),
            None => icons,
        }
    }
}

/// What holds at every moment of saving the account that is signed in.
spec fn adds(
    origin: ConfigModel,
    identity: IdentityModel,
    new_id: u128,
    world0: World,
    task: TaskModel,
    world: World,
) -> bool {
    let at = account_before(origin, identity);
    let vault = vault_of(task.config, origin, identity);
    let in_place = {
        &&& was_known(origin, identity)
        &&& task.config == completed(origin, identity, new_id, vault)
        &&& unsaved_session(world0, world, origin, vault)
    };
    &&& task.wf()
    &&& task.flow == Flow::CompleteAdd(new_id)
    &&& task.identity == Some(identity)
    &&& world.started is None
    &&& !world.torn
    &&& match task.step {
        StepModel::StopClients => world.left is None,
        StepModel::Done(Err(_)) => world.left matches Some(left) ==> world.live == left,
        _ => world.left == Some(world.live),
    }
    &&& match task.step {
        StepModel::StopClients | StepModel::CaptureFresh | StepModel::SaveFresh => {
            &&& task.config == origin
            &&& world.disk == origin
            &&& world.vault == world0.vault
            &&& world.icons == world0.icons
            &&& task.step is SaveFresh ==> world.fresh is Some && world.fresh == world.live
        },
        StepModel::Icon { at: k, before, old_active } => {
            &&& in_place && k == at && before == origin.accounts[at] && old_active
                == origin.active_id
            &&& world.disk == origin
            &&& world.icons == world0.icons
            &&& icon_after(before, identity) != IconChangeModel::Keep
        },
        StepModel::SaveAccount { at: k, before, old_active } => {
            &&& in_place && k == at && before == origin.accounts[at] && old_active
                == origin.active_id
            &&& world.disk == origin
            &&& world.smooth ==> world.icons == icons_saved(
                world0.icons,
                origin,
                identity,
                new_id,
            )
        },
        StepModel::SaveAdded { old_active } => {
            &&& !was_known(origin, identity) && old_active == origin.active_id
            &&& task.config == completed(origin, identity, new_id, vault)
            &&& unsaved_session(world0, world, origin, vault)
            &&& world.disk == origin
            &&& world.icons == world0.icons
        },
        StepModel::DropReplaced { vault: old } => {
            &&& in_place && old == origin.accounts[at].vault_id
            &&& world.disk == task.config
            &&& world.smooth ==> world.icons == icons_saved(
                world0.icons,
                origin,
                identity,
                new_id,
            )
        },
        StepModel::AddedIcon => {
            &&& !was_known(origin, identity)
            &&& task.config == completed(origin, identity, new_id, vault)
            &&& unsaved_session(world0, world, origin, vault)
            &&& world.disk == task.config
            &&& world.icons == world0.icons
            &&& identity.icon_data_url is Some
        },
        StepModel::Done(Ok(_)) => {
            &&& task.config == completed(origin, identity, new_id, vault)
            &&& if was_known(origin, identity) {
                renewed(world0, world, origin, at, vault)
            } else {
                unsaved_session(world0, world, origin, vault)
            }
            &&& world.disk == task.config
            &&& world.smooth ==> world.icons == icons_saved(
                world0.icons,
                origin,
                identity,
                new_id,
            )
        },
        StepModel::DropUnsaved { vault: new, .. } => {
            &&& task.config == origin
            &&& unsaved_session(world0, world, origin, new)
            &&& world.disk == origin
            &&& !world.smooth
        },
        StepModel::Done(Err(_)) => {
            &&& task.config == origin
            &&& world.disk == origin
            &&& world.vault == world0.vault || !world.smooth && exists|new: u128| #[trigger]
                unsaved_session(world0, world, origin, new)
            &&& world.smooth ==> completion_begun(origin, identity, new_id).step is Done
        },
        _ => false,
    }
}

proof fn lemma_adds(
    origin: ConfigModel,
    identity: IdentityModel,
    new_id: u128,
    world0: World,
    task: TaskModel,
    world: World,
    event: TaskEventModel,
    after: World,
)
    requires
        adds(origin, identity, new_id, world0, task, world),
        happens(world, task.config, task.action(), event, after),
    ensures
        adds(origin, identity, new_id, world0, task.after(event), after),
{
    let at = account_before(origin, identity);
    let next = task.after(event);
    task_stays_well_formed(task, event);
    lemma_known_from(origin.accounts, identity.puuid, 0);
    match task.step {
        StepModel::SaveFresh => {
            if let TaskEventModel::Saved(Ok(vault)) = event {
                assert(next.config == completed(origin, identity, new_id, vault));
                assert(vault_of(next.config, origin, identity) == vault);
            }
        },
        StepModel::SaveAccount { before, .. } => {
            if event matches TaskEventModel::Finished(Err(_)) {
                assert(next.config.accounts =~= origin.accounts);
            }
        },
        StepModel::SaveAdded { .. } => {
            if event matches TaskEventModel::Finished(Err(_)) {
                assert(next.config.accounts =~= origin.accounts);
            }
        },
        StepModel::DropUnsaved { vault, .. } => {
            if event matches TaskEventModel::Finished(Ok(_)) {
                assert(after.vault =~= world0.vault);
            } else {
                assert(unsaved_session(world0, after, origin, vault));
            }
        },
        _ => {},
    }
}

proof fn lemma_added(
    origin: ConfigModel,
    identity: IdentityModel,
    new_id: u128,
    world0: World,
    deeds: Seq<(TaskEventModel, World)>,
)
    requires
        world0.is_untouched(origin),
        performed(completion_begun(origin, identity, new_id), world0, deeds),
    ensures
        adds(
            origin,
            identity,
            new_id,
            world0,
            through(completion_begun(origin, identity, new_id), deeds),
            reached(world0, deeds),
        ),
    decreases deeds.len(),
{
    if deeds.len() > 0 {
        let before = deeds.drop_last();
        lemma_added(origin, identity, new_id, world0, before);
        lemma_adds(
            origin,
            identity,
            new_id,
            world0,
            through(completion_begun(origin, identity, new_id), before),
            reached(world0, before),
            deeds.last().0,
            deeds.last().1,
        );
    }
}

/// Whether the account number `k` is the one that saving an identity leaves active, with the saved
/// session: it is known by the PUUID and shows the Riot ID of the identity. Where an account was
/// known by the PUUID it is the first such one, with its id; else it is a new one behind all
/// others, with the id `new_id`.
pub open spec fn is_saved_account(
    before: ConfigModel,
    after: ConfigModel,
    identity: IdentityModel,
    new_id: u128,
    k: int,
) -> bool {
    let account = after.accounts[k];
    &&& 0 <= k < after.accounts.len()
    &&& after.active_id == Some(account.id)
    &&& account.puuid == Some(identity.puuid)
    &&& account.game_name == Some(identity.game_name)
    &&& account.tag_line == Some(identity.tag_line)
    &&& identity.platform is Some ==> account.platform == identity.platform
    &&& identity.region is Some ==> account.region == identity.region
    &&& identity.profile_icon_id is Some ==> account.profile_icon_id == identity.profile_icon_id
    &&& if k < before.accounts.len() {
        &&& before.accounts[k].puuid == Some(identity.puuid)
        &&& account.id == before.accounts[k].id
        &&& account.name == before.accounts[k].name
        &&& after.accounts.len() == before.accounts.len()
    } else {
        &&& account.id == new_id
        &&& account.nickname is None
        &&& account.name == identity.game_name + "#"@ + identity.tag_line
        &&& after.accounts.len() == before.accounts.len() + 1
        &&& forall|j: int|
            0 <= j < before.accounts.len() ==> (#[trigger] before.accounts[j]).puuid != Some(
                identity.puuid,
            )
    }
}

/// Saving the account that is signed in, once it succeeds, has one account active that is known by
/// the identity that was saved, and that account's saved session is the one that the clients left.
/// All other accounts and their sessions are as they were, the settings on disk are the new ones,
/// the live session stays in place and nothing was started. Where nothing failed an image that came
/// with the identity is cached for the account.
///
/// Where it fails the settings, on disk too, are as they were, and so is the live session; and so
/// are the saved sessions, unless removing the new one again failed.
pub proof fn signed_in_account_is_saved(
    config: ConfigModel,
    identity: IdentityModel,
    new_id: u128,
    world: World,
    deeds: Seq<(TaskEventModel, World)>,
)
    requires
        world.is_untouched(config),
        performed(completion_begun(config, identity, new_id), world, deeds),
    ensures
        ({
            let task = through(completion_begun(config, identity, new_id), deeds);
            let end = reached(world, deeds);
            &&& end.started is None
            &&& end.left matches Some(left) ==> end.live == left
            &&& match task.action() {
                TaskActionModel::SaveSession(slot) => end.held(slot) is Some,
                TaskActionModel::Finish(Ok(_)) => {
                    &&& end.disk == task.config
                    &&& exists|k: int|
                        {
                            let vault = task.config.accounts[k].vault_id;
                            &&& #[trigger] is_saved_account(
                                config,
                                task.config,
                                identity,
                                new_id,
                                k,
                            )
                            &&& end.vault.dom().contains(vault)
                            &&& end.left == Some(Some(end.vault[vault]))
                            &&& forall|j: int|
                                0 <= j < config.accounts.len() && j != k ==> #[trigger]
                                task.config.accounts[j] == config.accounts[j]
                            &&& forall|v: u128|
                                world.vault.dom().contains(v) && (k < config.accounts.len() ==> v
                                    != config.accounts[k].vault_id) ==> #[trigger]
                                end.vault.dom().contains(v) && end.vault[v] == world.vault[v]
                            &&& end.smooth && (identity.icon_data_url is Some)
                                ==> end.icons.dom().contains(task.config.accounts[k].id)
                                && end.icons[task.config.accounts[k].id]
                                == identity.icon_data_url->Some_0
                        }
                },
                TaskActionModel::Finish(Err(_)) => {
                    &&& task.config == config
                    &&& end.disk == config
                    &&& end.smooth ==> end.vault == world.vault
                    &&& forall|v: u128| #[trigger]
                        world.vault.dom().contains(v) ==> end.vault.dom().contains(v)
                            && end.vault[v] == world.vault[v]
                },
                _ => true,
            }
        }),
{
    lemma_added(config, identity, new_id, world, deeds);
    lemma_known_from(config.accounts, identity.puuid, 0);
    let task = through(completion_begun(config, identity, new_id), deeds);
    let end = reached(world, deeds);
    let k = account_before(config, identity);
    if task.action() matches TaskActionModel::Finish(Ok(_)) {
        assert(is_saved_account(config, task.config, identity, new_id, k));
    }
}

/// Where nothing fails, saving the account that is signed in fails only for an identity without a
/// PUUID, or for one whose Riot ID an account shows while none is known by its PUUID.
pub proof fn smooth_addition_does_not_fail(
    config: ConfigModel,
    identity: IdentityModel,
    new_id: u128,
    world: World,
    deeds: Seq<(TaskEventModel, World)>,
)
    requires
        crate::text::trimmed(identity.puuid).len() > 0,
        (exists|k: int|
            0 <= k < config.accounts.len() && (#[trigger] config.accounts[k]).puuid == Some(
                identity.puuid,
            )) || forall|k: int|
            0 <= k < config.accounts.len() ==> ((#[trigger] config.accounts[k]).riot_id() matches Some(
                shown,
            ) ==> !crate::text::same_folded(shown, identity.game_name + "#"@ + identity.tag_line)),
        world.is_untouched(config),
        performed(completion_begun(config, identity, new_id), world, deeds),
        reached(world, deeds).smooth,
    ensures
        !(through(
            completion_begun(config, identity, new_id),
            deeds,
        ).action() matches TaskActionModel::Finish(Err(_))),
{
    lemma_added(config, identity, new_id, world, deeds);
    lemma_known_from(config.accounts, identity.puuid, 0);
}

spec fn stays_away(task: TaskModel, config: ConfigModel, detection: DetectionModel) -> bool {
    &&& task.config == config
    &&& task.identity == detected(detection)
    &&& match task.step {
        StepModel::CheckGames => true,
        StepModel::ReadTarget { .. } => true,
        StepModel::FindLauncher => true,
        StepModel::Verify => true,
        StepModel::Done(Err(_)) => true,
        _ => false,
    }
}

/// While the live login is another account's than the active one, nothing is stopped, saved,
/// replaced or started: neither a switch nor making room for a new sign-in gets that far, and
/// neither succeeds.
pub proof fn foreign_login_is_left_alone(
    config: ConfigModel,
    start: TaskModel,
    detection: DetectionModel,
    world: World,
    deeds: Seq<(TaskEventModel, World)>,
    a: int,
)
    requires
        start == add_begun(config, detection) || exists|id: u128|
            start == #[trigger] switch_begun(config, id, detection),
        is_foreign_login(config, detection, a),
        world.is_untouched(config),
        world.live is Some,
        performed(start, world, deeds),
    ensures
        ({
            let end = reached(world, deeds);
            &&& end.live == world.live
            &&& end.vault == world.vault
            &&& end.disk == config
            &&& end.icons == world.icons
            &&& end.started is None
            &&& match through(start, deeds).action() {
                TaskActionModel::Inspect => true,
                TaskActionModel::ReadSession { .. } => true,
                TaskActionModel::FindLauncher(_) => true,
                TaskActionModel::LookForLiveSession => true,
                TaskActionModel::Finish(Err(_)) => true,
                _ => false,
            }
        }),
{
    lemma_stays_away(config, start, detection, world, deeds, a);
}

proof fn lemma_stays_away(
    config: ConfigModel,
    start: TaskModel,
    detection: DetectionModel,
    world: World,
    deeds: Seq<(TaskEventModel, World)>,
    a: int,
)
    requires
        start == add_begun(config, detection) || exists|id: u128|
            start == #[trigger] switch_begun(config, id, detection),
        is_foreign_login(config, detection, a),
        world.is_untouched(config),
        world.live is Some,
        performed(start, world, deeds),
    ensures
        stays_away(through(start, deeds), config, detection),
        reached(world, deeds).live == world.live,
        reached(world, deeds).vault == world.vault,
        reached(world, deeds).disk == config,
        reached(world, deeds).icons == world.icons,
        reached(world, deeds).started is None,
    decreases deeds.len(),
{
    lemma_stands_at(config, config.active_id->Some_0, a);
    if deeds.len() > 0 {
        lemma_stays_away(config, start, detection, world, deeds.drop_last(), a);
    }
}

/// A sign-in without a PUUID is not saved, and neither is one whose Riot ID an account shows while
/// none is known by its PUUID: nothing at all is done, and the refusal says why.
pub proof fn doubtful_login_is_not_saved(config: ConfigModel, identity: IdentityModel, new_id: u128)
    ensures
        crate::text::trimmed(identity.puuid).len() == 0 ==> (completion_begun(
            config,
            identity,
            new_id,
        ).action() matches TaskActionModel::Finish(Err(failure)) && failure.detail
            == "Could not read account identity. Make sure Riot Client is signed in."@),
        crate::text::trimmed(identity.puuid).len() > 0 && (exists|k: int|
            0 <= k < config.accounts.len() && ((#[trigger] config.accounts[k]).riot_id() matches Some(
                shown,
            ) && crate::text::same_folded(shown, identity.game_name + "#"@ + identity.tag_line)))
            && (forall|k: int|
            0 <= k < config.accounts.len() ==> (#[trigger] config.accounts[k]).puuid != Some(
                identity.puuid,
            )) ==> (completion_begun(config, identity, new_id).action() matches TaskActionModel::Finish(
            Err(failure),
        ) && failure.detail
            == "An account with this Riot ID is already saved, but its account identifier differs. Swapper will not create a duplicate or overwrite that saved session automatically."@),
{
    lemma_known_from(config.accounts, identity.puuid, 0);
    if exists|k: int|
        0 <= k < config.accounts.len() && ((#[trigger] config.accounts[k]).riot_id() matches Some(
            shown,
        ) && crate::text::same_folded(shown, identity.game_name + "#"@ + identity.tag_line)) {
        let k = choose|k: int|
            0 <= k < config.accounts.len() && ((#[trigger] config.accounts[k]).riot_id() matches Some(
                shown,
            ) && crate::text::same_folded(shown, identity.game_name + "#"@ + identity.tag_line));
        if config.accounts[k].puuid != Some(identity.puuid) {
            assert(super::conflicts(config.accounts[k], identity));
        }
    }
}

} // verus!
