use swapper::identity::{DetectedIdentity, Detection, IconChange};
use swapper::riot::settings::{
    chosen_path, remove_account, save_settings, set_nickname, undo_nickname, undo_removal,
    undo_settings,
};
use swapper::riot::task::{
    begin_add, complete_add, complete_add_as, switch_account, RiotTask, Step, TaskAction, TaskEvent,
};
use swapper::riot::{
    begin_client_stop, conflicting_riot_id, deceive_path, ensure_no_game, identity_safe_for, is_exe,
    mismatch_message, riot_path, stop_clients, switch_failure, verified_live_identity, ExeSource,
    Launcher, ProcessStateError, SwitchFailure, SwitchFailureKind,
};
use swapper::vault::{Account, Config};
use swapper::windows::process::{ProcessRef, SnapshotError, WindowRef};
use swapper::windows::stop::{StopAction, StopError, StopEvent, StopReport};
use uuid::Uuid;

fn identity(puuid: &str) -> DetectedIdentity {
    DetectedIdentity {
        puuid: puuid.into(),
        game_name: "Example".into(),
        tag_line: "ABC".into(),
        platform: Some("EUW1".into()),
        region: Some("EUW".into()),
        profile_icon_id: None,
        icon_data_url: None,
    }
}

fn account(puuid: Option<&str>) -> Account {
    Account {
        id: Uuid::new_v4().as_u128(),
        name: "Example#TAG".into(),
        puuid: puuid.map(str::to_string),
        game_name: Some("Example".into()),
        tag_line: Some("TAG".into()),
        platform: Some("EUW1".into()),
        region: Some("EUW".into()),
        profile_icon_id: None,
        nickname: None,
        vault_id: Uuid::new_v4().as_u128(),
    }
}

fn numbered(id: u128, puuid: &str, vault_id: u128) -> Account {
    Account { id, vault_id, ..account(Some(puuid)) }
}

fn two_accounts() -> Config {
    Config {
        accounts: vec![numbered(1, "PUUID-A", 11), numbered(2, "PUUID-B", 22)],
        active_id: Some(1),
        ..Config::default()
    }
}

/// What a task asks for, with the same answers every time but for one step.
fn drive<'a>(
    mut task: RiotTask<'a>,
    live: bool,
    fail_at: &str,
) -> (Vec<String>, Result<(), SwitchFailure>, Config) {
    let mut asked = Vec::new();
    loop {
        let name = match task.action() {
            TaskAction::Inspect => "inspect".to_string(),
            TaskAction::LookForLiveSession => "live".to_string(),
            TaskAction::ReadSession { vault, .. } => format!("read {vault}"),
            TaskAction::FindLauncher(_) => "find".to_string(),
            TaskAction::StopClients => "stop".to_string(),
            TaskAction::Capture(slot) => format!("capture {slot:?}"),
            TaskAction::SaveSession(_) => "save session".to_string(),
            TaskAction::RemoveSession(vault) => format!("remove {vault}"),
            TaskAction::Restore(slot) => format!("restore {slot:?}"),
            TaskAction::ClearLive => "clear".to_string(),
            TaskAction::SaveConfig => "save config".to_string(),
            TaskAction::UpdateIcon { account, .. } => format!("icon {account}"),
            TaskAction::Launch(launcher) => format!("launch {launcher:?}"),
            TaskAction::Finish(_) => break,
        };
        let fails = name == fail_at;
        let done = if fails { Err("broken".to_string()) } else { Ok(()) };
        let event = match task.action() {
            TaskAction::Inspect => {
                let image = if fails { "leagueoflegends.exe" } else { "explorer.exe" };
                TaskEvent::Table(Ok(vec![ProcessRef { pid: 1, image: image.to_string() }]))
            }
            TaskAction::LookForLiveSession => TaskEvent::Live(Ok(live)),
            TaskAction::FindLauncher(_) => TaskEvent::Found(!fails),
            TaskAction::StopClients => TaskEvent::Stopped(if fails {
                Err(ProcessStateError::ClientStillRunning)
            } else {
                Ok(())
            }),
            TaskAction::SaveSession(_) => TaskEvent::Saved(done.map(|()| 99)),
            _ => TaskEvent::Finished(done),
        };
        asked.push(name);
        task.handle(event);
    }
    let result = match task.step {
        Step::Done(result) => result,
        _ => unreachable!(),
    };
    (asked, result, task.config)
}

#[test]
fn matching_puuid_is_safe_to_refresh() {
    let active = account(Some("PUUID-A"));
    assert!(identity_safe_for(&active, &identity("PUUID-A")));
}

#[test]
fn different_live_account_is_never_safe_to_refresh() {
    let active = account(Some("PUUID-A"));
    assert!(!identity_safe_for(&active, &identity("PUUID-B")));
}

#[test]
fn legacy_account_is_not_safe_to_refresh_from_an_unproven_login() {
    let active = account(None);
    assert!(!identity_safe_for(&active, &identity("PUUID-A")));
}

#[test]
fn same_riot_id_with_different_puuid_is_a_duplicate_conflict() {
    let mut saved = account(Some("OLD-PUUID"));
    saved.game_name = Some("Example".into());
    saved.tag_line = Some("ABC".into());
    let config = Config { accounts: vec![saved], ..Config::default() };

    assert!(conflicting_riot_id(&config, &identity("NEW-PUUID")));
    assert!(!conflicting_riot_id(&config, &identity("OLD-PUUID")));
}

#[test]
fn a_switch_refreshes_the_active_account_and_restores_the_target() {
    let detection = Detection::Identified(identity("PUUID-A"));
    let (asked, result, config) = drive(switch_account(two_accounts(), 2, &detection), true, "");
    assert!(result.is_ok());
    assert_eq!(
        asked,
        vec![
            "inspect",
            "read 22",
            "find",
            "live",
            "stop",
            "live",
            "capture Previous",
            "live",
            "capture Fresh",
            "save session",
            "save config",
            "remove 11",
            "restore Target",
            "save config",
            "launch League",
        ]
    );
    assert_eq!(config.active_id, Some(2));
    assert_eq!(config.accounts[0].vault_id, 99);
    assert_eq!(config.accounts[0].tag_line.as_deref(), Some("ABC"));
    assert_eq!(config.accounts[1].vault_id, 22);
}

#[test]
fn switching_to_the_active_account_reads_its_fresh_session() {
    let detection = Detection::Identified(identity("PUUID-A"));
    let (asked, result, _) = drive(switch_account(two_accounts(), 1, &detection), true, "");
    assert!(result.is_ok());
    assert!(asked.contains(&"read 11".to_string()));
    assert!(asked.contains(&"read 99".to_string()));
}

#[test]
fn another_live_login_stops_the_switch_before_anything_is_touched() {
    let detection = Detection::Identified(identity("PUUID-B"));
    let (asked, result, config) = drive(switch_account(two_accounts(), 2, &detection), true, "");
    let failure = result.unwrap_err();
    assert_eq!(failure.kind, SwitchFailureKind::Other);
    assert_eq!(failure.detail, mismatch_message(&config.accounts[0]));
    assert_eq!(asked, vec!["inspect", "read 22", "find", "live"]);
    assert_eq!(config.active_id, Some(1));
}

#[test]
fn an_unverified_login_never_overwrites_a_saved_session() {
    let (asked, result, config) =
        drive(switch_account(two_accounts(), 2, &Detection::Unavailable), true, "");
    assert!(result.is_ok());
    assert!(!asked.contains(&"save session".to_string()));
    assert_eq!(config.accounts[0].vault_id, 11);
}

#[test]
fn refused_switches_say_why() {
    let detection = Detection::NotRunning;
    let kind = |fail_at: &str| {
        let (_, result, config) = drive(switch_account(two_accounts(), 2, &detection), false, fail_at);
        assert_eq!(config.active_id, Some(1));
        result.unwrap_err().kind
    };
    assert_eq!(kind("inspect"), SwitchFailureKind::GameRunning);
    assert_eq!(kind("read 22"), SwitchFailureKind::SessionRestore);
    assert_eq!(kind("find"), SwitchFailureKind::LauncherMissing);
    assert_eq!(kind("stop"), SwitchFailureKind::ClientBusy);
    assert_eq!(kind("restore Target"), SwitchFailureKind::SessionRestore);
    assert_eq!(kind("save config"), SwitchFailureKind::Other);
    assert_eq!(kind("launch League"), SwitchFailureKind::Launch);
    let (_, result, _) = drive(switch_account(two_accounts(), 3, &detection), false, "");
    assert_eq!(result.unwrap_err().kind, SwitchFailureKind::AccountMissing);
}

#[test]
fn a_failed_restore_puts_the_live_session_back() {
    let (asked, result, _) =
        drive(switch_account(two_accounts(), 2, &Detection::NotReady), true, "restore Target");
    assert_eq!(result.unwrap_err().detail, "Could not restore account: broken");
    assert_eq!(asked.last().map(String::as_str), Some("restore Previous"));
    let (asked, _, _) =
        drive(switch_account(two_accounts(), 2, &Detection::NotReady), false, "restore Target");
    assert_eq!(asked.last().map(String::as_str), Some("clear"));
}

#[test]
fn a_failed_launch_puts_the_active_account_back() {
    let (asked, _, config) =
        drive(switch_account(two_accounts(), 2, &Detection::NotReady), true, "launch League");
    assert_eq!(&asked[asked.len() - 2..], ["restore Previous", "save config"]);
    assert_eq!(config.active_id, Some(1));
}

#[test]
fn an_unreadable_table_is_its_own_refusal() {
    let detection = Detection::NotReady;
    let mut task = switch_account(two_accounts(), 2, &detection);
    task.handle(TaskEvent::Table(Err(SnapshotError { code: 5 })));
    assert!(matches!(
        task.action(),
        TaskAction::Finish(Err(SwitchFailure { kind: SwitchFailureKind::InspectionFailed, .. }))
    ));
}

#[test]
fn room_for_a_new_sign_in_is_made_last() {
    let detection = Detection::Identified(identity("PUUID-A"));
    let (asked, result, config) = drive(begin_add(two_accounts(), &detection), true, "");
    assert!(result.is_ok());
    assert_eq!(config.active_id, None);
    assert_eq!(&asked[asked.len() - 3..], ["clear", "save config", "launch Riot"]);
    let unsaved = Config { active_id: None, ..two_accounts() };
    let (asked, result, _) = drive(begin_add(unsaved, &detection), true, "");
    assert_eq!(asked, vec!["inspect", "live"]);
    assert_eq!(
        result.unwrap_err().detail,
        "Save the current Riot sign-in first, then start a new account."
    );
}

#[test]
fn an_unsaved_clearing_is_taken_back() {
    let (asked, result, config) =
        drive(begin_add(two_accounts(), &Detection::NotReady), false, "save config");
    assert_eq!(result.unwrap_err().detail, "broken");
    assert_eq!(config.active_id, Some(1));
    assert_eq!(&asked[asked.len() - 2..], ["read 11", "restore Target"]);
}

#[test]
fn a_vanished_active_account_leaves_no_orphan() {
    let detection = Detection::Identified(identity("PUUID-A"));
    let mut task = begin_add(two_accounts(), &detection);
    task.config.active_id = Some(1);
    task.verified = true;
    task.step = Step::SaveFresh;
    task.config.accounts.remove(0);
    task.handle(TaskEvent::Saved(Ok(99)));
    assert!(matches!(task.action(), TaskAction::RemoveSession(99)));
    task.handle(TaskEvent::Finished(Ok(())));
    assert!(matches!(
        task.action(),
        TaskAction::Finish(Err(failure)) if failure.detail == "Active account is missing from Swapper settings"
    ));
}

#[test]
fn a_new_account_is_added_once() {
    let mut fresh = identity("PUUID-C");
    fresh.icon_data_url = Some("data:image/png;base64,AA==".into());
    let (asked, result, config) = drive(complete_add_as(two_accounts(), &fresh, 7), true, "");
    assert!(result.is_ok());
    assert_eq!(asked, vec!["stop", "capture Fresh", "save session", "save config", "icon 7"]);
    assert_eq!(config.accounts.len(), 3);
    assert_eq!(config.accounts[2].id, 7);
    assert_eq!(config.accounts[2].name, "Example#ABC");
    assert_eq!(config.accounts[2].vault_id, 99);
    assert_eq!(config.active_id, Some(7));
    let (_, result, config) = drive(complete_add_as(two_accounts(), &fresh, 7), true, "save config");
    assert!(result.is_err());
    assert_eq!(config.accounts.len(), 2);
    assert_eq!(config.active_id, Some(1));
}

#[test]
fn new_accounts_get_ids_of_their_own() {
    let fresh = identity("PUUID-C");
    let (_, _, first) = drive(complete_add(two_accounts(), &fresh), true, "");
    let (_, _, second) = drive(complete_add(two_accounts(), &fresh), true, "");
    let id = Uuid::from_u128(first.accounts[2].id);
    assert_eq!(id.get_version_num(), 4);
    assert_eq!(first.active_id, Some(first.accounts[2].id));
    assert_ne!(first.accounts[2].id, second.accounts[2].id);
}

#[test]
fn a_known_account_is_refreshed_in_place() {
    let mut known = identity("PUUID-B");
    known.profile_icon_id = Some(5);
    let (asked, result, config) = drive(complete_add_as(two_accounts(), &known, 7), true, "");
    assert!(result.is_ok());
    assert_eq!(
        asked,
        vec!["stop", "capture Fresh", "save session", "icon 2", "save config", "remove 22"]
    );
    assert_eq!(config.accounts.len(), 2);
    assert_eq!(config.accounts[1].vault_id, 99);
    assert_eq!(config.active_id, Some(2));
    let (asked, _, config) = drive(complete_add_as(two_accounts(), &known, 7), true, "save config");
    assert_eq!(asked.last().map(String::as_str), Some("remove 99"));
    assert_eq!(config.accounts[1].vault_id, 22);
    assert_eq!(config.accounts[1].profile_icon_id, None);
    assert_eq!(config.active_id, Some(1));
}

#[test]
fn doubtful_additions_are_refused() {
    let (asked, result, _) = drive(complete_add_as(two_accounts(), &identity("  "), 7), true, "");
    assert!(asked.is_empty());
    assert_eq!(
        result.unwrap_err().detail,
        "Could not read account identity. Make sure Riot Client is signed in."
    );
    let mut same_name = identity("PUUID-C");
    same_name.tag_line = "tag".into();
    let (asked, result, _) = drive(complete_add_as(two_accounts(), &same_name, 7), true, "");
    assert!(asked.is_empty());
    assert!(result.unwrap_err().detail.starts_with("An account with this Riot ID is already saved"));
}

#[test]
fn image_changes_are_handed_out() {
    let mut known = identity("PUUID-B");
    known.icon_data_url = Some("data:image/png;base64,AA==".into());
    let mut task = complete_add_as(two_accounts(), &known, 7);
    task.handle(TaskEvent::Stopped(Ok(())));
    task.handle(TaskEvent::Finished(Ok(())));
    task.handle(TaskEvent::Saved(Ok(99)));
    assert!(matches!(
        task.action(),
        TaskAction::UpdateIcon { account: 2, change: IconChange::Save("data:image/png;base64,AA==") }
    ));
    task.handle(TaskEvent::Live(Ok(true)));
    assert!(matches!(task.action(), TaskAction::UpdateIcon { .. }));
}

#[test]
fn live_logins_are_verified_against_the_active_account() {
    let config = two_accounts();
    let own = identity("PUUID-A");
    let other = identity("PUUID-B");
    assert_eq!(verified_live_identity(&config, Some(&own), true), Ok(true));
    assert_eq!(verified_live_identity(&config, Some(&own), false), Ok(false));
    assert_eq!(verified_live_identity(&config, None, true), Ok(false));
    assert!(verified_live_identity(&config, Some(&other), true).is_err());
    let mut legacy = two_accounts();
    legacy.accounts[0].puuid = None;
    assert_eq!(verified_live_identity(&legacy, Some(&other), true), Ok(false));
    legacy.active_id = Some(9);
    assert_eq!(verified_live_identity(&legacy, Some(&other), true), Ok(false));
    legacy.active_id = None;
    assert_eq!(verified_live_identity(&legacy, Some(&other), true), Ok(false));
}

#[test]
fn process_refusals_are_explained() {
    let game = vec![ProcessRef { pid: 1, image: "valorant-win64-shipping.EXE".into() }];
    assert_eq!(ensure_no_game(Ok(game)), Err(ProcessStateError::GameRunning));
    assert_eq!(ensure_no_game(Ok(Vec::new())), Ok(()));
    let failed = SnapshotError { code: 5 };
    assert_eq!(ensure_no_game(Err(failed)), Err(ProcessStateError::InspectionFailed(failed)));
    assert_eq!(
        ProcessStateError::InspectionFailed(failed).message(),
        "Swapper could not verify which Riot processes are running (process enumeration failed (win32 error 5)). No account or session data was changed - try again."
    );
    assert_eq!(
        ProcessStateError::GameRunning.message(),
        "Close the running Riot game before switching accounts."
    );
    assert_eq!(stop_clients(Ok(StopReport::default())), Ok(()));
    assert_eq!(
        stop_clients(Err(StopError::ForbiddenPresent)),
        Err(ProcessStateError::GameRunning)
    );
    assert_eq!(
        stop_clients(Err(StopError::StillRunning(Vec::new()))),
        Err(ProcessStateError::ClientStillRunning)
    );
    assert_eq!(
        stop_clients(Err(StopError::EnumerationFailed(failed))),
        Err(ProcessStateError::InspectionFailed(failed))
    );
    assert_eq!(
        switch_failure(ProcessStateError::ClientStillRunning).kind,
        SwitchFailureKind::ClientBusy
    );
    assert_eq!(SwitchFailure::from("x".to_string()).kind, SwitchFailureKind::Other);
}

#[test]
fn executables_are_recognised_by_name() {
    assert!(is_exe(true, Some("riotclientservices.EXE"), "RiotClientServices.exe"));
    assert!(!is_exe(false, Some("RiotClientServices.exe"), "RiotClientServices.exe"));
    assert!(!is_exe(true, None, "x"));
    assert_eq!(riot_path()[0], ExeSource::Configured);
    assert_eq!(deceive_path()[0], ExeSource::Bundled);
    assert_eq!(deceive_path().len(), 5);
    assert_eq!(Launcher::Deceive.arguments(), vec!["lol"]);
    assert_eq!(Launcher::selected(false), Launcher::League);
    assert_eq!(Launcher::League.arguments().len(), 2);
    assert!(Launcher::Riot.arguments().is_empty());
}

#[test]
fn nicknames_are_bounded_unique_and_undone() {
    let mut config = two_accounts();
    assert_eq!(set_nickname(&mut config, 1, " Main "), Ok(None));
    assert_eq!(config.accounts[0].nickname.as_deref(), Some("Main"));
    assert_eq!(
        set_nickname(&mut config, 2, "main"),
        Err("An account with this name already exists.".to_string())
    );
    assert_eq!(
        set_nickname(&mut config, 1, &"x".repeat(41)),
        Err("Nickname must be 40 characters or fewer.".to_string())
    );
    assert!(set_nickname(&mut config, 2, &"é".repeat(40)).is_ok());
    assert_eq!(
        set_nickname(&mut config, 9, "new"),
        Err("Account no longer exists".to_string())
    );
    let previous = set_nickname(&mut config, 1, "  ").unwrap();
    assert_eq!(config.accounts[0].nickname, None);
    undo_nickname(&mut config, 1, previous);
    assert_eq!(config.accounts[0].nickname.as_deref(), Some("Main"));
}

#[test]
fn removals_are_undone() {
    let mut config = two_accounts();
    let removal = remove_account(&mut config, 1).unwrap_or_else(|message| panic!("{message}"));
    assert_eq!(config.active_id, None);
    assert_eq!(config.accounts.len(), 1);
    undo_removal(&mut config, removal);
    assert_eq!(config.active_id, Some(1));
    assert_eq!(config.accounts[0].id, 1);
    assert!(remove_account(&mut config, 9).is_err());
    let kept = remove_account(&mut config, 2);
    assert!(kept.is_ok());
    assert_eq!(config.active_id, Some(1));
}

#[test]
fn launcher_settings_are_checked_and_undone() {
    let mut config = two_accounts();
    let path = chosen_path(Some("C:\\R.exe".into()));
    assert_eq!(
        save_settings(&mut config, false, path, false, true),
        Err("Choose a valid RiotClientServices.exe path.".to_string())
    );
    assert_eq!(
        save_settings(&mut config, true, None, false, false),
        Err("Bundled Deceive.exe was not found. Reinstall Swapper.".to_string())
    );
    let previous = save_settings(&mut config, true, Some("C:\\R.exe".into()), true, true).unwrap();
    assert!(config.use_deceive);
    undo_settings(&mut config, previous);
    assert!(!config.use_deceive);
    assert_eq!(config.riot_exe, None);
    assert_eq!(chosen_path(Some("  ".into())), None);
}

#[test]
fn a_blank_path_stands_for_none() {
    for usable in [false, true] {
        let mut config = two_accounts();
        config.riot_exe = Some("C:\\old.exe".into());
        let previous = save_settings(&mut config, false, Some(" \t".into()), usable, false);
        assert_eq!(previous, Ok((false, Some("C:\\old.exe".to_string()))));
        assert_eq!(config.riot_exe, None);
    }
}

fn running(pid: u32, image: &str) -> ProcessRef {
    ProcessRef { pid, image: image.into() }
}

#[test]
fn the_client_stop_goes_for_the_clients_alone() {
    let mut run = begin_client_stop();
    assert_eq!(run.action(), StopAction::Inspect);
    let table = vec![
        running(4, "explorer.exe"),
        running(5, "riotclientservices.EXE"),
        running(6, "Deceive.exe"),
    ];
    run.handle(StopEvent::Table(Ok(table.clone())), 1);
    assert_eq!(run.action(), StopAction::RequestClose(vec![5]));
    let windows = vec![WindowRef { pid: 5, owned: false }, WindowRef { pid: 4, owned: false }];
    run.handle(StopEvent::Reached(windows.clone()), 2);
    assert_eq!(run.action(), StopAction::RequestClose(vec![6]));
    run.handle(StopEvent::Reached(windows), 3);
    assert_eq!(run.action(), StopAction::AwaitExit { delivered: &[5], nanos: 1_500_000_000 });
    run.handle(StopEvent::Waited, 4);
    for at in [5u128, 7] {
        run.handle(StopEvent::Table(Ok(table.clone())), at);
        assert_eq!(
            run.action(),
            StopAction::ForceKill {
                images: vec!["riotclientservices.EXE".to_string(), "Deceive.exe".to_string()],
                pids: vec![5, 6],
                nanos: 2_000_000_000,
            }
        );
        run.handle(StopEvent::Waited, at + 1);
    }
    run.handle(StopEvent::Table(Ok(table)), 9);
    assert!(matches!(run.action(), StopAction::Finish(Err(StopError::StillRunning(_)))));
}

#[test]
fn a_game_keeps_the_clients_from_being_stopped() {
    for game in
        ["League of Legends.exe", "leagueoflegends.exe", "VALORANT-Win64-Shipping.exe"]
    {
        let mut run = begin_client_stop();
        let table = vec![running(5, "LeagueClient.exe"), running(6, game)];
        run.handle(StopEvent::Table(Ok(table)), 1);
        assert_eq!(run.action(), StopAction::Finish(Err(&StopError::ForbiddenPresent)));
    }
}
