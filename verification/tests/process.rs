use swapper::windows::process::{
    advance, alive, any_running, count_top_level_windows, image_for_pid, kill_arguments, matching,
    post_wm_close, unique_images, utf16, ProcessRef, SnapshotError, WindowRef, ERROR_NO_MORE_FILES,
};
use swapper::windows::stop::{
    ensure_forbidden_absent, stop_images, StopAction, StopError, StopEvent, StopOptions, StopReport,
};
use swapper::windows::wait::{wait_for_exit, wait_ms, WaitAction, WaitEvent, WaitState};

fn process(pid: u32, image: &str) -> ProcessRef {
    ProcessRef { pid, image: image.to_string() }
}

fn window(pid: u32) -> WindowRef {
    WindowRef { pid, owned: false }
}

/// Drives a stop with an inspection step and counts the force kills.
fn drive(
    inspect: &mut dyn FnMut() -> Result<Vec<ProcessRef>, SnapshotError>,
    windows: &[WindowRef],
    targets: &[&str],
    forbidden: &[&str],
    options: StopOptions,
) -> (Result<StopReport, StopError>, usize) {
    let mut run = stop_images(targets, forbidden, options);
    let mut kills = 0;
    let mut at = 0;
    loop {
        at += 5;
        let event = match run.action() {
            StopAction::Inspect => StopEvent::Table(inspect()),
            StopAction::RequestClose(_) => StopEvent::Reached(windows.to_vec()),
            StopAction::AwaitExit { .. } => StopEvent::Waited,
            StopAction::ForceKill { .. } => {
                kills += 1;
                StopEvent::Waited
            }
            StopAction::Finish(_) => break,
        };
        run.handle(event, at);
    }
    let result = match run.state {
        swapper::windows::stop::StopState::Stopped => Ok(run.report),
        swapper::windows::stop::StopState::Refused(error) => Err(error),
        _ => unreachable!(),
    };
    (result, kills)
}

#[test]
fn unique_images_deduplicates_case_insensitively() {
    let processes = vec![
        process(1, "RiotClientUxRender.exe"),
        process(2, "riotclientuxrender.EXE"),
        process(3, "RiotClientUx.exe"),
    ];
    assert_eq!(
        unique_images(&processes),
        vec!["RiotClientUxRender.exe".to_string(), "RiotClientUx.exe".to_string()]
    );
}

#[test]
fn window_lookup_ignores_unknown_pids() {
    let windows = [
        WindowRef { pid: 7, owned: false },
        WindowRef { pid: 0, owned: false },
        WindowRef { pid: 7, owned: true },
    ];
    assert_eq!(count_top_level_windows(&windows, u32::MAX), 0);
    assert_eq!(post_wm_close(&windows, &[0, u32::MAX]), 0);
    assert_eq!(count_top_level_windows(&windows, 7), 1);
    assert_eq!(post_wm_close(&windows, &[7, 7]), 2);
}

#[test]
fn wait_returns_immediately_for_nothing_and_times_out_for_self() {
    assert!(matches!(wait_for_exit(&[]).action(), WaitAction::Finish(true)));
    assert!(matches!(wait_for_exit(&[0]).action(), WaitAction::Finish(true)));
    let own = 4242u32;
    let mut wait = wait_for_exit(&[own]);
    assert_eq!(wait.action(), WaitAction::Open(&[own]));
    wait.handle(WaitEvent::Opened(vec![true]));
    assert_eq!(wait.action(), WaitAction::ReadClock);
    wait.handle(WaitEvent::Remaining(100_000_000));
    assert_eq!(wait.action(), WaitAction::Hold { count: 1, ms: 100 });
    wait.handle(WaitEvent::Held(258));
    assert_eq!(wait.action(), WaitAction::ReadClock);
    wait.handle(WaitEvent::Remaining(0));
    assert_eq!(wait.action(), WaitAction::Finish(false));
}

#[test]
fn signalled_handles_end_the_wait() {
    let pids: Vec<u32> = (1..=70).collect();
    let mut wait = wait_for_exit(&pids);
    wait.handle(WaitEvent::Opened(vec![true; 70]));
    wait.handle(WaitEvent::Remaining(5_000_000_000));
    assert_eq!(wait.action(), WaitAction::Hold { count: 64, ms: 5000 });
    wait.handle(WaitEvent::Held(0));
    assert_eq!(wait.handles, (65..=70).collect::<Vec<u32>>());
    wait.handle(WaitEvent::Remaining(1));
    assert_eq!(wait.action(), WaitAction::Hold { count: 6, ms: 0 });
    wait.handle(WaitEvent::Held(0));
    assert_eq!(wait.action(), WaitAction::Finish(true));
}

#[test]
fn unopened_processes_are_polled() {
    let mut wait = wait_for_exit(&[4, 9, 4, 0]);
    wait.handle(WaitEvent::Opened(vec![false, false]));
    assert_eq!(wait.action(), WaitAction::Inspect);
    wait.handle(WaitEvent::Table(Ok(vec![process(9, "a"), process(5, "b")])));
    assert_eq!(wait.poll, vec![9]);
    wait.handle(WaitEvent::Remaining(30_000_000));
    assert_eq!(wait.action(), WaitAction::Inspect);
    wait.handle(WaitEvent::Table(Err(SnapshotError { code: 5 })));
    assert_eq!(wait.action(), WaitAction::Sleep(30_000_000));
    wait.handle(WaitEvent::Slept);
    wait.handle(WaitEvent::Remaining(90_000_000));
    wait.handle(WaitEvent::Table(Ok(vec![process(9, "a")])));
    assert_eq!(wait.action(), WaitAction::Sleep(50_000_000));
    wait.handle(WaitEvent::Slept);
    wait.handle(WaitEvent::Remaining(40_000_000));
    wait.handle(WaitEvent::Table(Ok(Vec::new())));
    assert_eq!(wait.action(), WaitAction::Finish(true));
}

#[test]
fn failed_wait_polls_every_process_in_order() {
    let mut wait = wait_for_exit(&[9, 3, 7]);
    wait.handle(WaitEvent::Opened(vec![true, false, true]));
    wait.handle(WaitEvent::Table(Err(SnapshotError { code: 1 })));
    wait.handle(WaitEvent::Remaining(1_000));
    wait.handle(WaitEvent::Held(u32::MAX));
    assert_eq!(wait.poll, vec![3, 7, 9]);
    assert_eq!(wait.state, WaitState::Recovering);
    wait.handle(WaitEvent::Table(Ok(vec![process(7, "x")])));
    assert_eq!(wait.poll, vec![7]);
}

#[test]
fn wait_times_are_whole_milliseconds() {
    assert_eq!(wait_ms(1_999_999), 1);
    assert_eq!(wait_ms(u128::MAX), u32::MAX);
}

#[test]
fn stopping_an_absent_image_is_a_no_op() {
    let mut table = || Ok(vec![process(1, "explorer.exe")]);
    let (result, kills) =
        drive(&mut table, &[], &["SwapperBenchNotRunning.exe"], &[], StopOptions::default());
    let report = result.expect("absent target");
    assert!(report.images.is_empty());
    assert_eq!(report.force_rounds, 0);
    assert_eq!(report.graceful_delivered, 0);
    assert_eq!(kills, 0);
}

#[test]
fn a_forbidden_process_blocks_the_stop() {
    let mut table = || Ok(vec![process(1, "Own.exe")]);
    let (result, _) =
        drive(&mut table, &[], &["SwapperBenchNotRunning.exe"], &["own.EXE"], StopOptions::default());
    assert_eq!(result.expect_err("forbidden process is running"), StopError::ForbiddenPresent);
}

#[test]
fn enumeration_failure_fails_closed() {
    let failure = SnapshotError { code: 5 };
    let mut table = || Err(failure);
    let (result, _) =
        drive(&mut table, &[], &["SwapperBenchNotRunning.exe"], &[], StopOptions::default());
    assert_eq!(result.expect_err("inspection failed"), StopError::EnumerationFailed(failure));
}

#[test]
fn a_successful_empty_inspection_is_still_a_no_op() {
    let mut table = || Ok(Vec::new());
    let (result, _) =
        drive(&mut table, &[], &["SwapperBenchNotRunning.exe"], &[], StopOptions::default());
    let report = result.expect("empty table inspected");
    assert!(report.images.is_empty());
    assert_eq!(report.force_rounds, 0);
}

#[test]
fn a_failed_enumeration_step_is_an_error_not_the_end_of_the_table() {
    let error = advance(false, 6).expect_err("a failing step must not read as end of table");
    assert_ne!(error.code, ERROR_NO_MORE_FILES);
    assert_eq!(advance(true, 6), Ok(true));
    assert_eq!(advance(false, ERROR_NO_MORE_FILES), Ok(false));
}

#[test]
fn a_game_starting_during_grace_blocks_the_force_kill() {
    let target = process(0xFFFF_FFFE, "SwapperBenchTarget.exe");
    let started_game = process(0xFFFF_FFFD, "League of Legends.exe");
    let mut inspections = 0usize;
    let mut table = || {
        inspections += 1;
        if inspections == 1 {
            Ok(vec![target.clone()])
        } else {
            Ok(vec![target.clone(), started_game.clone()])
        }
    };
    let (result, kills) = drive(
        &mut table,
        &[],
        &["SwapperBenchTarget.exe"],
        &["League of Legends.exe"],
        StopOptions { grace: 20_000_000, force_wait: 20_000_000, max_force_rounds: 2 },
    );
    assert_eq!(
        result.expect_err("forbidden process appeared mid-stop"),
        StopError::ForbiddenPresent
    );
    assert_eq!(kills, 0);
    assert_eq!(inspections, 2, "must stop at the post-grace inspection, before any force round");
}

#[test]
fn survivors_are_killed_round_by_round() {
    let targets = vec![process(10, "A.exe"), process(11, "a.EXE"), process(12, "B.exe")];
    let mut table = || Ok(targets.clone());
    let (result, kills) = drive(
        &mut table,
        &[window(10)],
        &["a.exe", "b.exe"],
        &[],
        StopOptions { grace: 1_500_000_000, force_wait: 2_000_000_000, max_force_rounds: 2 },
    );
    assert_eq!(kills, 2);
    assert_eq!(
        result.expect_err("nothing died"),
        StopError::StillRunning(vec!["A.exe".to_string(), "B.exe".to_string()])
    );
}

#[test]
fn a_successful_stop_reports_what_it_did() {
    let mut inspections = 0;
    let mut table = || {
        inspections += 1;
        if inspections < 3 {
            Ok(vec![process(10, "A.exe"), process(11, "a.EXE")])
        } else {
            Ok(Vec::new())
        }
    };
    let windows = [window(10), window(11), window(11)];
    let (result, kills) =
        drive(&mut table, &windows, &["a.exe"], &["g.exe"], StopOptions::default());
    let report = result.unwrap();
    assert_eq!(kills, 1);
    assert_eq!(report.images, vec!["A.exe".to_string()]);
    assert_eq!(report.pids, 2);
    assert_eq!(report.graceful_delivered, 2);
    assert_eq!(report.graceful_time, 5);
    assert_eq!(report.force_rounds, 1);
    assert_eq!(report.force_time, 15);
    assert_eq!(report.total_time, 30);
}

#[test]
fn stop_asks_each_image_to_close_and_waits_for_those_with_windows() {
    let targets = ["a.exe", "b.exe"];
    let mut run = stop_images(&targets, &[], StopOptions::default());
    run.handle(
        StopEvent::Table(Ok(vec![process(1, "a.exe"), process(2, "b.exe"), process(3, "A.exe")])),
        0,
    );
    assert_eq!(run.action(), StopAction::RequestClose(vec![1, 3]));
    run.handle(StopEvent::Reached(vec![window(2), window(9)]), 1);
    assert_eq!(run.action(), StopAction::RequestClose(vec![2]));
    run.handle(StopEvent::Reached(vec![window(2), window(9)]), 2);
    assert_eq!(run.action(), StopAction::AwaitExit { delivered: &[2], nanos: 1_500_000_000 });
    run.handle(StopEvent::Waited, 3);
    run.handle(StopEvent::Table(Ok(vec![process(3, "A.exe")])), 4);
    assert_eq!(
        run.action(),
        StopAction::ForceKill {
            images: vec!["A.exe".to_string()],
            pids: vec![3],
            nanos: 2_000_000_000,
        }
    );
}

#[test]
fn only_processes_that_own_a_window_are_counted_and_awaited() {
    let mut run = stop_images(&["A.exe"], &[], StopOptions::default());
    run.handle(StopEvent::Table(Ok(vec![process(10, "A.exe"), process(11, "A.exe")])), 0);
    assert_eq!(run.action(), StopAction::RequestClose(vec![10, 11]));
    let dialog = WindowRef { pid: 11, owned: true };
    run.handle(StopEvent::Reached(vec![dialog, window(10), window(12)]), 7);
    assert_eq!(run.action(), StopAction::AwaitExit { delivered: &[10], nanos: 1_500_000_000 });
    run.handle(StopEvent::Waited, 9);
    run.handle(StopEvent::Table(Ok(Vec::new())), 10);
    assert_eq!(run.report.pids, 2);
    assert_eq!(run.report.graceful_delivered, 1);
    assert_eq!(run.report.graceful_time, 2);
    assert!(matches!(run.action(), StopAction::Finish(Ok(_))));
}

#[test]
fn processes_without_windows_cost_no_grace() {
    let mut run = stop_images(&["A.exe"], &[], StopOptions::default());
    run.handle(StopEvent::Table(Ok(vec![process(10, "A.exe")])), 0);
    run.handle(StopEvent::Reached(vec![window(3)]), 1);
    assert_eq!(run.action(), StopAction::Inspect);
    assert_eq!(run.report.graceful_delivered, 0);
    assert_eq!(post_wm_close(&[window(3)], &[10]), 0);
}

#[test]
fn sub_millisecond_times_are_kept() {
    let options = StopOptions { grace: 500_000, force_wait: 1, max_force_rounds: 1 };
    let mut run = stop_images(&["A.exe"], &[], options);
    run.handle(StopEvent::Table(Ok(vec![process(10, "A.exe")])), 100);
    run.handle(StopEvent::Reached(vec![window(10)]), 250);
    assert_eq!(run.action(), StopAction::AwaitExit { delivered: &[10], nanos: 500_000 });
    run.handle(StopEvent::Waited, 400_250);
    run.handle(StopEvent::Table(Ok(Vec::new())), 400_900);
    assert_eq!(run.report.graceful_time, 400_000);
    assert_eq!(run.report.force_time, 650);
    assert_eq!(run.report.total_time, 400_900);
}

#[test]
fn tables_are_searched_case_insensitively() {
    let table = vec![process(5, "LeagueClientUx.exe"), process(6, "other.exe")];
    let found = matching(Ok(table.clone()), &["leagueclientux.EXE"]).unwrap();
    assert_eq!(found, vec![process(5, "LeagueClientUx.exe")]);
    assert_eq!(any_running(Ok(table.clone()), &["nothing.exe"]), Ok(false));
    assert_eq!(any_running(Ok(table.clone()), &["OTHER.exe"]), Ok(true));
    assert_eq!(any_running(Err(SnapshotError { code: 3 }), &["x"]), Err(SnapshotError { code: 3 }));
    assert_eq!(image_for_pid(&Ok(table.clone()), 6), Ok(Some("other.exe".to_string())));
    assert_eq!(image_for_pid(&Ok(table.clone()), 7), Ok(None));
    assert_eq!(alive(&table, &[6, 7]), vec![6]);
    assert!(ensure_forbidden_absent(&table, &["x.exe"]).is_ok());
    assert!(ensure_forbidden_absent(&table, &["other.exe"]).is_err());
}

#[test]
fn zero_terminated_names_are_decoded() {
    assert_eq!(utf16(&[0x52, 0xe9, 0x4e2d, 0, 0x41]), "Ré中");
    assert_eq!(utf16(&[0x41, 0x42]), "AB");
    assert_eq!(utf16(&[0xd83d, 0xde00, 0xd800]), "\u{1F600}\u{FFFD}");
}

#[test]
fn kills_go_by_image_and_take_descendants() {
    assert_eq!(kill_arguments("A.exe"), vec!["/F", "/T", "/IM", "A.exe"]);
}

#[test]
fn enumeration_errors_say_their_code() {
    assert_eq!(
        SnapshotError { code: 5 }.message(),
        "process enumeration failed (win32 error 5)"
    );
}
