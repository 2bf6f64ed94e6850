use swapper::notify::{human_reason, switch_failed, switch_started, switch_succeeded};
use swapper::riot::{SwitchFailure, SwitchFailureKind};

#[test]
fn restore_failures_explain_the_saved_session() {
    assert_eq!(
        human_reason(SwitchFailureKind::SessionRestore, "Example#EUW", false),
        Some("The saved session for Example#EUW could not be restored.".to_string())
    );
}

#[test]
fn launch_failures_name_the_launcher() {
    assert_eq!(
        human_reason(SwitchFailureKind::Launch, "Example#EUW", false),
        Some("Riot Client could not be launched.".to_string())
    );
    assert_eq!(
        human_reason(SwitchFailureKind::Launch, "Example#EUW", true),
        Some("Deceive could not be launched.".to_string())
    );
}

#[test]
fn inspection_failures_do_not_blame_a_game() {
    assert_eq!(
        human_reason(SwitchFailureKind::InspectionFailed, "Example#EUW", false),
        Some(
            "Swapper could not verify which Riot processes are running. No account or session data was changed - try again."
                .to_string()
        )
    );
}

#[test]
fn friendly_categories_are_explicit_and_raw_errors_stay_hidden() {
    assert_eq!(
        human_reason(SwitchFailureKind::GameRunning, "Example#EUW", false),
        Some("Close the running Riot game before switching accounts.".to_string())
    );
    assert_eq!(
        human_reason(SwitchFailureKind::LauncherMissing, "Example#EUW", true),
        Some("Bundled Deceive.exe was not found. Reinstall Swapper.".to_string())
    );
    assert_eq!(human_reason(SwitchFailureKind::Other, "Example#EUW", false), None);
}

#[test]
fn notices_name_the_account() {
    assert_eq!(switch_started("A").body, "Switching to A…");
    assert_eq!(switch_succeeded("A", false).title, "Account switched");
    assert_eq!(switch_succeeded("A", true).title, "Launching through Deceive");
    assert_eq!(switch_succeeded("A", true).body, "A is ready.");
    let failure =
        SwitchFailure { kind: SwitchFailureKind::Other, detail: "raw secret detail".into() };
    let notice = switch_failed("A", false, &failure);
    assert_eq!(notice.title, "Switch failed");
    assert_eq!(notice.body, "Could not switch to A.");
    let missing = SwitchFailure { kind: SwitchFailureKind::AccountMissing, detail: "x".into() };
    assert_eq!(switch_failed("A", false, &missing).body, "Account no longer exists.");
    assert_eq!(
        human_reason(SwitchFailureKind::ClientBusy, "A", false).as_deref(),
        Some("Riot Client is still running. Close it from the tray and try again.")
    );
    assert_eq!(
        human_reason(SwitchFailureKind::LauncherMissing, "A", false).as_deref(),
        Some("Riot Client was not found. Set its path in Settings.")
    );
}
