//! What the notifications about a switch say.

use vstd::prelude::*;

use crate::riot::{Launcher, SwitchFailure, SwitchFailureKind};
use crate::text::owned;

verus! {

/// A notification.
#[derive(Debug, PartialEq, Eq)]
pub struct Notice {
    pub title: &'static str,
    pub body: String,
}

/// The notification that a switch has begun.
pub fn switch_started(account: &str) -> (notice: Notice)
    ensures
        notice.title@ == "Switching account"@,
        notice.body@ == "Switching to "@ + account@ + "…"@,
{
    let mut body = "Switching to ".to_owned();
    body.append(account);
    body.append("…");
    Notice { title: "Switching account", body }
}

/// The notification that a switch has succeeded.
pub fn switch_succeeded(account: &str, use_deceive: bool) -> (notice: Notice)
    ensures
        notice.title@ == (if use_deceive {
            "Launching through Deceive"@
        } else {
            "Account switched"@
        }),
        notice.body@ == account@ + " is ready."@,
{
    let title = if use_deceive {
        "Launching through Deceive"
    } else {
        "Account switched"
    };
    let mut body = account.to_owned();
    body.append(" is ready.");
    Notice { title, body }
}

/// What a kind of failure means to the user; nothing for a failure of no particular kind, whose
/// raw text stays hidden.
pub open spec fn reason(kind: SwitchFailureKind, account: Seq<char>, use_deceive: bool) -> Option<
    Seq<char>,
> {
    match kind {
        SwitchFailureKind::GameRunning => Some(
            "Close the running Riot game before switching accounts."@,
        ),
        SwitchFailureKind::ClientBusy => Some(
            "Riot Client is still running. Close it from the tray and try again."@,
        ),
        SwitchFailureKind::InspectionFailed => Some(
            "Swapper could not verify which Riot processes are running. No account or session data was changed - try again."@,
        ),
        SwitchFailureKind::AccountMissing => Some("Account no longer exists."@),
        SwitchFailureKind::LauncherMissing => Some(
            if use_deceive {
                "Bundled Deceive.exe was not found. Reinstall Swapper."@
            } else {
                "Riot Client was not found. Set its path in Settings."@
            },
        ),
        SwitchFailureKind::SessionRestore => Some(
            "The saved session for "@ + account + " could not be restored."@,
        ),
        SwitchFailureKind::Launch => Some(
            if use_deceive {
                "Deceive could not be launched."@
            } else {
                "Riot Client could not be launched."@
            },
        ),
        SwitchFailureKind::Other => None,
    }
}

/// What a kind of failure means to the user.
pub fn human_reason(kind: SwitchFailureKind, account: &str, use_deceive: bool) -> (text: Option<
    String,
>)
    ensures
        owned(text) == reason(kind, account@, use_deceive),
{
    match kind {
        SwitchFailureKind::GameRunning => Some(
            "Close the running Riot game before switching accounts.".to_owned(),
        ),
        SwitchFailureKind::ClientBusy => Some(
            "Riot Client is still running. Close it from the tray and try again.".to_owned(),
        ),
        SwitchFailureKind::InspectionFailed => Some(
            "Swapper could not verify which Riot processes are running. No account or session data was changed - try again.".to_owned(),
        ),
        SwitchFailureKind::AccountMissing => Some("Account no longer exists.".to_owned()),
        SwitchFailureKind::LauncherMissing => {
            if use_deceive {
                Some("Bundled Deceive.exe was not found. Reinstall Swapper.".to_owned())
            } else {
                Some("Riot Client was not found. Set its path in Settings.".to_owned())
            }
        },
        SwitchFailureKind::SessionRestore => {
            let mut text = "The saved session for ".to_owned();
            text.append(account);
            text.append(" could not be restored.");
            Some(text)
        },
        SwitchFailureKind::Launch => {
            if use_deceive {
                Some("Deceive could not be launched.".to_owned())
            } else {
                Some("Riot Client could not be launched.".to_owned())
            }
        },
        SwitchFailureKind::Other => None,
    }
}

/// What the notification about a failed switch says.
pub open spec fn failed_body(
    failure: SwitchFailure,
    account: Seq<char>,
    use_deceive: bool,
) -> Seq<char> {
    match reason(failure.kind, account, use_deceive) {
        Some(text) => text,
        None => "Could not switch to "@ + account + "."@,
    }
}

/// The notification that a switch has failed.
pub fn switch_failed(account: &str, use_deceive: bool, failure: &SwitchFailure) -> (notice: Notice)
    ensures
        notice.title@ == "Switch failed"@,
        notice.body@ == failed_body(*failure, account@, use_deceive),
{
    let body = match human_reason(failure.kind, account, use_deceive) {
        Some(text) => text,
        None => {
            let mut text = "Could not switch to ".to_owned();
            text.append(account);
            text.append(".");
            text
        },
    };
    Notice { title: "Switch failed", body }
}

/// What a notification about a failure says never depends on the raw text of the failure.
pub proof fn raw_errors_stay_hidden(
    first: SwitchFailure,
    second: SwitchFailure,
    account: Seq<char>,
    use_deceive: bool,
)
    requires
        first.kind == second.kind,
    ensures
        failed_body(first, account, use_deceive) == failed_body(second, account, use_deceive),
{
}

/// What a failure is explained by: Deceive is spoken of only where it was to be used and the Riot
/// Client only where it was, a saved session by its account, and what has no explanation by the
/// account that could not be switched to.
pub proof fn failure_is_explained(failure: SwitchFailure, account: Seq<char>, use_deceive: bool)
    ensures
        failure.kind == SwitchFailureKind::Other ==> failed_body(failure, account, use_deceive)
            == "Could not switch to "@ + account + "."@,
        failure.kind == SwitchFailureKind::SessionRestore ==> failed_body(
            failure,
            account,
            use_deceive,
        ) == "The saved session for "@ + account + " could not be restored."@,
        failure.kind == SwitchFailureKind::Launch ==> failed_body(failure, account, use_deceive)
            == if use_deceive {
            "Deceive could not be launched."@
        } else {
            "Riot Client could not be launched."@
        },
        failure.kind == SwitchFailureKind::LauncherMissing ==> failed_body(
            failure,
            account,
            use_deceive,
        ) == Launcher::selected_by(use_deceive).missing(),
        failure.kind == SwitchFailureKind::GameRunning <==> failed_body(
            failure,
            account,
            use_deceive,
        )[0] == 'C' && failed_body(failure, account, use_deceive)[1] == 'l',
        failure.kind == SwitchFailureKind::InspectionFailed <==> failed_body(
            failure,
            account,
            use_deceive,
        )[0] == 'S',
        failure.kind == SwitchFailureKind::AccountMissing <==> failed_body(
            failure,
            account,
            use_deceive,
        )[0] == 'A',
{
    reveal_strlit("Close the running Riot game before switching accounts.");
    reveal_strlit("Riot Client is still running. Close it from the tray and try again.");
    reveal_strlit(
        "Swapper could not verify which Riot processes are running. No account or session data was changed - try again.",
    );
    reveal_strlit("Account no longer exists.");
    reveal_strlit("Bundled Deceive.exe was not found. Reinstall Swapper.");
    reveal_strlit("Riot Client was not found. Set its path in Settings.");
    reveal_strlit("The saved session for ");
    reveal_strlit("Deceive could not be launched.");
    reveal_strlit("Riot Client could not be launched.");
    reveal_strlit("Could not switch to ");
}

} // verus!
