//! What the interface shows, and what it says where it cannot go on.

use vstd::prelude::*;

use crate::identity::{DetectedIdentity, Detection, DetectionModel};
use crate::remote::service::RemoteStatus;
use crate::text::{copy_of, owned, same, trim, trimmed};
use crate::vault::{AccountModel, Config, ConfigModel};

verus! {

/// A saved account as the interface shows it.
#[derive(Debug, PartialEq, Eq)]
pub struct AccountView {
    pub id: u128,
    pub name: String,
    pub riot_id: Option<String>,
    pub nickname: Option<String>,
    pub platform: Option<String>,
    pub region: Option<String>,
    pub profile_icon_id: Option<i64>,
    pub icon_data_url: Option<String>,
}

/// A saved account as the interface shows it, as a mathematical value.
pub struct AccountViewModel {
    pub id: u128,
    pub name: Seq<char>,
    pub riot_id: Option<Seq<char>>,
    pub nickname: Option<Seq<char>>,
    pub platform: Option<Seq<char>>,
    pub region: Option<Seq<char>>,
    pub profile_icon_id: Option<i64>,
    pub icon_data_url: Option<Seq<char>>,
}

impl View for AccountView {
    type V = AccountViewModel;

    open spec fn view(&self) -> AccountViewModel {
        AccountViewModel {
            id: self.id,
            name: self.name@,
            riot_id: owned(self.riot_id),
            nickname: owned(self.nickname),
            platform: owned(self.platform),
            region: owned(self.region),
            profile_icon_id: self.profile_icon_id,
            icon_data_url: owned(self.icon_data_url),
        }
    }
}

/// How the interface shows an account with its cached image.
pub open spec fn shown_account(account: AccountModel, icon: Option<Seq<char>>) -> AccountViewModel {
    AccountViewModel {
        id: account.id,
        name: account.display_name(),
        riot_id: account.riot_id(),
        nickname: account.nickname,
        platform: account.platform,
        region: account.region,
        profile_icon_id: account.profile_icon_id,
        icon_data_url: icon,
    }
}

/// Everything that the interface shows.
#[derive(Debug, PartialEq, Eq)]
pub struct AppView {
    pub accounts: Vec<AccountView>,
    pub active_id: Option<u128>,
    pub use_deceive: bool,
    pub riot_exe: Option<String>,
    pub riot_detected: bool,
    pub deceive_detected: bool,
    pub remote: RemoteStatus,
}

/// Everything that the interface shows. `icons` are the cached images of the accounts, in their
/// order.
pub fn view(
    config: &Config,
    icons: &Vec<Option<String>>,
    riot_detected: bool,
    deceive_detected: bool,
    remote: &RemoteStatus,
) -> (shown: AppView)
    requires
        icons@.len() == config.accounts@.len(),
    ensures
        shown.accounts@.len() == config.accounts@.len(),
        forall|i: int|
            0 <= i < config.accounts@.len() ==> (#[trigger] shown.accounts@[i])@ == shown_account(
                config@.accounts[i],
                owned(icons@[i]),
            ),
        shown.active_id == config.active_id,
        shown.use_deceive == config.use_deceive,
        owned(shown.riot_exe) == config@.riot_exe,
        shown.riot_detected == riot_detected,
        shown.deceive_detected == deceive_detected,
        shown.remote@ == remote@,
{
    let mut accounts: Vec<AccountView> = Vec::new();
    let mut i: usize = 0;
    while i < config.accounts.len()
        invariant
            i <= config.accounts@.len(),
            icons@.len() == config.accounts@.len(),
            accounts@.len() == i,
            forall|k: int|
                0 <= k < i ==> (#[trigger] accounts@[k])@ == shown_account(
                    config@.accounts[k],
                    owned(icons@[k]),
                ),
        decreases config.accounts@.len() - i,
    {
        let account = &config.accounts[i];
        assert(config@.accounts[i as int] == account@);
        accounts.push(
            AccountView {
                id: account.id,
                name: account.display_name(),
                riot_id: account.riot_id(),
                nickname: copy_of(&account.nickname),
                platform: copy_of(&account.platform),
                region: copy_of(&account.region),
                profile_icon_id: account.profile_icon_id,
                icon_data_url: copy_of(&icons[i]),
            },
        );
        i = i + 1;
    }
    AppView {
        accounts,
        active_id: config.active_id,
        use_deceive: config.use_deceive,
        riot_exe: copy_of(&config.riot_exe),
        riot_detected,
        deceive_detected,
        remote: remote.clone(),
    }
}

/// What is said where the live login is not the expected one.
pub open spec fn mismatch() -> Seq<char> {
    "Different Riot account detected. The current login does not match the account Swapper expected. Save this account separately or sign back into the expected account."@
}

/// What is said where the live login is not the expected one.
pub fn mismatch_error() -> (text: String)
    ensures
        text@ == mismatch(),
{
    "Different Riot account detected. The current login does not match the account Swapper expected. Save this account separately or sign back into the expected account.".to_owned()
}

/// What is said where a detection is not what was needed.
pub open spec fn detection_text(detection: DetectionModel) -> Seq<char> {
    match detection {
        DetectionModel::Identified(_) => mismatch(),
        DetectionModel::NotRunning => {
            "Open Riot Client and sign in with Stay signed in so Swapper can detect your account."@
        },
        DetectionModel::NotReady => {
            "Waiting for Riot Client sign-in. Keep Riot Client open; Swapper will detect the account automatically."@
        },
        DetectionModel::Unavailable => {
            "Could not read account identity. Make sure Riot Client is open and signed in."@
        },
    }
}

/// What is said where a detection is not what was needed.
pub fn detection_error(detection: &Detection) -> (text: String)
    ensures
        text@ == detection_text(detection@),
{
    match detection {
        Detection::Identified(_) => mismatch_error(),
        Detection::NotRunning => {
            "Open Riot Client and sign in with Stay signed in so Swapper can detect your account.".to_owned()
        },
        Detection::NotReady => {
            "Waiting for Riot Client sign-in. Keep Riot Client open; Swapper will detect the account automatically.".to_owned()
        },
        Detection::Unavailable => {
            "Could not read account identity. Make sure Riot Client is open and signed in.".to_owned()
        },
    }
}

/// The identity that is to be saved: the live one, if it still is the one that the user saw. If
/// the Riot login changed between detection and the user's click, nothing is saved under the
/// account the user saw.
pub fn expected_login(detection: Detection, puuid: &str) -> (result: Result<
    DetectedIdentity,
    String,
>)
    ensures
        match (result, detection@) {
            (Ok(identity), DetectionModel::Identified(live)) => identity@ == live && live.puuid
                == trimmed(puuid@),
            (Err(message), DetectionModel::Identified(live)) => message@ == mismatch() && live.puuid
                != trimmed(puuid@),
            (Err(message), other) => message@ == detection_text(other),
            _ => false,
        },
{
    match detection {
        Detection::Identified(live) => {
            if same(live.puuid.as_str(), trim(puuid)) {
                Ok(live)
            } else {
                Err(mismatch_error())
            }
        },
        other => Err(detection_error(&other)),
    }
}

/// The name that an account is spoken of by, if it is saved.
pub open spec fn name_in(config: ConfigModel, id: u128) -> Option<Seq<char>> {
    if config.has(id) {
        Some(config.account(id).display_name())
    } else {
        None
    }
}

/// The name that an account is spoken of by, if it is saved.
pub fn account_name(config: &Config, id: u128) -> (name: Option<String>)
    ensures
        owned(name) == name_in(config@, id),
{
    match config.position(id) {
        Some(at) => {
            assert(config@.accounts[at as int] == config.accounts@[at as int]@);
            Some(config.accounts[at].display_name())
        },
        None => None,
    }
}

/// The name that an account is spoken of by in a notification.
pub fn account_label(name: &Option<String>) -> (label: String)
    ensures
        label@ == (match owned(*name) {
            Some(text) => text,
            None => "the selected account"@,
        }),
{
    match name {
        Some(text) => text.clone(),
        None => "the selected account".to_owned(),
    }
}

/// Whether the flyout stays open when it loses the focus after it was shown for `destination`.
pub fn keeps_open(destination: &str) -> (keep: bool)
    ensures
        keep == (destination@ == "add"@),
{
    same(destination, "add")
}

/// An account is shown with its own data and its own image.
pub proof fn account_is_shown_with_its_own_data(account: AccountModel, icon: Option<Seq<char>>)
    ensures
        ({
            let shown = shown_account(account, icon);
            &&& shown.id == account.id
            &&& shown.nickname == account.nickname
            &&& shown.platform == account.platform
            &&& shown.region == account.region
            &&& shown.profile_icon_id == account.profile_icon_id
            &&& shown.icon_data_url == icon
            &&& account.nickname is None && account.riot_id() is Some ==> Some(shown.name)
                == shown.riot_id
        }),
{
}

/// An account that is saved is spoken of by the name that it is shown by, and one that is not has
/// no name.
pub proof fn saved_account_has_a_name(config: ConfigModel, id: u128, at: int)
    requires
        0 <= at <= config.accounts.len(),
        at < config.accounts.len() ==> config.accounts[at].id == id,
        forall|k: int| 0 <= k < at ==> (#[trigger] config.accounts[k]).id != id,
    ensures
        name_in(config, id) == if at < config.accounts.len() {
            Some(shown_account(config.accounts[at], None).name)
        } else {
            None
        },
{
    config.lemma_index(id);
    if config.index(id) < at {
        assert(config.accounts[config.index(id)].id != id);
    }
}

} // verus!
