//! Changes of the settings that are taken back when they cannot be saved.

use vstd::prelude::*;

use super::Launcher;
use crate::text::{copy_of, eq_ignore_ascii_case, owned, same_folded, trim, trimmed};
use crate::vault::{Account, AccountModel, Config, ConfigModel};

verus! {

/// The longest nickname, in characters.
pub const MAX_NICKNAME: usize = 40;

/// The nickname that a text stands for: none where it is blank.
pub open spec fn nickname_of(text: Seq<char>) -> Option<Seq<char>> {
    if trimmed(text).len() > 0 {
        Some(trimmed(text))
    } else {
        None
    }
}

/// Whether another account than `id` is displayed by this name, whatever its case.
pub open spec fn name_taken(config: ConfigModel, id: u128, name: Seq<char>) -> bool {
    exists|i: int|
        0 <= i < config.accounts.len() && (#[trigger] config.accounts[i]).id != id && same_folded(
            config.accounts[i].display_name(),
            name,
        )
}

/// Why a nickname is refused, if it is.
pub open spec fn nickname_refusal(config: ConfigModel, id: u128, text: Seq<char>) -> Option<
    Seq<char>,
> {
    if trimmed(text).len() > MAX_NICKNAME {
        Some("Nickname must be 40 characters or fewer."@)
    } else if trimmed(text).len() > 0 && name_taken(config, id, trimmed(text)) {
        Some("An account with this name already exists."@)
    } else if !config.has(id) {
        Some("Account no longer exists"@)
    } else {
        None
    }
}

/// The settings with a nickname for the account `id`.
pub open spec fn with_nickname(
    config: ConfigModel,
    id: u128,
    nickname: Option<Seq<char>>,
) -> ConfigModel {
    let at = config.index(id);
    ConfigModel {
        accounts: config.accounts.update(at, AccountModel { nickname, ..config.accounts[at] }),
        ..config
    }
}

fn is_taken(config: &Config, id: u128, name: &str) -> (taken: bool)
    ensures
        taken == name_taken(config@, id, name@),
{
    let n: usize = config.accounts.len();
    let mut i: usize = 0;
    while i < n
        invariant
            n == config.accounts@.len(),
            i <= n,
            forall|k: int|
                0 <= k < i ==> !((#[trigger] config@.accounts[k]).id != id && same_folded(
                    config@.accounts[k].display_name(),
                    name@,
                )),
        decreases n - i,
    {
        let account = &config.accounts[i];
        assert(config@.accounts[i as int] == account@);
        if account.id != id && eq_ignore_ascii_case(account.display_name().as_str(), name) {
            assert(config@.accounts[i as int].id != id);
            return true;
        }
        i = i + 1;
    }
    false
}

fn put_nickname(config: &mut Config, at: usize, nickname: Option<String>)
    requires
        at < old(config).accounts@.len(),
    ensures
        final(config)@ == (ConfigModel {
            accounts: old(config)@.accounts.update(
                at as int,
                AccountModel { nickname: owned(nickname), ..old(config)@.accounts[at as int] },
            ),
            ..old(config)@
        }),
{
    let ghost before = config@;
    let mut account = config.accounts[at].clone();
    account.nickname = nickname;
    config.accounts.set(at, account);
    assert(config@.accounts =~= before.accounts.update(
        at as int,
        AccountModel { nickname: owned(nickname), ..before.accounts[at as int] },
    ));
}

/// Gives the account `id` a nickname. On success the settings are to be saved; the result is the
/// nickname before, for [`undo_nickname`].
pub fn set_nickname(config: &mut Config, id: u128, name: &str) -> (result: Result<
    Option<String>,
    String,
>)
    ensures
        match (result, nickname_refusal(old(config)@, id, name@)) {
            (Ok(previous), None) => {
                &&& owned(previous) == old(config)@.account(id).nickname
                &&& final(config)@ == with_nickname(old(config)@, id, nickname_of(name@))
            },
            (Err(message), Some(expected)) => {
                &&& message@ == expected
                &&& final(config)@ == old(config)@
            },
            _ => false,
        },
{
    let text = trim(name);
    if text.unicode_len() > MAX_NICKNAME {
        return Err("Nickname must be 40 characters or fewer.".to_owned());
    }
    if !text.is_empty() && is_taken(config, id, text) {
        return Err("An account with this name already exists.".to_owned());
    }
    let at = match config.position(id) {
        Some(at) => at,
        None => {
            return Err("Account no longer exists".to_owned());
        },
    };
    assert(config@.accounts[at as int] == config.accounts@[at as int]@);
    let previous = copy_of(&config.accounts[at].nickname);
    let nickname = if text.is_empty() {
        None
    } else {
        Some(text.to_owned())
    };
    put_nickname(config, at, nickname);
    Ok(previous)
}

/// Takes a nickname back.
pub fn undo_nickname(config: &mut Config, id: u128, previous: Option<String>)
    ensures
        final(config)@ == (if old(config)@.has(id) {
            with_nickname(old(config)@, id, owned(previous))
        } else {
            old(config)@
        }),
{
    if let Some(at) = config.position(id) {
        put_nickname(config, at, previous);
    }
}

proof fn lemma_same_ids(a: Seq<AccountModel>, b: Seq<AccountModel>, id: u128, from: int)
    requires
        a.len() == b.len(),
        forall|k: int| 0 <= k < a.len() ==> a[k].id == b[k].id,
        0 <= from,
    ensures
        crate::vault::index_from(a, id, from) == crate::vault::index_from(b, id, from),
    decreases a.len() - from,
{
    if from < a.len() && a[from].id != id {
        lemma_same_ids(a, b, id, from + 1);
    }
}

/// Accounts that keep their ids are found where they were.
pub proof fn lemma_same_places(before: ConfigModel, after: ConfigModel, id: u128)
    requires
        before.accounts.len() == after.accounts.len(),
        forall|k: int|
            0 <= k < before.accounts.len() ==> before.accounts[k].id == after.accounts[k].id,
    ensures
        before.index(id) == after.index(id),
        before.has(id) == after.has(id),
{
    lemma_same_ids(before.accounts, after.accounts, id, 0);
}

/// A nickname that could not be saved is taken back completely.
pub proof fn undone_nickname_restores_the_settings(
    config: ConfigModel,
    id: u128,
    nickname: Option<Seq<char>>,
)
    requires
        config.has(id),
    ensures
        with_nickname(config, id, nickname).has(id),
        with_nickname(with_nickname(config, id, nickname), id, config.account(id).nickname)
            == config,
{
    config.lemma_index(id);
    let changed = with_nickname(config, id, nickname);
    lemma_same_places(config, changed, id);
    let back = with_nickname(changed, id, config.account(id).nickname);
    assert(back.accounts =~= config.accounts);
}

/// The settings without the account `id`; if it was the active one, none is active.
pub open spec fn without_account(config: ConfigModel, id: u128) -> ConfigModel {
    ConfigModel {
        accounts: config.accounts.remove(config.index(id)),
        active_id: if config.active_id == Some(id) {
            None
        } else {
            config.active_id
        },
        ..config
    }
}

/// An account that was removed, and what it takes to put it back.
pub struct Removal {
    pub index: usize,
    pub account: Account,
    pub previous_active: Option<u128>,
}

/// Removes the account `id`. On success the settings are to be saved; then the account's session
/// and its cached image go, or the account comes back by [`undo_removal`].
pub fn remove_account(config: &mut Config, id: u128) -> (result: Result<Removal, String>)
    ensures
        match result {
            Ok(removal) => {
                &&& old(config)@.has(id)
                &&& final(config)@ == without_account(old(config)@, id)
                &&& removal.index == old(config)@.index(id)
                &&& removal.account@ == old(config)@.account(id)
                &&& removal.account.id == id
                &&& removal.previous_active == old(config)@.active_id
            },
            Err(message) => {
                &&& !old(config)@.has(id)
                &&& message@ == "Account no longer exists"@
                &&& final(config)@ == old(config)@
            },
        },
{
    let ghost before = config@;
    let index = match config.position(id) {
        Some(index) => index,
        None => {
            return Err("Account no longer exists".to_owned());
        },
    };
    proof {
        before.lemma_index(id);
        assert(before.accounts[index as int] == config.accounts@[index as int]@);
    }
    let account = config.accounts.remove(index);
    assert(config@.accounts =~= before.accounts.remove(index as int));
    let previous_active = config.active_id;
    let was_active = match config.active_id {
        Some(active) => active == id,
        None => false,
    };
    if was_active {
        config.active_id = None;
    }
    Ok(Removal { index, account, previous_active })
}

/// The settings with an account put back.
pub open spec fn with_account_back(
    config: ConfigModel,
    index: int,
    account: AccountModel,
    active_id: Option<u128>,
) -> ConfigModel {
    ConfigModel { accounts: config.accounts.insert(index, account), active_id, ..config }
}

/// Puts an account back that could not be removed for good.
pub fn undo_removal(config: &mut Config, removal: Removal)
    requires
        removal.index <= old(config).accounts@.len(),
    ensures
        final(config)@ == with_account_back(
            old(config)@,
            removal.index as int,
            removal.account@,
            removal.previous_active,
        ),
{
    let ghost before = config@;
    let ghost account = removal.account@;
    config.accounts.insert(removal.index, removal.account);
    assert(config@.accounts =~= before.accounts.insert(removal.index as int, account));
    config.active_id = removal.previous_active;
}

/// A removal that could not be saved is taken back completely.
pub proof fn undone_removal_restores_the_settings(config: ConfigModel, id: u128)
    requires
        config.has(id),
    ensures
        config.index(id) <= without_account(config, id).accounts.len(),
        with_account_back(
            without_account(config, id),
            config.index(id),
            config.account(id),
            config.active_id,
        ) == config,
{
    config.lemma_index(id);
    let back = with_account_back(
        without_account(config, id),
        config.index(id),
        config.account(id),
        config.active_id,
    );
    assert(back.accounts =~= config.accounts);
}

/// The path that a text stands for: none where it is blank.
pub open spec fn path_of(text: Option<Seq<char>>) -> Option<Seq<char>> {
    match text {
        Some(path) => if trimmed(path).len() > 0 {
            Some(path)
        } else {
            None
        },
        None => None,
    }
}

/// The path that a text stands for: none where it is blank. A path has to name the Riot Client.
pub fn chosen_path(riot_exe: Option<String>) -> (path: Option<String>)
    ensures
        owned(path) == path_of(owned(riot_exe)),
{
    match riot_exe {
        Some(text) => {
            if trim(text.as_str()).is_empty() {
                None
            } else {
                Some(text)
            }
        },
        None => None,
    }
}

/// The settings with a launcher and a path of the Riot Client.
pub open spec fn with_settings(
    config: ConfigModel,
    use_deceive: bool,
    riot_exe: Option<Seq<char>>,
) -> ConfigModel {
    ConfigModel { use_deceive, riot_exe, ..config }
}

/// Why new settings are refused, if they are. `usable` says whether the chosen path names the
/// Riot Client, `deceive_found` whether Deceive is there.
pub open spec fn settings_refusal(
    use_deceive: bool,
    riot_exe: Option<Seq<char>>,
    usable: bool,
    deceive_found: bool,
) -> Option<Seq<char>> {
    if riot_exe is Some && !usable {
        Some("Choose a valid RiotClientServices.exe path."@)
    } else if use_deceive && !deceive_found {
        Some("Bundled Deceive.exe was not found. Reinstall Swapper."@)
    } else {
        None
    }
}

/// Changes the launcher settings. A blank `riot_exe` stands for no path. `usable` says whether the
/// path, as [`chosen_path`] gives it, names the Riot Client, and `deceive_found` whether Deceive is
/// there. On success the settings are to be saved; the result is what they were before, for
/// [`undo_settings`].
pub fn save_settings(
    config: &mut Config,
    use_deceive: bool,
    riot_exe: Option<String>,
    usable: bool,
    deceive_found: bool,
) -> (result: Result<(bool, Option<String>), String>)
    ensures
        match (
            result,
            settings_refusal(use_deceive, path_of(owned(riot_exe)), usable, deceive_found),
        ) {
            (Ok(previous), None) => {
                &&& previous.0 == old(config)@.use_deceive
                &&& owned(previous.1) == old(config)@.riot_exe
                &&& final(config)@ == with_settings(
                    old(config)@,
                    use_deceive,
                    path_of(owned(riot_exe)),
                )
            },
            (Err(message), Some(expected)) => {
                &&& message@ == expected
                &&& final(config)@ == old(config)@
            },
            _ => false,
        },
{
    let path = chosen_path(riot_exe);
    if path.is_some() && !usable {
        return Err("Choose a valid RiotClientServices.exe path.".to_owned());
    }
    if use_deceive && !deceive_found {
        return Err(Launcher::Deceive.missing_message());
    }
    let previous = (config.use_deceive, copy_of(&config.riot_exe));
    config.use_deceive = use_deceive;
    config.riot_exe = path;
    Ok(previous)
}

/// Takes new launcher settings back.
pub fn undo_settings(config: &mut Config, previous: (bool, Option<String>))
    ensures
        final(config)@ == with_settings(old(config)@, previous.0, owned(previous.1)),
{
    config.use_deceive = previous.0;
    config.riot_exe = previous.1;
}

/// Settings that could not be saved are taken back completely.
pub proof fn undone_settings_restore_the_settings(
    config: ConfigModel,
    use_deceive: bool,
    riot_exe: Option<Seq<char>>,
)
    ensures
        with_settings(
            with_settings(config, use_deceive, riot_exe),
            config.use_deceive,
            config.riot_exe,
        ) == config,
{
}

/// A nickname that is accepted is what the account is shown by, and no other account is shown by it,
/// whatever the case; a blank one takes the nickname away. Nothing else changes.
pub proof fn accepted_nickname_is_shown(config: ConfigModel, id: u128, text: Seq<char>, k: int)
    requires
        nickname_refusal(config, id, text) is None,
        0 <= k < config.accounts.len(),
    ensures
        ({
            let next = with_nickname(config, id, nickname_of(text));
            &&& next.accounts.len() == config.accounts.len()
            &&& next.accounts[k].id == config.accounts[k].id
            &&& config.accounts[k].id != id ==> next.accounts[k] == config.accounts[k] && (trimmed(
                text,
            ).len() > 0 ==> !same_folded(config.accounts[k].display_name(), trimmed(text)))
            &&& config.accounts[k].id == id && (forall|j: int|
                0 <= j < k ==> (#[trigger] config.accounts[j]).id != id) ==> {
                let account = next.accounts[k];
                &&& trimmed(text).len() > 0 ==> account.display_name() == trimmed(text)
                &&& trimmed(text).len() == 0 ==> account.nickname is None
                &&& trimmed(text).len() <= 40
                &&& account == AccountModel {
                    nickname: account.nickname,
                    ..config.accounts[k]
                }
            }
            &&& next.active_id == config.active_id
            &&& next.use_deceive == config.use_deceive
            &&& next.riot_exe == config.riot_exe
        }),
{
    config.lemma_index(id);
    crate::text::lemma_strip_again(text, crate::text::Trim::White);
}

/// A nickname is refused exactly where it is too long, where another account is shown by it, or
/// where the account is gone.
pub proof fn nickname_is_refused_for_a_reason(config: ConfigModel, id: u128, text: Seq<char>)
    ensures
        nickname_refusal(config, id, text) is Some <==> trimmed(text).len() > 40 || trimmed(
            text,
        ).len() > 0 && (exists|k: int|
            0 <= k < config.accounts.len() && (#[trigger] config.accounts[k]).id != id
                && same_folded(config.accounts[k].display_name(), trimmed(text))) || !(exists|k: int|
            0 <= k < config.accounts.len() && (#[trigger] config.accounts[k]).id == id),
{
    config.lemma_index(id);
    if config.has(id) {
        assert(config.accounts[config.index(id)].id == id);
    }
    if name_taken(config, id, trimmed(text)) {
        let k = choose|k: int|
            0 <= k < config.accounts.len() && (#[trigger] config.accounts[k]).id != id
                && same_folded(config.accounts[k].display_name(), trimmed(text));
        assert(config.accounts[k].id != id);
    }
}

/// An account that was removed is gone and no longer active, and every other one stays as it is, in
/// the same order.
pub proof fn removed_account_is_gone(config: ConfigModel, id: u128, at: int)
    requires
        0 <= at < config.accounts.len(),
        config.accounts[at].id == id,
        forall|k: int| 0 <= k < config.accounts.len() && k != at ==> (#[trigger] config.accounts[k]).id
            != id,
    ensures
        ({
            let next = without_account(config, id);
            &&& next.accounts.len() + 1 == config.accounts.len()
            &&& forall|k: int|
                0 <= k < next.accounts.len() ==> (#[trigger] next.accounts[k]).id != id
                    && next.accounts[k] == config.accounts[if k < at {
                    k
                } else {
                    k + 1
                }]
            &&& next.active_id == (if config.active_id == Some(id) {
                None
            } else {
                config.active_id
            })
            &&& next.use_deceive == config.use_deceive
            &&& next.riot_exe == config.riot_exe
        }),
{
    config.lemma_index(id);
}

/// A path of white space alone stands for none, and any other for itself; settings are refused only
/// for a path that names no Riot Client or for a Deceive that is not there, and what is accepted
/// changes the launcher and the path alone.
pub proof fn settings_are_taken_as_given(
    config: ConfigModel,
    use_deceive: bool,
    text: Option<Seq<char>>,
    usable: bool,
    deceive_found: bool,
)
    ensures
        path_of(text) is None || path_of(text) == text,
        text matches Some(path) ==> (path_of(text) is Some <==> trimmed(path).len() > 0),
        settings_refusal(use_deceive, path_of(text), usable, deceive_found) is None <==> (path_of(
            text,
        ) is None || usable) && (!use_deceive || deceive_found),
        with_settings(config, use_deceive, path_of(text)).use_deceive == use_deceive,
        with_settings(config, use_deceive, path_of(text)).accounts == config.accounts,
        with_settings(config, use_deceive, path_of(text)).active_id == config.active_id,
{
}

} // verus!
